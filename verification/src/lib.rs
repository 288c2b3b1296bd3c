//! A small proof-of-work blockchain.
//!
//! Users sign transactions; an engine admits them to a pending state, mines
//! them into blocks, and validates the blocks that its peers have mined;
//! nodes and clients talk in packages that are framed by their length.
//!
//! The library computes and decides. It reads no file and no socket: what
//! stores the chain and what carries the packages hands it plain values and
//! takes plain values back.
pub mod agreement;
pub mod balance_state;
pub mod block;
pub mod blockchain;
pub mod chain;
pub mod client;
pub mod config;
pub mod conservation;
pub mod consts;
pub mod encoding;
pub mod error;
pub mod helpers;
pub mod json;
mod mining;
pub mod node;
pub mod package;
pub mod preparing_block_state;
pub mod text;
pub mod transaction;
pub mod user;

pub use crate::blockchain::Blockchain;
