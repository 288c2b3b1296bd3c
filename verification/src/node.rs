//! What a node decides when a package arrives, and what it sends after it
//! has mined a block.
pub mod block_add_info;
pub mod handle;
pub mod helpers;
