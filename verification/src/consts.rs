//! The constants of the chain's rules.
use vstd::prelude::*;

verus! {

/// User transactions that a block holds.
pub const USER_TRANSACTIONS_PER_BLOCK: u8 = 2;

/// Transactions that a block holds: the user transactions and the reward.
pub const TRANSACTIONS_PER_BLOCK: u8 = 3;

/// What the miner of the first block receives.
pub const GENESIS_BLOCK_REWARD: u64 = 100;

/// Number of `'0'` characters with which a block's hash must begin.
pub const PROOF_OF_WORK_DIFFICULTY: u8 = 4;

/// What the miner of a later block receives from the storage.
pub const MINING_REWARD: u64 = 1;

/// The address of the treasury.
pub const STORAGE_ADDRESS: &'static str = "STORAGE";

/// The balance of the storage in the first block.
pub const STORAGE_START_BALANCE: u64 = 100;

/// What a transaction pays to the storage once its amount reaches
/// `STORAGE_REWARD_STARTING_FROM`.
pub const STORAGE_REWARD: u64 = 1;

/// The least amount on which the storage is paid.
pub const STORAGE_REWARD_STARTING_FROM: u64 = 10;

/// The address of the treasury as a text.
pub open spec fn storage_address() -> Seq<char> {
    STORAGE_ADDRESS@
}

/// Whether `address` is the treasury's.
pub fn is_storage(address: &str) -> (is: bool)
    ensures
        is == (address@ == storage_address()),
{
    crate::text::same_text(address, STORAGE_ADDRESS)
}

} // verus!
