//! The engine and its validation agree: a block that the engine makes of
//! two user transactions and the reward fits the chain that it was made on.
use vstd::prelude::*;
use crate::balance_state::{balance_in, has_balance, sorted_entries};
use crate::block::{block_hash, BlockView};
use crate::blockchain::{
    admission, balance_under, is_candidate_block, lemma_admission_stays_booked,
    pending_is_booked, user_count, with_pending, BlockchainView,
};
use crate::chain::{
    balance_before, balance_state_check, block_check, blocks_before_len, created_at_check,
    first_with_hash, last_block_hash, lemma_first_with_hash_from, predecessor,
    previous_hash_check, random_strings_distinct, received_by, spent_by, storage_count,
    transaction_in_block_check, transactions_check, transactions_check_from,
};
use crate::conservation::is_endpoint;
use crate::consts::{storage_address, USER_TRANSACTIONS_PER_BLOCK};
use crate::transaction::{transaction_check, TransactionView};

verus! {

/// Whether the hash of the chain's last block is the hash of no block
/// before it.
pub open spec fn last_hash_is_new(chain: Seq<BlockView>) -> bool {
    &&& chain.len() > 0
    &&& first_with_hash(chain, block_hash(chain.last())) == chain.len() - 1
}

/// Whether everyone whom the transactions touch can hold what the chain
/// says together with all that it receives.
pub open spec fn receipts_fit(chain: Seq<BlockView>, transactions: Seq<TransactionView>) -> bool {
    forall|address: Seq<char>|
        is_endpoint(transactions, address) ==> balance_before(chain, address, None)
            + #[trigger] received_by(transactions, address) <= u64::MAX
}

/// What mining asks for beyond the block itself: the pending transactions
/// are the two of users; the random strings of the block differ; the last
/// hash is new; the receipts fit; and the block is later than the last, and
/// not later than `now`.
pub open spec fn mines_well(engine: BlockchainView, block: BlockView, now: u64) -> bool {
    &&& engine.pending.transactions.len() == USER_TRANSACTIONS_PER_BLOCK
    &&& user_count(engine.pending.transactions) == USER_TRANSACTIONS_PER_BLOCK
    &&& random_strings_distinct(block.transactions)
    &&& last_hash_is_new(engine.blocks)
    &&& receipts_fit(engine.blocks, block.transactions)
    &&& engine.blocks.last().created_at < block.created_at <= now
}

/// Every transaction is a user's or the storage's.
proof fn lemma_counts(transactions: Seq<TransactionView>)
    ensures
        storage_count(transactions) + user_count(transactions) == transactions.len(),
        0 <= user_count(transactions) <= transactions.len(),
    decreases transactions.len(),
{
    if transactions.len() > 0 {
        lemma_counts(transactions.drop_last());
    }
}

/// Where all transactions are users', none is the storage's.
proof fn lemma_all_users(transactions: Seq<TransactionView>, k: int)
    requires
        user_count(transactions) == transactions.len(),
        0 <= k < transactions.len(),
    ensures
        transactions[k].sender != storage_address(),
    decreases transactions.len(),
{
    lemma_counts(transactions.drop_last());
    if k < transactions.len() - 1 {
        lemma_all_users(transactions.drop_last(), k);
    }
}

/// Where each transaction from `from` on passes, the transactions pass from
/// `from` on.
proof fn lemma_each_passes(block: BlockView, chain: Seq<BlockView>, from: int)
    requires
        0 <= from,
        forall|k: int|
            from <= k < block.transactions.len() ==> transaction_in_block_check(
                block,
                chain,
                #[trigger] block.transactions[k],
            ) is Ok,
    ensures
        transactions_check_from(block, chain, from) is Ok,
    decreases block.transactions.len() - from,
{
    if from < block.transactions.len() {
        lemma_each_passes(block, chain, from + 1);
    }
}

/// What the engine mines, its validation accepts. Let the pending state be
/// booked, and let `block` be what the engine makes of it. If mining goes
/// well, the block fits the chain.
pub proof fn lemma_mined_block_fits(engine: BlockchainView, block: BlockView, now: u64)
    requires
        sorted_entries(engine.pending.balance_state),
        pending_is_booked(engine),
        is_candidate_block(engine, block),
        mines_well(engine, block, now),
    ensures
        block_check(block, engine.blocks, now) is Ok,
{
    let chain = engine.blocks;
    let last_hash = block_hash(chain.last());
    let reward = block.transactions.last();
    let pending = admission(engine, reward)->Ok_0;
    let after = with_pending(engine, pending);
    lemma_admission_stays_booked(engine, reward);
    assert(block.transactions == engine.pending.transactions.push(reward));
    assert(block.balance_state == pending.balance_state);

    // The last block is the predecessor, and every block counts before the
    // new one.
    lemma_first_with_hash_from(chain, last_hash, 0);
    assert(predecessor(chain, block) == Some(chain.last()));
    assert(blocks_before_len(chain, Some(block)) == chain.len());
    assert(chain.take(chain.len() as int) =~= chain);
    assert(previous_hash_check(block, chain) is Ok);

    // One transaction is the storage's: the reward.
    assert(storage_count(block.transactions) == 1) by {
        lemma_counts(engine.pending.transactions);
        assert(block.transactions.drop_last() =~= engine.pending.transactions);
    }

    assert forall|k: int| 0 <= k < block.transactions.len() implies transaction_in_block_check(
        block,
        chain,
        #[trigger] block.transactions[k],
    ) is Ok by {
        let t = block.transactions[k];
        assert(t == after.pending.transactions[k]);
        assert(crate::blockchain::is_booked(after, after.pending.transactions[k]));
        assert(transaction_check(t, last_block_hash(chain)) is Ok);
        if k < engine.pending.transactions.len() {
            assert(t == engine.pending.transactions[k]);
            lemma_all_users(engine.pending.transactions, k);
        }
        lemma_stated_balance(engine, block, t.sender, k);
        lemma_stated_balance(engine, block, t.recipient, k);
    }
    lemma_each_passes(block, chain, 0);
    assert(transactions_check(block, chain) is Ok);
    assert(created_at_check(block, chain, now) is Ok);
}

/// The block that the engine makes states for everyone whom one of its
/// transactions touches the balance that validation asks for.
proof fn lemma_stated_balance(
    engine: BlockchainView,
    block: BlockView,
    address: Seq<char>,
    k: int,
)
    requires
        sorted_entries(engine.pending.balance_state),
        pending_is_booked(engine),
        is_candidate_block(engine, block),
        last_hash_is_new(engine.blocks),
        receipts_fit(engine.blocks, block.transactions),
        0 <= k < block.transactions.len(),
        block.transactions[k].sender == address || block.transactions[k].recipient == address,
    ensures
        balance_state_check(block, engine.blocks, address) is Ok,
{
    let chain = engine.blocks;
    let last_hash = block_hash(chain.last());
    let reward = block.transactions.last();
    let pending = admission(engine, reward)->Ok_0;
    let after = with_pending(engine, pending);
    lemma_admission_stays_booked(engine, reward);
    lemma_first_with_hash_from(chain, last_hash, 0);
    assert(blocks_before_len(chain, Some(block)) == chain.len());
    assert(chain.take(chain.len() as int) =~= chain);
    assert(balance_before(chain, address, Some(block)) == balance_before(chain, address, None));
    let t = block.transactions[k];
    assert(t == after.pending.transactions[k]);
    assert(crate::blockchain::is_booked(after, after.pending.transactions[k]));
    assert(has_balance(block.balance_state, address));
    assert(is_endpoint(block.transactions, address));
    let stated = balance_in(block.balance_state, address)->0;
    assert(balance_under(after.pending.balance_state, after.blocks, address) == stated);
    assert(stated == balance_before(chain, address, None) + received_by(
        block.transactions,
        address,
    ) - spent_by(block.transactions, address));
}

} // verus!
