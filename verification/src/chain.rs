//! What a chain of blocks says: its last hash, the balance of an address,
//! and whether a new block fits it.
use vstd::prelude::*;
use crate::balance_state::balance_in;
use crate::block::{
    block_hash, is_signed_check, miner_signature_check, proof_of_work_check, BlockView,
};
use crate::consts::{storage_address, MINING_REWARD, TRANSACTIONS_PER_BLOCK};
use crate::error::{
    GetLastBlockHashError, ValidateBlockBalanceStateError, ValidateBlockCreatedAtError,
    ValidateBlockIntegrityError, ValidateBlockPreviousHashError, ValidateBlockTransactionsError,
};
use crate::transaction::{transaction_check, TransactionView};

verus! {

/// The hash of the chain's last block.
pub open spec fn last_block_hash(chain: Seq<BlockView>) -> Result<
    Seq<char>,
    GetLastBlockHashError,
> {
    if chain.len() == 0 {
        Err(GetLastBlockHashError::NoBlocks)
    } else {
        Ok(block_hash(chain.last()))
    }
}

/// The position of the first block, from `from` on, whose hash is `hash`;
/// the chain's length where there is none.
pub open spec fn first_with_hash_from(chain: Seq<BlockView>, hash: Seq<char>, from: int) -> int
    decreases chain.len() - from,
{
    if from >= chain.len() {
        chain.len() as int
    } else if block_hash(chain[from]) == hash {
        from
    } else {
        first_with_hash_from(chain, hash, from + 1)
    }
}

/// The position of the first block whose hash is `hash`; the chain's length
/// where there is none.
pub open spec fn first_with_hash(chain: Seq<BlockView>, hash: Seq<char>) -> int {
    first_with_hash_from(chain, hash, 0)
}

/// The first block of the chain whose hash `block` names as its previous
/// hash, if there is one.
pub open spec fn predecessor(chain: Seq<BlockView>, block: BlockView) -> Option<BlockView> {
    match block.previous_hash {
        Some(hash) => if first_with_hash(chain, hash) < chain.len() {
            Some(chain[first_with_hash(chain, hash)])
        } else {
            None
        },
        None => None,
    }
}

/// The number of blocks that count for a balance before `before`: those up
/// to its predecessor, or all where it has none or no block is given.
pub open spec fn blocks_before_len(chain: Seq<BlockView>, before: Option<BlockView>) -> int {
    match before {
        Some(block) => match block.previous_hash {
            Some(hash) => if first_with_hash(chain, hash) < chain.len() {
                first_with_hash(chain, hash) + 1
            } else {
                chain.len() as int
            },
            None => chain.len() as int,
        },
        None => chain.len() as int,
    }
}

/// The balance that the latest of the blocks states for `address`; zero
/// where none states one.
pub open spec fn latest_balance(blocks: Seq<BlockView>, address: Seq<char>) -> u64
    decreases blocks.len(),
{
    if blocks.len() == 0 {
        0
    } else {
        match balance_in(blocks.last().balance_state, address) {
            Some(balance) => balance,
            None => latest_balance(blocks.drop_last(), address),
        }
    }
}

/// The balance of `address` on the chain, before `before` where a block is
/// given.
pub open spec fn balance_before(
    chain: Seq<BlockView>,
    address: Seq<char>,
    before: Option<BlockView>,
) -> u64 {
    latest_balance(chain.take(blocks_before_len(chain, before)), address)
}

/// What `address` spends in the transactions: amount and storage share of
/// each that it sends.
pub open spec fn spent_by(transactions: Seq<TransactionView>, address: Seq<char>) -> int
    decreases transactions.len(),
{
    if transactions.len() == 0 {
        0
    } else {
        let t = transactions.last();
        spent_by(transactions.drop_last(), address) + if t.sender == address {
            t.amount + t.amount_to_storage
        } else {
            0
        }
    }
}

/// What `address` receives in the transactions: the amount of each that
/// names it as recipient, and, for the storage, the storage share of each.
pub open spec fn received_by(transactions: Seq<TransactionView>, address: Seq<char>) -> int
    decreases transactions.len(),
{
    if transactions.len() == 0 {
        0
    } else {
        let t = transactions.last();
        received_by(transactions.drop_last(), address) + (if t.recipient == address {
            t.amount as int
        } else {
            0
        }) + (if address == storage_address() {
            t.amount_to_storage as int
        } else {
            0
        })
    }
}

/// The number of transactions that the storage sends.
pub open spec fn storage_count(transactions: Seq<TransactionView>) -> int
    decreases transactions.len(),
{
    if transactions.len() == 0 {
        0
    } else {
        storage_count(transactions.drop_last()) + if transactions.last().sender
            == storage_address() {
            1int
        } else {
            0int
        }
    }
}

/// Whether no two transactions have the same random string.
pub open spec fn random_strings_distinct(transactions: Seq<TransactionView>) -> bool {
    forall|i: int, j: int|
        0 <= i < j < transactions.len() ==> (#[trigger] transactions[i]).random_string != (
        #[trigger] transactions[j]).random_string
}

/// A block must name the hash of the chain's last block, which the chain
/// must have.
pub open spec fn previous_hash_check(block: BlockView, chain: Seq<BlockView>) -> Result<
    (),
    ValidateBlockPreviousHashError,
> {
    match last_block_hash(chain) {
        Err(e) => Err(ValidateBlockPreviousHashError::GetLastBlockHash(e)),
        Ok(hash) => if block.previous_hash != Some(hash) {
            Err(ValidateBlockPreviousHashError::HashesNotEquals)
        } else {
            Ok(())
        },
    }
}

/// The balance that the block states for `address` must be its balance
/// before the block, plus what it receives, minus what it spends.
pub open spec fn balance_state_check(block: BlockView, chain: Seq<BlockView>, address: Seq<char>)
    -> Result<(), ValidateBlockBalanceStateError> {
    match balance_in(block.balance_state, address) {
        None => Err(ValidateBlockBalanceStateError::NoBalanceInState),
        Some(stated) => {
            let before = balance_before(chain, address, Some(block));
            let received = received_by(block.transactions, address);
            let spent = spent_by(block.transactions, address);
            if before + received > u64::MAX {
                Err(ValidateBlockBalanceStateError::AddOverflow)
            } else if before + received < spent {
                Err(ValidateBlockBalanceStateError::SubOverflow)
            } else if before + received - spent != stated {
                Err(ValidateBlockBalanceStateError::BalancesNotEquals)
            } else {
                Ok(())
            }
        },
    }
}

/// What is asked of one transaction of a block, in this order: its own
/// integrity; for the storage's, that it pays the reward to the miner; that
/// it names the block's previous hash; the stated balances of its sender and
/// of its recipient.
pub open spec fn transaction_in_block_check(
    block: BlockView,
    chain: Seq<BlockView>,
    t: TransactionView,
) -> Result<(), ValidateBlockTransactionsError> {
    match transaction_check(t, last_block_hash(chain)) {
        Err(e) => Err(ValidateBlockTransactionsError::ValidateTransactionIntegrity(e)),
        Ok(()) => if t.sender == storage_address() && t.recipient != block.miner {
            Err(ValidateBlockTransactionsError::RewardedNotMiner)
        } else if t.sender == storage_address() && t.amount != MINING_REWARD {
            Err(ValidateBlockTransactionsError::InvalidReward)
        } else if !(block.previous_hash is Some && block.previous_hash->0
            == t.previous_block_hash) {
            Err(ValidateBlockTransactionsError::PreviousHashesNotEquals)
        } else {
            match balance_state_check(block, chain, t.sender) {
                Err(e) => Err(ValidateBlockTransactionsError::ValidateSenderBalanceState(e)),
                Ok(()) => match balance_state_check(block, chain, t.recipient) {
                    Err(e) => Err(
                        ValidateBlockTransactionsError::ValidateRecipientBalanceState(e),
                    ),
                    Ok(()) => Ok(()),
                },
            }
        },
    }
}

/// The transactions from position `from` on, one after the other: the first
/// that fails gives the error.
pub open spec fn transactions_check_from(block: BlockView, chain: Seq<BlockView>, from: int)
    -> Result<(), ValidateBlockTransactionsError>
    decreases block.transactions.len() - from,
{
    if from >= block.transactions.len() {
        Ok(())
    } else {
        match transaction_in_block_check(block, chain, block.transactions[from]) {
            Err(e) => Err(e),
            Ok(()) => transactions_check_from(block, chain, from + 1),
        }
    }
}

/// What is asked of the transactions of a block: three of them, one from
/// the storage, no random string twice, and each in order.
pub open spec fn transactions_check(block: BlockView, chain: Seq<BlockView>) -> Result<
    (),
    ValidateBlockTransactionsError,
> {
    if block.transactions.len() != TRANSACTIONS_PER_BLOCK {
        Err(ValidateBlockTransactionsError::InvalidUserCount)
    } else if storage_count(block.transactions) != 1 {
        Err(ValidateBlockTransactionsError::InvalidStorageCount)
    } else if !random_strings_distinct(block.transactions) {
        Err(ValidateBlockTransactionsError::RandomStringNotUnique)
    } else {
        transactions_check_from(block, chain, 0)
    }
}

/// A block must not be later than the clock, and must be later than its
/// predecessor.
pub open spec fn created_at_check(block: BlockView, chain: Seq<BlockView>, now: u64) -> Result<
    (),
    ValidateBlockCreatedAtError,
>
    recommends
        predecessor(chain, block) is Some,
{
    if now < block.created_at {
        Err(ValidateBlockCreatedAtError::InFuture)
    } else if block.created_at <= predecessor(chain, block)->0.created_at {
        Err(ValidateBlockCreatedAtError::PreviousInFuture)
    } else {
        Ok(())
    }
}

/// Whether a new block fits the chain at the time `now`: previous hash,
/// proof of work, signature, transactions and time, in this order. The first
/// check that fails gives the error.
pub open spec fn block_check(block: BlockView, chain: Seq<BlockView>, now: u64) -> Result<
    (),
    ValidateBlockIntegrityError,
> {
    match previous_hash_check(block, chain) {
        Err(e) => Err(ValidateBlockIntegrityError::ValidatePreviousHash(e)),
        Ok(()) => match proof_of_work_check(block) {
            Err(e) => Err(ValidateBlockIntegrityError::ValidateProofOfWork(e)),
            Ok(()) => match is_signed_check(block) {
                Err(e) => Err(ValidateBlockIntegrityError::ValidateIsSigned(e)),
                Ok(()) => match miner_signature_check(block) {
                    Err(e) => Err(ValidateBlockIntegrityError::ValidateMinerSignature(e)),
                    Ok(()) => match transactions_check(block, chain) {
                        Err(e) => Err(ValidateBlockIntegrityError::ValidateTransactions(e)),
                        Ok(()) => match created_at_check(block, chain, now) {
                            Err(e) => Err(ValidateBlockIntegrityError::ValidateCreatedAt(e)),
                            Ok(()) => Ok(()),
                        },
                    },
                },
            },
        },
    }
}

/// From `from` on, the first block with a hash is found at a position
/// between `from` and the chain's length, and no block before it, from
/// `from` on, has the hash.
pub proof fn lemma_first_with_hash_from(chain: Seq<BlockView>, hash: Seq<char>, from: int)
    requires
        0 <= from <= chain.len(),
    ensures
        from <= first_with_hash_from(chain, hash, from) <= chain.len(),
        first_with_hash_from(chain, hash, from) < chain.len() ==> block_hash(
            chain[first_with_hash_from(chain, hash, from)],
        ) == hash,
        forall|k: int|
            from <= k < first_with_hash_from(chain, hash, from) ==> block_hash(
                #[trigger] chain[k],
            ) != hash,
    decreases chain.len() - from,
{
    if from < chain.len() && block_hash(chain[from]) != hash {
        lemma_first_with_hash_from(chain, hash, from + 1);
    }
}

/// A block whose transactions pass names the hash of the chain's last
/// block, so that it has a predecessor.
pub proof fn lemma_checked_block_has_predecessor(block: BlockView, chain: Seq<BlockView>)
    requires
        transactions_check(block, chain) is Ok,
    ensures
        chain.len() > 0,
        block.previous_hash == Some(block_hash(chain.last())),
        predecessor(chain, block) is Some,
{
    let t = block.transactions[0];
    assert(transaction_in_block_check(block, chain, t) is Ok);
    lemma_first_with_hash_from(chain, block_hash(chain.last()), 0);
}

/// Where the transactions pass from `from` on, each of them passes.
pub proof fn lemma_transactions_check_from(block: BlockView, chain: Seq<BlockView>, from: int)
    requires
        0 <= from,
        transactions_check_from(block, chain, from) is Ok,
    ensures
        forall|k: int|
            from <= k < block.transactions.len() ==> transaction_in_block_check(
                block,
                chain,
                #[trigger] block.transactions[k],
            ) is Ok,
    decreases block.transactions.len() - from,
{
    if from < block.transactions.len() {
        lemma_transactions_check_from(block, chain, from + 1);
    }
}

/// Where the storage sends a transaction, one of the transactions is the
/// storage's.
pub proof fn lemma_storage_transaction(transactions: Seq<TransactionView>)
    requires
        storage_count(transactions) > 0,
    ensures
        exists|k: int|
            0 <= k < transactions.len() && (#[trigger] transactions[k]).sender
                == storage_address(),
    decreases transactions.len(),
{
    if transactions.len() > 0 {
        let last = transactions.len() - 1;
        if transactions.last().sender == storage_address() {
            assert(transactions[last].sender == storage_address());
        } else {
            lemma_storage_transaction(transactions.drop_last());
            let k = choose|k: int|
                0 <= k < transactions.drop_last().len() && (
                #[trigger] transactions.drop_last()[k]).sender == storage_address();
            assert(transactions[k].sender == storage_address());
        }
    }
}

/// What holds of every block that fits a chain. It names the hash of the
/// chain's last block; its hash begins with the required zeros; it is signed
/// by its miner; it holds three transactions with different random strings,
/// one of them the storage's; and it is later than its predecessor and not
/// later than the clock. Each of its transactions names the block's previous
/// hash, does not pay the storage, is signed by its sender unless that is
/// the storage, and has the balances of its sender and recipient stated as
/// they follow from the chain. The storage's transaction pays the mining
/// reward to the miner.
pub proof fn lemma_block_that_fits(block: BlockView, chain: Seq<BlockView>, now: u64)
    requires
        block_check(block, chain, now) is Ok,
    ensures
        chain.len() > 0,
        block.previous_hash == Some(block_hash(chain.last())),
        crate::block::has_proof_of_work(block),
        block.miner_signature is Some,
        crate::user::signature_check(block.miner_signature->0, block_hash(block), block.miner)
            is Ok,
        block.transactions.len() == TRANSACTIONS_PER_BLOCK,
        storage_count(block.transactions) == 1,
        random_strings_distinct(block.transactions),
        predecessor(chain, block) is Some,
        predecessor(chain, block)->0.created_at < block.created_at <= now,
        forall|k: int|
            0 <= k < block.transactions.len() ==> {
                let t = #[trigger] block.transactions[k];
                &&& Some(t.previous_block_hash) == block.previous_hash
                &&& t.recipient != storage_address()
                &&& crate::transaction::sender_signature_check(t) is Ok
                &&& t.sender == storage_address() ==> t.recipient == block.miner && t.amount
                    == MINING_REWARD
                &&& balance_state_check(block, chain, t.sender) is Ok
                &&& balance_state_check(block, chain, t.recipient) is Ok
            },
{
    lemma_checked_block_has_predecessor(block, chain);
    lemma_transactions_check_from(block, chain, 0);
}

/// Whether `block` fits `chain` at some time.
pub open spec fn fits(chain: Seq<BlockView>, block: BlockView) -> bool {
    exists|now: u64| #[trigger] block_check(block, chain, now) is Ok
}

/// Whether the blocks make a chain: every block but the first fits the
/// blocks before it. The first block is taken as it is.
pub open spec fn is_chain(blocks: Seq<BlockView>) -> bool {
    forall|i: int| 1 <= i < blocks.len() ==> fits(blocks.take(i), #[trigger] blocks[i])
}

/// A chain stays one when a first block is put on an empty chain, or a block
/// that fits is put behind the last.
pub proof fn lemma_chain_grows(chain: Seq<BlockView>, block: BlockView)
    requires
        is_chain(chain),
        chain.len() == 0 || fits(chain, block),
    ensures
        is_chain(chain.push(block)),
{
    let longer = chain.push(block);
    assert forall|i: int| 1 <= i < longer.len() implies fits(
        longer.take(i),
        #[trigger] longer[i],
    ) by {
        if i < chain.len() {
            assert(longer.take(i) =~= chain.take(i));
            assert(longer[i] == chain[i]);
        } else {
            assert(longer.take(i) =~= chain);
        }
    }
}

/// What holds along a chain. Every block but the first names the hash of
/// the block before it, has its proof of work and its miner's signature,
/// holds three transactions with different random strings, each of which
/// names the hash of the block before, and is later than its predecessor.
pub proof fn lemma_chain_links(blocks: Seq<BlockView>, i: int)
    requires
        is_chain(blocks),
        1 <= i < blocks.len(),
    ensures
        blocks[i].previous_hash == Some(block_hash(blocks[i - 1])),
        crate::block::has_proof_of_work(blocks[i]),
        miner_signature_check(blocks[i]) is Ok,
        blocks[i].transactions.len() == TRANSACTIONS_PER_BLOCK,
        storage_count(blocks[i].transactions) == 1,
        random_strings_distinct(blocks[i].transactions),
        forall|k: int|
            0 <= k < blocks[i].transactions.len() ==> (
            #[trigger] blocks[i].transactions[k]).previous_block_hash == block_hash(
                blocks[i - 1],
            ),
        predecessor(blocks.take(i), blocks[i]) is Some,
        predecessor(blocks.take(i), blocks[i])->0.created_at < blocks[i].created_at,
{
    let before = blocks.take(i);
    assert(fits(before, blocks[i]));
    let now = choose|now: u64| #[trigger] block_check(blocks[i], before, now) is Ok;
    lemma_block_that_fits(blocks[i], before, now);
    assert(before.last() == blocks[i - 1]);
}

} // verus!
