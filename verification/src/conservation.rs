//! Money is neither made nor lost: what the addresses of a transaction hold
//! together is the same before and after it, in the pending state and in a
//! block that fits its chain.
use vstd::prelude::*;
use crate::balance_state::{balance_in, sorted_entries};
use crate::block::BlockView;
use crate::blockchain::{admission, balance_under, BlockchainView};
use crate::chain::{balance_before, balance_state_check, received_by, spent_by};
use crate::consts::storage_address;
use crate::transaction::TransactionView;

verus! {

/// What one transaction changes in the balance of `address`: the sender
/// pays amount and storage share, the recipient receives the amount, the
/// storage its share.
pub open spec fn change_by(t: TransactionView, address: Seq<char>) -> int {
    (if t.sender == address {
        -(t.amount + t.amount_to_storage)
    } else {
        0
    }) + (if t.recipient == address {
        t.amount as int
    } else {
        0
    }) + (if address == storage_address() {
        t.amount_to_storage as int
    } else {
        0
    })
}

/// What one transaction changes in the balances of the addresses together.
pub open spec fn change_sum(t: TransactionView, addresses: Seq<Seq<char>>) -> int
    decreases addresses.len(),
{
    if addresses.len() == 0 {
        0
    } else {
        change_sum(t, addresses.drop_last()) + change_by(t, addresses.last())
    }
}

/// What the transactions change in the balances of the addresses together:
/// what each receives less what it spends.
pub open spec fn turnover_sum(transactions: Seq<TransactionView>, addresses: Seq<Seq<char>>) -> int
    decreases addresses.len(),
{
    if addresses.len() == 0 {
        0
    } else {
        turnover_sum(transactions, addresses.drop_last()) + received_by(
            transactions,
            addresses.last(),
        ) - spent_by(transactions, addresses.last())
    }
}

/// What a block states for the addresses together; an address without an
/// entry counts as nothing.
pub open spec fn stated_sum(block: BlockView, addresses: Seq<Seq<char>>) -> int
    decreases addresses.len(),
{
    if addresses.len() == 0 {
        0
    } else {
        stated_sum(block, addresses.drop_last()) + match balance_in(
            block.balance_state,
            addresses.last(),
        ) {
            Some(balance) => balance as int,
            None => 0,
        }
    }
}

/// What the addresses hold together on the chain before `block`.
pub open spec fn previous_sum(chain: Seq<BlockView>, block: BlockView, addresses: Seq<Seq<char>>)
    -> int
    decreases addresses.len(),
{
    if addresses.len() == 0 {
        0
    } else {
        previous_sum(chain, block, addresses.drop_last()) + balance_before(
            chain,
            addresses.last(),
            Some(block),
        )
    }
}

/// What the addresses hold together under a pending state.
pub open spec fn pending_sum(
    balance_state: Seq<(Seq<char>, u64)>,
    chain: Seq<BlockView>,
    addresses: Seq<Seq<char>>,
) -> int
    decreases addresses.len(),
{
    if addresses.len() == 0 {
        0
    } else {
        pending_sum(balance_state, chain, addresses.drop_last()) + balance_under(
            balance_state,
            chain,
            addresses.last(),
        )
    }
}

/// Whether the addresses hold everyone whom the transaction touches: the
/// sender, the recipient, and the storage where it has a share.
pub open spec fn covers(addresses: Seq<Seq<char>>, t: TransactionView) -> bool {
    &&& addresses.contains(t.sender)
    &&& addresses.contains(t.recipient)
    &&& t.amount_to_storage > 0 ==> addresses.contains(storage_address())
}

/// Without the last address, the others are still different from each
/// other, and none of them is the last.
proof fn lemma_drop_last_distinct(addresses: Seq<Seq<char>>)
    requires
        addresses.no_duplicates(),
        addresses.len() > 0,
    ensures
        addresses.drop_last().no_duplicates(),
        !addresses.drop_last().contains(addresses.last()),
        forall|x: Seq<char>|
            addresses.contains(x) <==> (addresses.drop_last().contains(x) || x
                == addresses.last()),
{
    let rest = addresses.drop_last();
    let last = addresses.len() - 1;
    assert forall|x: Seq<char>| addresses.contains(x) implies (rest.contains(x) || x
        == addresses.last()) by {
        let i = choose|i: int| 0 <= i < addresses.len() && addresses[i] == x;
        if i < last {
            assert(rest[i] == x);
        }
    }
    assert forall|x: Seq<char>| rest.contains(x) implies addresses.contains(x) by {
        let i = choose|i: int| 0 <= i < rest.len() && rest[i] == x;
        assert(addresses[i] == x);
    }
    assert(addresses[last] == addresses.last());
    if rest.contains(addresses.last()) {
        let i = choose|i: int| 0 <= i < rest.len() && rest[i] == addresses.last();
        assert(addresses[i] == addresses[last]);
    }
}

/// What one transaction changes in the balances of different addresses
/// together: the sender's payment where the sender is among them, the
/// amount where the recipient is, the share where the storage is.
proof fn lemma_change_sum(t: TransactionView, addresses: Seq<Seq<char>>)
    requires
        addresses.no_duplicates(),
    ensures
        change_sum(t, addresses) == (if addresses.contains(t.sender) {
            -(t.amount + t.amount_to_storage)
        } else {
            0
        }) + (if addresses.contains(t.recipient) {
            t.amount as int
        } else {
            0
        }) + (if addresses.contains(storage_address()) {
            t.amount_to_storage as int
        } else {
            0
        }),
    decreases addresses.len(),
{
    if addresses.len() > 0 {
        lemma_drop_last_distinct(addresses);
        lemma_change_sum(t, addresses.drop_last());
    }
}

/// A transaction changes nothing in what the addresses that it touches hold
/// together.
pub proof fn lemma_transaction_moves(t: TransactionView, addresses: Seq<Seq<char>>)
    requires
        addresses.no_duplicates(),
        covers(addresses, t),
    ensures
        change_sum(t, addresses) == 0,
{
    lemma_change_sum(t, addresses);
}

/// What the transactions change for the addresses together is what the
/// transactions before the last change, and what the last changes.
proof fn lemma_turnover_sum_step(transactions: Seq<TransactionView>, addresses: Seq<Seq<char>>)
    requires
        transactions.len() > 0,
    ensures
        turnover_sum(transactions, addresses) == turnover_sum(
            transactions.drop_last(),
            addresses,
        ) + change_sum(transactions.last(), addresses),
    decreases addresses.len(),
{
    if addresses.len() > 0 {
        lemma_turnover_sum_step(transactions, addresses.drop_last());
    }
}

/// Transactions change nothing in what the addresses that they touch hold
/// together.
pub proof fn lemma_turnover_sum_zero(
    transactions: Seq<TransactionView>,
    addresses: Seq<Seq<char>>,
)
    requires
        addresses.no_duplicates(),
        forall|k: int|
            0 <= k < transactions.len() ==> covers(addresses, #[trigger] transactions[k]),
    ensures
        turnover_sum(transactions, addresses) == 0,
    decreases transactions.len(),
{
    if transactions.len() == 0 {
        lemma_turnover_sum_empty(transactions, addresses);
    } else {
        let rest = transactions.drop_last();
        assert forall|k: int| 0 <= k < rest.len() implies covers(
            addresses,
            #[trigger] rest[k],
        ) by {
            assert(rest[k] == transactions[k]);
        }
        lemma_turnover_sum_zero(rest, addresses);
        lemma_turnover_sum_step(transactions, addresses);
        assert(transactions.last() == transactions[transactions.len() - 1]);
        lemma_transaction_moves(transactions.last(), addresses);
    }
}

/// No transactions change nothing.
proof fn lemma_turnover_sum_empty(transactions: Seq<TransactionView>, addresses: Seq<Seq<char>>)
    requires
        transactions.len() == 0,
    ensures
        turnover_sum(transactions, addresses) == 0,
    decreases addresses.len(),
{
    if addresses.len() > 0 {
        lemma_turnover_sum_empty(transactions, addresses.drop_last());
    }
}

/// Where a block states the balance that validation asks for each of the
/// addresses, it states together what they held before and what the
/// transactions change.
proof fn lemma_stated_sum(block: BlockView, chain: Seq<BlockView>, addresses: Seq<Seq<char>>)
    requires
        forall|i: int|
            0 <= i < addresses.len() ==> balance_state_check(block, chain, #[trigger] addresses[i])
                is Ok,
    ensures
        stated_sum(block, addresses) == previous_sum(chain, block, addresses) + turnover_sum(
            block.transactions,
            addresses,
        ),
    decreases addresses.len(),
{
    if addresses.len() > 0 {
        let rest = addresses.drop_last();
        assert forall|i: int| 0 <= i < rest.len() implies balance_state_check(
            block,
            chain,
            #[trigger] rest[i],
        ) is Ok by {
            assert(rest[i] == addresses[i]);
        }
        lemma_stated_sum(block, chain, rest);
        assert(addresses.last() == addresses[addresses.len() - 1]);
        assert(balance_state_check(block, chain, addresses.last()) is Ok);
    }
}

/// Balance conservation in a block. Take addresses, each once, among them
/// everyone whom the block's transactions touch, and let the block state for
/// each the balance that validation asks for. Then the block states for
/// these addresses together exactly what they held together before the
/// block.
pub proof fn lemma_block_conserves_balances(
    block: BlockView,
    chain: Seq<BlockView>,
    addresses: Seq<Seq<char>>,
)
    requires
        addresses.no_duplicates(),
        forall|i: int|
            0 <= i < addresses.len() ==> balance_state_check(block, chain, #[trigger] addresses[i])
                is Ok,
        forall|k: int|
            0 <= k < block.transactions.len() ==> covers(
                addresses,
                #[trigger] block.transactions[k],
            ),
    ensures
        stated_sum(block, addresses) == previous_sum(chain, block, addresses),
{
    lemma_stated_sum(block, chain, addresses);
    lemma_turnover_sum_zero(block.transactions, addresses);
}

/// What one transaction changes for an address is what the address
/// receives in it, less what it spends.
pub proof fn lemma_change_of_one(t: TransactionView, address: Seq<char>)
    ensures
        change_by(t, address) == received_by(seq![t], address) - spent_by(seq![t], address),
{
    let one = seq![t];
    assert(one.drop_last() =~= Seq::<TransactionView>::empty());
    assert(one.last() == t);
    assert(received_by(one.drop_last(), address) == 0);
    assert(spent_by(one.drop_last(), address) == 0);
}

/// After an admission the addresses hold together what they held before and
/// what the transaction changes for them.
proof fn lemma_pending_sum(engine: BlockchainView, t: TransactionView, addresses: Seq<Seq<char>>)
    requires
        sorted_entries(engine.pending.balance_state),
        admission(engine, t) is Ok,
    ensures
        pending_sum(admission(engine, t)->Ok_0.balance_state, engine.blocks, addresses)
            == pending_sum(engine.pending.balance_state, engine.blocks, addresses) + change_sum(
            t,
            addresses,
        ),
    decreases addresses.len(),
{
    if addresses.len() > 0 {
        lemma_pending_sum(engine, t, addresses.drop_last());
        crate::blockchain::lemma_admission_books(engine, t, addresses.last());
        lemma_change_of_one(t, addresses.last());
    }
}

/// Balance conservation in the pending state. Take addresses, each once,
/// among them everyone whom an admitted transaction touches. After the
/// admission they hold together exactly what they held together before.
pub proof fn lemma_admission_conserves_balances(
    engine: BlockchainView,
    t: TransactionView,
    addresses: Seq<Seq<char>>,
)
    requires
        sorted_entries(engine.pending.balance_state),
        admission(engine, t) is Ok,
        addresses.no_duplicates(),
        covers(addresses, t),
    ensures
        pending_sum(admission(engine, t)->Ok_0.balance_state, engine.blocks, addresses)
            == pending_sum(engine.pending.balance_state, engine.blocks, addresses),
{
    lemma_pending_sum(engine, t, addresses);
    lemma_change_sum(t, addresses);
}

/// What the addresses hold together under a booked pending state is what
/// they hold on the chain and what the pending transactions change for
/// them.
proof fn lemma_booked_sum(engine: BlockchainView, addresses: Seq<Seq<char>>)
    requires
        crate::blockchain::pending_is_booked(engine),
    ensures
        pending_sum(engine.pending.balance_state, engine.blocks, addresses) == pending_sum(
            Seq::empty(),
            engine.blocks,
            addresses,
        ) + turnover_sum(engine.pending.transactions, addresses),
    decreases addresses.len(),
{
    if addresses.len() > 0 {
        lemma_booked_sum(engine, addresses.drop_last());
        let a = addresses.last();
        assert(balance_under(engine.pending.balance_state, engine.blocks, a) == balance_before(
            engine.blocks,
            a,
            None,
        ) + received_by(engine.pending.transactions, a) - spent_by(
            engine.pending.transactions,
            a,
        ));
        assert(balance_in(Seq::<(Seq<char>, u64)>::empty(), a) is None);
    }
}

/// Balance conservation in the engine. Take addresses, each once, among
/// them everyone whom a pending transaction touches. Under the pending state
/// they hold together exactly what they hold together on the chain.
pub proof fn lemma_pending_conserves_balances(engine: BlockchainView, addresses: Seq<Seq<char>>)
    requires
        crate::blockchain::pending_is_booked(engine),
        addresses.no_duplicates(),
        forall|k: int|
            0 <= k < engine.pending.transactions.len() ==> covers(
                addresses,
                #[trigger] engine.pending.transactions[k],
            ),
    ensures
        pending_sum(engine.pending.balance_state, engine.blocks, addresses) == pending_sum(
            Seq::empty(),
            engine.blocks,
            addresses,
        ),
{
    lemma_booked_sum(engine, addresses);
    lemma_turnover_sum_zero(engine.pending.transactions, addresses);
}

/// Whether `address` sends or receives one of the transactions.
pub open spec fn is_endpoint(transactions: Seq<TransactionView>, address: Seq<char>) -> bool {
    exists|k: int|
        0 <= k < transactions.len() && ((#[trigger] transactions[k]).sender == address
            || transactions[k].recipient == address)
}

/// Balance conservation in a block that fits its chain. Let `addresses` be
/// the senders and recipients of the block's transactions, each once. The
/// block states for them together exactly what they held together before
/// the block: the reward and the shares are paid by one of them to another.
pub proof fn lemma_fitting_block_conserves_balances(
    block: BlockView,
    chain: Seq<BlockView>,
    now: u64,
    addresses: Seq<Seq<char>>,
)
    requires
        crate::chain::block_check(block, chain, now) is Ok,
        addresses.no_duplicates(),
        forall|a: Seq<char>| addresses.contains(a) <==> is_endpoint(block.transactions, a),
    ensures
        stated_sum(block, addresses) == previous_sum(chain, block, addresses),
{
    crate::chain::lemma_block_that_fits(block, chain, now);
    crate::chain::lemma_storage_transaction(block.transactions);
    let reward = choose|k: int|
        0 <= k < block.transactions.len() && (#[trigger] block.transactions[k]).sender
            == storage_address();
    assert(is_endpoint(block.transactions, storage_address()));
    assert forall|i: int| 0 <= i < addresses.len() implies balance_state_check(
        block,
        chain,
        #[trigger] addresses[i],
    ) is Ok by {
        assert(addresses.contains(addresses[i]));
        let k = choose|k: int|
            0 <= k < block.transactions.len() && ((#[trigger] block.transactions[k]).sender
                == addresses[i] || block.transactions[k].recipient == addresses[i]);
    }
    assert forall|k: int| 0 <= k < block.transactions.len() implies covers(
        addresses,
        #[trigger] block.transactions[k],
    ) by {
        assert(is_endpoint(block.transactions, block.transactions[k].sender));
        assert(is_endpoint(block.transactions, block.transactions[k].recipient));
    }
    lemma_block_conserves_balances(block, chain, addresses);
}

/// Balance conservation along a chain. Take a block of a chain other than
/// the first, and let `addresses` be the senders and recipients of its
/// transactions, each once. The block states for them together exactly what
/// they held together on the chain before it.
pub proof fn lemma_chain_conserves_balances(
    blocks: Seq<BlockView>,
    i: int,
    addresses: Seq<Seq<char>>,
)
    requires
        crate::chain::is_chain(blocks),
        1 <= i < blocks.len(),
        addresses.no_duplicates(),
        forall|a: Seq<char>| addresses.contains(a) <==> is_endpoint(blocks[i].transactions, a),
    ensures
        stated_sum(blocks[i], addresses) == previous_sum(blocks.take(i), blocks[i], addresses),
{
    let before = blocks.take(i);
    assert(crate::chain::fits(before, blocks[i]));
    let now = choose|now: u64| #[trigger] crate::chain::block_check(blocks[i], before, now) is Ok;
    lemma_fitting_block_conserves_balances(blocks[i], before, now, addresses);
}

} // verus!
