//! The transactions and balances that will go into the next block.
use vstd::prelude::*;
use crate::balance_state::{sorted_entries, with_balance, BalanceState};
use crate::block::{
    transaction_views, transactions_clear, transactions_clone, transactions_new,
    transactions_push, transactions_slice, transactions_take, Transactions,
};
use crate::consts::{TRANSACTIONS_PER_BLOCK, USER_TRANSACTIONS_PER_BLOCK};
use crate::transaction::{Transaction, TransactionView};

verus! {

/// The pending transactions, in the order of their admission, and the
/// balances that they lead to.
pub struct PreparingBlockState {
    transactions: Transactions,
    balance_state: BalanceState,
}

/// What the state is, as plain values.
pub struct PreparingBlockStateView {
    pub transactions: Seq<TransactionView>,
    pub balance_state: Seq<(Seq<char>, u64)>,
}

impl View for PreparingBlockState {
    type V = PreparingBlockStateView;

    closed spec fn view(&self) -> PreparingBlockStateView {
        PreparingBlockStateView {
            transactions: transaction_views(self.transactions),
            balance_state: self.balance_state@,
        }
    }
}

/// The state without transactions and balances.
pub open spec fn empty_state() -> PreparingBlockStateView {
    PreparingBlockStateView { transactions: Seq::empty(), balance_state: Seq::empty() }
}

impl Clone for PreparingBlockState {
    fn clone(&self) -> (out: Self)
        ensures
            out@ == self@,
    {
        PreparingBlockState {
            transactions: transactions_clone(&self.transactions),
            balance_state: self.balance_state.clone(),
        }
    }
}

impl PreparingBlockState {
    /// The balances are in order, and there are no more transactions than a
    /// block holds.
    pub open spec fn wf(&self) -> bool {
        &&& sorted_entries(self@.balance_state)
        &&& self@.transactions.len() <= TRANSACTIONS_PER_BLOCK
    }

    /// The pending transactions.
    pub fn transactions(&self) -> (out: &[Transaction])
        ensures
            out@.len() == self@.transactions.len(),
            out@.len() <= TRANSACTIONS_PER_BLOCK,
            forall|i: int| 0 <= i < out@.len() ==> (#[trigger] out@[i])@ == self@.transactions[i],
    {
        transactions_slice(&self.transactions)
    }

    /// The balances that the pending transactions lead to.
    pub fn balance_state(&self) -> (out: &BalanceState)
        ensures
            out@ == self@.balance_state,
            self.wf() ==> out.wf(),
    {
        &self.balance_state
    }

    /// States `balance` for `address`.
    pub(crate) fn set_balance(&mut self, address: &str, balance: u64)
        requires
            old(self).wf(),
        ensures
            final(self).wf(),
            final(self)@ == (PreparingBlockStateView {
                balance_state: with_balance(old(self)@.balance_state, address@, balance),
                ..old(self)@
            }),
    {
        self.balance_state.insert(address.to_owned(), balance);
    }

    /// Admits `transaction` behind the pending ones.
    pub(crate) fn push(&mut self, transaction: Transaction)
        requires
            old(self).wf(),
            old(self)@.transactions.len() < TRANSACTIONS_PER_BLOCK,
        ensures
            final(self).wf(),
            final(self)@ == (PreparingBlockStateView {
                transactions: old(self)@.transactions.push(transaction@),
                ..old(self)@
            }),
    {
        transactions_push(&mut self.transactions, transaction);
        assert(self@.transactions =~= old(self)@.transactions.push(transaction@));
    }

    /// Hands out the transactions and the balances, and leaves the state
    /// empty.
    pub(crate) fn take(&mut self) -> (out: (Transactions, BalanceState))
        ensures
            transaction_views(out.0) == old(self)@.transactions,
            out.1@ == old(self)@.balance_state,
            final(self)@ == empty_state(),
            final(self).wf(),
    {
        let transactions = transactions_take(&mut self.transactions);
        let balance_state = self.balance_state.clone();
        self.balance_state.clear();
        assert(self@.transactions =~= Seq::<TransactionView>::empty());
        assert(transaction_views(transactions) =~= old(self)@.transactions);
        (transactions, balance_state)
    }

    /// A state without transactions and balances.
    pub fn new() -> (out: Self)
        ensures
            out@ == empty_state(),
            out.wf(),
    {
        let out = PreparingBlockState {
            transactions: transactions_new(),
            balance_state: BalanceState::new(),
        };
        assert(out@.transactions =~= Seq::<TransactionView>::empty());
        out
    }

    /// Removes the transactions and the balances.
    pub fn clear(&mut self)
        ensures
            final(self)@ == empty_state(),
            final(self).wf(),
    {
        transactions_clear(&mut self.transactions);
        self.balance_state.clear();
        assert(self@.transactions =~= Seq::<TransactionView>::empty());
    }

    /// Whether the user transactions of a block are there.
    pub fn filled(&self) -> (out: bool)
        ensures
            out == (self@.transactions.len() >= USER_TRANSACTIONS_PER_BLOCK),
    {
        transactions_slice(&self.transactions).len() >= USER_TRANSACTIONS_PER_BLOCK as usize
    }
}

} // verus!
