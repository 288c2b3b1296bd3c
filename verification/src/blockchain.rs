//! The engine: the chain of blocks, the transactions that wait for the next
//! block, and the miner in whose name blocks are mined.
use vstd::prelude::*;
use vstd::string::*;
use crate::balance_state::{
    balance_in, has_balance, lemma_with_balance_sorted, sorted_entries, with_balance,
    BalanceState,
};
use crate::block::{
    block_body_json, block_hash, block_json, block_wf, has_proof_of_work,
    miner_signature_check, no_proof_of_work_between, transactions_new, with_miner_signature,
    with_nonce, Block, BlockView,
};
use crate::chain::{
    balance_before, block_check, blocks_before_len, first_with_hash, first_with_hash_from,
    is_chain, last_block_hash, latest_balance, lemma_chain_grows, predecessor, received_by,
    spent_by,
};
use crate::consts::{
    is_storage, storage_address, GENESIS_BLOCK_REWARD, MINING_REWARD, STORAGE_ADDRESS,
    STORAGE_START_BALANCE, TRANSACTIONS_PER_BLOCK, USER_TRANSACTIONS_PER_BLOCK,
};
use crate::error::{
    AddBlockError, AddToBalanceError, AddTransactionError, BlockchainFromStrError,
    GenerateBlockProofOfWorkError, GetLastBlockHashError, MakeStorageTransactionError,
    MineBlockError, MineGenesisBlockError, RemoveFromBalanceError, SignBlockError,
};
use crate::helpers::{get_timestamp, is_random_string};
use crate::preparing_block_state::{empty_state, PreparingBlockState, PreparingBlockStateView};
use crate::text::same_text;
use crate::transaction::{
    storage_share, text_or, transaction_check, Transaction, TransactionView,
};
use crate::user::{signed_text, User, UserView};

verus! {

/// The state of a node's chain.
pub struct Blockchain {
    preparing_block_state: PreparingBlockState,
    miner: User,
    blocks: Vec<Block>,
}

/// What the engine holds, as plain values: the pending state, the miner,
/// and the blocks, oldest first.
pub struct BlockchainView {
    pub pending: PreparingBlockStateView,
    pub miner: UserView,
    pub blocks: Seq<BlockView>,
}

impl View for Blockchain {
    type V = BlockchainView;

    closed spec fn view(&self) -> BlockchainView {
        BlockchainView {
            pending: self.preparing_block_state@,
            miner: self.miner@,
            blocks: Seq::new(self.blocks@.len(), |i: int| self.blocks@[i]@),
        }
    }
}

/// The balance of `address` as the engine sees it: what the pending state
/// says, else what the chain says.
pub open spec fn current_balance(engine: BlockchainView, address: Seq<char>) -> u64 {
    match balance_in(engine.pending.balance_state, address) {
        Some(balance) => balance,
        None => balance_before(engine.blocks, address, None),
    }
}

impl Clone for Blockchain {
    fn clone(&self) -> (out: Self)
        ensures
            out@ == self@,
            self.wf() ==> out.wf(),
    {
        let mut blocks: Vec<Block> = Vec::new();
        let mut i: usize = 0;
        while i < self.blocks.len()
            invariant
                i <= self.blocks@.len(),
                blocks@.len() == i,
                forall|k: int| 0 <= k < i ==> blocks@[k]@ == self.blocks@[k]@,
                forall|k: int|
                    0 <= k < i ==> (self.blocks@[k].wf() ==> (#[trigger] blocks@[k]).wf()),
            decreases self.blocks@.len() - i,
        {
            blocks.push(self.blocks[i].clone());
            i += 1;
        }
        let out = Blockchain {
            preparing_block_state: self.preparing_block_state.clone(),
            miner: self.miner.clone(),
            blocks,
        };
        assert(out@.blocks =~= self@.blocks);
        out
    }
}

impl Blockchain {
    /// The pending state, the miner and every block are well formed, and
    /// the blocks make a chain.
    pub closed spec fn wf(&self) -> bool {
        &&& self.preparing_block_state.wf()
        &&& self.miner.wf()
        &&& forall|i: int| 0 <= i < self.blocks@.len() ==> (#[trigger] self.blocks@[i]).wf()
        &&& is_chain(self@.blocks)
        &&& pending_is_booked(self@)
    }

    /// The blocks of a well-formed engine make a chain, and each of them is
    /// well formed, as is the pending state.
    pub proof fn lemma_wf(&self)
        requires
            self.wf(),
        ensures
            is_chain(self@.blocks),
            pending_is_booked(self@),
            forall|i: int| 0 <= i < self@.blocks.len() ==> block_wf(#[trigger] self@.blocks[i]),
            crate::balance_state::sorted_entries(self@.pending.balance_state),
            self@.pending.transactions.len() <= crate::consts::TRANSACTIONS_PER_BLOCK,
    {
        assert forall|i: int| 0 <= i < self@.blocks.len() implies block_wf(
            #[trigger] self@.blocks[i],
        ) by {
            assert(self.blocks@[i].wf());
        }
    }

    /// An engine with an empty chain.
    pub fn new(miner: User) -> (out: Self)
        requires
            miner.wf(),
        ensures
            out.wf(),
            out@.miner == miner@,
            out@.blocks == Seq::<BlockView>::empty(),
            out@.pending == crate::preparing_block_state::empty_state(),
    {
        let out = Blockchain {
            preparing_block_state: PreparingBlockState::new(),
            miner,
            blocks: Vec::new(),
        };
        assert(out@.blocks =~= Seq::<BlockView>::empty());
        out
    }

    /// The miner in whose name blocks are mined.
    pub fn miner(&self) -> (out: &User)
        ensures
            out@ == self@.miner,
            self.wf() ==> out.wf(),
    {
        &self.miner
    }

    /// The pending state.
    pub fn preparing_block_state(&self) -> (out: &PreparingBlockState)
        ensures
            out@ == self@.pending,
    {
        &self.preparing_block_state
    }

    /// The blocks, oldest first.
    pub fn blocks(&self) -> (out: &[Block])
        ensures
            out@.len() == self@.blocks.len(),
            forall|i: int| 0 <= i < out@.len() ==> (#[trigger] out@[i])@ == self@.blocks[i],
    {
        self.blocks.as_slice()
    }

    /// The number of blocks.
    pub fn len(&self) -> (out: usize)
        ensures
            out == self@.blocks.len(),
    {
        self.blocks.len()
    }

    /// Whether the chain holds no block.
    pub fn is_empty(&self) -> (out: bool)
        ensures
            out == (self@.blocks.len() == 0),
    {
        self.blocks.len() == 0
    }

    /// The hash of the last block.
    pub fn get_last_block_hash(&self) -> (out: Result<String, GetLastBlockHashError>)
        ensures
            text_or(out) == last_block_hash(self@.blocks),
    {
        if self.blocks.len() == 0 {
            return Err(GetLastBlockHashError::NoBlocks);
        }
        let last = &self.blocks[self.blocks.len() - 1];
        assert(last@ == self@.blocks.last());
        Ok(last.compute_hash())
    }

    /// The position of the first block whose hash is `hash`; the number of
    /// blocks where there is none.
    fn position_of_hash(&self, hash: &str) -> (out: usize)
        ensures
            out == first_with_hash(self@.blocks, hash@),
            out <= self@.blocks.len(),
    {
        let mut i: usize = 0;
        while i < self.blocks.len()
            invariant
                i <= self.blocks@.len(),
                self@.blocks.len() == self.blocks@.len(),
                first_with_hash(self@.blocks, hash@) == first_with_hash_from(
                    self@.blocks,
                    hash@,
                    i as int,
                ),
            decreases self.blocks@.len() - i,
        {
            let block_hash = self.blocks[i].compute_hash();
            assert(self@.blocks[i as int] == self.blocks@[i as int]@);
            if same_text(block_hash.as_str(), hash) {
                return i;
            }
            i += 1;
        }
        i
    }

    /// The first block whose hash `before_block` names as its previous hash.
    pub fn get_block_before_block(&self, before_block: &Block) -> (out: Option<&Block>)
        ensures
            match out {
                Some(block) => predecessor(self@.blocks, before_block@) == Some(block@),
                None => predecessor(self@.blocks, before_block@) is None,
            },
    {
        match before_block.previous_hash() {
            Some(hash) => {
                let at = self.position_of_hash(hash);
                if at < self.blocks.len() {
                    assert(self@.blocks[at as int] == self.blocks@[at as int]@);
                    Some(&self.blocks[at])
                } else {
                    None
                }
            },
            None => None,
        }
    }

    /// The number of blocks that count for a balance before `before_block`.
    fn count_before(&self, before_block: Option<&Block>) -> (out: usize)
        ensures
            out == blocks_before_len(
                self@.blocks,
                match before_block {
                    Some(b) => Some(b@),
                    None => None,
                },
            ),
            out <= self@.blocks.len(),
    {
        match before_block {
            Some(block) => match block.previous_hash() {
                Some(hash) => {
                    let at = self.position_of_hash(hash);
                    if at < self.blocks.len() {
                        at + 1
                    } else {
                        self.blocks.len()
                    }
                },
                None => self.blocks.len(),
            },
            None => self.blocks.len(),
        }
    }

    /// The balance that the chain states for `address`: that of the latest
    /// block that states one, before `before_block` where a block is given;
    /// zero where none does.
    #[verifier::loop_isolation(false)]
    pub fn get_balance_from_database(&self, address: &str, before_block: Option<&Block>) -> (out:
        u64)
        requires
            self.wf(),
        ensures
            out == balance_before(
                self@.blocks,
                address@,
                match before_block {
                    Some(b) => Some(b@),
                    None => None,
                },
            ),
    {
        let end = self.count_before(before_block);
        let ghost counted = self@.blocks.take(end as int);
        let ghost wanted = balance_before(
            self@.blocks,
            address@,
            match before_block {
                Some(b) => Some(b@),
                None => None,
            },
        );
        let mut i: usize = end;
        while i > 0
            invariant
                self.wf(),
                i <= end <= self.blocks@.len(),
                self@.blocks.len() == self.blocks@.len(),
                counted == self@.blocks.take(end as int),
                wanted == latest_balance(counted, address@),
                latest_balance(counted, address@) == latest_balance(
                    self@.blocks.take(i as int),
                    address@,
                ),
            decreases i,
        {
            i -= 1;
            let ghost upto = self@.blocks.take(i + 1);
            assert(upto.last() == self.blocks@[i as int]@);
            assert(upto.drop_last() =~= self@.blocks.take(i as int));
            assert(self.blocks@[i as int].wf());
            if let Some(balance) = self.blocks[i].balance_state().get(address) {
                return balance;
            }
        }
        0
    }

    /// The balance of `address`: what the pending state says, else what the
    /// chain says.
    pub fn get_balance(&self, address: &str) -> (out: u64)
        requires
            self.wf(),
        ensures
            out == current_balance(self@, address@),
    {
        match self.preparing_block_state.balance_state().get(address) {
            Some(balance) => balance,
            None => self.get_balance_from_database(address, None),
        }
    }

    /// Whether the pending state holds the user transactions of a block.
    pub fn minable(&self) -> (out: bool)
        ensures
            out == (self@.pending.transactions.len()
                >= crate::consts::USER_TRANSACTIONS_PER_BLOCK),
    {
        self.preparing_block_state.filled()
    }
}

/// The balance of `address` under a pending state: what the state says,
/// else what the chain says.
pub open spec fn balance_under(
    balance_state: Seq<(Seq<char>, u64)>,
    chain: Seq<BlockView>,
    address: Seq<char>,
) -> u64 {
    match balance_in(balance_state, address) {
        Some(balance) => balance,
        None => balance_before(chain, address, None),
    }
}

/// The balances after `amount` is taken from `address`, where it has as
/// much.
pub open spec fn debited(
    balance_state: Seq<(Seq<char>, u64)>,
    chain: Seq<BlockView>,
    address: Seq<char>,
    amount: int,
) -> Result<Seq<(Seq<char>, u64)>, RemoveFromBalanceError> {
    let balance = balance_under(balance_state, chain, address);
    if amount > balance {
        Err(RemoveFromBalanceError::NotEnoughMoney)
    } else {
        Ok(with_balance(balance_state, address, (balance - amount) as u64))
    }
}

/// The balances after `amount` is given to `address`, where the sum fits
/// in 64 bits.
pub open spec fn credited(
    balance_state: Seq<(Seq<char>, u64)>,
    chain: Seq<BlockView>,
    address: Seq<char>,
    amount: u64,
) -> Result<Seq<(Seq<char>, u64)>, AddToBalanceError> {
    let balance = balance_under(balance_state, chain, address);
    if balance + amount > u64::MAX {
        Err(AddToBalanceError::Overflow)
    } else {
        Ok(with_balance(balance_state, address, (balance + amount) as u64))
    }
}

/// The number of transactions that users send, which is all but the
/// storage's.
pub open spec fn user_count(transactions: Seq<TransactionView>) -> int
    decreases transactions.len(),
{
    if transactions.len() == 0 {
        0
    } else {
        user_count(transactions.drop_last()) + if transactions.last().sender
            != storage_address() {
            1int
        } else {
            0int
        }
    }
}

/// Whether the pending state has no room for `t`: the user transactions of
/// a block are there and `t` is one more, or the block is full.
pub open spec fn limit_reached(engine: BlockchainView, t: TransactionView) -> bool {
    ||| t.sender != storage_address() && user_count(engine.pending.transactions)
        == USER_TRANSACTIONS_PER_BLOCK
    ||| engine.pending.transactions.len() >= TRANSACTIONS_PER_BLOCK
}

/// The pending state after `t` is admitted: the sender pays amount and
/// storage share, the recipient receives the amount, the storage its share,
/// and `t` comes last. The error is that of the first step that fails: room,
/// integrity, the sender's balance, the recipient's, the storage's.
pub open spec fn admission(engine: BlockchainView, t: TransactionView) -> Result<
    PreparingBlockStateView,
    AddTransactionError,
> {
    if limit_reached(engine, t) {
        Err(AddTransactionError::LimitReached)
    } else {
        match transaction_check(t, last_block_hash(engine.blocks)) {
            Err(e) => Err(AddTransactionError::ValidateIntegrity(e)),
            Ok(()) => match debited(
                engine.pending.balance_state,
                engine.blocks,
                t.sender,
                t.amount + t.amount_to_storage,
            ) {
                Err(e) => Err(AddTransactionError::RemoveFromBalance(e)),
                Ok(paid) => match credited(paid, engine.blocks, t.recipient, t.amount) {
                    Err(e) => Err(AddTransactionError::AddToRecipientBalance(e)),
                    Ok(received) => if t.amount_to_storage == 0 {
                        Ok(
                            PreparingBlockStateView {
                                transactions: engine.pending.transactions.push(t),
                                balance_state: received,
                            },
                        )
                    } else {
                        match credited(
                            received,
                            engine.blocks,
                            storage_address(),
                            t.amount_to_storage,
                        ) {
                            Err(e) => Err(AddTransactionError::AddToStorageBalance(e)),
                            Ok(shared) => Ok(
                                PreparingBlockStateView {
                                    transactions: engine.pending.transactions.push(t),
                                    balance_state: shared,
                                },
                            ),
                        }
                    },
                },
            },
        }
    }
}

/// Whether the pending state is what the admission of its transactions has
/// led to on this chain: every address holds what the chain says and what
/// the pending transactions change, each pending transaction fits the chain,
/// and everyone whom one of them touches has a pending balance.
pub open spec fn pending_is_booked(engine: BlockchainView) -> bool {
    &&& forall|address: Seq<char>|
        #[trigger] balance_under(engine.pending.balance_state, engine.blocks, address)
            == balance_before(engine.blocks, address, None) + received_by(
            engine.pending.transactions,
            address,
        ) - spent_by(engine.pending.transactions, address)
    &&& forall|k: int|
        0 <= k < engine.pending.transactions.len() ==> is_booked(
            engine,
            #[trigger] engine.pending.transactions[k],
        )
}

/// Whether a pending transaction fits the chain, and everyone whom it
/// touches has a pending balance.
pub open spec fn is_booked(engine: BlockchainView, t: TransactionView) -> bool {
    &&& transaction_check(t, last_block_hash(engine.blocks)) is Ok
    &&& has_balance(engine.pending.balance_state, t.sender)
    &&& has_balance(engine.pending.balance_state, t.recipient)
    &&& t.amount_to_storage > 0 ==> has_balance(engine.pending.balance_state, storage_address())
}

/// The engine with another pending state.
pub open spec fn with_pending(engine: BlockchainView, pending: PreparingBlockStateView)
    -> BlockchainView {
    BlockchainView { pending, ..engine }
}

/// What an admission changes for one address: it holds what it held, less
/// what it pays as the sender, and what it receives as the recipient or as
/// the storage.
pub proof fn lemma_admission_books(engine: BlockchainView, t: TransactionView, address: Seq<char>)
    requires
        sorted_entries(engine.pending.balance_state),
        admission(engine, t) is Ok,
    ensures
        balance_under(admission(engine, t)->Ok_0.balance_state, engine.blocks, address)
            == balance_under(engine.pending.balance_state, engine.blocks, address) + (
        received_by(seq![t], address) - spent_by(seq![t], address)),
        has_balance(admission(engine, t)->Ok_0.balance_state, address) <==> (has_balance(
            engine.pending.balance_state,
            address,
        ) || address == t.sender || address == t.recipient || (t.amount_to_storage > 0
            && address == storage_address())),
{
    let chain = engine.blocks;
    let start = engine.pending.balance_state;
    let cost = t.amount + t.amount_to_storage;
    let paid = debited(start, chain, t.sender, cost)->Ok_0;
    lemma_with_balance_sorted(
        start,
        t.sender,
        (balance_under(start, chain, t.sender) - cost) as u64,
    );
    let received = credited(paid, chain, t.recipient, t.amount)->Ok_0;
    lemma_with_balance_sorted(
        paid,
        t.recipient,
        (balance_under(paid, chain, t.recipient) + t.amount) as u64,
    );
    if t.amount_to_storage != 0 {
        lemma_with_balance_sorted(
            received,
            storage_address(),
            (balance_under(received, chain, storage_address()) + t.amount_to_storage) as u64,
        );
    }
    let one = seq![t];
    assert(one.drop_last() =~= Seq::<TransactionView>::empty());
    assert(one.last() == t);
    assert(received_by(one.drop_last(), address) == 0);
    assert(spent_by(one.drop_last(), address) == 0);
}

/// What the transactions change for an address when one more comes last.
pub proof fn lemma_turnover_push(
    transactions: Seq<TransactionView>,
    t: TransactionView,
    address: Seq<char>,
)
    ensures
        received_by(transactions.push(t), address) == received_by(transactions, address)
            + received_by(seq![t], address),
        spent_by(transactions.push(t), address) == spent_by(transactions, address) + spent_by(
            seq![t],
            address,
        ),
{
    let longer = transactions.push(t);
    assert(longer.drop_last() =~= transactions);
    assert(longer.last() == t);
    let one = seq![t];
    assert(one.drop_last() =~= Seq::<TransactionView>::empty());
    assert(one.last() == t);
    assert(received_by(one.drop_last(), address) == 0);
    assert(spent_by(one.drop_last(), address) == 0);
}

/// An admission leaves a pending state that is booked, where it found one.
pub proof fn lemma_admission_stays_booked(engine: BlockchainView, t: TransactionView)
    requires
        sorted_entries(engine.pending.balance_state),
        pending_is_booked(engine),
        admission(engine, t) is Ok,
    ensures
        pending_is_booked(with_pending(engine, admission(engine, t)->Ok_0)),
        sorted_entries(admission(engine, t)->Ok_0.balance_state),
        admission(engine, t)->Ok_0.transactions == engine.pending.transactions.push(t),
{
    let pending = admission(engine, t)->Ok_0;
    let after = with_pending(engine, pending);
    lemma_admission_keeps_order(engine, t);
    assert forall|address: Seq<char>|
        #[trigger] balance_under(after.pending.balance_state, after.blocks, address)
            == balance_before(after.blocks, address, None) + received_by(
            after.pending.transactions,
            address,
        ) - spent_by(after.pending.transactions, address) by {
        lemma_admission_books(engine, t, address);
        lemma_turnover_push(engine.pending.transactions, t, address);
        assert(balance_under(engine.pending.balance_state, engine.blocks, address)
            == balance_before(engine.blocks, address, None) + received_by(
            engine.pending.transactions,
            address,
        ) - spent_by(engine.pending.transactions, address));
    }
    assert forall|k: int| 0 <= k < after.pending.transactions.len() implies is_booked(
        after,
        #[trigger] after.pending.transactions[k],
    ) by {
        let u = after.pending.transactions[k];
        lemma_admission_books(engine, t, u.sender);
        lemma_admission_books(engine, t, u.recipient);
        lemma_admission_books(engine, t, storage_address());
        if k < engine.pending.transactions.len() {
            assert(u == engine.pending.transactions[k]);
            assert(is_booked(engine, engine.pending.transactions[k]));
        }
    }
}

impl Blockchain {
    /// The balance of `address` under `pending`.
    fn balance_with(&self, pending: &PreparingBlockState, address: &str) -> (out: u64)
        requires
            self.wf(),
            pending.wf(),
        ensures
            out == balance_under(pending@.balance_state, self@.blocks, address@),
    {
        match pending.balance_state().get(address) {
            Some(balance) => balance,
            None => self.get_balance_from_database(address, None),
        }
    }

    /// Adds `amount` to the balance of `address` under `pending` and states
    /// the new balance there.
    fn add_to_balance(&self, pending: &mut PreparingBlockState, address: &str, amount: u64) -> (out:
        Result<(), AddToBalanceError>)
        requires
            self.wf(),
            old(pending).wf(),
        ensures
            final(pending).wf(),
            match credited(old(pending)@.balance_state, self@.blocks, address@, amount) {
                Ok(balance_state) => out is Ok && final(pending)@ == (PreparingBlockStateView {
                    balance_state,
                    ..old(pending)@
                }),
                Err(e) => out == Err::<(), AddToBalanceError>(e) && final(pending)@ == old(pending)@,
            },
    {
        let balance = self.balance_with(pending, address);
        match balance.checked_add(amount) {
            Some(raised) => {
                pending.set_balance(address, raised);
                Ok(())
            },
            None => Err(AddToBalanceError::Overflow),
        }
    }

    /// Takes `amount` from the balance of `address` under `pending` and
    /// states the new balance there.
    fn remove_from_balance(
        &self,
        pending: &mut PreparingBlockState,
        address: &str,
        amount: u128,
    ) -> (out: Result<(), RemoveFromBalanceError>)
        requires
            self.wf(),
            old(pending).wf(),
        ensures
            final(pending).wf(),
            match debited(old(pending)@.balance_state, self@.blocks, address@, amount as int) {
                Ok(balance_state) => out is Ok && final(pending)@ == (PreparingBlockStateView {
                    balance_state,
                    ..old(pending)@
                }),
                Err(e) => out == Err::<(), RemoveFromBalanceError>(e) && final(pending)@ == old(pending)@,
            },
    {
        let balance = self.balance_with(pending, address);
        if amount > balance as u128 {
            return Err(RemoveFromBalanceError::NotEnoughMoney);
        }
        pending.set_balance(address, (balance as u128 - amount) as u64);
        Ok(())
    }

    /// The number of pending transactions that users sent.
    fn count_user_transactions(&self) -> (out: usize)
        ensures
            out == user_count(self@.pending.transactions),
    {
        let items = self.preparing_block_state.transactions();
        let ghost views = self@.pending.transactions;
        let mut count: usize = 0;
        let mut i: usize = 0;
        while i < items.len()
            invariant
                i <= items@.len() <= TRANSACTIONS_PER_BLOCK,
                views.len() == items@.len(),
                forall|k: int| 0 <= k < items@.len() ==> (#[trigger] items@[k])@ == views[k],
                count == user_count(views.take(i as int)),
                count <= i,
            decreases items@.len() - i,
        {
            proof {
                let next = views.take(i + 1);
                assert(next.drop_last() =~= views.take(i as int));
                assert(next.last() == items@[i as int]@);
            }
            if !is_storage(items[i].sender()) {
                count += 1;
            }
            i += 1;
        }
        assert(views.take(i as int) =~= views);
        count
    }

    /// Admits a transaction to the pending state. A transaction that is
    /// refused leaves the state as it was.
    pub fn add_transaction(&mut self, transaction: Transaction) -> (out: Result<
        (),
        AddTransactionError,
    >)
        requires
            old(self).wf(),
        ensures
            final(self).wf(),
            final(self)@.blocks == old(self)@.blocks,
            final(self)@.miner == old(self)@.miner,
            match admission(old(self)@, transaction@) {
                Ok(pending) => out is Ok && final(self)@.pending == pending,
                Err(e) => out == Err::<(), AddTransactionError>(e) && final(self)@.pending
                    == old(self)@.pending,
            },
    {
        let pending_count = self.preparing_block_state.transactions().len();
        if (!is_storage(transaction.sender()) && self.count_user_transactions()
            == USER_TRANSACTIONS_PER_BLOCK as usize) || pending_count
            >= TRANSACTIONS_PER_BLOCK as usize {
            return Err(AddTransactionError::LimitReached);
        }
        if let Err(e) = transaction.validate_integrity(self) {
            return Err(AddTransactionError::ValidateIntegrity(e));
        }
        let mut pending = self.preparing_block_state.clone();
        let sender_costs = transaction.amount() as u128 + transaction.amount_to_storage() as u128;
        if let Err(e) = self.remove_from_balance(&mut pending, transaction.sender(), sender_costs) {
            return Err(AddTransactionError::RemoveFromBalance(e));
        }
        if let Err(e) = self.add_to_balance(
            &mut pending,
            transaction.recipient(),
            transaction.amount(),
        ) {
            return Err(AddTransactionError::AddToRecipientBalance(e));
        }
        if transaction.amount_to_storage() != 0 {
            if let Err(e) = self.add_to_balance(
                &mut pending,
                STORAGE_ADDRESS,
                transaction.amount_to_storage(),
            ) {
                return Err(AddTransactionError::AddToStorageBalance(e));
            }
        }
        pending.push(transaction);
        self.preparing_block_state = pending;
        proof {
            old(self).lemma_wf();
            lemma_admission_stays_booked(old(self)@, transaction@);
            assert(self@ == with_pending(old(self)@, admission(old(self)@, transaction@)->Ok_0));
        }
        Ok(())
    }
}

/// The plain values of a sequence of blocks.
pub open spec fn block_views(blocks: Seq<Block>) -> Seq<BlockView> {
    Seq::new(blocks.len(), |i: int| blocks[i]@)
}

/// The chain after `block` is added at the time `now`: a first block is
/// taken as it is, any other must fit the chain.
pub open spec fn addition(chain: Seq<BlockView>, block: BlockView, is_genesis: bool, now: u64)
    -> Result<Seq<BlockView>, AddBlockError> {
    if is_genesis {
        Ok(chain.push(block))
    } else {
        match block_check(block, chain, now) {
            Ok(()) => Ok(chain.push(block)),
            Err(e) => Err(AddBlockError::ValidateIntegrity(e)),
        }
    }
}

/// The balances of the first block: the miner's reward and the storage's
/// start balance.
pub open spec fn genesis_balance_state(miner: Seq<char>) -> Seq<(Seq<char>, u64)> {
    with_balance(
        with_balance(Seq::empty(), miner, GENESIS_BLOCK_REWARD),
        storage_address(),
        STORAGE_START_BALANCE,
    )
}

/// The unsigned transaction by which the storage pays `amount` to
/// `recipient` on a chain whose last block has the hash `last_hash`.
pub open spec fn storage_transaction(
    recipient: Seq<char>,
    amount: u64,
    last_hash: Seq<char>,
    random_string: Seq<char>,
) -> TransactionView {
    TransactionView {
        sender: storage_address(),
        recipient,
        amount,
        amount_to_storage: storage_share(amount),
        previous_block_hash: last_hash,
        random_string,
        sender_signature: None,
    }
}

/// Whether `t` is the reward that the storage pays to `miner` on a chain
/// whose last block has the hash `last_hash`.
pub open spec fn is_reward(t: TransactionView, miner: Seq<char>, last_hash: Seq<char>) -> bool {
    &&& t == storage_transaction(miner, MINING_REWARD, last_hash, t.random_string)
    &&& is_random_string(t.random_string)
}

/// Why the engine cannot pay its miner the reward, if it cannot: the chain
/// is empty, or the reward is not admitted.
pub open spec fn reward_refusal(engine: BlockchainView) -> Option<MakeStorageTransactionError> {
    match last_block_hash(engine.blocks) {
        Err(e) => Some(MakeStorageTransactionError::GetLastBlockHash(e)),
        Ok(hash) => match admission(
            engine,
            storage_transaction(engine.miner.address, MINING_REWARD, hash, Seq::empty()),
        ) {
            Err(e) => Some(MakeStorageTransactionError::Add(e)),
            Ok(_) => None,
        },
    }
}

/// Whether `block` is what the engine makes of its pending state: the
/// miner's block on the last hash, with the pending transactions, the reward
/// behind them, and the balances that their admission leads to; with the
/// first nonce that gives the proof of work; and signed by the miner.
pub open spec fn is_candidate_block(engine: BlockchainView, block: BlockView) -> bool {
    &&& engine.blocks.len() > 0
    &&& block_wf(block)
    &&& block.miner == engine.miner.address
    &&& block.previous_hash == Some(block_hash(engine.blocks.last()))
    &&& block.transactions.len() == engine.pending.transactions.len() + 1
    &&& is_reward(
        block.transactions.last(),
        engine.miner.address,
        block_hash(engine.blocks.last()),
    )
    &&& admission(engine, block.transactions.last()) == Ok::<
        PreparingBlockStateView,
        AddTransactionError,
    >(
        PreparingBlockStateView {
            transactions: block.transactions,
            balance_state: block.balance_state,
        },
    )
    &&& has_proof_of_work(block)
    &&& no_proof_of_work_between(block, 0, block.nonce as int)
    &&& block.miner_signature is Some
    &&& signed_text(engine.miner.private_key, block_hash(block)) == Ok::<
        Seq<char>,
        crate::error::UserSignError,
    >(block.miner_signature->0)
    &&& miner_signature_check(block) is Ok
}

/// Whether `draft` is the block that the engine makes of its pending state
/// before the mining: the miner's block on the last hash, with the pending
/// transactions, the reward behind them, and the balances that their
/// admission leads to; with the nonce zero and no signature.
pub open spec fn is_block_draft(engine: BlockchainView, draft: BlockView) -> bool {
    &&& engine.blocks.len() > 0
    &&& block_wf(draft)
    &&& draft.miner == engine.miner.address
    &&& draft.previous_hash == Some(block_hash(engine.blocks.last()))
    &&& draft.transactions.len() == engine.pending.transactions.len() + 1
    &&& is_reward(
        draft.transactions.last(),
        engine.miner.address,
        block_hash(engine.blocks.last()),
    )
    &&& admission(engine, draft.transactions.last()) == Ok::<
        PreparingBlockStateView,
        AddTransactionError,
    >(
        PreparingBlockStateView {
            transactions: draft.transactions,
            balance_state: draft.balance_state,
        },
    )
    &&& draft.nonce == 0
    &&& draft.miner_signature is None
}

/// What comes of a block after the search for its proof of work, on the
/// chain `chain` and for the miner with the private key `key`. A search that
/// failed gives its error. After one that succeeded the block is signed, and
/// the signed block is added at the time `now`: the outcome is the block
/// that was added, or the error of the signing or of the adding.
pub open spec fn mining_outcome(
    chain: Seq<BlockView>,
    key: Seq<u8>,
    block: BlockView,
    search: Result<(), GenerateBlockProofOfWorkError>,
    now: u64,
) -> Result<BlockView, MineBlockError> {
    match search {
        Err(e) => Err(MineBlockError::GenerateBlockProofOfWork(e)),
        Ok(()) => match signed_text(key, block_hash(block)) {
            Err(e) => Err(MineBlockError::SignBlock(SignBlockError::UserSign(e))),
            Ok(signature) => match addition(
                chain,
                with_miner_signature(block, signature),
                false,
                now,
            ) {
                Ok(_) => Ok(with_miner_signature(block, signature)),
                Err(e) => Err(MineBlockError::AddBlock(e)),
            },
        },
    }
}

/// Whether `out` is what the mining of a block can come to for the engine.
/// Where the reward is refused, that is the error. Else a draft is made of
/// the pending state at some time, its proof of work is sought, and the
/// outcome is what comes of the block that the search has left, at some
/// time `now`.
pub open spec fn is_mining_outcome(
    engine: BlockchainView,
    out: Result<BlockView, MineBlockError>,
) -> bool {
    match reward_refusal(engine) {
        Some(e) => out == Err::<BlockView, MineBlockError>(
            MineBlockError::MakeStorageTransaction(e),
        ),
        None => exists|
            block: BlockView,
            search: Result<(), GenerateBlockProofOfWorkError>,
            now: u64,
        |
            {
                &&& is_block_draft(engine, with_nonce(block, 0))
                &&& is_search(with_nonce(block, 0), block, search)
                &&& #[trigger] mining_outcome(
                    engine.blocks,
                    engine.miner.private_key,
                    block,
                    search,
                    now,
                ) == out
            },
    }
}

/// The outcome of a mining with the block that it returns as plain values.
pub open spec fn mined_view(out: Result<Block, MineBlockError>) -> Result<
    BlockView,
    MineBlockError,
> {
    match out {
        Ok(block) => Ok(block@),
        Err(e) => Err(e),
    }
}

/// The first block of the engine's miner as it is made at the time
/// `created_at`, before its mining: without transactions, with the first
/// balances, the nonce zero and no signature.
pub open spec fn genesis_draft(engine: BlockchainView, created_at: u64) -> BlockView {
    BlockView {
        miner: engine.miner.address,
        previous_hash: None,
        transactions: Seq::empty(),
        balance_state: genesis_balance_state(engine.miner.address),
        nonce: 0,
        created_at,
        miner_signature: None,
    }
}

/// Whether `block` and `search` are what the search for a proof of work can
/// leave of `draft`: the block is the draft with a nonce that is not
/// smaller, no nonce between the two gives the proof of work, a search that
/// succeeds has found it, and one that gives up has tried the largest nonce.
pub open spec fn is_search(
    draft: BlockView,
    block: BlockView,
    search: Result<(), GenerateBlockProofOfWorkError>,
) -> bool {
    &&& block == with_nonce(draft, block.nonce)
    &&& draft.nonce <= block.nonce
    &&& no_proof_of_work_between(draft, draft.nonce as int, block.nonce as int)
    &&& search is Ok ==> has_proof_of_work(block)
    &&& search == Err::<(), GenerateBlockProofOfWorkError>(
        GenerateBlockProofOfWorkError::NonceExhausted,
    ) ==> block.nonce == u64::MAX && !has_proof_of_work(block)
}

/// What comes of a first block after the search for its proof of work. A
/// search that failed gives its error. After one that succeeded the block is
/// signed by the miner: the signed block is the outcome, or the error of the
/// signing.
pub open spec fn genesis_outcome(
    engine: BlockchainView,
    block: BlockView,
    search: Result<(), GenerateBlockProofOfWorkError>,
) -> Result<BlockView, MineGenesisBlockError> {
    match search {
        Err(e) => Err(MineGenesisBlockError::GenerateBlockProofOfWork(e)),
        Ok(()) => match signed_text(engine.miner.private_key, block_hash(block)) {
            Ok(signature) => Ok(with_miner_signature(block, signature)),
            Err(e) => Err(MineGenesisBlockError::SignBlock(SignBlockError::UserSign(e))),
        },
    }
}

/// Whether `block` is a first block as the engine mines it: the miner's,
/// without transactions, with the first balances, the first nonce that gives
/// the proof of work, and the miner's signature.
pub open spec fn is_genesis_block(engine: BlockchainView, block: BlockView) -> bool {
    &&& block_wf(block)
    &&& block.miner == engine.miner.address
    &&& block.previous_hash is None
    &&& block.transactions.len() == 0
    &&& block.balance_state == genesis_balance_state(engine.miner.address)
    &&& has_proof_of_work(block)
    &&& no_proof_of_work_between(block, 0, block.nonce as int)
    &&& block.miner_signature is Some
    &&& signed_text(engine.miner.private_key, block_hash(block)) == Ok::<
        Seq<char>,
        crate::error::UserSignError,
    >(block.miner_signature->0)
    &&& miner_signature_check(block) is Ok
}

/// Whether a transaction of the storage is admitted does not depend on its
/// random string, nor do the balances that its admission leads to.
pub proof fn lemma_storage_transaction_admission(
    engine: BlockchainView,
    recipient: Seq<char>,
    amount: u64,
    last_hash: Seq<char>,
    first: Seq<char>,
    second: Seq<char>,
)
    ensures
        match admission(engine, storage_transaction(recipient, amount, last_hash, first)) {
            Ok(pending) => admission(
                engine,
                storage_transaction(recipient, amount, last_hash, second),
            ) matches Ok(other) && other.balance_state == pending.balance_state,
            Err(e) => admission(engine, storage_transaction(recipient, amount, last_hash, second))
                == Err::<PreparingBlockStateView, AddTransactionError>(e),
        },
{
}

/// Replaying `blocks` from position `from` on, at the time `now`: the first
/// block is taken as it is, each later one must fit the blocks before it.
/// The first that does not gives the error.
pub open spec fn replay_from(blocks: Seq<BlockView>, now: u64, from: int) -> Result<
    (),
    AddBlockError,
>
    decreases blocks.len() - from,
{
    if from >= blocks.len() || from < 0 {
        Ok(())
    } else {
        match addition(blocks.take(from), blocks[from], from == 0, now) {
            Err(e) => Err(e),
            Ok(_) => replay_from(blocks, now, from + 1),
        }
    }
}

/// The JSON texts of the blocks, separated by commas.
pub open spec fn blocks_items_json(blocks: Seq<BlockView>) -> Seq<char>
    decreases blocks.len(),
{
    if blocks.len() == 0 {
        Seq::empty()
    } else if blocks.len() == 1 {
        block_json(blocks[0])
    } else {
        blocks_items_json(blocks.drop_last()) + ","@ + block_json(blocks.last())
    }
}

/// The JSON array of the blocks.
pub open spec fn blocks_json(blocks: Seq<BlockView>) -> Seq<char> {
    "["@ + blocks_items_json(blocks) + "]"@
}

impl Blockchain {
    /// Makes the transaction by which the storage pays `amount` to
    /// `recipient`, and admits it.
    fn make_storage_transaction(&mut self, recipient: String, amount: u64) -> (out: Result<
        Transaction,
        MakeStorageTransactionError,
    >)
        requires
            old(self).wf(),
            amount > 0,
        ensures
            final(self).wf(),
            final(self)@.blocks == old(self)@.blocks,
            final(self)@.miner == old(self)@.miner,
            match last_block_hash(old(self)@.blocks) {
                Err(e) => out matches Err(MakeStorageTransactionError::GetLastBlockHash(x)) && x
                    == e && final(self)@.pending == old(self)@.pending,
                Ok(hash) => match admission(
                    old(self)@,
                    storage_transaction(recipient@, amount, hash, Seq::empty()),
                ) {
                    Ok(_) => {
                        &&& out matches Ok(t)
                        &&& t@ == storage_transaction(recipient@, amount, hash, t@.random_string)
                        &&& is_random_string(t@.random_string)
                        &&& admission(old(self)@, t@) == Ok::<
                            PreparingBlockStateView,
                            AddTransactionError,
                        >(final(self)@.pending)
                    },
                    Err(e) => {
                        &&& out matches Err(MakeStorageTransactionError::Add(x))
                        &&& x == e
                        &&& final(self)@.pending == old(self)@.pending
                    },
                },
            },
    {
        let hash = match self.get_last_block_hash() {
            Ok(hash) => hash,
            Err(e) => {
                return Err(MakeStorageTransactionError::GetLastBlockHash(e));
            },
        };
        let transaction = Transaction::new(
            STORAGE_ADDRESS,
            recipient.as_str(),
            amount,
            hash.as_str(),
        );
        proof {
            lemma_storage_transaction_admission(
                old(self)@,
                recipient@,
                amount,
                hash@,
                Seq::empty(),
                transaction@.random_string,
            );
            lemma_storage_transaction_admission(
                old(self)@,
                recipient@,
                amount,
                hash@,
                transaction@.random_string,
                Seq::empty(),
            );
        }
        match self.add_transaction(transaction.clone()) {
            Ok(()) => Ok(transaction),
            Err(e) => Err(MakeStorageTransactionError::Add(e)),
        }
    }

    /// Adds `block` at the time `now`. A first block is taken as it is, any
    /// other is validated against the chain. Whatever comes of it, the
    /// pending state is cleared and the mining flag unset: a new block ends
    /// the work on the old chain.
    pub fn add_block_at(
        &mut self,
        block: &Block,
        is_genesis: bool,
        now: u64,
        is_mining: &std::sync::atomic::AtomicBool,
    ) -> (out: Result<(), AddBlockError>)
        requires
            old(self).wf(),
            block.wf(),
            is_genesis ==> old(self)@.blocks.len() == 0,
        ensures
            final(self).wf(),
            final(self)@.miner == old(self)@.miner,
            final(self)@.pending == empty_state(),
            match addition(old(self)@.blocks, block@, is_genesis, now) {
                Ok(blocks) => out is Ok && final(self)@.blocks == blocks,
                Err(e) => out == Err::<(), AddBlockError>(e) && final(self)@.blocks == old(self)@.blocks,
            },
    {
        self.preparing_block_state.clear();
        crate::mining::unset(is_mining);
        assert(self@.blocks =~= old(self)@.blocks);
        if !is_genesis {
            if let Err(e) = block.validate_integrity_at(self, now) {
                return Err(AddBlockError::ValidateIntegrity(e));
            }
        }
        self.blocks.push(block.clone());
        assert(self@.blocks =~= old(self)@.blocks.push(block@));
        proof {
            if !is_genesis {
                assert(block_check(block@, old(self)@.blocks, now) is Ok);
            }
            lemma_chain_grows(old(self)@.blocks, block@);
        }
        Ok(())
    }

    /// Adds `block` at the time that the clock shows.
    pub fn add_block(
        &mut self,
        block: &Block,
        is_genesis: bool,
        is_mining: &std::sync::atomic::AtomicBool,
    ) -> (out: Result<(), AddBlockError>)
        requires
            old(self).wf(),
            block.wf(),
            is_genesis ==> old(self)@.blocks.len() == 0,
        ensures
            final(self).wf(),
            final(self)@.miner == old(self)@.miner,
            final(self)@.pending == empty_state(),
            exists|now: u64|
                match #[trigger] addition(old(self)@.blocks, block@, is_genesis, now) {
                    Ok(blocks) => out is Ok && final(self)@.blocks == blocks,
                    Err(e) => out == Err::<(), AddBlockError>(e) && final(self)@.blocks == old(self)@.blocks,
                },
    {
        let now = get_timestamp();
        self.add_block_at(block, is_genesis, now, is_mining)
    }

    /// Ends the mining of a first block. `block` is the block as the search
    /// for its proof of work left it, `search` what the search gave. After a
    /// search that failed nothing is changed. After one that succeeded the
    /// block is signed by the miner and becomes the chain's first block;
    /// where it is not signed, nothing is changed.
    pub fn finish_genesis_block(
        &mut self,
        block: Block,
        search: Result<(), GenerateBlockProofOfWorkError>,
        is_mining: &std::sync::atomic::AtomicBool,
    ) -> (out: Result<Block, MineGenesisBlockError>)
        requires
            old(self).wf(),
            old(self)@.blocks.len() == 0,
            block.wf(),
        ensures
            final(self).wf(),
            final(self)@.miner == old(self)@.miner,
            match genesis_outcome(old(self)@, block@, search) {
                Ok(signed) => {
                    &&& out matches Ok(added)
                    &&& added.wf()
                    &&& added@ == signed
                    &&& final(self)@.blocks == old(self)@.blocks.push(signed)
                    &&& final(self)@.pending == empty_state()
                },
                Err(e) => out matches Err(x) && x == e && final(self)@ == old(self)@,
            },
            out is Ok && block@.miner == old(self)@.miner.address ==> miner_signature_check(
                out->Ok_0@,
            ) is Ok,
    {
        let mut block = block;
        if let Err(e) = search {
            if let GenerateBlockProofOfWorkError::NonceExhausted = e {
                crate::mining::unset(is_mining);
            }
            return Err(MineGenesisBlockError::GenerateBlockProofOfWork(e));
        }
        crate::mining::unset(is_mining);
        if let Err(e) = block.sign(&self.miner) {
            return Err(MineGenesisBlockError::SignBlock(e));
        }
        match self.add_block_at(&block, true, 0, is_mining) {
            Ok(()) => Ok(block),
            Err(_) => vstd::pervasive::unreached(),
        }
    }

    /// Mines the first block: the miner receives the genesis reward, the
    /// storage its start balance. The block holds no transaction.
    ///
    /// The block is made at the time that the clock shows, and its proof of
    /// work is sought under the mining flag; what comes of the search is
    /// what `finish_genesis_block` makes of it. A success leaves a chain of
    /// this one block, which has its proof of work and the miner's
    /// signature. A failure, of the search or of the signing, leaves the
    /// engine as it was.
    pub fn mine_genesis_block(&mut self, is_mining: &std::sync::atomic::AtomicBool) -> (out:
        Result<Block, MineGenesisBlockError>)
        requires
            old(self).wf(),
            old(self)@.blocks.len() == 0,
        ensures
            final(self).wf(),
            final(self)@.miner == old(self)@.miner,
            match out {
                Ok(block) => {
                    &&& block.wf()
                    &&& is_genesis_block(old(self)@, block@)
                    &&& final(self)@.blocks == old(self)@.blocks.push(block@)
                    &&& final(self)@.pending == empty_state()
                },
                Err(_) => final(self)@ == old(self)@,
            },
            exists|block: BlockView, search: Result<(), GenerateBlockProofOfWorkError>|
                {
                    &&& #[trigger] is_search(
                        genesis_draft(old(self)@, block.created_at),
                        block,
                        search,
                    )
                    &&& match genesis_outcome(old(self)@, block, search) {
                        Ok(signed) => out matches Ok(added) && added@ == signed,
                        Err(e) => out matches Err(x) && x == e,
                    }
                },
    {
        let mut state = BalanceState::new();
        state.insert(self.miner.address().to_owned(), GENESIS_BLOCK_REWARD);
        state.insert(STORAGE_ADDRESS.to_owned(), STORAGE_START_BALANCE);
        let mut block = Block::new(self.miner.address(), None, transactions_new(), state);
        let ghost fresh = block@;
        assert(fresh.transactions =~= Seq::<TransactionView>::empty());
        assert(fresh == genesis_draft(old(self)@, fresh.created_at));
        crate::mining::set(is_mining);
        let search = block.generate_proof_of_work(is_mining);
        let ghost mined = block@;
        assert(is_search(genesis_draft(old(self)@, mined.created_at), mined, search));
        let out = self.finish_genesis_block(block, search, is_mining);
        proof {
            if out is Ok {
                let added = out->Ok_0@;
                assert(block_body_json(added) == block_body_json(mined));
                assert forall|n: u64| 0 <= n < added.nonce implies !has_proof_of_work(
                    #[trigger] with_nonce(added, n),
                ) by {
                    assert(block_body_json(with_nonce(added, n)) == block_body_json(
                        with_nonce(fresh, n),
                    ));
                }
            }
        }
        out
    }

    /// Ends the mining of a block. `block` is the block as the search for
    /// its proof of work left it, `search` what the search gave. After a
    /// search that failed nothing is changed. After one that succeeded the
    /// block is signed by the miner and added at the time `now`; where it is
    /// not signed, nothing is changed, and where it is not added, the chain
    /// stays as it was and the pending state is cleared.
    pub fn finish_block(
        &mut self,
        block: Block,
        search: Result<(), GenerateBlockProofOfWorkError>,
        now: u64,
        is_mining: &std::sync::atomic::AtomicBool,
    ) -> (out: Result<Block, MineBlockError>)
        requires
            old(self).wf(),
            block.wf(),
        ensures
            final(self).wf(),
            final(self)@.miner == old(self)@.miner,
            match mining_outcome(
                old(self)@.blocks,
                old(self)@.miner.private_key,
                block@,
                search,
                now,
            ) {
                Ok(signed) => {
                    &&& out matches Ok(added)
                    &&& added.wf()
                    &&& added@ == signed
                    &&& final(self)@.blocks == old(self)@.blocks.push(signed)
                    &&& final(self)@.pending == empty_state()
                },
                Err(e) => {
                    &&& out matches Err(x)
                    &&& x == e
                    &&& final(self)@.blocks == old(self)@.blocks
                    &&& final(self)@.pending == if e is AddBlock {
                        empty_state()
                    } else {
                        old(self)@.pending
                    }
                },
            },
            search is Ok && block@.miner == old(self)@.miner.address ==> (signed_text(
                old(self)@.miner.private_key,
                block_hash(block@),
            ) matches Ok(signature) ==> miner_signature_check(
                with_miner_signature(block@, signature),
            ) is Ok),
    {
        let mut block = block;
        if let Err(e) = search {
            if let GenerateBlockProofOfWorkError::NonceExhausted = e {
                crate::mining::unset(is_mining);
            }
            return Err(MineBlockError::GenerateBlockProofOfWork(e));
        }
        crate::mining::unset(is_mining);
        if let Err(e) = block.sign(&self.miner) {
            return Err(MineBlockError::SignBlock(e));
        }
        match self.add_block_at(&block, false, now, is_mining) {
            Ok(()) => Ok(block),
            Err(e) => Err(MineBlockError::AddBlock(e)),
        }
    }

    /// Mines a block from the pending state. The reward of the miner is
    /// admitted as the last transaction; then the state is taken, the block
    /// built on the last hash, its proof of work sought under the mining
    /// flag, and the block signed and added.
    ///
    /// A success returns the block that was added behind the chain: it holds
    /// the pending transactions and the reward, and states the pending
    /// balances. Where the reward is not admitted, the engine stays as it
    /// was. Any later failure leaves the chain as it was and the pending
    /// state empty. What comes of the search for the proof of work is what
    /// `finish_block` makes of it. The block is refused only where mining
    /// did not go well:
    /// the pending transactions were not the two of users, a random string
    /// came twice, a balance would not fit, or the clock did not go on.
    pub fn mine_block(&mut self, is_mining: &std::sync::atomic::AtomicBool) -> (out: Result<
        Block,
        MineBlockError,
    >)
        requires
            old(self).wf(),
        ensures
            final(self).wf(),
            final(self)@.miner == old(self)@.miner,
            match out {
                Ok(block) => {
                    &&& block.wf()
                    &&& reward_refusal(old(self)@) is None
                    &&& is_candidate_block(old(self)@, block@)
                    &&& exists|now: u64| #[trigger]
                        block_check(block@, old(self)@.blocks, now) is Ok
                    &&& final(self)@.blocks == old(self)@.blocks.push(block@)
                    &&& final(self)@.pending == empty_state()
                },
                Err(MineBlockError::MakeStorageTransaction(e)) => {
                    &&& reward_refusal(old(self)@) == Some(e)
                    &&& final(self)@ == old(self)@
                },
                Err(MineBlockError::AddBlock(e)) => {
                    &&& reward_refusal(old(self)@) is None
                    &&& final(self)@.blocks == old(self)@.blocks
                    &&& final(self)@.pending == empty_state()
                    &&& exists|block: BlockView, now: u64|
                        {
                            &&& is_candidate_block(old(self)@, block)
                            &&& !crate::agreement::mines_well(old(self)@, block, now)
                            &&& #[trigger] addition(old(self)@.blocks, block, false, now) == Err::<
                                Seq<BlockView>,
                                AddBlockError,
                            >(e)
                        }
                },
                Err(_) => {
                    &&& reward_refusal(old(self)@) is None
                    &&& final(self)@.blocks == old(self)@.blocks
                    &&& final(self)@.pending == empty_state()
                },
            },
            is_mining_outcome(old(self)@, mined_view(out)),
    {
        let reward = match self.make_storage_transaction(
            self.miner.address().to_owned(),
            MINING_REWARD,
        ) {
            Ok(reward) => reward,
            Err(e) => {
                assert(self@ == old(self)@);
                return Err(MineBlockError::MakeStorageTransaction(e));
            },
        };
        let (transactions, balance_state) = self.preparing_block_state.take();
        assert(self@.blocks =~= old(self)@.blocks);
        let previous_hash = match self.get_last_block_hash() {
            Ok(hash) => hash,
            Err(_) => vstd::pervasive::unreached(),
        };
        proof {
            old(self).lemma_wf();
            lemma_admission_keeps_order(old(self)@, reward@);
        }
        let mut block = Block::new(
            self.miner.address(),
            Some(previous_hash.as_str()),
            transactions,
            balance_state,
        );
        let ghost fresh = block@;
        assert(fresh.transactions.last() == reward@);
        assert(is_block_draft(old(self)@, fresh));
        crate::mining::set(is_mining);
        let search = block.generate_proof_of_work(is_mining);
        let ghost mined = block@;
        assert(with_nonce(mined, 0) == fresh);
        assert(is_search(fresh, mined, search));
        let now = get_timestamp();
        let out = self.finish_block(block, search, now, is_mining);
        proof {
            assert(mining_outcome(
                old(self)@.blocks,
                old(self)@.miner.private_key,
                mined,
                search,
                now,
            ) == mined_view(out));
            if out is Ok {
                let added = out->Ok_0@;
                assert(block_body_json(added) == block_body_json(mined));
                assert forall|n: u64| 0 <= n < added.nonce implies !has_proof_of_work(
                    #[trigger] with_nonce(added, n),
                ) by {
                    assert(block_body_json(with_nonce(added, n)) == block_body_json(
                        with_nonce(fresh, n),
                    ));
                }
                assert(block_check(added, old(self)@.blocks, now) is Ok);
                assert(is_candidate_block(old(self)@, added));
            } else if out->Err_0 is AddBlock {
                let signature = signed_text(
                    old(self)@.miner.private_key,
                    block_hash(mined),
                )->Ok_0;
                let signed = with_miner_signature(mined, signature);
                assert(block_body_json(signed) == block_body_json(mined));
                assert forall|n: u64| 0 <= n < signed.nonce implies !has_proof_of_work(
                    #[trigger] with_nonce(signed, n),
                ) by {
                    assert(block_body_json(with_nonce(signed, n)) == block_body_json(
                        with_nonce(fresh, n),
                    ));
                }
                assert(is_candidate_block(old(self)@, signed));
                if crate::agreement::mines_well(old(self)@, signed, now) {
                    crate::agreement::lemma_mined_block_fits(old(self)@, signed, now);
                }
                assert(addition(old(self)@.blocks, signed, false, now) == Err::<
                    Seq<BlockView>,
                    AddBlockError,
                >(out->Err_0->AddBlock_0));
            }
        }
        out
    }

    /// The JSON array of the blocks, oldest first.
    pub fn to_string(&self) -> (out: String)
        ensures
            out@ == blocks_json(self@.blocks),
    {
        let mut out = String::from_str("[");
        let mut i: usize = 0;
        while i < self.blocks.len()
            invariant
                i <= self.blocks@.len(),
                self@.blocks.len() == self.blocks@.len(),
                out@ == "["@ + blocks_items_json(self@.blocks.take(i as int)),
            decreases self.blocks@.len() - i,
        {
            if i > 0 {
                out.append(",");
            }
            out.append(self.blocks[i].to_json().as_str());
            proof {
                let next = self@.blocks.take(i + 1);
                assert(next.drop_last() =~= self@.blocks.take(i as int));
                assert(next.last() == self.blocks@[i as int]@);
                assert(out@ =~= "["@ + blocks_items_json(next));
            }
            i += 1;
        }
        assert(self@.blocks.take(i as int) =~= self@.blocks);
        out.append("]");
        out
    }

    /// Rebuilds a chain from `blocks` at the time `now`: the first block is
    /// taken as it is, each later one is validated against those before it.
    /// The first block that does not fit gives the error, and no chain.
    pub fn from_blocks_at(
        miner: User,
        blocks: &Vec<Block>,
        now: u64,
        is_mining: &std::sync::atomic::AtomicBool,
    ) -> (out: Result<Blockchain, BlockchainFromStrError>)
        requires
            miner.wf(),
            forall|i: int| 0 <= i < blocks@.len() ==> (#[trigger] blocks@[i]).wf(),
        ensures
            match replay_from(block_views(blocks@), now, 0) {
                Ok(()) => out matches Ok(chain) && chain.wf() && chain@.miner == miner@
                    && chain@.blocks == block_views(blocks@) && chain@.pending == empty_state(),
                Err(e) => out matches Err(BlockchainFromStrError::AddBlock(x)) && x == e,
            },
    {
        let ghost views = block_views(blocks@);
        let mut chain = Blockchain::new(miner);
        let mut i: usize = 0;
        while i < blocks.len()
            invariant
                i <= blocks@.len(),
                views == block_views(blocks@),
                forall|k: int| 0 <= k < blocks@.len() ==> (#[trigger] blocks@[k]).wf(),
                chain.wf(),
                chain@.miner == miner@,
                chain@.blocks == views.take(i as int),
                chain@.pending == empty_state(),
                replay_from(views, now, 0) == replay_from(views, now, i as int),
            decreases blocks@.len() - i,
        {
            assert(views[i as int] == blocks@[i as int]@);
            if let Err(e) = chain.add_block_at(&blocks[i], i == 0, now, is_mining) {
                return Err(BlockchainFromStrError::AddBlock(e));
            }
            assert(chain@.blocks =~= views.take(i + 1));
            i += 1;
        }
        assert(views.take(i as int) =~= views);
        Ok(chain)
    }

    /// Rebuilds a chain from `blocks` at the time that the clock shows.
    pub fn from_blocks(
        miner: User,
        blocks: &Vec<Block>,
        is_mining: &std::sync::atomic::AtomicBool,
    ) -> (out: Result<Blockchain, BlockchainFromStrError>)
        requires
            miner.wf(),
            forall|i: int| 0 <= i < blocks@.len() ==> (#[trigger] blocks@[i]).wf(),
        ensures
            exists|now: u64|
                match #[trigger] replay_from(block_views(blocks@), now, 0) {
                    Ok(()) => out matches Ok(chain) && chain.wf() && chain@.miner == miner@
                        && chain@.blocks == block_views(blocks@) && chain@.pending
                        == empty_state(),
                    Err(e) => out matches Err(BlockchainFromStrError::AddBlock(x)) && x == e,
                },
    {
        let now = get_timestamp();
        Blockchain::from_blocks_at(miner, blocks, now, is_mining)
    }
}

/// Admission states balances in order where the pending balances were.
pub proof fn lemma_admission_keeps_order(engine: BlockchainView, t: TransactionView)
    requires
        sorted_entries(engine.pending.balance_state),
    ensures
        admission(engine, t) matches Ok(pending) ==> sorted_entries(pending.balance_state),
{
    if let Ok(pending) = admission(engine, t) {
        let paid = debited(
            engine.pending.balance_state,
            engine.blocks,
            t.sender,
            t.amount + t.amount_to_storage,
        )->Ok_0;
        lemma_with_balance_sorted(
            engine.pending.balance_state,
            t.sender,
            (balance_under(engine.pending.balance_state, engine.blocks, t.sender) - (t.amount
                + t.amount_to_storage)) as u64,
        );
        let received = credited(paid, engine.blocks, t.recipient, t.amount)->Ok_0;
        lemma_with_balance_sorted(
            paid,
            t.recipient,
            (balance_under(paid, engine.blocks, t.recipient) + t.amount) as u64,
        );
        if t.amount_to_storage != 0 {
            lemma_with_balance_sorted(
                received,
                storage_address(),
                (balance_under(received, engine.blocks, storage_address())
                    + t.amount_to_storage) as u64,
            );
        }
    }
}

} // verus!
