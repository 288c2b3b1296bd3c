//! A block: the transactions of one round, the balances after them, and the
//! proof of the work that was spent on it.
use vstd::prelude::*;
use vstd::string::*;
use vstd::utf8::encode_utf8;
use crate::balance_state::{balance_state_json, sorted_entries, BalanceState};
use crate::blockchain::Blockchain;
use crate::chain::{
    balance_state_check, block_check, created_at_check, last_block_hash,
    lemma_checked_block_has_predecessor, predecessor, previous_hash_check,
    random_strings_distinct, received_by, spent_by, storage_count, transaction_in_block_check,
    transactions_check, transactions_check_from,
};
use crate::consts::{
    is_storage, storage_address, MINING_REWARD, PROOF_OF_WORK_DIFFICULTY, TRANSACTIONS_PER_BLOCK,
};
use crate::encoding::{hex_encode, hex_text, sha256, sha256_digest};
use crate::error::{
    GenerateBlockProofOfWorkError, GetLastBlockHashError, SignBlockError,
    ValidateBlockBalanceStateError, ValidateBlockCreatedAtError, ValidateBlockIntegrityError,
    ValidateBlockIsSignedError, ValidateBlockMinerSignatureError, ValidateBlockPreviousHashError,
    ValidateBlockProofOfWorkError, ValidateBlockTransactionsError,
};
use crate::helpers::get_timestamp;
use crate::json::{
    decimal_text, json_optional_string, json_optional_string_text, json_seconds,
    json_seconds_text, json_string, json_string_text, json_unsigned,
};
use crate::text::{has_zero_prefix, same_text, starts_with_zeros};
use crate::transaction::{
    optional_text, text_or, transaction_json, Transaction, TransactionView,
};
use crate::user::{signature_check, signed_text, User};

verus! {

/// `arrayvec::ArrayVec`: a list of bounded length. Nothing is seen of it but
/// what the functions below say.
#[verifier::external_type_specification]
#[verifier::external_body]
#[verifier::reject_recursive_types(T)]
pub struct ExArrayVec<T, const CAP: usize>(arrayvec::ArrayVec<T, CAP>);

/// The transactions of a block, in the order of their admission: at most
/// three.
pub type Transactions = arrayvec::ArrayVec<Transaction, 3>;

/// The transactions that a list holds, first admitted first.
pub uninterp spec fn transactions_of(list: arrayvec::ArrayVec<Transaction, 3>) -> Seq<Transaction>;

/// The transactions that a list holds, as plain values.
pub open spec fn transaction_views(list: Transactions) -> Seq<TransactionView> {
    Seq::new(transactions_of(list).len(), |i: int| transactions_of(list)[i]@)
}

/// `ArrayVec::new`: a list that holds nothing.
#[verifier::external_body]
pub(crate) fn transactions_new() -> (list: Transactions)
    ensures
        transactions_of(list) == Seq::<Transaction>::empty(),
{
    arrayvec::ArrayVec::new()
}

/// `ArrayVec::as_slice`: the items in their order, which are no more than
/// the capacity.
#[verifier::external_body]
pub(crate) fn transactions_slice(list: &Transactions) -> (items: &[Transaction])
    ensures
        items@ == transactions_of(*list),
        items@.len() <= TRANSACTIONS_PER_BLOCK,
{
    list.as_slice()
}

/// `ArrayVec::push` on a list that is not full: the item comes last.
#[verifier::external_body]
pub(crate) fn transactions_push(list: &mut Transactions, item: Transaction)
    requires
        transactions_of(*old(list)).len() < TRANSACTIONS_PER_BLOCK,
    ensures
        transactions_of(*final(list)) == transactions_of(*old(list)).push(item),
{
    list.push(item)
}

/// `ArrayVec::clear`: nothing is left.
#[verifier::external_body]
pub(crate) fn transactions_clear(list: &mut Transactions)
    ensures
        transactions_of(*final(list)) == Seq::<Transaction>::empty(),
{
    list.clear()
}

/// `ArrayVec::take`: hands out the list and leaves an empty one.
#[verifier::external_body]
pub(crate) fn transactions_take(list: &mut Transactions) -> (taken: Transactions)
    ensures
        transactions_of(taken) == transactions_of(*old(list)),
        transactions_of(*final(list)) == Seq::<Transaction>::empty(),
{
    list.take()
}

/// A copy of a list of transactions.
pub fn transactions_clone(list: &Transactions) -> (out: Transactions)
    ensures
        transaction_views(out) == transaction_views(*list),
{
    let items = transactions_slice(list);
    let mut out = transactions_new();
    let mut i: usize = 0;
    while i < items.len()
        invariant
            i <= items@.len() <= TRANSACTIONS_PER_BLOCK,
            items@ == transactions_of(*list),
            transactions_of(out).len() == i,
            forall|k: int| 0 <= k < i ==> transactions_of(out)[k]@ == items@[k]@,
        decreases items@.len() - i,
    {
        transactions_push(&mut out, items[i].clone());
        i += 1;
    }
    assert(transaction_views(out) =~= transaction_views(*list));
    out
}

/// The JSON texts of the transactions, separated by commas.
pub open spec fn transactions_items_json(items: Seq<TransactionView>) -> Seq<char>
    decreases items.len(),
{
    if items.len() == 0 {
        Seq::empty()
    } else if items.len() == 1 {
        transaction_json(items[0])
    } else {
        transactions_items_json(items.drop_last()) + ","@ + transaction_json(items.last())
    }
}

/// The JSON array of the transactions.
pub open spec fn transactions_json(items: Seq<TransactionView>) -> Seq<char> {
    "["@ + transactions_items_json(items) + "]"@
}

/// The JSON array of a list of transactions.
pub fn transactions_to_json(list: &Transactions) -> (out: String)
    ensures
        out@ == transactions_json(transaction_views(*list)),
{
    let items = transactions_slice(list);
    let ghost views = transaction_views(*list);
    let mut out = String::from_str("[");
    let mut i: usize = 0;
    while i < items.len()
        invariant
            i <= items@.len(),
            items@ == transactions_of(*list),
            views == transaction_views(*list),
            out@ == "["@ + transactions_items_json(views.take(i as int)),
        decreases items@.len() - i,
    {
        if i > 0 {
            out.append(",");
        }
        out.append(items[i].to_json().as_str());
        proof {
            let next = views.take(i + 1);
            assert(next.drop_last() =~= views.take(i as int));
            assert(next.last() == items@[i as int]@);
            assert(out@ =~= "["@ + transactions_items_json(next));
        }
        i += 1;
    }
    assert(views.take(i as int) =~= views);
    out.append("]");
    out
}

/// A block of the chain.
#[derive(Debug)]
pub struct Block {
    miner: String,
    previous_hash: Option<String>,
    transactions: Transactions,
    balance_state: BalanceState,
    nonce: u64,
    created_at: u64,
    miner_signature: Option<String>,
}

/// What a block is, as plain values. `created_at` counts nanoseconds since
/// the Unix epoch.
pub struct BlockView {
    pub miner: Seq<char>,
    pub previous_hash: Option<Seq<char>>,
    pub transactions: Seq<TransactionView>,
    pub balance_state: Seq<(Seq<char>, u64)>,
    pub nonce: u64,
    pub created_at: u64,
    pub miner_signature: Option<Seq<char>>,
}

impl View for Block {
    type V = BlockView;

    closed spec fn view(&self) -> BlockView {
        BlockView {
            miner: self.miner@,
            previous_hash: optional_text(self.previous_hash),
            transactions: transaction_views(self.transactions),
            balance_state: self.balance_state@,
            nonce: self.nonce,
            created_at: self.created_at,
            miner_signature: optional_text(self.miner_signature),
        }
    }
}

/// The text that is hashed, up to the nonce.
pub open spec fn body_before_nonce(b: BlockView) -> Seq<char> {
    "{\"balance_state\":"@ + json_string_text(balance_state_json(b.balance_state))
        + ",\"created_at\":"@ + json_seconds_text(b.created_at) + ",\"miner\":"@
        + json_string_text(b.miner) + ",\"nonce\":"@
}

/// The text that is hashed, behind the nonce.
pub open spec fn body_after_nonce(b: BlockView) -> Seq<char> {
    ",\"previous_hash\":"@ + json_optional_string_text(b.previous_hash)
        + ",\"transactions\":"@ + json_string_text(transactions_json(b.transactions)) + "}"@
}

/// The text that is hashed: the JSON object of every field but the
/// signature, keys in alphabetical order, without spaces. The balances and
/// the transactions stand in it as strings that hold their JSON texts, the
/// time as a number of seconds.
pub open spec fn block_body_json(b: BlockView) -> Seq<char> {
    body_before_nonce(b) + decimal_text(b.nonce as nat) + body_after_nonce(b)
}

/// The JSON object of a block, fields in the order of the structure,
/// without spaces.
pub open spec fn block_json(b: BlockView) -> Seq<char> {
    "{\"miner\":"@ + json_string_text(b.miner) + ",\"previous_hash\":"@
        + json_optional_string_text(b.previous_hash) + ",\"transactions\":"@ + transactions_json(
        b.transactions,
    ) + ",\"balance_state\":"@ + balance_state_json(b.balance_state) + ",\"nonce\":"@
        + decimal_text(b.nonce as nat) + ",\"created_at\":"@ + json_seconds_text(b.created_at)
        + ",\"miner_signature\":"@ + json_optional_string_text(b.miner_signature) + "}"@
}

/// The body hash: the SHA-256 of the body's JSON text, in hexadecimal.
pub open spec fn block_hash(b: BlockView) -> Seq<char> {
    hex_text(sha256(encode_utf8(block_body_json(b))))
}

/// The block with another nonce.
pub open spec fn with_nonce(b: BlockView, nonce: u64) -> BlockView {
    BlockView { nonce, ..b }
}

/// The block with `signature` as the miner's.
pub open spec fn with_miner_signature(b: BlockView, signature: Seq<char>) -> BlockView {
    BlockView { miner_signature: Some(signature), ..b }
}

/// Whether the block's hash begins with the required zeros.
pub open spec fn has_proof_of_work(b: BlockView) -> bool {
    has_zero_prefix(block_hash(b), PROOF_OF_WORK_DIFFICULTY as nat)
}

/// Whether no nonce from `from` up to, but without, `to` gives the block a
/// proof of work.
pub open spec fn no_proof_of_work_between(b: BlockView, from: int, to: int) -> bool {
    forall|n: u64| from <= n < to ==> !has_proof_of_work(#[trigger] with_nonce(b, n))
}

/// The hash must begin with the required zeros.
pub open spec fn proof_of_work_check(b: BlockView) -> Result<(), ValidateBlockProofOfWorkError> {
    if has_proof_of_work(b) {
        Ok(())
    } else {
        Err(ValidateBlockProofOfWorkError::Invalid)
    }
}

/// The block must carry a signature.
pub open spec fn is_signed_check(b: BlockView) -> Result<(), ValidateBlockIsSignedError> {
    if b.miner_signature is None {
        Err(ValidateBlockIsSignedError::NotSigned)
    } else {
        Ok(())
    }
}

/// The signature must be the miner's over the body hash.
pub open spec fn miner_signature_check(b: BlockView) -> Result<
    (),
    ValidateBlockMinerSignatureError,
>
    recommends
        b.miner_signature is Some,
{
    match signature_check(b.miner_signature->0, block_hash(b), b.miner) {
        Ok(()) => Ok(()),
        Err(e) => Err(ValidateBlockMinerSignatureError::ValidateUserSignature(e)),
    }
}

/// The body hash leaves the signature out: signing does not change it,
/// nor the proof of work.
pub proof fn lemma_hash_ignores_signature(b: BlockView, signature: Seq<char>)
    ensures
        block_hash(with_miner_signature(b, signature)) == block_hash(b),
        has_proof_of_work(with_miner_signature(b, signature)) == has_proof_of_work(b),
{
    assert(block_body_json(with_miner_signature(b, signature)) == block_body_json(b));
}

/// Whether the balances are in order and there are no more transactions
/// than a block holds.
pub open spec fn block_wf(b: BlockView) -> bool {
    &&& sorted_entries(b.balance_state)
    &&& b.transactions.len() <= TRANSACTIONS_PER_BLOCK
}

/// What one round of mining does.
#[derive(Clone, Copy, Debug, PartialEq, Eq, Structural)]
pub enum MiningStep {
    /// The block has its proof of work.
    Found,
    /// The mining flag was unset.
    Stopped,
    /// The nonce was raised by one.
    Next,
    /// The largest nonce gave no proof of work.
    Exhausted,
}

/// What one round of mining comes to, given what was read from the mining
/// flag.
pub open spec fn mining_step(b: BlockView, is_mining: bool) -> MiningStep {
    if !is_mining {
        MiningStep::Stopped
    } else if has_proof_of_work(b) {
        MiningStep::Found
    } else if b.nonce == u64::MAX {
        MiningStep::Exhausted
    } else {
        MiningStep::Next
    }
}

/// The block after one round of mining: with the next nonce where the
/// round asks for it, else as it was.
pub open spec fn after_mining_step(b: BlockView, is_mining: bool) -> BlockView {
    if mining_step(b, is_mining) == MiningStep::Next {
        with_nonce(b, (b.nonce + 1) as u64)
    } else {
        b
    }
}

impl Clone for Block {
    fn clone(&self) -> (out: Self)
        ensures
            out@ == self@,
            self.wf() ==> out.wf(),
    {
        Block {
            miner: self.miner.clone(),
            previous_hash: match &self.previous_hash {
                Some(s) => Some(s.clone()),
                None => None,
            },
            transactions: transactions_clone(&self.transactions),
            balance_state: self.balance_state.clone(),
            nonce: self.nonce,
            created_at: self.created_at,
            miner_signature: match &self.miner_signature {
                Some(s) => Some(s.clone()),
                None => None,
            },
        }
    }
}

impl Block {
    /// The balances are in order, and there are no more transactions than a
    /// block holds.
    pub open spec fn wf(&self) -> bool {
        block_wf(self@)
    }

    pub fn miner(&self) -> (out: &str)
        ensures
            out@ == self@.miner,
    {
        self.miner.as_str()
    }

    pub fn previous_hash(&self) -> (out: Option<&str>)
        ensures
            match out {
                Some(s) => self@.previous_hash == Some(s@),
                None => self@.previous_hash is None,
            },
    {
        match &self.previous_hash {
            Some(s) => Some(s.as_str()),
            None => None,
        }
    }

    pub fn transactions(&self) -> (out: &[Transaction])
        ensures
            out@.len() == self@.transactions.len(),
            forall|i: int| 0 <= i < out@.len() ==> (#[trigger] out@[i])@ == self@.transactions[i],
    {
        transactions_slice(&self.transactions)
    }

    pub fn balance_state(&self) -> (out: &BalanceState)
        ensures
            out@ == self@.balance_state,
            self.wf() ==> out.wf(),
    {
        &self.balance_state
    }

    pub fn nonce(&self) -> (out: u64)
        ensures
            out == self@.nonce,
    {
        self.nonce
    }

    pub fn created_at(&self) -> (out: u64)
        ensures
            out == self@.created_at,
    {
        self.created_at
    }

    pub fn miner_signature(&self) -> (out: Option<&str>)
        ensures
            match out {
                Some(s) => self@.miner_signature == Some(s@),
                None => self@.miner_signature is None,
            },
    {
        match &self.miner_signature {
            Some(s) => Some(s.as_str()),
            None => None,
        }
    }

    /// A new block, created now: unsigned, with the nonce zero.
    pub fn new(
        miner: &str,
        previous_hash: Option<&str>,
        transactions: Transactions,
        balance_state: BalanceState,
    ) -> (out: Self)
        requires
            balance_state.wf(),
        ensures
            out.wf(),
            out@ == (BlockView {
                miner: miner@,
                previous_hash: match previous_hash {
                    Some(s) => Some(s@),
                    None => None,
                },
                transactions: transaction_views(transactions),
                balance_state: balance_state@,
                nonce: 0,
                created_at: out@.created_at,
                miner_signature: None,
            }),
    {
        let created_at = get_timestamp();
        Block::new_at(miner, previous_hash, transactions, balance_state, created_at)
    }

    /// A new block, created at `created_at`: unsigned, with the nonce zero.
    pub fn new_at(
        miner: &str,
        previous_hash: Option<&str>,
        transactions: Transactions,
        balance_state: BalanceState,
        created_at: u64,
    ) -> (out: Self)
        requires
            balance_state.wf(),
        ensures
            out.wf(),
            out@ == (BlockView {
                miner: miner@,
                previous_hash: match previous_hash {
                    Some(s) => Some(s@),
                    None => None,
                },
                transactions: transaction_views(transactions),
                balance_state: balance_state@,
                nonce: 0,
                created_at,
                miner_signature: None,
            }),
    {
        let ghost views = transaction_views(transactions);
        let items = transactions_slice(&transactions);
        assert(views.len() == items@.len());
        Block {
            miner: miner.to_owned(),
            previous_hash: match previous_hash {
                Some(s) => Some(s.to_owned()),
                None => None,
            },
            transactions,
            balance_state,
            nonce: 0,
            created_at,
            miner_signature: None,
        }
    }

    /// The block with the given fields, as it comes from outside.
    pub fn from_parts(
        miner: String,
        previous_hash: Option<String>,
        transactions: Transactions,
        balance_state: BalanceState,
        nonce: u64,
        created_at: u64,
        miner_signature: Option<String>,
    ) -> (out: Self)
        requires
            balance_state.wf(),
        ensures
            out.wf(),
            out@ == (BlockView {
                miner: miner@,
                previous_hash: optional_text(previous_hash),
                transactions: transaction_views(transactions),
                balance_state: balance_state@,
                nonce,
                created_at,
                miner_signature: optional_text(miner_signature),
            }),
    {
        let ghost views = transaction_views(transactions);
        let items = transactions_slice(&transactions);
        assert(views.len() == items@.len());
        Block {
            miner,
            previous_hash,
            transactions,
            balance_state,
            nonce,
            created_at,
            miner_signature,
        }
    }

    /// Signs the body hash and keeps the signature as the miner's. Where no
    /// signature is made, the block stays as it was.
    pub fn sign(&mut self, miner: &User) -> (out: Result<(), SignBlockError>)
        ensures
            match signed_text(miner@.private_key, block_hash(old(self)@)) {
                Ok(signature) => out is Ok && final(self)@ == with_miner_signature(
                    old(self)@,
                    signature,
                ),
                Err(e) => out == Err::<(), SignBlockError>(SignBlockError::UserSign(e))
                    && final(self)@ == old(self)@,
            },
            out is Ok && miner.wf() && miner@.address == old(self)@.miner ==> miner_signature_check(
                final(self)@,
            ) is Ok,
            old(self).wf() ==> final(self).wf(),
    {
        let hash = self.compute_hash();
        match miner.sign(hash.as_str()) {
            Ok(signature) => {
                self.miner_signature = Some(signature);
                assert(block_body_json(self@) == block_body_json(old(self)@));
                Ok(())
            },
            Err(e) => Err(SignBlockError::UserSign(e)),
        }
    }

    /// The JSON text of the body up to the nonce.
    fn body_prefix(&self) -> (out: String)
        ensures
            out@ == body_before_nonce(self@),
    {
        let mut out = String::from_str("{\"balance_state\":");
        out.append(json_string(self.balance_state.to_json().as_str()).as_str());
        out.append(",\"created_at\":");
        out.append(json_seconds(self.created_at).as_str());
        out.append(",\"miner\":");
        out.append(json_string(self.miner.as_str()).as_str());
        out.append(",\"nonce\":");
        out
    }

    /// The JSON text of the body behind the nonce.
    fn body_suffix(&self) -> (out: String)
        ensures
            out@ == body_after_nonce(self@),
    {
        let mut out = String::from_str(",\"previous_hash\":");
        out.append(json_optional_string(&self.previous_hash).as_str());
        out.append(",\"transactions\":");
        out.append(json_string(transactions_to_json(&self.transactions).as_str()).as_str());
        out.append("}");
        out
    }

    /// The JSON text of the body, which is hashed.
    pub fn body_json(&self) -> (out: String)
        ensures
            out@ == block_body_json(self@),
    {
        let mut out = self.body_prefix();
        out.append(json_unsigned(self.nonce).as_str());
        out.append(self.body_suffix().as_str());
        out
    }

    /// The JSON text of the block.
    pub fn to_json(&self) -> (out: String)
        ensures
            out@ == block_json(self@),
    {
        let mut out = String::from_str("{\"miner\":");
        out.append(json_string(self.miner.as_str()).as_str());
        out.append(",\"previous_hash\":");
        out.append(json_optional_string(&self.previous_hash).as_str());
        out.append(",\"transactions\":");
        out.append(transactions_to_json(&self.transactions).as_str());
        out.append(",\"balance_state\":");
        out.append(self.balance_state.to_json().as_str());
        out.append(",\"nonce\":");
        out.append(json_unsigned(self.nonce).as_str());
        out.append(",\"created_at\":");
        out.append(json_seconds(self.created_at).as_str());
        out.append(",\"miner_signature\":");
        out.append(json_optional_string(&self.miner_signature).as_str());
        out.append("}");
        out
    }

    /// Computes the body hash: the signature is no part of it.
    pub fn compute_hash(&self) -> (out: String)
        ensures
            out@ == block_hash(self@),
    {
        let json = self.body_json();
        let digest = sha256_digest(json.as_str().as_bytes());
        hex_encode(digest.as_slice())
    }

    /// One round of mining on a block whose body has the texts `prefix` and
    /// `suffix` around the nonce.
    fn step(&mut self, is_mining: bool, prefix: &String, suffix: &String) -> (out: MiningStep)
        requires
            prefix@ == body_before_nonce(old(self)@),
            suffix@ == body_after_nonce(old(self)@),
        ensures
            out == mining_step(old(self)@, is_mining),
            final(self)@ == after_mining_step(old(self)@, is_mining),
            old(self).wf() ==> final(self).wf(),
    {
        if !is_mining {
            return MiningStep::Stopped;
        }
        let mut json = prefix.clone();
        json.append(json_unsigned(self.nonce).as_str());
        json.append(suffix.as_str());
        let digest = sha256_digest(json.as_str().as_bytes());
        let hash = hex_encode(digest.as_slice());
        if starts_with_zeros(hash.as_str(), PROOF_OF_WORK_DIFFICULTY as usize) {
            return MiningStep::Found;
        }
        if self.nonce == u64::MAX {
            return MiningStep::Exhausted;
        }
        self.nonce += 1;
        MiningStep::Next
    }

    /// One round of mining, given what was read from the mining flag. With
    /// the flag unset it stops. Else, where the hash has its zeros, the
    /// proof of work is found; where not, the nonce goes up by one, unless
    /// it is the largest.
    pub fn proof_of_work_step(&mut self, is_mining: bool) -> (out: MiningStep)
        ensures
            out == mining_step(old(self)@, is_mining),
            final(self)@ == after_mining_step(old(self)@, is_mining),
            old(self).wf() ==> final(self).wf(),
    {
        let prefix = self.body_prefix();
        let suffix = self.body_suffix();
        self.step(is_mining, &prefix, &suffix)
    }

    /// Generates the proof of work: raises the nonce until the hash begins
    /// with the required zeros. Before each try it reads `is_mining`, and
    /// stops with an error once the flag is unset: each round is one
    /// `proof_of_work_step` on what was read.
    ///
    /// A success names the first nonce, from the block's own on, that gives
    /// the proof of work: each nonce before it was tried once.
    pub fn generate_proof_of_work(&mut self, is_mining: &std::sync::atomic::AtomicBool) -> (out:
        Result<(), GenerateBlockProofOfWorkError>)
        ensures
            final(self)@ == with_nonce(old(self)@, final(self)@.nonce),
            old(self)@.nonce <= final(self)@.nonce,
            no_proof_of_work_between(
                old(self)@,
                old(self)@.nonce as int,
                final(self)@.nonce as int,
            ),
            out is Ok ==> has_proof_of_work(final(self)@),
            out == Err::<(), GenerateBlockProofOfWorkError>(
                GenerateBlockProofOfWorkError::NonceExhausted,
            ) ==> final(self)@.nonce == u64::MAX && !has_proof_of_work(final(self)@),
            old(self).wf() ==> final(self).wf(),
    {
        let prefix = self.body_prefix();
        let suffix = self.body_suffix();
        loop
            invariant
                self@ == with_nonce(old(self)@, self@.nonce),
                old(self)@.nonce <= self@.nonce,
                no_proof_of_work_between(old(self)@, old(self)@.nonce as int, self@.nonce as int),
                old(self).wf() ==> self.wf(),
                prefix@ == body_before_nonce(old(self)@),
                suffix@ == body_after_nonce(old(self)@),
            decreases u64::MAX - self@.nonce,
        {
            let ghost before = self@;
            let mining = crate::mining::is_set(is_mining);
            match self.step(mining, &prefix, &suffix) {
                MiningStep::Found => {
                    return Ok(());
                },
                MiningStep::Stopped => {
                    return Err(GenerateBlockProofOfWorkError::Stopped);
                },
                MiningStep::Exhausted => {
                    return Err(GenerateBlockProofOfWorkError::NonceExhausted);
                },
                MiningStep::Next => {
                    assert(before == with_nonce(old(self)@, before.nonce));
                },
            }
        }
    }

    /// The hash begins with the required zeros.
    pub fn validate_proof_of_work(&self) -> (out: Result<(), ValidateBlockProofOfWorkError>)
        ensures
            out == proof_of_work_check(self@),
    {
        let hash = self.compute_hash();
        if !starts_with_zeros(hash.as_str(), PROOF_OF_WORK_DIFFICULTY as usize) {
            return Err(ValidateBlockProofOfWorkError::Invalid);
        }
        Ok(())
    }

    /// The block carries a signature.
    pub fn validate_is_signed(&self) -> (out: Result<(), ValidateBlockIsSignedError>)
        ensures
            out == is_signed_check(self@),
    {
        if self.miner_signature.is_none() {
            return Err(ValidateBlockIsSignedError::NotSigned);
        }
        Ok(())
    }

    /// The signature is the miner's over the body hash.
    pub fn validate_miner_signature(&self) -> (out: Result<(), ValidateBlockMinerSignatureError>)
        requires
            self@.miner_signature is Some,
        ensures
            out == miner_signature_check(self@),
    {
        match &self.miner_signature {
            Some(signature) => {
                let hash = self.compute_hash();
                match User::validate_signature(
                    signature.as_str(),
                    hash.as_str(),
                    self.miner.as_str(),
                ) {
                    Ok(()) => Ok(()),
                    Err(e) => Err(ValidateBlockMinerSignatureError::ValidateUserSignature(e)),
                }
            },
            None => vstd::pervasive::unreached(),
        }
    }
}

impl Block {
    /// The block names the hash of the chain's last block.
    pub fn validate_previous_hash(&self, blockchain: &Blockchain) -> (out: Result<
        (),
        ValidateBlockPreviousHashError,
    >)
        ensures
            out == previous_hash_check(self@, blockchain@.blocks),
    {
        let previous_hash = match blockchain.get_last_block_hash() {
            Ok(hash) => hash,
            Err(e) => {
                return Err(ValidateBlockPreviousHashError::GetLastBlockHash(e));
            },
        };
        match &self.previous_hash {
            Some(hash) => {
                if !same_text(hash.as_str(), previous_hash.as_str()) {
                    return Err(ValidateBlockPreviousHashError::HashesNotEquals);
                }
                Ok(())
            },
            None => Err(ValidateBlockPreviousHashError::HashesNotEquals),
        }
    }

    /// The block is not later than `now`, and later than its predecessor.
    pub fn validate_created_at(&self, blockchain: &Blockchain, now: u64) -> (out: Result<
        (),
        ValidateBlockCreatedAtError,
    >)
        requires
            predecessor(blockchain@.blocks, self@) is Some,
        ensures
            out == created_at_check(self@, blockchain@.blocks, now),
    {
        if now < self.created_at {
            return Err(ValidateBlockCreatedAtError::InFuture);
        }
        match blockchain.get_block_before_block(self) {
            Some(previous) => {
                if self.created_at <= previous.created_at() {
                    return Err(ValidateBlockCreatedAtError::PreviousInFuture);
                }
                Ok(())
            },
            None => vstd::pervasive::unreached(),
        }
    }

    /// What `address` spends and receives in the block's transactions.
    fn turnover(&self, address: &str) -> (out: (u128, u128))
        requires
            self.wf(),
        ensures
            out.0 == spent_by(self@.transactions, address@),
            out.1 == received_by(self@.transactions, address@),
            out.1 <= 2 * TRANSACTIONS_PER_BLOCK * u64::MAX,
    {
        let items = transactions_slice(&self.transactions);
        let ghost views = self@.transactions;
        let storage = is_storage(address);
        let mut spent: u128 = 0;
        let mut received: u128 = 0;
        let mut i: usize = 0;
        while i < items.len()
            invariant
                i <= items@.len() <= TRANSACTIONS_PER_BLOCK,
                views.len() == items@.len(),
                forall|k: int| 0 <= k < items@.len() ==> (#[trigger] items@[k])@ == views[k],
                storage == (address@ == storage_address()),
                spent == spent_by(views.take(i as int), address@),
                received == received_by(views.take(i as int), address@),
                spent <= i * 2 * u64::MAX,
                received <= i * 2 * u64::MAX,
            decreases items@.len() - i,
        {
            let transaction = &items[i];
            proof {
                let next = views.take(i + 1);
                assert(next.drop_last() =~= views.take(i as int));
                assert(next.last() == transaction@);
            }
            if same_text(address, transaction.sender()) {
                spent += transaction.amount() as u128 + transaction.amount_to_storage() as u128;
            }
            if same_text(address, transaction.recipient()) {
                received += transaction.amount() as u128;
            }
            if storage {
                received += transaction.amount_to_storage() as u128;
            }
            i += 1;
        }
        assert(views.take(i as int) =~= views);
        (spent, received)
    }

    /// Computes the balance of `address` from its balance before the block
    /// and the block's transactions, and compares it with the one that the
    /// block states.
    pub fn validate_balance_state(&self, address: &str, blockchain: &Blockchain) -> (out: Result<
        (),
        ValidateBlockBalanceStateError,
    >)
        requires
            self.wf(),
            blockchain.wf(),
        ensures
            out == balance_state_check(self@, blockchain@.blocks, address@),
    {
        match self.balance_state.get(address) {
            Some(state_balance) => {
                let balance = blockchain.get_balance_from_database(address, Some(self));
                let (spent, received) = self.turnover(address);
                let raised = balance as u128 + received;
                if raised > u64::MAX as u128 {
                    Err(ValidateBlockBalanceStateError::AddOverflow)
                } else if raised < spent {
                    Err(ValidateBlockBalanceStateError::SubOverflow)
                } else if raised - spent != state_balance as u128 {
                    Err(ValidateBlockBalanceStateError::BalancesNotEquals)
                } else {
                    Ok(())
                }
            },
            None => Err(ValidateBlockBalanceStateError::NoBalanceInState),
        }
    }

    /// The number of transactions that the storage sends.
    fn count_storage_transactions(&self) -> (out: usize)
        requires
            self.wf(),
        ensures
            out == storage_count(self@.transactions),
    {
        let items = transactions_slice(&self.transactions);
        let ghost views = self@.transactions;
        let mut count: usize = 0;
        let mut i: usize = 0;
        while i < items.len()
            invariant
                i <= items@.len() <= TRANSACTIONS_PER_BLOCK,
                views.len() == items@.len(),
                forall|k: int| 0 <= k < items@.len() ==> (#[trigger] items@[k])@ == views[k],
                count == storage_count(views.take(i as int)),
                count <= i,
            decreases items@.len() - i,
        {
            proof {
                let next = views.take(i + 1);
                assert(next.drop_last() =~= views.take(i as int));
                assert(next.last() == items@[i as int]@);
            }
            if is_storage(items[i].sender()) {
                count += 1;
            }
            i += 1;
        }
        assert(views.take(i as int) =~= views);
        count
    }

    /// Whether no two transactions have the same random string.
    #[verifier::loop_isolation(false)]
    fn random_strings_are_distinct(&self) -> (out: bool)
        requires
            self.wf(),
        ensures
            out == random_strings_distinct(self@.transactions),
    {
        let items = transactions_slice(&self.transactions);
        let ghost views = self@.transactions;
        let mut i: usize = 0;
        while i < items.len()
            invariant
                i <= items@.len(),
                views.len() == items@.len(),
                forall|k: int| 0 <= k < items@.len() ==> (#[trigger] items@[k])@ == views[k],
                forall|a: int, b: int|
                    0 <= a < b < views.len() && a < i ==> (#[trigger] views[a]).random_string != (
                    #[trigger] views[b]).random_string,
            decreases items@.len() - i,
        {
            let mut j: usize = i + 1;
            while j < items.len()
                invariant
                    i < j <= items@.len(),
                    views.len() == items@.len(),
                    forall|k: int| 0 <= k < items@.len() ==> (#[trigger] items@[k])@ == views[k],
                    forall|b: int|
                        i < b < j ==> views[i as int].random_string != (
                        #[trigger] views[b]).random_string,
                decreases items@.len() - j,
            {
                if same_text(items[i].random_string(), items[j].random_string()) {
                    assert(views[i as int].random_string == views[j as int].random_string);
                    return false;
                }
                j += 1;
            }
            i += 1;
        }
        true
    }

    /// What is asked of the block's transaction at `index`.
    fn validate_transaction_at(
        &self,
        index: usize,
        blockchain: &Blockchain,
        last_hash: &Result<String, GetLastBlockHashError>,
    ) -> (out: Result<(), ValidateBlockTransactionsError>)
        requires
            self.wf(),
            blockchain.wf(),
            index < self@.transactions.len(),
            text_or(*last_hash) == last_block_hash(blockchain@.blocks),
        ensures
            out == transaction_in_block_check(
                self@,
                blockchain@.blocks,
                self@.transactions[index as int],
            ),
    {
        let items = transactions_slice(&self.transactions);
        let transaction = &items[index];
        assert(transaction@ == self@.transactions[index as int]);
        if let Err(e) = transaction.validate_integrity_with(last_hash) {
            return Err(ValidateBlockTransactionsError::ValidateTransactionIntegrity(e));
        }
        if is_storage(transaction.sender()) {
            if !same_text(transaction.recipient(), self.miner.as_str()) {
                return Err(ValidateBlockTransactionsError::RewardedNotMiner);
            } else if transaction.amount() != MINING_REWARD {
                return Err(ValidateBlockTransactionsError::InvalidReward);
            }
        }
        let names_previous = match &self.previous_hash {
            Some(hash) => same_text(hash.as_str(), transaction.previous_block_hash()),
            None => false,
        };
        if !names_previous {
            return Err(ValidateBlockTransactionsError::PreviousHashesNotEquals);
        }
        if let Err(e) = self.validate_balance_state(transaction.sender(), blockchain) {
            return Err(ValidateBlockTransactionsError::ValidateSenderBalanceState(e));
        }
        if let Err(e) = self.validate_balance_state(transaction.recipient(), blockchain) {
            return Err(ValidateBlockTransactionsError::ValidateRecipientBalanceState(e));
        }
        Ok(())
    }

    /// Validates the transactions: their number, the one of the storage, the
    /// random strings, and then each transaction with the balances of its
    /// sender and recipient.
    #[verifier::loop_isolation(false)]
    pub fn validate_transactions(&self, blockchain: &Blockchain) -> (out: Result<
        (),
        ValidateBlockTransactionsError,
    >)
        requires
            self.wf(),
            blockchain.wf(),
        ensures
            out == transactions_check(self@, blockchain@.blocks),
    {
        let count = transactions_slice(&self.transactions).len();
        let storage_count = self.count_storage_transactions();
        if count != TRANSACTIONS_PER_BLOCK as usize {
            return Err(ValidateBlockTransactionsError::InvalidUserCount);
        } else if storage_count != 1 {
            return Err(ValidateBlockTransactionsError::InvalidStorageCount);
        }
        if !self.random_strings_are_distinct() {
            return Err(ValidateBlockTransactionsError::RandomStringNotUnique);
        }
        let last_hash = blockchain.get_last_block_hash();
        let mut i: usize = 0;
        while i < count
            invariant
                self.wf(),
                blockchain.wf(),
                i <= count == self@.transactions.len(),
                text_or(last_hash) == last_block_hash(blockchain@.blocks),
                transactions_check_from(self@, blockchain@.blocks, 0) == transactions_check_from(
                    self@,
                    blockchain@.blocks,
                    i as int,
                ),
            decreases count - i,
        {
            if let Err(e) = self.validate_transaction_at(i, blockchain, &last_hash) {
                return Err(e);
            }
            i += 1;
        }
        Ok(())
    }

    /// Validates a block that is to be added behind the last block of the
    /// chain, at the time `now`: previous hash, proof of work, signature,
    /// transactions and time, in this order.
    pub fn validate_integrity_at(&self, blockchain: &Blockchain, now: u64) -> (out: Result<
        (),
        ValidateBlockIntegrityError,
    >)
        requires
            self.wf(),
            blockchain.wf(),
        ensures
            out == block_check(self@, blockchain@.blocks, now),
    {
        if let Err(e) = self.validate_previous_hash(blockchain) {
            return Err(ValidateBlockIntegrityError::ValidatePreviousHash(e));
        }
        if let Err(e) = self.validate_proof_of_work() {
            return Err(ValidateBlockIntegrityError::ValidateProofOfWork(e));
        }
        if let Err(e) = self.validate_is_signed() {
            return Err(ValidateBlockIntegrityError::ValidateIsSigned(e));
        }
        if let Err(e) = self.validate_miner_signature() {
            return Err(ValidateBlockIntegrityError::ValidateMinerSignature(e));
        }
        if let Err(e) = self.validate_transactions(blockchain) {
            return Err(ValidateBlockIntegrityError::ValidateTransactions(e));
        }
        proof {
            lemma_checked_block_has_predecessor(self@, blockchain@.blocks);
        }
        if let Err(e) = self.validate_created_at(blockchain, now) {
            return Err(ValidateBlockIntegrityError::ValidateCreatedAt(e));
        }
        Ok(())
    }

    /// Validates a block that is to be added behind the last block of the
    /// chain, at the time that the clock shows.
    pub fn validate_integrity(&self, blockchain: &Blockchain) -> (out: Result<
        (),
        ValidateBlockIntegrityError,
    >)
        requires
            self.wf(),
            blockchain.wf(),
        ensures
            exists|now: u64| out == #[trigger] block_check(self@, blockchain@.blocks, now),
    {
        let now = get_timestamp();
        self.validate_integrity_at(blockchain, now)
    }
}

} // verus!
