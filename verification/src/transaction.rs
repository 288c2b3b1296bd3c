//! A transfer of money from one address to another.
use vstd::prelude::*;
use vstd::string::*;
use vstd::utf8::encode_utf8;
use crate::blockchain::Blockchain;
use crate::chain::last_block_hash;
use crate::consts::{
    is_storage, storage_address, STORAGE_REWARD, STORAGE_REWARD_STARTING_FROM,
};
use crate::encoding::{hex_encode, hex_text, sha256, sha256_digest};
use crate::error::{
    GetLastBlockHashError, SignTransactionError, UserSignError,
    ValidateTransactionIntegrityError, ValidateTransactionPreviousBlockHashError,
    ValidateTransactionRecipientError, ValidateTransactionSenderSignatureError,
};
use crate::helpers::{generate_random_string, is_random_string};
use crate::json::{
    decimal_text, json_optional_string, json_optional_string_text, json_string,
    json_string_text, json_unsigned,
};
use crate::text::same_text;
use crate::user::{signature_check, signed_text, User};

verus! {

/// A transfer of `amount` from `sender` to `recipient`, of which
/// `amount_to_storage` more goes from the sender to the storage.
#[derive(Debug)]
pub struct Transaction {
    sender: String,
    recipient: String,
    amount: u64,
    amount_to_storage: u64,
    previous_block_hash: String,
    random_string: String,
    sender_signature: Option<String>,
}

/// What a transaction is, as plain values.
pub struct TransactionView {
    pub sender: Seq<char>,
    pub recipient: Seq<char>,
    pub amount: u64,
    pub amount_to_storage: u64,
    pub previous_block_hash: Seq<char>,
    pub random_string: Seq<char>,
    pub sender_signature: Option<Seq<char>>,
}

impl View for Transaction {
    type V = TransactionView;

    closed spec fn view(&self) -> TransactionView {
        TransactionView {
            sender: self.sender@,
            recipient: self.recipient@,
            amount: self.amount,
            amount_to_storage: self.amount_to_storage,
            previous_block_hash: self.previous_block_hash@,
            random_string: self.random_string@,
            sender_signature: match self.sender_signature {
                Some(s) => Some(s@),
                None => None,
            },
        }
    }
}

/// What a transaction of `amount` pays to the storage.
pub open spec fn storage_share(amount: u64) -> u64 {
    if amount >= STORAGE_REWARD_STARTING_FROM {
        STORAGE_REWARD
    } else {
        0
    }
}

/// The text that is hashed: the JSON object of every field but the
/// signature, keys in alphabetical order, without spaces.
pub open spec fn transaction_body_json(t: TransactionView) -> Seq<char> {
    "{\"amount\":"@ + decimal_text(t.amount as nat) + ",\"amount_to_storage\":"@ + decimal_text(
        t.amount_to_storage as nat,
    ) + ",\"previous_block_hash\":"@ + json_string_text(t.previous_block_hash)
        + ",\"random_string\":"@ + json_string_text(t.random_string) + ",\"recipient\":"@
        + json_string_text(t.recipient) + ",\"sender\":"@ + json_string_text(t.sender) + "}"@
}

/// The JSON object of a transaction, fields in the order of the structure,
/// without spaces.
pub open spec fn transaction_json(t: TransactionView) -> Seq<char> {
    "{\"sender\":"@ + json_string_text(t.sender) + ",\"recipient\":"@ + json_string_text(
        t.recipient,
    ) + ",\"amount\":"@ + decimal_text(t.amount as nat) + ",\"amount_to_storage\":"@
        + decimal_text(t.amount_to_storage as nat) + ",\"previous_block_hash\":"@
        + json_string_text(t.previous_block_hash) + ",\"random_string\":"@ + json_string_text(
        t.random_string,
    ) + ",\"sender_signature\":"@ + json_optional_string_text(t.sender_signature) + "}"@
}

/// The body hash: the SHA-256 of the body's JSON text, in hexadecimal.
pub open spec fn transaction_hash(t: TransactionView) -> Seq<char> {
    hex_text(sha256(encode_utf8(transaction_body_json(t))))
}

/// The transaction with `signature` as the sender's.
pub open spec fn with_signature(t: TransactionView, signature: Seq<char>) -> TransactionView {
    TransactionView { sender_signature: Some(signature), ..t }
}

/// The storage receives only its share, never a transfer.
pub open spec fn recipient_check(t: TransactionView) -> Result<
    (),
    ValidateTransactionRecipientError,
> {
    if t.recipient == storage_address() {
        Err(ValidateTransactionRecipientError::IsStorage)
    } else {
        Ok(())
    }
}

/// A transaction of the storage needs no signature. Any other needs one,
/// made over the body hash by the owner of the sender's address.
pub open spec fn sender_signature_check(t: TransactionView) -> Result<
    (),
    ValidateTransactionSenderSignatureError,
> {
    if t.sender == storage_address() {
        Ok(())
    } else {
        match t.sender_signature {
            None => Err(ValidateTransactionSenderSignatureError::IsEmpty),
            Some(signature) => match signature_check(signature, transaction_hash(t), t.sender) {
                Ok(()) => Ok(()),
                Err(e) => Err(ValidateTransactionSenderSignatureError::Validate(e)),
            },
        }
    }
}

/// The transaction names the hash of the chain's last block, which the
/// chain must have.
pub open spec fn previous_block_hash_check(
    t: TransactionView,
    last_hash: Result<Seq<char>, GetLastBlockHashError>,
) -> Result<(), ValidateTransactionPreviousBlockHashError> {
    match last_hash {
        Err(e) => Err(ValidateTransactionPreviousBlockHashError::GetLastBlockHash(e)),
        Ok(hash) => if t.previous_block_hash != hash {
            Err(ValidateTransactionPreviousBlockHashError::HashesNotEquals)
        } else {
            Ok(())
        },
    }
}

/// The three checks in their order: recipient, signature, previous block
/// hash. The first that fails gives the error.
pub open spec fn transaction_check(
    t: TransactionView,
    last_hash: Result<Seq<char>, GetLastBlockHashError>,
) -> Result<(), ValidateTransactionIntegrityError> {
    match recipient_check(t) {
        Err(e) => Err(ValidateTransactionIntegrityError::Recipient(e)),
        Ok(()) => match sender_signature_check(t) {
            Err(e) => Err(ValidateTransactionIntegrityError::SenderSignature(e)),
            Ok(()) => match previous_block_hash_check(t, last_hash) {
                Err(e) => Err(ValidateTransactionIntegrityError::PreviousBlockHash(e)),
                Ok(()) => Ok(()),
            },
        },
    }
}

/// The body hash leaves the signature out: signing does not change it.
pub proof fn lemma_hash_ignores_signature(t: TransactionView, signature: Seq<char>)
    ensures
        transaction_hash(with_signature(t, signature)) == transaction_hash(t),
{
    assert(transaction_body_json(with_signature(t, signature)) == transaction_body_json(t));
}

/// The view of an optional text.
pub open spec fn optional_text(text: Option<String>) -> Option<Seq<char>> {
    match text {
        Some(t) => Some(t@),
        None => None,
    }
}

/// The view of a text or an error.
pub open spec fn text_or<E>(text: Result<String, E>) -> Result<Seq<char>, E> {
    match text {
        Ok(t) => Ok(t@),
        Err(e) => Err(e),
    }
}

impl Clone for Transaction {
    fn clone(&self) -> (out: Self)
        ensures
            out@ == self@,
    {
        Transaction {
            sender: self.sender.clone(),
            recipient: self.recipient.clone(),
            amount: self.amount,
            amount_to_storage: self.amount_to_storage,
            previous_block_hash: self.previous_block_hash.clone(),
            random_string: self.random_string.clone(),
            sender_signature: match &self.sender_signature {
                Some(s) => Some(s.clone()),
                None => None,
            },
        }
    }
}

impl Transaction {
    /// The amount is positive.
    pub open spec fn wf(&self) -> bool {
        self@.amount > 0
    }

    pub fn sender(&self) -> (out: &str)
        ensures
            out@ == self@.sender,
    {
        self.sender.as_str()
    }

    pub fn recipient(&self) -> (out: &str)
        ensures
            out@ == self@.recipient,
    {
        self.recipient.as_str()
    }

    pub fn amount(&self) -> (out: u64)
        ensures
            out == self@.amount,
    {
        self.amount
    }

    pub fn amount_to_storage(&self) -> (out: u64)
        ensures
            out == self@.amount_to_storage,
    {
        self.amount_to_storage
    }

    pub fn previous_block_hash(&self) -> (out: &str)
        ensures
            out@ == self@.previous_block_hash,
    {
        self.previous_block_hash.as_str()
    }

    pub fn random_string(&self) -> (out: &str)
        ensures
            out@ == self@.random_string,
    {
        self.random_string.as_str()
    }

    pub fn sender_signature(&self) -> (out: Option<&str>)
        ensures
            match out {
                Some(s) => self@.sender_signature == Some(s@),
                None => self@.sender_signature is None,
            },
    {
        match &self.sender_signature {
            Some(s) => Some(s.as_str()),
            None => None,
        }
    }

    /// A new unsigned transaction with a fresh random string. The storage's
    /// share follows from the amount.
    pub fn new(sender: &str, recipient: &str, amount: u64, previous_block_hash: &str) -> (out:
        Self)
        requires
            amount > 0,
        ensures
            out.wf(),
            out@.sender == sender@,
            out@.recipient == recipient@,
            out@.amount == amount,
            out@.amount_to_storage == storage_share(amount),
            out@.previous_block_hash == previous_block_hash@,
            is_random_string(out@.random_string),
            out@.sender_signature is None,
    {
        let amount_to_storage = if amount >= STORAGE_REWARD_STARTING_FROM {
            STORAGE_REWARD
        } else {
            0
        };
        Transaction {
            sender: sender.to_owned(),
            recipient: recipient.to_owned(),
            amount,
            amount_to_storage,
            previous_block_hash: previous_block_hash.to_owned(),
            random_string: generate_random_string(),
            sender_signature: None,
        }
    }

    /// The transaction with the given fields, as it comes from outside.
    /// There is none with the amount zero.
    pub fn from_parts(
        sender: String,
        recipient: String,
        amount: u64,
        amount_to_storage: u64,
        previous_block_hash: String,
        random_string: String,
        sender_signature: Option<String>,
    ) -> (out: Option<Self>)
        ensures
            out is Some <==> amount > 0,
            out matches Some(t) ==> t.wf() && t@ == (TransactionView {
                sender: sender@,
                recipient: recipient@,
                amount,
                amount_to_storage,
                previous_block_hash: previous_block_hash@,
                random_string: random_string@,
                sender_signature: optional_text(sender_signature),
            }),
    {
        if amount == 0 {
            return None;
        }
        Some(
            Transaction {
                sender,
                recipient,
                amount,
                amount_to_storage,
                previous_block_hash,
                random_string,
                sender_signature,
            },
        )
    }

    /// Signs the body hash and keeps the signature as the sender's. Where no
    /// signature is made, the transaction stays as it was.
    pub fn sign(&mut self, sender: &User) -> (out: Result<(), SignTransactionError>)
        ensures
            match signed_text(sender@.private_key, transaction_hash(old(self)@)) {
                Ok(signature) => out is Ok && final(self)@ == with_signature(
                    old(self)@,
                    signature,
                ),
                Err(e) => out == Err::<(), SignTransactionError>(
                    SignTransactionError::UserSign(e),
                ) && final(self)@ == old(self)@,
            },
            out is Ok && sender.wf() && sender@.address == old(self)@.sender
                ==> sender_signature_check(final(self)@) is Ok,
    {
        let hash = self.compute_hash();
        match sender.sign(hash.as_str()) {
            Ok(signature) => {
                self.sender_signature = Some(signature);
                assert(transaction_body_json(self@) == transaction_body_json(old(self)@));
                Ok(())
            },
            Err(e) => Err(SignTransactionError::UserSign(e)),
        }
    }

    /// The recipient is not the storage.
    pub fn validate_recipient(&self) -> (out: Result<(), ValidateTransactionRecipientError>)
        ensures
            out == recipient_check(self@),
    {
        if is_storage(self.recipient.as_str()) {
            return Err(ValidateTransactionRecipientError::IsStorage);
        }
        Ok(())
    }

    /// The sender signed the body hash, unless the sender is the storage.
    pub fn validate_sender_signature(&self) -> (out: Result<
        (),
        ValidateTransactionSenderSignatureError,
    >)
        ensures
            out == sender_signature_check(self@),
    {
        if !is_storage(self.sender.as_str()) {
            if let Some(ref s) = self.sender_signature {
                let hash = self.compute_hash();
                return match User::validate_signature(
                    s.as_str(),
                    hash.as_str(),
                    self.sender.as_str(),
                ) {
                    Ok(()) => Ok(()),
                    Err(e) => Err(ValidateTransactionSenderSignatureError::Validate(e)),
                };
            }
            return Err(ValidateTransactionSenderSignatureError::IsEmpty);
        }
        Ok(())
    }

    /// The transaction names `last_hash`, the hash of the chain's last
    /// block.
    pub fn validate_previous_block_hash_with(
        &self,
        last_hash: &Result<String, GetLastBlockHashError>,
    ) -> (out: Result<(), ValidateTransactionPreviousBlockHashError>)
        ensures
            out == previous_block_hash_check(self@, text_or(*last_hash)),
    {
        match last_hash {
            Err(e) => Err(ValidateTransactionPreviousBlockHashError::GetLastBlockHash(*e)),
            Ok(hash) => {
                if !same_text(self.previous_block_hash.as_str(), hash.as_str()) {
                    return Err(ValidateTransactionPreviousBlockHashError::HashesNotEquals);
                }
                Ok(())
            },
        }
    }

    /// The three checks against a chain whose last block has the hash
    /// `last_hash`.
    pub fn validate_integrity_with(&self, last_hash: &Result<String, GetLastBlockHashError>) -> (out:
        Result<(), ValidateTransactionIntegrityError>)
        ensures
            out == transaction_check(self@, text_or(*last_hash)),
    {
        if let Err(e) = self.validate_recipient() {
            return Err(ValidateTransactionIntegrityError::Recipient(e));
        }
        if let Err(e) = self.validate_sender_signature() {
            return Err(ValidateTransactionIntegrityError::SenderSignature(e));
        }
        if let Err(e) = self.validate_previous_block_hash_with(last_hash) {
            return Err(ValidateTransactionIntegrityError::PreviousBlockHash(e));
        }
        Ok(())
    }

    /// The transaction names the hash of the chain's last block.
    pub fn validate_previous_block_hash(&self, blockchain: &Blockchain) -> (out: Result<
        (),
        ValidateTransactionPreviousBlockHashError,
    >)
        ensures
            out == previous_block_hash_check(self@, last_block_hash(blockchain@.blocks)),
    {
        let last_hash = blockchain.get_last_block_hash();
        self.validate_previous_block_hash_with(&last_hash)
    }

    /// Validates the transaction against the chain: the recipient, the
    /// sender's signature and the previous block hash, in this order.
    pub fn validate_integrity(&self, blockchain: &Blockchain) -> (out: Result<
        (),
        ValidateTransactionIntegrityError,
    >)
        ensures
            out == transaction_check(self@, last_block_hash(blockchain@.blocks)),
    {
        let last_hash = blockchain.get_last_block_hash();
        self.validate_integrity_with(&last_hash)
    }

    /// The JSON text of the body, which is hashed.
    pub fn body_json(&self) -> (out: String)
        ensures
            out@ == transaction_body_json(self@),
    {
        let mut out = String::from_str("{\"amount\":");
        out.append(json_unsigned(self.amount).as_str());
        out.append(",\"amount_to_storage\":");
        out.append(json_unsigned(self.amount_to_storage).as_str());
        out.append(",\"previous_block_hash\":");
        out.append(json_string(self.previous_block_hash.as_str()).as_str());
        out.append(",\"random_string\":");
        out.append(json_string(self.random_string.as_str()).as_str());
        out.append(",\"recipient\":");
        out.append(json_string(self.recipient.as_str()).as_str());
        out.append(",\"sender\":");
        out.append(json_string(self.sender.as_str()).as_str());
        out.append("}");
        out
    }

    /// The JSON text of the transaction.
    pub fn to_json(&self) -> (out: String)
        ensures
            out@ == transaction_json(self@),
    {
        let mut out = String::from_str("{\"sender\":");
        out.append(json_string(self.sender.as_str()).as_str());
        out.append(",\"recipient\":");
        out.append(json_string(self.recipient.as_str()).as_str());
        out.append(",\"amount\":");
        out.append(json_unsigned(self.amount).as_str());
        out.append(",\"amount_to_storage\":");
        out.append(json_unsigned(self.amount_to_storage).as_str());
        out.append(",\"previous_block_hash\":");
        out.append(json_string(self.previous_block_hash.as_str()).as_str());
        out.append(",\"random_string\":");
        out.append(json_string(self.random_string.as_str()).as_str());
        out.append(",\"sender_signature\":");
        out.append(json_optional_string(&self.sender_signature).as_str());
        out.append("}");
        out
    }

    /// Computes the body hash: the signature is no part of it.
    pub fn compute_hash(&self) -> (out: String)
        ensures
            out@ == transaction_hash(self@),
    {
        let json = self.body_json();
        let digest = sha256_digest(json.as_str().as_bytes());
        hex_encode(digest.as_slice())
    }
}

} // verus!
