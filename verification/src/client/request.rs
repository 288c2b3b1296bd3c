//! The packages that a client sends, and the lines that it prints for the
//! answers.
use vstd::prelude::*;
use vstd::string::*;
use crate::error::SignTransactionError;
use crate::package::{Action, Package, PackageView};
use crate::transaction::{
    storage_share, transaction_hash, transaction_json, with_signature, Transaction,
    TransactionView,
};
use crate::helpers::is_random_string;
use crate::user::{signed_text, User, UserView};

verus! {

/// A line that is printed on behalf of a node.
pub open spec fn node_line_text(node: Seq<char>, message: Seq<char>) -> Seq<char> {
    "["@ + node + "]: "@ + message
}

/// What is printed for the answer to a transaction.
pub open spec fn transaction_report_text(response: PackageView) -> Seq<char> {
    if response.action == Action::AddTransactionSuccess {
        "The transaction was successfully made."@
    } else {
        "Failed to add transaction: "@ + response.data
    }
}

/// The request for the balance of `address`.
pub fn balance(address: &str) -> (out: Package)
    ensures
        out@ == (PackageView { action: Action::GetBalance, data: address@ }),
{
    Package::new(Action::GetBalance, address)
}

/// The request for the length of the chain.
pub fn blockchain_len() -> (out: Package)
    ensures
        out@ == (PackageView { action: Action::GetBlockchainLen, data: ""@ }),
{
    Package::new(Action::GetBlockchainLen, "")
}

/// The request for the hash of the last block.
pub fn last_block_hash() -> (out: Package)
    ensures
        out@ == (PackageView { action: Action::GetLastBlockHash, data: ""@ }),
{
    Package::new(Action::GetLastBlockHash, "")
}

/// Whether `t` is the transaction that a client makes for a transfer of
/// `amount` from `user` to `recipient` on the chain whose last block has the
/// hash `last_hash`: unsigned, with the storage's share of the amount and a
/// random string.
pub open spec fn is_draft(
    t: TransactionView,
    user: UserView,
    recipient: Seq<char>,
    amount: u64,
    last_hash: Seq<char>,
) -> bool {
    &&& t.sender == user.address
    &&& t.recipient == recipient
    &&& t.amount == amount
    &&& t.amount_to_storage == storage_share(amount)
    &&& t.previous_block_hash == last_hash
    &&& t.sender_signature is None
    &&& is_random_string(t.random_string)
}

/// What comes of a transaction that `user` is to send: where the user's
/// signature over its body hash is made, the request to admit the signed
/// transaction, whose data is its JSON text; else the error of the signing.
pub open spec fn request_of(user: UserView, t: TransactionView) -> Result<
    PackageView,
    SignTransactionError,
> {
    match signed_text(user.private_key, transaction_hash(t)) {
        Ok(signature) => Ok(
            PackageView {
                action: Action::AddTransaction,
                data: transaction_json(with_signature(t, signature)),
            },
        ),
        Err(e) => Err(SignTransactionError::UserSign(e)),
    }
}

/// Whether `out` is what comes of the transaction that a client makes for
/// a transfer of `amount` from `user` to `recipient` on the chain whose last
/// block has the hash `last_hash`.
pub open spec fn is_transaction_outcome(
    out: Result<PackageView, SignTransactionError>,
    user: UserView,
    recipient: Seq<char>,
    amount: u64,
    last_hash: Seq<char>,
) -> bool {
    exists|t: TransactionView|
        is_draft(t, user, recipient, amount, last_hash) && #[trigger] request_of(user, t) == out
}

/// A package or an error, the package as plain values.
pub open spec fn package_view(out: Result<Package, SignTransactionError>) -> Result<
    PackageView,
    SignTransactionError,
> {
    match out {
        Ok(package) => Ok(package@),
        Err(e) => Err(e),
    }
}

/// The request to admit `transaction`, signed by `user`: the transaction is
/// signed and sent as its JSON text. Where it is not signed, that is the
/// error.
pub fn transaction_request(user: &User, transaction: Transaction) -> (out: Result<
    Package,
    SignTransactionError,
>)
    ensures
        package_view(out) == request_of(user@, transaction@),
{
    let mut transaction = transaction;
    if let Err(e) = transaction.sign(user) {
        return Err(e);
    }
    let data = transaction.to_json();
    Ok(Package::new(Action::AddTransaction, data.as_str()))
}

/// The request to admit a transfer of `amount` from `user` to `recipient`,
/// made on the chain whose last block has the hash `previous_block_hash`:
/// the transaction is made with a fresh random string, signed by the user,
/// and sent as its JSON text. It fails only where the transaction is not
/// signed.
pub fn transaction(user: &User, recipient: &str, amount: u64, previous_block_hash: &str) -> (out:
    Result<Package, SignTransactionError>)
    requires
        amount > 0,
    ensures
        is_transaction_outcome(
            package_view(out),
            user@,
            recipient@,
            amount,
            previous_block_hash@,
        ),
{
    let transaction = Transaction::new(user.address(), recipient, amount, previous_block_hash);
    assert(is_draft(transaction@, user@, recipient@, amount, previous_block_hash@));
    transaction_request(user, transaction)
}

/// The package that a client sends to the next node. The transaction is
/// made once, with the first last hash that a node gave: a package that is
/// prepared is kept; else one is made where `last_hash` is there, and none
/// where it is not, so that the next node is asked for it.
pub fn prepare_transaction(
    prepared: Option<Package>,
    last_hash: Option<&str>,
    user: &User,
    recipient: &str,
    amount: u64,
) -> (out: Result<Option<Package>, SignTransactionError>)
    requires
        amount > 0,
    ensures
        match (prepared, last_hash) {
            (Some(package), _) => out matches Ok(Some(kept)) && kept@ == package@,
            (None, None) => out matches Ok(None),
            (None, Some(hash)) => match out {
                Ok(Some(package)) => is_transaction_outcome(
                    Ok(package@),
                    user@,
                    recipient@,
                    amount,
                    hash@,
                ),
                Ok(None) => false,
                Err(e) => is_transaction_outcome(Err(e), user@, recipient@, amount, hash@),
            },
        },
{
    match prepared {
        Some(package) => Ok(Some(package)),
        None => match last_hash {
            Some(hash) => match transaction(user, recipient, amount, hash) {
                Ok(package) => Ok(Some(package)),
                Err(e) => Err(e),
            },
            None => Ok(None),
        },
    }
}

/// The line that is printed on behalf of `node`.
pub fn node_line(node: &str, message: &str) -> (out: String)
    ensures
        out@ == node_line_text(node@, message@),
{
    let mut out = String::from_str("[");
    out.append(node);
    out.append("]: ");
    out.append(message);
    out
}

/// What is printed for the answer to a request for a balance.
pub fn balance_report(response: &Package) -> (out: String)
    ensures
        out@ == "Balance: "@ + response@.data,
{
    let mut out = String::from_str("Balance: ");
    out.append(response.data());
    out
}

/// What is printed for the answer to a request for the chain's length.
pub fn blockchain_len_report(response: &Package) -> (out: String)
    ensures
        out@ == "Blockchain length: "@ + response@.data,
{
    let mut out = String::from_str("Blockchain length: ");
    out.append(response.data());
    out
}

/// What is printed for the answer to a transaction.
pub fn transaction_report(response: &Package) -> (out: String)
    ensures
        out@ == transaction_report_text(response@),
{
    if response.action() == Action::AddTransactionSuccess {
        String::from_str("The transaction was successfully made.")
    } else {
        let mut out = String::from_str("Failed to add transaction: ");
        out.append(response.data());
        out
    }
}

} // verus!
