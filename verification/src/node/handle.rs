//! What a node does with a package that it has received: which handler
//! takes it, what the handler changes, and what is sent back.
use vstd::prelude::*;
use vstd::string::*;
use crate::blockchain::{addition, admission, blocks_json, current_balance, Blockchain};
use crate::chain::last_block_hash;
use crate::config::Config;
use crate::error::{AddBlockError, GetLastBlockHashError, ReceivePackageError};
use crate::helpers::get_timestamp;
use crate::json::decimal_text;
use crate::node::block_add_info::BlockAddInfo;
use crate::package::{action_check, Action, Package, PackageView};
use crate::preparing_block_state::empty_state;
use crate::text::decimal;
use crate::transaction::Transaction;

verus! {

/// The handlers of a node, one for each action that it accepts.
#[derive(Clone, Copy, Debug, PartialEq, Eq, Structural)]
pub enum Handler {
    AddBlock,
    AddTransaction,
    GetBalance,
    GetLen,
    GetBlocks,
    GetLastBlockHash,
}

/// What came of a block that a peer announced.
#[derive(Clone, Copy, Debug, PartialEq, Eq)]
pub enum BlockAddition {
    /// The sender is no peer: nothing was done.
    InvalidSender,
    /// The block was added.
    Added,
    /// The block was refused, and the sender's chain is longer than ours:
    /// the chain is to be transferred from the sender.
    Lagging,
    /// The block was refused.
    Rejected(AddBlockError),
}

/// The actions that a node accepts.
pub open spec fn request_actions() -> Seq<Action> {
    seq![
        Action::AddBlock,
        Action::AddTransaction,
        Action::GetBalance,
        Action::GetBlockchainLen,
        Action::GetBlocks,
        Action::GetLastBlockHash,
    ]
}

/// The handler of an action that a node accepts.
pub open spec fn handler_of(action: Action) -> Option<Handler> {
    match action {
        Action::AddBlock => Some(Handler::AddBlock),
        Action::AddTransaction => Some(Handler::AddTransaction),
        Action::GetBalance => Some(Handler::GetBalance),
        Action::GetBlockchainLen => Some(Handler::GetLen),
        Action::GetBlocks => Some(Handler::GetBlocks),
        Action::GetLastBlockHash => Some(Handler::GetLastBlockHash),
        _ => None,
    }
}

/// What is sent back when a transaction's JSON text could not be read.
pub open spec fn invalid_json_reply() -> PackageView {
    PackageView { action: Action::AddTransactionFail, data: "invalid JSON."@ }
}

/// What is sent back when a transaction was not admitted.
pub open spec fn refused_reply() -> PackageView {
    PackageView { action: Action::AddTransactionFail, data: "error. Maybe invalid balance?."@ }
}

/// What is sent back when a transaction was admitted.
pub open spec fn admitted_reply() -> PackageView {
    PackageView { action: Action::AddTransactionSuccess, data: ""@ }
}

/// What comes of a block that `sender` announced at the time `now`.
pub open spec fn block_addition(
    engine: crate::blockchain::BlockchainView,
    peers: Seq<Seq<char>>,
    sender: Seq<char>,
    info: (crate::block::BlockView, usize),
    now: u64,
) -> BlockAddition {
    if !peers.contains(sender) {
        BlockAddition::InvalidSender
    } else {
        match addition(engine.blocks, info.0, false, now) {
            Ok(_) => BlockAddition::Added,
            Err(e) => if info.1 > engine.blocks.len() {
                BlockAddition::Lagging
            } else {
                BlockAddition::Rejected(e)
            },
        }
    }
}

/// The actions that a node accepts.
pub fn accepted_actions() -> (out: Vec<Action>)
    ensures
        out@ == request_actions(),
{
    let mut out: Vec<Action> = Vec::new();
    out.push(Action::AddBlock);
    out.push(Action::AddTransaction);
    out.push(Action::GetBalance);
    out.push(Action::GetBlockchainLen);
    out.push(Action::GetBlocks);
    out.push(Action::GetLastBlockHash);
    assert(out@ =~= request_actions());
    out
}

/// The entry point for a received package: the handler that takes it. A
/// package whose action a node does not accept has none.
pub fn stream(package: &Package) -> (out: Result<Handler, ReceivePackageError>)
    ensures
        match handler_of(package@.action) {
            Some(handler) => out == Ok::<Handler, ReceivePackageError>(handler),
            None => out == Err::<Handler, ReceivePackageError>(ReceivePackageError::InvalidAction),
        },
        out is Ok <==> request_actions().contains(package@.action),
{
    proof {
        let actions = request_actions();
        assert(actions[0] == Action::AddBlock);
        assert(actions[1] == Action::AddTransaction);
        assert(actions[2] == Action::GetBalance);
        assert(actions[3] == Action::GetBlockchainLen);
        assert(actions[4] == Action::GetBlocks);
        assert(actions[5] == Action::GetLastBlockHash);
    }
    match package.action() {
        Action::AddBlock => Ok(Handler::AddBlock),
        Action::AddTransaction => Ok(Handler::AddTransaction),
        Action::GetBalance => Ok(Handler::GetBalance),
        Action::GetBlockchainLen => Ok(Handler::GetLen),
        Action::GetBlocks => Ok(Handler::GetBlocks),
        Action::GetLastBlockHash => Ok(Handler::GetLastBlockHash),
        _ => Err(ReceivePackageError::InvalidAction),
    }
}

/// Answers the request for the balance of the address that the package's
/// data names.
pub fn get_balance(blockchain: &Blockchain, package: &Package) -> (out: Package)
    requires
        blockchain.wf(),
    ensures
        out@ == (PackageView {
            action: Action::GetBalanceSuccess,
            data: decimal_text(current_balance(blockchain@, package@.data) as nat),
        }),
{
    let balance = blockchain.get_balance(package.data());
    Package::new(Action::GetBalanceSuccess, decimal(balance).as_str())
}

/// Handles a block that `sender` announced, at the time `now`. The sender
/// must be a peer. A block that is refused by a chain shorter than the
/// sender's shows that this node lags behind.
pub fn add_block_at(
    blockchain: &mut Blockchain,
    config: &Config,
    sender: &str,
    info: &BlockAddInfo,
    now: u64,
    is_mining: &std::sync::atomic::AtomicBool,
) -> (out: BlockAddition)
    requires
        old(blockchain).wf(),
        info.wf(),
    ensures
        final(blockchain).wf(),
        final(blockchain)@.miner == old(blockchain)@.miner,
        out == block_addition(old(blockchain)@, config@.nodes, sender@, info@, now),
        out == BlockAddition::InvalidSender ==> final(blockchain)@ == old(blockchain)@,
        out != BlockAddition::InvalidSender ==> final(blockchain)@.pending == empty_state(),
        final(blockchain)@.blocks == if out == BlockAddition::Added {
            old(blockchain)@.blocks.push(info@.0)
        } else {
            old(blockchain)@.blocks
        },
{
    if !config.has_node(sender) {
        return BlockAddition::InvalidSender;
    }
    match blockchain.add_block_at(info.block(), false, now, is_mining) {
        Ok(()) => BlockAddition::Added,
        Err(e) => {
            if info.blockchain_len() > blockchain.len() {
                BlockAddition::Lagging
            } else {
                BlockAddition::Rejected(e)
            }
        },
    }
}

/// Handles a block that `sender` announced, at the time that the clock
/// shows.
pub fn add_block(
    blockchain: &mut Blockchain,
    config: &Config,
    sender: &str,
    info: &BlockAddInfo,
    is_mining: &std::sync::atomic::AtomicBool,
) -> (out: BlockAddition)
    requires
        old(blockchain).wf(),
        info.wf(),
    ensures
        final(blockchain).wf(),
        final(blockchain)@.miner == old(blockchain)@.miner,
        exists|now: u64|
            out == #[trigger] block_addition(
                old(blockchain)@,
                config@.nodes,
                sender@,
                info@,
                now,
            ),
        out == BlockAddition::InvalidSender ==> final(blockchain)@ == old(blockchain)@,
        out != BlockAddition::InvalidSender ==> final(blockchain)@.pending == empty_state(),
        final(blockchain)@.blocks == if out == BlockAddition::Added {
            old(blockchain)@.blocks.push(info@.0)
        } else {
            old(blockchain)@.blocks
        },
{
    let now = get_timestamp();
    add_block_at(blockchain, config, sender, info, now, is_mining)
}

/// Handles a transaction that a user sent; `None` stands for a JSON text
/// that could not be read. Returns what is sent back, and whether a block is
/// to be mined now.
pub fn add_transaction(blockchain: &mut Blockchain, transaction: Option<Transaction>) -> (out: (
    Package,
    bool,
))
    requires
        old(blockchain).wf(),
    ensures
        final(blockchain).wf(),
        final(blockchain)@.blocks == old(blockchain)@.blocks,
        final(blockchain)@.miner == old(blockchain)@.miner,
        match transaction {
            None => out.0@ == invalid_json_reply() && !out.1 && final(blockchain)@ == old(blockchain)@,
            Some(t) => match admission(old(blockchain)@, t@) {
                Err(_) => out.0@ == refused_reply() && !out.1 && final(blockchain)@ == old(blockchain)@,
                Ok(pending) => {
                    &&& out.0@ == admitted_reply()
                    &&& final(blockchain)@.pending == pending
                    &&& out.1 == (pending.transactions.len()
                        >= crate::consts::USER_TRANSACTIONS_PER_BLOCK)
                },
            },
        },
{
    let transaction = match transaction {
        Some(transaction) => transaction,
        None => {
            return (Package::new(Action::AddTransactionFail, "invalid JSON."), false);
        },
    };
    if blockchain.add_transaction(transaction).is_err() {
        return (Package::new(Action::AddTransactionFail, "error. Maybe invalid balance?."), false);
    }
    (Package::new(Action::AddTransactionSuccess, ""), blockchain.minable())
}

/// Answers the request for the blocks.
pub fn get_blocks(blockchain: &Blockchain) -> (out: Package)
    ensures
        out@ == (PackageView {
            action: Action::GetBlocksSuccess,
            data: blocks_json(blockchain@.blocks),
        }),
{
    Package::new(Action::GetBlocksSuccess, blockchain.to_string().as_str())
}

/// Answers the request for the length of the chain.
pub fn get_len(blockchain: &Blockchain) -> (out: Package)
    ensures
        out@ == (PackageView {
            action: Action::GetBlockchainLenSuccess,
            data: decimal_text(blockchain@.blocks.len()),
        }),
{
    Package::new(Action::GetBlockchainLenSuccess, decimal(blockchain.len() as u64).as_str())
}

/// Answers the request for the hash of the last block, which an empty chain
/// does not have.
pub fn get_last_block_hash(blockchain: &Blockchain) -> (out: Result<
    Package,
    GetLastBlockHashError,
>)
    ensures
        match last_block_hash(blockchain@.blocks) {
            Ok(hash) => out matches Ok(package) && package@ == (PackageView {
                action: Action::GetLastBlockHashSuccess,
                data: hash,
            }),
            Err(e) => out matches Err(x) && x == e,
        },
{
    match blockchain.get_last_block_hash() {
        Ok(hash) => Ok(Package::new(Action::GetLastBlockHashSuccess, hash.as_str())),
        Err(e) => Err(e),
    }
}

} // verus!
