//! Mining on a copy of the engine, and taking over a peer's chain.
use vstd::prelude::*;
use vstd::string::*;
use crate::block::{Block, BlockView};
use crate::blockchain::{
    block_views, is_candidate_block, is_mining_outcome, replay_from, Blockchain,
};
use crate::chain::fits;
use crate::error::{BlockchainFromStrError, MineBlockError};
use crate::helpers::get_timestamp;
use crate::node::block_add_info::{block_add_info_json, BlockAddInfo};
use crate::package::{Action, Package, PackageView};
use crate::preparing_block_state::empty_state;

verus! {

/// The request for a peer's blocks.
pub open spec fn transfer_request() -> PackageView {
    PackageView { action: Action::GetBlocks, data: ""@ }
}

/// Mines a block on a copy of the engine, so that the engine itself is
/// changed only by a success. Returns the block and the package that
/// announces it to the peers, with the length that the chain had before.
///
/// What is returned is what the engine's mining comes to: the error of the
/// reward where it is refused, else what comes of the search for the proof
/// of work, of the signing and of the adding. The block that is returned
/// fits the chain that the engine had.
pub fn mine_block(blockchain: &mut Blockchain, is_mining: &std::sync::atomic::AtomicBool) -> (out:
    Result<(Block, Package), MineBlockError>)
    requires
        old(blockchain).wf(),
    ensures
        final(blockchain).wf(),
        final(blockchain)@.miner == old(blockchain)@.miner,
        match out {
            Ok((block, package)) => {
                &&& block.wf()
                &&& is_candidate_block(old(blockchain)@, block@)
                &&& final(blockchain)@.blocks == old(blockchain)@.blocks.push(block@)
                &&& final(blockchain)@.pending == empty_state()
                &&& package@ == (PackageView {
                    action: Action::AddBlock,
                    data: block_add_info_json(block@, old(blockchain)@.blocks.len() as usize),
                })
            },
            Err(_) => final(blockchain)@ == old(blockchain)@,
        },
        is_mining_outcome(
            old(blockchain)@,
            match out {
                Ok((block, _)) => Ok(block@),
                Err(e) => Err(e),
            },
        ),
        out is Ok ==> fits(old(blockchain)@.blocks, out->Ok_0.0@),
{
    let mut blockchain_clone = blockchain.clone();
    let new_block = match blockchain_clone.mine_block(is_mining) {
        Ok(block) => block,
        Err(e) => {
            return Err(e);
        },
    };
    let len = blockchain.len();
    let info = BlockAddInfo::new(&new_block, len);
    let info_json = info.to_json();
    *blockchain = blockchain_clone;
    let package = Package::new(Action::AddBlock, info_json.as_str());
    Ok((new_block, package))
}

/// The package that asks a peer for its blocks.
pub fn request_blocks() -> (out: Package)
    ensures
        out@ == transfer_request(),
{
    Package::new(Action::GetBlocks, "")
}

/// The action with which a peer answers the request for its blocks.
pub fn blocks_response_actions() -> (out: Vec<Action>)
    ensures
        out@ == seq![Action::GetBlocksSuccess],
{
    let mut out: Vec<Action> = Vec::new();
    out.push(Action::GetBlocksSuccess);
    assert(out@ =~= seq![Action::GetBlocksSuccess]);
    out
}

/// Takes over the chain that a peer sent: rebuilds it from `blocks` at the
/// time `now` and puts it in place of the engine's. Blocks that do not make
/// a chain leave the engine as it was. After a success nothing is mined any
/// more on the old chain.
pub fn transfer_blockchain_from_at(
    blockchain: &mut Blockchain,
    blocks: &Vec<Block>,
    now: u64,
    is_mining: &std::sync::atomic::AtomicBool,
) -> (out: Result<(), BlockchainFromStrError>)
    requires
        old(blockchain).wf(),
        forall|i: int| 0 <= i < blocks@.len() ==> (#[trigger] blocks@[i]).wf(),
    ensures
        final(blockchain).wf(),
        final(blockchain)@.miner == old(blockchain)@.miner,
        match replay_from(block_views(blocks@), now, 0) {
            Ok(()) => out is Ok && final(blockchain)@.blocks == block_views(blocks@) && final(blockchain)@.pending == empty_state(),
            Err(e) => out == Err::<(), BlockchainFromStrError>(
                BlockchainFromStrError::AddBlock(e),
            ) && final(blockchain)@ == old(blockchain)@,
        },
{
    let miner = blockchain.miner().clone();
    let scratch = std::sync::atomic::AtomicBool::new(false);
    let new_blockchain = match Blockchain::from_blocks_at(miner, blocks, now, &scratch) {
        Ok(chain) => chain,
        Err(e) => {
            return Err(e);
        },
    };
    crate::mining::unset(is_mining);
    *blockchain = new_blockchain;
    Ok(())
}

/// Takes over the chain that a peer sent, at the time that the clock shows.
pub fn transfer_blockchain_from(
    blockchain: &mut Blockchain,
    blocks: &Vec<Block>,
    is_mining: &std::sync::atomic::AtomicBool,
) -> (out: Result<(), BlockchainFromStrError>)
    requires
        old(blockchain).wf(),
        forall|i: int| 0 <= i < blocks@.len() ==> (#[trigger] blocks@[i]).wf(),
    ensures
        final(blockchain).wf(),
        final(blockchain)@.miner == old(blockchain)@.miner,
        exists|now: u64|
            match #[trigger] replay_from(block_views(blocks@), now, 0) {
                Ok(()) => out is Ok && final(blockchain)@.blocks == block_views(blocks@) && final(blockchain)@.pending == empty_state(),
                Err(e) => out == Err::<(), BlockchainFromStrError>(
                    BlockchainFromStrError::AddBlock(e),
                ) && final(blockchain)@ == old(blockchain)@,
            },
{
    let now = get_timestamp();
    transfer_blockchain_from_at(blockchain, blocks, now, is_mining)
}

} // verus!
