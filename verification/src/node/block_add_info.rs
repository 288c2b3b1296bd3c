//! What a node sends to its peers when it has added a block.
use vstd::prelude::*;
use vstd::string::*;
use crate::block::{block_json, Block, BlockView};
use crate::json::decimal_text;
use crate::text::decimal;

verus! {

/// A new block, and the length of the sender's chain.
pub struct BlockAddInfo {
    block: Block,
    blockchain_len: usize,
}

impl View for BlockAddInfo {
    type V = (BlockView, usize);

    closed spec fn view(&self) -> (BlockView, usize) {
        (self.block@, self.blockchain_len)
    }
}

/// The JSON object of the information, without spaces.
pub open spec fn block_add_info_json(block: BlockView, blockchain_len: usize) -> Seq<char> {
    "{\"block\":"@ + block_json(block) + ",\"blockchain_len\":"@ + decimal_text(
        blockchain_len as nat,
    ) + "}"@
}

impl BlockAddInfo {
    /// The block is well formed.
    pub closed spec fn wf(&self) -> bool {
        self.block.wf()
    }

    /// The information that `block` was added by a node whose chain has the
    /// length `blockchain_len`.
    pub fn new(block: &Block, blockchain_len: usize) -> (out: Self)
        ensures
            out@ == (block@, blockchain_len),
            block.wf() ==> out.wf(),
    {
        BlockAddInfo { block: block.clone(), blockchain_len }
    }

    /// The block.
    pub fn block(&self) -> (out: &Block)
        ensures
            out@ == self@.0,
            self.wf() ==> out.wf(),
    {
        &self.block
    }

    /// The length of the sender's chain.
    pub fn blockchain_len(&self) -> (out: usize)
        ensures
            out == self@.1,
    {
        self.blockchain_len
    }

    /// The JSON text of the information.
    pub fn to_json(&self) -> (out: String)
        ensures
            out@ == block_add_info_json(self@.0, self@.1),
    {
        let mut out = String::from_str("{\"block\":");
        out.append(self.block.to_json().as_str());
        out.append(",\"blockchain_len\":");
        out.append(decimal(self.blockchain_len as u64).as_str());
        out.append("}");
        out
    }
}

} // verus!
