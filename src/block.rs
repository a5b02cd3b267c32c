use vstd::prelude::*;

use crate::blockchain::BlockId;
use crate::node::NodeId;
use crate::protocol::ProtocolType;

verus! {

/// A mined block. Difficulty is measured in hashes expected per block, so a
/// Bitcoin difficulty `D` is stored as `D * 2^32` and an Ethereum one as `D`.
/// Times are simulated milliseconds.
#[derive(Clone, Copy, Debug, PartialEq, Eq, Structural)]
pub struct Block {
    pub height: u64,
    pub prev_block_id: Option<BlockId>,
    pub minter: NodeId,
    pub time: u64,
    pub rand: u64,
    pub id: BlockId,
    pub difficulty: u64,
    /// How long the mining of this block took.
    pub mining_time: u64,
}

impl Block {
    pub fn new(
        height: u64,
        prev_block_id: Option<BlockId>,
        minter: NodeId,
        time: u64,
        rand: u64,
        id: BlockId,
        difficulty: u64,
        mining_time: u64,
    ) -> (r: Self)
        ensures
            r == (Block { height, prev_block_id, minter, time, rand, id, difficulty, mining_time }),
    {
        Block { height, prev_block_id, minter, time, rand, id, difficulty, mining_time }
    }

    /// The root of every chain: height 0, no parent, no miner.
    pub open spec fn spec_genesis(difficulty: u64) -> Block {
        Block {
            height: 0,
            prev_block_id: None,
            minter: NodeId(usize::MAX),
            time: 0,
            rand: 0,
            id: BlockId(0),
            difficulty,
            mining_time: 0,
        }
    }

    pub fn genesis(protocol: &ProtocolType) -> (r: Self)
        ensures
            r == Block::spec_genesis(crate::protocol::DEFAULT_DIFFICULTY),
    {
        Block {
            height: 0,
            prev_block_id: None,
            minter: NodeId::dummy(),
            time: 0,
            rand: 0,
            id: BlockId(0),
            difficulty: protocol.default_difficulty(),
            mining_time: 0,
        }
    }

    pub fn height(&self) -> (r: u64)
        ensures
            r == self.height,
    {
        self.height
    }

    pub fn id(&self) -> (r: BlockId)
        ensures
            r == self.id,
    {
        self.id
    }

    pub fn difficulty(&self) -> (r: u64)
        ensures
            r == self.difficulty,
    {
        self.difficulty
    }

    pub fn minter(&self) -> (r: NodeId)
        ensures
            r == self.minter,
    {
        self.minter
    }

    pub fn time(&self) -> (r: u64)
        ensures
            r == self.time,
    {
        self.time
    }

    pub fn prev_block_id(&self) -> (r: Option<BlockId>)
        ensures
            r == self.prev_block_id,
    {
        self.prev_block_id
    }

    pub fn rand(&self) -> (r: u64)
        ensures
            r == self.rand,
    {
        self.rand
    }
}

} // verus!
