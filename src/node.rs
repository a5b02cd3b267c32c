use vstd::prelude::*;

use crate::blockchain::BlockId;
use crate::mining_strategy::{HonestMiningStrategy, MiningStrategy};

verus! {

/// The identity of a miner: a dense index into the node table.
#[derive(Clone, Copy, Debug, Hash, PartialEq, Eq, Structural)]
pub struct NodeId(pub usize);

impl NodeId {
    pub fn new(id: usize) -> (r: Self)
        ensures
            r.0 == id,
    {
        NodeId(id)
    }

    pub fn into_usize(self) -> (r: usize)
        ensures
            r == self.0,
    {
        self.0
    }

    /// The sentinel that stands for "no miner" (the minter of genesis).
    pub fn dummy() -> (r: Self)
        ensures
            r.0 == usize::MAX,
    {
        NodeId(usize::MAX)
    }
}

} // verus!

verus! {

/// The node's outstanding mining attempt: when it completes, and the key of
/// its event in the engine's queue.
#[derive(Clone, Copy, Debug, PartialEq, Eq, Structural)]
pub struct MiningTask {
    pub deadline: u64,
    pub key: usize,
}

/// A miner in the network.
#[derive(Clone, Copy, Debug, PartialEq, Eq, Structural)]
pub struct Node {
    pub id: NodeId,
    /// Relative hashing power, at least 1.
    pub hashrate: u64,
    pub mining_strategy: MiningStrategy,
    /// The block the node holds for the best tip, by fork-choice.
    pub tip: BlockId,
    pub mining_task: Option<MiningTask>,
}

impl Node {
    /// An honest node with every tip at genesis and no mining attempt.
    pub fn new(id: NodeId, hashrate: u64) -> (r: Self)
        ensures
            r == (Node {
                id,
                hashrate,
                mining_strategy: MiningStrategy::Honest(
                    HonestMiningStrategy { current_block_id: BlockId(0) },
                ),
                tip: BlockId(0),
                mining_task: None,
            }),
    {
        Node::new_with_strategy(
            id,
            hashrate,
            MiningStrategy::Honest(HonestMiningStrategy::default()),
        )
    }

    pub fn new_with_strategy(id: NodeId, hashrate: u64, mining_strategy: MiningStrategy) -> (r:
        Self)
        ensures
            r == (Node { id, hashrate, mining_strategy, tip: BlockId(0), mining_task: None }),
    {
        Node { id, hashrate, mining_strategy, tip: BlockId(0), mining_task: None }
    }

    pub fn id(&self) -> (r: NodeId)
        ensures
            r == self.id,
    {
        self.id
    }

    pub fn hashrate(&self) -> (r: u64)
        ensures
            r == self.hashrate,
    {
        self.hashrate
    }

    pub fn mining_strategy(&self) -> (r: &MiningStrategy)
        ensures
            *r == self.mining_strategy,
    {
        &self.mining_strategy
    }

    /// When the outstanding mining attempt completes, if there is one.
    pub fn next_mining_deadline(&self) -> (r: Option<u64>)
        ensures
            r == match self.mining_task {
                Some(t) => Some(t.deadline),
                None => None::<u64>,
            },
    {
        match self.mining_task {
            Some(t) => Some(t.deadline),
            None => None,
        }
    }
}

/// The node table.
pub struct NodeList {
    pub nodes: Vec<Node>,
}

impl NodeList {
    pub fn new(nodes: Vec<Node>) -> (r: Self)
        ensures
            r.nodes@ == nodes@,
    {
        NodeList { nodes }
    }

    pub fn nodes(&self) -> (r: &[Node])
        ensures
            r@ == self.nodes@,
    {
        self.nodes.as_slice()
    }

    pub fn get_node(&self, id: NodeId) -> (r: &Node)
        requires
            id.0 < self.nodes@.len(),
        ensures
            *r == self.nodes@[id.0 as int],
    {
        &self.nodes[id.0]
    }
}

} // verus!
