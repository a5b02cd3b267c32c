use vstd::prelude::*;

use crate::mining_strategy::{MiningStrategy, MiningStrategyEnum};

verus! {

/// One node of a network profile.
#[derive(Clone, Copy, Debug, PartialEq, Eq, Structural)]
pub struct NodeProfile {
    pub hashrate: i64,
    pub strategy: MiningStrategyEnum,
}

/// The configuration of every node of a run.
#[derive(Debug)]
pub struct NetworkProfile {
    pub nodes: Vec<NodeProfile>,
}

impl NetworkProfile {
    /// A fresh strategy for the node at `node_index`, of the kind its profile names.
    pub fn create_strategy(&self, node_index: usize) -> (r: MiningStrategy)
        requires
            node_index < self.nodes@.len(),
        ensures
            r == self.nodes@[node_index as int].strategy.spec_to_strategy(),
    {
        self.nodes[node_index].strategy.to_strategy()
    }

    pub fn num_nodes(&self) -> (r: usize)
        ensures
            r == self.nodes@.len(),
    {
        self.nodes.len()
    }
}

} // verus!
