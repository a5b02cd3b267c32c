use vstd::prelude::*;

use crate::blockchain::BlockId;
use crate::node::NodeId;

verus! {

/// Something that happens at a simulated time.
#[derive(Clone, Copy, Debug, PartialEq, Eq, Structural)]
pub struct Event {
    pub time: u64,
    pub ty: EventType,
}

#[derive(Clone, Copy, Debug, PartialEq, Eq, Hash, Structural)]
pub enum EventType {
    /// `minter` finishes mining `block_id` on top of `prev_block_id`.
    BlockGeneration { minter: NodeId, prev_block_id: BlockId, block_id: BlockId },
    /// `block_id`, sent by `from`, reaches `to`.
    Propagation { from: NodeId, to: NodeId, block_id: BlockId },
}

impl Event {
    pub fn new(time: u64, ty: EventType) -> (r: Self)
        ensures
            r == (Event { time, ty }),
    {
        Event { time, ty }
    }

    pub fn time(&self) -> (r: u64)
        ensures
            r == self.time,
    {
        self.time
    }

    pub fn event_type(&self) -> (r: &EventType)
        ensures
            *r == self.ty,
    {
        &self.ty
    }

    pub fn is_block_generation(&self) -> (r: bool)
        ensures
            r == self.ty is BlockGeneration,
    {
        match self.ty {
            EventType::BlockGeneration { .. } => true,
            EventType::Propagation { .. } => false,
        }
    }

    pub fn is_propagation(&self) -> (r: bool)
        ensures
            r == self.ty is Propagation,
    {
        match self.ty {
            EventType::BlockGeneration { .. } => false,
            EventType::Propagation { .. } => true,
        }
    }
}

} // verus!
