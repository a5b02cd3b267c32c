use vstd::prelude::*;

verus! {

/// A scheduled unit of work, with nodes and blocks given by index.
#[derive(Clone, Copy, Debug, PartialEq, Eq, Structural)]
pub struct Task {
    pub time: u64,
    pub ty: TaskType,
}

#[derive(Clone, Copy, Debug, PartialEq, Eq, Hash, Structural)]
pub enum TaskType {
    BlockGeneration { minter: usize },
    Propagation { from: usize, to: usize, block_id: usize },
}

impl Task {
    pub fn new(time: u64, ty: TaskType) -> (r: Self)
        ensures
            r == (Task { time, ty }),
    {
        Task { time, ty }
    }

    pub fn time(&self) -> (r: u64)
        ensures
            r == self.time,
    {
        self.time
    }

    pub fn task_type(&self) -> (r: &TaskType)
        ensures
            *r == self.ty,
    {
        &self.ty
    }

    pub fn is_block_generation(&self) -> (r: bool)
        ensures
            r == self.ty is BlockGeneration,
    {
        match self.ty {
            TaskType::BlockGeneration { .. } => true,
            TaskType::Propagation { .. } => false,
        }
    }

    pub fn is_propagation(&self) -> (r: bool)
        ensures
            r == self.ty is Propagation,
    {
        match self.ty {
            TaskType::BlockGeneration { .. } => false,
            TaskType::Propagation { .. } => true,
        }
    }
}

} // verus!
