//! A discrete-event simulator for proof-of-work blockchains, with the
//! block pool, the fork-choice and difficulty rules, the mining strategies
//! and the event engine stated and proved in Verus.
use vstd::prelude::*;

pub mod block;
pub mod blockchain;
pub mod event;
pub mod event_queue;
pub mod node;
pub mod mining_strategy;
pub mod profile;
pub mod protocol;
pub mod rewards;
pub mod simulator;
pub mod task;

pub use block::Block;
pub use blockchain::{BlockId, Blockchain};
pub use event::{Event, EventType};
pub use mining_strategy::{
    Action, HonestMiningStrategy, MiningStrategy, MiningStrategyEnum, SelfishMiningStrategy,
};
pub use node::{Node, NodeId};
pub use profile::{NetworkProfile, NodeProfile};
pub use task::{Task, TaskType};
pub use protocol::{BitcoinProtocol, EthereumProtocol, ProtocolType};
pub use rewards::reward_counts;
pub use simulator::{BlockchainSimulator, ConfigError, Env, TieBreakingRule};

verus! {

} // verus!
