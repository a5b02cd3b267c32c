use vstd::prelude::*;

use crate::block::Block;
use crate::blockchain::{BlockId, Blockchain};
use crate::event::{Event, EventType};
use crate::event_queue::{
    queue_items, queue_new, queue_peek, queue_push, queue_remove, EventHeap, Priority,
};
use crate::mining_strategy::{
    Action,
    h, strategy_in_pool, strategy_mine, strategy_receive, HonestMiningStrategy, MiningStrategy,
    SelfishMiningStrategy,
};
use crate::node::{MiningTask, Node, NodeId};
use crate::profile::NetworkProfile;
use crate::protocol::{generation_time, protocol_difficulty, saturate, ProtocolType};

verus! {

/// The network settings that strategies read.
#[derive(Clone, Copy, Debug, PartialEq, Eq, Structural)]
pub struct Env {
    pub num_nodes: usize,
    /// The one-hop propagation delay, in milliseconds.
    pub delay: u64,
    /// The target block interval, in milliseconds.
    pub generation_time: u64,
    /// How nodes break ties between blocks of equal height.
    pub tie: TieBreakingRule,
}

/// How a node chooses between an arriving block and its tip of equal height.
#[derive(Clone, Copy, Debug, PartialEq, Eq, Structural)]
pub enum TieBreakingRule {
    /// Keep the tip.
    Longest,
    /// The block with the higher `rand` wins.
    Random,
    /// The block produced earlier wins.
    Time,
}

/// Why a simulator could not be built.
#[derive(Clone, Copy, Debug, PartialEq, Eq, Structural)]
pub enum ConfigError {
    /// The node at this index has a hashrate below 1.
    NonPositiveHashrate { node: usize },
}

/// The priority under which the event stored at `key` is queued: earlier
/// times first, and at equal times the event scheduled first.
pub open spec fn event_priority(e: Event, key: usize) -> Priority {
    ((u64::MAX - e.time) as u64, (u64::MAX - key) as u64)
}

/// Every node and block that `e` names exists.
pub open spec fn event_valid(e: Event, num_nodes: nat, num_blocks: nat) -> bool {
    match e.ty {
        EventType::BlockGeneration { minter, prev_block_id, block_id } => {
            &&& minter.0 < num_nodes
            &&& prev_block_id.0 < num_blocks
            &&& block_id.0 < num_blocks
        },
        EventType::Propagation { from, to, block_id } => {
            &&& from.0 < num_nodes
            &&& to.0 < num_nodes
            &&& block_id.0 < num_blocks
        },
    }
}

/// `e` is the completion of a mining attempt by node `m`.
pub open spec fn is_generation_by(e: Event, m: int) -> bool {
    e.ty matches EventType::BlockGeneration { minter, .. } && minter.0 == m
}

/// The delay of one hop from `from` to `to`.
pub open spec fn spec_delay(env: Env, from: usize, to: usize) -> u64 {
    if from == to {
        0
    } else {
        env.delay
    }
}

/// The tip that `recipient` holds after `b` arrives while it holds `c`.
pub open spec fn fork_choice(
    blocks: Seq<Block>,
    tie: TieBreakingRule,
    recipient: usize,
    c: BlockId,
    b: BlockId,
) -> BlockId {
    let cb = blocks[c.0 as int];
    let bb = blocks[b.0 as int];
    if h(blocks, b) > h(blocks, c) {
        b
    } else if h(blocks, b) == h(blocks, c) && cb.minter != NodeId(recipient) {
        match tie {
            TieBreakingRule::Longest => c,
            TieBreakingRule::Random => if cb.rand < bb.rand {
                b
            } else {
                c
            },
            TieBreakingRule::Time => if cb.time > bb.time {
                b
            } else {
                c
            },
        }
    } else {
        c
    }
}

/// The tip that `recipient` holds after `block2` arrives while it holds `block1`.
pub fn choose_tip(
    blockchain: &Blockchain,
    tie: TieBreakingRule,
    recipient: usize,
    block1: BlockId,
    block2: BlockId,
) -> (r: BlockId)
    requires
        block1.0 < blockchain.spec_blocks().len(),
        block2.0 < blockchain.spec_blocks().len(),
    ensures
        r == fork_choice(blockchain.spec_blocks(), tie, recipient, block1, block2),
{
    let c = *blockchain.get_block(block1).unwrap();
    let b = *blockchain.get_block(block2).unwrap();
    let adopt = if b.height > c.height {
        true
    } else if b.height == c.height && c.minter != NodeId(recipient) {
        match tie {
            TieBreakingRule::Longest => false,
            TieBreakingRule::Random => c.rand < b.rand,
            TieBreakingRule::Time => c.time > b.time,
        }
    } else {
        false
    };
    if adopt {
        block2
    } else {
        block1
    }
}

/// The node at index `i` is consistent with the pool.
pub open spec fn node_ok(node: Node, i: int, blocks: Seq<Block>) -> bool {
    &&& node.id == NodeId(i as usize)
    &&& node.hashrate >= 1
    &&& strategy_in_pool(node.mining_strategy, blocks)
    &&& node.tip.0 < blocks.len()
}

/// The simulation engine: a time-ordered loop over a queue of events.
pub struct BlockchainSimulator {
    env: Env,
    /// The greatest height mined so far.
    current_round: u64,
    current_time: u64,
    nodes: Vec<Node>,
    end_round: u64,
    blockchain: Blockchain,
    protocol: ProtocolType,
    /// Every event ever scheduled; the queue holds indices into it.
    events: Vec<Event>,
    event_queue: EventHeap,
}

impl BlockchainSimulator {
    pub closed spec fn spec_nodes(&self) -> Seq<Node> {
        self.nodes@
    }

    pub closed spec fn spec_blocks(&self) -> Seq<Block> {
        self.blockchain.spec_blocks()
    }

    /// Which stored blocks have been mined.
    pub closed spec fn spec_mined(&self) -> Seq<bool> {
        self.blockchain.spec_mined()
    }

    pub closed spec fn spec_events(&self) -> Seq<Event> {
        self.events@
    }

    /// The queued event keys with their priorities.
    pub closed spec fn spec_queue(&self) -> Map<usize, Priority> {
        queue_items(self.event_queue)
    }

    pub closed spec fn spec_env(&self) -> Env {
        self.env
    }

    pub closed spec fn spec_time(&self) -> u64 {
        self.current_time
    }

    pub closed spec fn spec_round(&self) -> u64 {
        self.current_round
    }

    pub closed spec fn spec_end_round(&self) -> u64 {
        self.end_round
    }

    pub closed spec fn spec_tie(&self) -> TieBreakingRule {
        self.env.tie
    }

    pub closed spec fn spec_protocol(&self) -> ProtocolType {
        self.protocol
    }

    /// The queued event at `k` is stored, valid, queued at its own priority,
    /// and, if it completes a mining attempt, it is its node's attempt.
    pub open spec fn queued_ok(&self, k: usize) -> bool {
        let e = self.spec_events()[k as int];
        &&& k < self.spec_events().len()
        &&& self.spec_queue()[k] == event_priority(e, k)
        &&& event_valid(e, self.spec_nodes().len(), self.spec_blocks().len())
        &&& e.time >= self.spec_time()
        &&& e.ty matches EventType::BlockGeneration { minter, .. } ==> self.spec_nodes()[minter.0 as int].mining_task matches Some(t) && t.key == k
        &&& e.ty matches EventType::BlockGeneration { block_id, .. } ==> self.spec_blocks()[block_id.0 as int].time == e.time
    }

    /// Node `m`'s mining attempt is queued, and its deadline is its time.
    pub open spec fn task_ok(&self, m: int) -> bool {
        self.spec_nodes()[m].mining_task matches Some(t) ==> {
            &&& self.spec_queue().contains_key(t.key)
            &&& t.key < self.spec_events().len()
            &&& self.spec_events()[t.key as int].time == t.deadline
            &&& is_generation_by(self.spec_events()[t.key as int], m)
        }
    }

    pub closed spec fn spec_blockchain(&self) -> Blockchain {
        self.blockchain
    }

    pub open spec fn wf(&self) -> bool {
        &&& self.spec_blockchain().wf()
        &&& self.spec_blockchain().spec_blocks() == self.spec_blocks()
        &&& self.spec_blockchain().spec_mined() == self.spec_mined()
        &&& forall|i: int| 0 <= i < self.spec_blocks().len() && #[trigger] self.spec_mined()[i] ==> self.spec_blocks()[i].time <= self.spec_time()
        &&& self.spec_events().len() <= usize::MAX
        &&& self.spec_nodes().len() == self.spec_env().num_nodes
        &&& forall|i: int|
            0 <= i < self.spec_nodes().len() ==> node_ok(
                #[trigger] self.spec_nodes()[i],
                i,
                self.spec_blocks(),
            )
        &&& forall|i: int|
            1 <= i < self.spec_blocks().len() ==> (#[trigger] self.spec_blocks()[i]).minter.0
                < self.spec_nodes().len()
        &&& forall|k: usize| #[trigger] self.spec_queue().contains_key(k) ==> self.queued_ok(k)
        &&& forall|m: int| 0 <= m < self.spec_nodes().len() ==> #[trigger] self.task_ok(m)
    }

    /// A fresh run over `nodes`: genesis alone, no events, time and round 0.
    pub open spec fn is_fresh(&self, nodes: Seq<Node>) -> bool {
        &&& self.wf()
        &&& self.spec_nodes() == nodes
        &&& self.spec_blocks() == seq![Block::spec_genesis(crate::protocol::DEFAULT_DIFFICULTY)]
        &&& self.spec_mined() == seq![true]
        &&& self.spec_events().len() == 0
        &&& self.spec_queue().dom() == Set::<usize>::empty()
        &&& self.spec_time() == 0
        &&& self.spec_round() == 0
    }

    fn from_nodes(
        nodes: Vec<Node>,
        end_round: u64,
        tie: TieBreakingRule,
        delay: u64,
        generation_time: u64,
        protocol: ProtocolType,
    ) -> (r: Self)
        requires
            forall|i: int|
                0 <= i < nodes@.len() ==> node_ok(
                    #[trigger] nodes@[i],
                    i,
                    seq![Block::spec_genesis(crate::protocol::DEFAULT_DIFFICULTY)],
                ),
            forall|i: int| 0 <= i < nodes@.len() ==> (#[trigger] nodes@[i]).mining_task is None,
        ensures
            r.is_fresh(nodes@),
            r.spec_env() == (Env { num_nodes: nodes@.len() as usize, delay, generation_time, tie }),
            r.spec_end_round() == end_round,
            r.spec_tie() == tie,
            r.spec_protocol() == protocol,
    {
        let num_nodes = nodes.len();
        let sim = BlockchainSimulator {
            env: Env { num_nodes, delay, generation_time, tie },
            current_round: 0,
            current_time: 0,
            nodes,
            end_round,
            blockchain: Blockchain::new(&protocol),
            protocol,
            events: Vec::new(),
            event_queue: queue_new(),
        };
        assert forall|m: int| 0 <= m < sim.spec_nodes().len() implies #[trigger] sim.task_ok(m) by {
            assert(sim.spec_nodes()[m].mining_task is None);
        }
        sim
    }

    /// A run of honest miners with the given hashrates.
    pub fn new(
        hashrates: Vec<u64>,
        end_round: u64,
        tie: TieBreakingRule,
        delay: u64,
        generation_time: u64,
        protocol: ProtocolType,
    ) -> (r: Result<Self, ConfigError>)
        ensures
            r is Ok <==> forall|i: int| 0 <= i < hashrates@.len() ==> hashrates@[i] >= 1,
            r matches Err(ConfigError::NonPositiveHashrate { node }) ==> node < hashrates@.len()
                && hashrates@[node as int] == 0,
            r matches Ok(sim) ==> {
                &&& sim.is_fresh(
                    Seq::new(
                        hashrates@.len(),
                        |i: int|
                            Node {
                                id: NodeId(i as usize),
                                hashrate: hashrates@[i],
                                mining_strategy: MiningStrategy::Honest(
                                    HonestMiningStrategy { current_block_id: BlockId(0) },
                                ),
                                tip: BlockId(0),
                                mining_task: None,
                            },
                    ),
                )
                &&& sim.spec_env() == (Env { num_nodes: hashrates@.len() as usize, delay, generation_time, tie })
                &&& sim.spec_end_round() == end_round
                &&& sim.spec_tie() == tie
                &&& sim.spec_protocol() == protocol
            },
    {
        let mut nodes: Vec<Node> = Vec::new();
        let mut i: usize = 0;
        while i < hashrates.len()
            invariant
                i <= hashrates@.len(),
                nodes@.len() == i,
                forall|j: int| 0 <= j < i ==> hashrates@[j] >= 1,
                forall|j: int|
                    0 <= j < i ==> #[trigger] nodes@[j] == (Node {
                        id: NodeId(j as usize),
                        hashrate: hashrates@[j],
                        mining_strategy: MiningStrategy::Honest(
                            HonestMiningStrategy { current_block_id: BlockId(0) },
                        ),
                        tip: BlockId(0),
                        mining_task: None,
                    }),
            decreases hashrates@.len() - i,
        {
            if hashrates[i] == 0 {
                return Err(ConfigError::NonPositiveHashrate { node: i });
            }
            nodes.push(Node::new(NodeId(i), hashrates[i]));
            i = i + 1;
        }
        let ghost expected = Seq::new(
            hashrates@.len(),
            |i: int|
                Node {
                    id: NodeId(i as usize),
                    hashrate: hashrates@[i],
                    mining_strategy: MiningStrategy::Honest(
                        HonestMiningStrategy { current_block_id: BlockId(0) },
                    ),
                    tip: BlockId(0),
                    mining_task: None,
                },
        );
        assert(nodes@ =~= expected);
        Ok(BlockchainSimulator::from_nodes(nodes, end_round, tie, delay, generation_time, protocol))
    }

    /// A run over the nodes of a profile.
    pub fn new_with_profile(
        profile: &NetworkProfile,
        end_round: u64,
        tie: TieBreakingRule,
        delay: u64,
        generation_time: u64,
        protocol: ProtocolType,
    ) -> (r: Result<Self, ConfigError>)
        ensures
            r is Ok <==> forall|i: int|
                0 <= i < profile.nodes@.len() ==> (#[trigger] profile.nodes@[i]).hashrate >= 1,
            r matches Err(ConfigError::NonPositiveHashrate { node }) ==> node
                < profile.nodes@.len() && profile.nodes@[node as int].hashrate < 1,
            r matches Ok(sim) ==> {
                &&& sim.is_fresh(
                    Seq::new(
                        profile.nodes@.len(),
                        |i: int|
                            Node {
                                id: NodeId(i as usize),
                                hashrate: profile.nodes@[i].hashrate as u64,
                                mining_strategy: profile.nodes@[i].strategy.spec_to_strategy(),
                                tip: BlockId(0),
                                mining_task: None,
                            },
                    ),
                )
                &&& sim.spec_env() == (Env {
                    num_nodes: profile.nodes@.len() as usize,
                    delay,
                    generation_time,
                    tie,
                })
                &&& sim.spec_end_round() == end_round
                &&& sim.spec_tie() == tie
                &&& sim.spec_protocol() == protocol
            },
    {
        let mut nodes: Vec<Node> = Vec::new();
        let mut i: usize = 0;
        while i < profile.num_nodes()
            invariant
                i <= profile.nodes@.len(),
                nodes@.len() == i,
                forall|j: int| 0 <= j < i ==> (#[trigger] profile.nodes@[j]).hashrate >= 1,
                forall|j: int|
                    0 <= j < i ==> #[trigger] nodes@[j] == (Node {
                        id: NodeId(j as usize),
                        hashrate: profile.nodes@[j].hashrate as u64,
                        mining_strategy: profile.nodes@[j].strategy.spec_to_strategy(),
                        tip: BlockId(0),
                        mining_task: None,
                    }),
            decreases profile.nodes@.len() - i,
        {
            let hashrate = profile.nodes[i].hashrate;
            if hashrate < 1 {
                return Err(ConfigError::NonPositiveHashrate { node: i });
            }
            let strategy = profile.create_strategy(i);
            nodes.push(Node::new_with_strategy(NodeId(i), hashrate as u64, strategy));
            i = i + 1;
        }
        let ghost expected = Seq::new(
            profile.nodes@.len(),
            |i: int|
                Node {
                    id: NodeId(i as usize),
                    hashrate: profile.nodes@[i].hashrate as u64,
                    mining_strategy: profile.nodes@[i].strategy.spec_to_strategy(),
                    tip: BlockId(0),
                    mining_task: None,
                },
        );
        assert(nodes@ =~= expected);
        Ok(BlockchainSimulator::from_nodes(nodes, end_round, tie, delay, generation_time, protocol))
    }

    /// Everything but the pool, the nodes, the events, the queue and the clock.
    pub open spec fn same_config(&self, other: &Self) -> bool {
        &&& self.spec_env() == other.spec_env()
        &&& self.spec_tie() == other.spec_tie()
        &&& self.spec_protocol() == other.spec_protocol()
        &&& self.spec_end_round() == other.spec_end_round()
    }

    /// The queue once node `m`'s mining attempt is withdrawn from it.
    pub open spec fn queue_without_task(&self, m: int) -> Map<usize, Priority> {
        match self.spec_nodes()[m].mining_task {
            Some(t) => self.spec_queue().remove(t.key),
            None => self.spec_queue(),
        }
    }

    /// Withdraws node `m`'s mining attempt, if it has one.
    fn cancel_mining(&mut self, m: usize)
        requires
            old(self).wf(),
            m < old(self).spec_nodes().len(),
        ensures
            final(self).wf(),
            final(self).same_config(old(self)),
            final(self).spec_nodes() == old(self).spec_nodes().update(
                m as int,
                Node { mining_task: None, ..old(self).spec_nodes()[m as int] },
            ),
            final(self).spec_queue() == old(self).queue_without_task(m as int),
            final(self).spec_blocks() == old(self).spec_blocks(),
            final(self).spec_mined() == old(self).spec_mined(),
            final(self).spec_events() == old(self).spec_events(),
            final(self).spec_time() == old(self).spec_time(),
            final(self).spec_round() == old(self).spec_round(),
            forall|k: usize| #[trigger] final(self).spec_queue().contains_key(k) ==> !is_generation_by(
                final(self).spec_events()[k as int],
                m as int,
            ),
    {
        let ghost old_self = *self;
        let mut node = self.nodes[m];
        match node.mining_task {
            Some(t) => {
                queue_remove(&mut self.event_queue, t.key);
            },
            None => {},
        }
        node.mining_task = None;
        self.nodes.set(m, node);
        proof {
            assert forall|k: usize| #[trigger] self.spec_queue().contains_key(k) implies self.queued_ok(k) && !is_generation_by(self.spec_events()[k as int], m as int) by {
                assert(old_self.spec_queue().contains_key(k));
                assert(old_self.queued_ok(k));
            }
            assert forall|x: int| 0 <= x < self.spec_nodes().len() implies #[trigger] self.task_ok(x) by {
                assert(old_self.task_ok(x));
                if x != m {
                    match old_self.spec_nodes()[x].mining_task {
                        Some(tx) => {
                            match old_self.spec_nodes()[m as int].mining_task {
                                Some(tm) => {
                                    assert(old_self.task_ok(m as int));
                                    assert(tx.key != tm.key);
                                },
                                None => {},
                            }
                        },
                        None => {},
                    }
                }
            }
            assert forall|i: int| 0 <= i < self.spec_nodes().len() implies node_ok(
                #[trigger] self.spec_nodes()[i],
                i,
                self.spec_blocks(),
            ) by {
                assert(node_ok(old_self.spec_nodes()[i], i, old_self.spec_blocks()));
            }
        }
    }

    /// The block that node `m` starts to mine on `prev`, with the protocol's
    /// difficulty and a mining time scaled by the exponential draw `exp_draw`.
    pub open spec fn candidate_block(&self, m: int, prev: BlockId, exp_draw: u64, rand_draw: u64) -> Block {
        candidate(self.spec_blocks(), self.spec_nodes(), self.spec_protocol(), self.spec_time(), m, prev, exp_draw, rand_draw)
    }

    /// The pool, the events, the queue and the nodes: what actions change.
    pub open spec fn parts(&self) -> EngineParts {
        (self.spec_blocks(), self.spec_mined(), self.spec_events(), self.spec_queue(), self.spec_nodes())
    }

    /// Node `m` restarts mining on `prev`: its old attempt is withdrawn, the
    /// candidate block is stored, and its completion is queued at the deadline.
    fn schedule_mining(&mut self, m: usize, prev: BlockId, exp_draw: u64, rand_draw: u64)
        requires
            old(self).wf(),
            m < old(self).spec_nodes().len(),
            prev.0 < old(self).spec_blocks().len(),
        ensures
            final(self).wf(),
            final(self).same_config(old(self)),
            ({
                let b = old(self).candidate_block(m as int, prev, exp_draw, rand_draw);
                let key = old(self).spec_events().len() as usize;
                let e = Event {
                    time: b.time,
                    ty: EventType::BlockGeneration { minter: NodeId(m), prev_block_id: prev, block_id: b.id },
                };
                &&& final(self).spec_blocks() == old(self).spec_blocks().push(b)
                &&& final(self).spec_mined() == old(self).spec_mined().push(false)
                &&& final(self).spec_events() == old(self).spec_events().push(e)
                &&& final(self).spec_queue() == old(self).queue_without_task(m as int).insert(key, event_priority(e, key))
                &&& final(self).spec_nodes() == old(self).spec_nodes().update(
                    m as int,
                    Node {
                        mining_task: Some(MiningTask { deadline: b.time, key }),
                        ..old(self).spec_nodes()[m as int]
                    },
                )
            }),
            final(self).spec_time() == old(self).spec_time(),
            final(self).spec_round() == old(self).spec_round(),
            final(self).parts() == action_effect(
                old(self).parts(),
                old(self).spec_protocol(),
                old(self).spec_env(),
                old(self).spec_time(),
                m as int,
                Action::RestartMining { prev_block_id: prev },
                exp_draw,
                rand_draw,
            ),
    {
        let ghost old_self = *self;
        let parent = *self.blockchain.get_block(prev).unwrap();
        let d = self.protocol.calculate_difficulty(&parent, self.current_time, &self.blockchain);
        let hashrate = self.nodes[m].hashrate;
        proof {
            assert(node_ok(self.spec_nodes()[m as int], m as int, self.spec_blocks()));
        }
        let tau = self.protocol.calculate_generation_time(exp_draw, d, hashrate);
        self.cancel_mining(m);
        let ghost mid = *self;
        let deadline = self.current_time.saturating_add(tau);
        let id = self.blockchain.next_block_id();
        proof {
            assert(parent.height <= prev.0);
        }
        let block = Block::new(parent.height + 1, Some(prev), NodeId(m), deadline, rand_draw, id, d, tau);
        self.blockchain.add_candidate(block);
        let key = self.events.len();
        let e = Event {
            time: deadline,
            ty: EventType::BlockGeneration { minter: NodeId(m), prev_block_id: prev, block_id: id },
        };
        self.events.push(e);
        queue_push(&mut self.event_queue, key, (u64::MAX - deadline, u64::MAX - key as u64));
        let mut node = self.nodes[m];
        node.mining_task = Some(MiningTask { deadline, key });
        self.nodes.set(m, node);
        proof {
            assert(self.events.len() == self.events@.len());
            assert(block == old_self.candidate_block(m as int, prev, exp_draw, rand_draw));
            assert forall|k: usize| #[trigger] self.spec_queue().contains_key(k) implies self.queued_ok(k) by {
                if k != key {
                    assert(mid.spec_queue().contains_key(k));
                    assert(mid.queued_ok(k));
                    assert(self.spec_events()[k as int] == mid.spec_events()[k as int]);
                    let e = mid.spec_events()[k as int];
                    match e.ty {
                        EventType::BlockGeneration { block_id, .. } => {
                            assert(self.spec_blocks()[block_id.0 as int] == mid.spec_blocks()[block_id.0 as int]);
                        },
                        EventType::Propagation { .. } => {},
                    }
                }
            }
            assert forall|i: int| 0 <= i < self.spec_blocks().len() && #[trigger] self.spec_mined()[i] implies self.spec_blocks()[i].time <= self.spec_time() by {
                assert(i < mid.spec_blocks().len());
                assert(mid.spec_mined()[i]);
                assert(self.spec_blocks()[i] == mid.spec_blocks()[i]);
            }
            assert forall|x: int| 0 <= x < self.spec_nodes().len() implies #[trigger] self.task_ok(x) by {
                if x != m {
                    assert(mid.task_ok(x));
                    match mid.spec_nodes()[x].mining_task {
                        Some(tx) => {
                            assert(self.spec_events()[tx.key as int] == mid.spec_events()[tx.key as int]);
                        },
                        None => {},
                    }
                }
            }
            assert forall|i: int| 0 <= i < self.spec_nodes().len() implies node_ok(
                #[trigger] self.spec_nodes()[i],
                i,
                self.spec_blocks(),
            ) by {
                assert(node_ok(mid.spec_nodes()[i], i, mid.spec_blocks()));
            }
            assert forall|i: int| 1 <= i < self.spec_blocks().len() implies (#[trigger] self.spec_blocks()[i]).minter.0
                < self.spec_nodes().len() by {
                if i < mid.spec_blocks().len() {
                    assert(self.spec_blocks()[i] == mid.spec_blocks()[i]);
                }
            }
        }
    }

    /// Queues the arrival of `block_id` at `to`, one hop after now.
    fn push_propagation(&mut self, from: usize, to: usize, block_id: BlockId)
        requires
            old(self).wf(),
            from < old(self).spec_nodes().len(),
            to < old(self).spec_nodes().len(),
            block_id.0 < old(self).spec_blocks().len(),
        ensures
            final(self).wf(),
            final(self).same_config(old(self)),
            ({
                let key = old(self).spec_events().len() as usize;
                let e = Event {
                    time: saturate(old(self).spec_time() + spec_delay(old(self).spec_env(), from, to)),
                    ty: EventType::Propagation { from: NodeId(from), to: NodeId(to), block_id },
                };
                &&& final(self).spec_events() == old(self).spec_events().push(e)
                &&& final(self).spec_queue() == old(self).spec_queue().insert(key, event_priority(e, key))
            }),
            final(self).spec_blocks() == old(self).spec_blocks(),
            final(self).spec_nodes() == old(self).spec_nodes(),
            final(self).spec_time() == old(self).spec_time(),
            final(self).spec_round() == old(self).spec_round(),
            final(self).parts() == action_effect(
                old(self).parts(),
                old(self).spec_protocol(),
                old(self).spec_env(),
                old(self).spec_time(),
                from as int,
                Action::Propagate { block_id, to },
                0,
                0,
            ),
    {
        let ghost old_self = *self;
        let delay: u64 = if from == to {
            0
        } else {
            self.env.delay
        };
        let time = self.current_time.saturating_add(delay);
        let key = self.events.len();
        let e = Event {
            time,
            ty: EventType::Propagation { from: NodeId(from), to: NodeId(to), block_id },
        };
        self.events.push(e);
        queue_push(&mut self.event_queue, key, (u64::MAX - time, u64::MAX - key as u64));
        proof {
            assert(self.events.len() == self.events@.len());
            assert forall|k: usize| #[trigger] self.spec_queue().contains_key(k) implies self.queued_ok(k) by {
                if k != key {
                    assert(old_self.spec_queue().contains_key(k));
                    assert(old_self.queued_ok(k));
                    assert(self.spec_events()[k as int] == old_self.spec_events()[k as int]);
                }
            }
            assert forall|x: int| 0 <= x < self.spec_nodes().len() implies #[trigger] self.task_ok(x) by {
                assert(old_self.task_ok(x));
                match old_self.spec_nodes()[x].mining_task {
                    Some(tx) => {
                        assert(self.spec_events()[tx.key as int] == old_self.spec_events()[tx.key as int]);
                    },
                    None => {},
                }
            }
        }
    }

    /// Applies fork-choice at `to` for the arriving `block_id`.
    fn choose_mainchain(&mut self, block_id: BlockId, to: usize)
        requires
            old(self).wf(),
            to < old(self).spec_nodes().len(),
            block_id.0 < old(self).spec_blocks().len(),
        ensures
            final(self).wf(),
            final(self).same_config(old(self)),
            final(self).spec_nodes() == old(self).spec_nodes().update(
                to as int,
                Node {
                    tip: fork_choice(
                        old(self).spec_blocks(),
                        old(self).spec_tie(),
                        to,
                        old(self).spec_nodes()[to as int].tip,
                        block_id,
                    ),
                    ..old(self).spec_nodes()[to as int]
                },
            ),
            final(self).spec_blocks() == old(self).spec_blocks(),
            final(self).spec_mined() == old(self).spec_mined(),
            final(self).spec_events() == old(self).spec_events(),
            final(self).spec_queue() == old(self).spec_queue(),
            final(self).spec_time() == old(self).spec_time(),
            final(self).spec_round() == old(self).spec_round(),
    {
        let ghost old_self = *self;
        let mut node = self.nodes[to];
        proof {
            assert(node_ok(old_self.spec_nodes()[to as int], to as int, old_self.spec_blocks()));
        }
        node.tip = choose_tip(&self.blockchain, self.env.tie, to, node.tip, block_id);
        self.nodes.set(to, node);
        proof {
            assert forall|k: usize| #[trigger] self.spec_queue().contains_key(k) implies self.queued_ok(k) by {
                assert(old_self.spec_queue().contains_key(k));
                assert(old_self.queued_ok(k));
            }
            assert forall|x: int| 0 <= x < self.spec_nodes().len() implies #[trigger] self.task_ok(x) by {
                assert(old_self.task_ok(x));
            }
            assert forall|i: int| 0 <= i < self.spec_nodes().len() implies node_ok(
                #[trigger] self.spec_nodes()[i],
                i,
                self.spec_blocks(),
            ) by {
                assert(node_ok(old_self.spec_nodes()[i], i, old_self.spec_blocks()));
            }
        }
    }

    /// `ev` completes the mining attempt that its node has outstanding.
    pub open spec fn is_live(&self, ev: Event) -> bool {
        match ev.ty {
            EventType::BlockGeneration { minter, .. } => {
                &&& minter.0 < self.spec_nodes().len()
                &&& self.spec_nodes()[minter.0 as int].mining_task matches Some(t)
                &&& t.key < self.spec_events().len()
                &&& self.spec_events()[t.key as int] == ev
            },
            EventType::Propagation { .. } => false,
        }
    }

    /// Blocks and events are only ever appended.
    pub open spec fn grows_from(&self, earlier: &Self) -> bool {
        &&& earlier.spec_blocks().len() <= self.spec_blocks().len()
        &&& forall|i: int| 0 <= i < earlier.spec_blocks().len() ==> #[trigger] self.spec_blocks()[i] == earlier.spec_blocks()[i]
        &&& earlier.spec_events().len() <= self.spec_events().len()
        &&& forall|i: int| 0 <= i < earlier.spec_events().len() ==> #[trigger] self.spec_events()[i] == earlier.spec_events()[i]
    }

    /// Every node keeps its identity, hashrate, strategy and tip.
    pub open spec fn keeps_strategies(&self, earlier: &Self) -> bool {
        &&& self.spec_nodes().len() == earlier.spec_nodes().len()
        &&& forall|i: int| 0 <= i < self.spec_nodes().len() ==> {
            let a = #[trigger] self.spec_nodes()[i];
            let b = earlier.spec_nodes()[i];
            a.id == b.id && a.hashrate == b.hashrate && a.mining_strategy == b.mining_strategy && a.tip == b.tip
        }
    }

    /// Carries out the actions of node `m`'s strategy, in order: a propagation
    /// is queued one hop later (at once for the node itself, whose arrival does
    /// nothing), a restart reschedules the node's mining on its block. Every
    /// action must name stored blocks and existing nodes.
    pub fn enqueue_actions(&mut self, m: usize, actions: &Vec<Action>, exp_draw: u64, rand_draw: u64)
        requires
            old(self).wf(),
            m < old(self).spec_nodes().len(),
            crate::mining_strategy::actions_in_pool(
                actions@,
                old(self).spec_nodes().len() as usize,
                old(self).spec_blocks().len(),
            ),
        ensures
            final(self).wf(),
            final(self).same_config(old(self)),
            final(self).spec_time() == old(self).spec_time(),
            final(self).spec_round() == old(self).spec_round(),
            final(self).grows_from(old(self)),
            final(self).keeps_strategies(old(self)),
            final(self).spec_nodes()[m as int].mining_task matches Some(t) ==> old(self).spec_nodes()[m as int].mining_task == Some(t)
                || event_block(final(self).spec_events()[t.key as int]).0 >= old(self).spec_blocks().len(),
            final(self).parts() == actions_effect(
                old(self).parts(),
                old(self).spec_protocol(),
                old(self).spec_env(),
                old(self).spec_time(),
                m as int,
                actions@,
                exp_draw,
                rand_draw,
            ),
    {
        let ghost old_self = *self;
        let mut i: usize = 0;
        while i < actions.len()
            invariant
                self.wf(),
                self.same_config(&old_self),
                self.spec_time() == old_self.spec_time(),
                self.spec_round() == old_self.spec_round(),
                self.grows_from(&old_self),
                self.keeps_strategies(&old_self),
                m < self.spec_nodes().len(),
                self.spec_nodes()[m as int].mining_task matches Some(t) ==> old_self.spec_nodes()[m as int].mining_task == Some(t)
                    || event_block(self.spec_events()[t.key as int]).0 >= old_self.spec_blocks().len(),
                i <= actions@.len(),
                crate::mining_strategy::actions_in_pool(
                    actions@,
                    old_self.spec_nodes().len() as usize,
                    old_self.spec_blocks().len(),
                ),
                self.parts() == actions_effect(
                    old_self.parts(),
                    old_self.spec_protocol(),
                    old_self.spec_env(),
                    old_self.spec_time(),
                    m as int,
                    actions@.take(i as int),
                    exp_draw,
                    rand_draw,
                ),
            decreases actions@.len() - i,
        {
            let ghost before = *self;
            proof {
                assert(crate::mining_strategy::action_ok(
                    actions@[i as int],
                    old_self.spec_nodes().len() as usize,
                    old_self.spec_blocks().len(),
                ));
                let t = actions@.take(i as int + 1);
                assert(t.drop_last() =~= actions@.take(i as int));
                assert(t.last() == actions@[i as int]);
            }
            match actions[i] {
                Action::Propagate { block_id, to } => {
                    self.push_propagation(m, to, block_id);
                    proof {
                        assert(before.task_ok(m as int));
                        match self.spec_nodes()[m as int].mining_task {
                            Some(t) => {
                                assert(self.spec_events()[t.key as int] == before.spec_events()[t.key as int]);
                            },
                            None => {},
                        }
                    }
                },
                Action::RestartMining { prev_block_id } => {
                    self.schedule_mining(m, prev_block_id, exp_draw, rand_draw);
                    proof {
                        let key = before.spec_events().len() as usize;
                        assert(self.spec_nodes()[m as int].mining_task matches Some(t) && t.key == key);
                        assert(event_block(self.spec_events()[key as int]).0 == before.spec_blocks().len());
                    }
                },
            }
            i = i + 1;
        }
        assert(actions@.take(i as int) =~= actions@);
    }

    /// Handles one event at its time. A block generation that is not the
    /// minter's outstanding attempt is stale and dropped; a live one marks its
    /// block mined and hands it to the minter's strategy. A propagation from a
    /// node to itself does nothing; any other applies fork-choice at the
    /// recipient and hands the block to its strategy. The actions returned
    /// are then carried out.
    pub fn dispatch_event(&mut self, ev: Event, exp_draw: u64, rand_draw: u64)
        requires
            old(self).wf(),
            event_valid(ev, old(self).spec_nodes().len(), old(self).spec_blocks().len()),
            old(self).spec_time() <= ev.time,
            forall|j: usize| #[trigger] old(self).spec_queue().contains_key(j) ==> old(self).spec_events()[j as int].time >= ev.time,
        ensures
            final(self).wf(),
            final(self).same_config(old(self)),
            final(self).spec_time() == ev.time,
            final(self).grows_from(old(self)),
            ev.ty is BlockGeneration && !old(self).is_live(ev) ==> {
                &&& final(self).parts() == old(self).parts()
                &&& final(self).spec_round() == old(self).spec_round()
            },
            ev.ty is BlockGeneration ==> !final(self).is_live(ev),
            old(self).is_live(ev) ==> (ev.ty matches EventType::BlockGeneration { minter, block_id, .. } ==> {
                let m = minter.0 as int;
                let hb = old(self).spec_blocks()[block_id.0 as int].height;
                &&& final(self).spec_round() == if hb > old(self).spec_round() { hb } else { old(self).spec_round() }
                &&& final(self).parts() == event_effect(
                    (old(self).spec_blocks(), old(self).spec_mined(), old(self).spec_events(), old(self).queue_without_task(m), old(self).spec_nodes()),
                    old(self).spec_protocol(),
                    old(self).spec_env(),
                    old(self).spec_tie(),
                    ev,
                    exp_draw,
                    rand_draw,
                )
            }),
            ev.ty is Propagation ==> {
                &&& final(self).spec_round() == old(self).spec_round()
                &&& final(self).parts() == event_effect(
                    old(self).parts(),
                    old(self).spec_protocol(),
                    old(self).spec_env(),
                    old(self).spec_tie(),
                    ev,
                    exp_draw,
                    rand_draw,
                )
            },
    {
        let ghost old_self = *self;
        self.current_time = ev.time;
        proof {
            assert forall|k: usize| #[trigger] self.spec_queue().contains_key(k) implies self.queued_ok(k) by {
                assert(old_self.spec_queue().contains_key(k));
                assert(old_self.queued_ok(k));
            }
            assert forall|x: int| 0 <= x < self.spec_nodes().len() implies #[trigger] self.task_ok(x) by {
                assert(old_self.task_ok(x));
            }
        }
        match ev.ty {
            EventType::BlockGeneration { minter, prev_block_id: _, block_id } => {
                let m = minter.0;
                let live = match self.nodes[m].mining_task {
                    Some(t) => t.key < self.events.len() && self.events[t.key] == ev,
                    None => false,
                };
                if !live {
                    return;
                }
                proof {
                    assert(old_self.task_ok(m as int));
                    let t = old_self.spec_nodes()[m as int].mining_task->0;
                    assert(old_self.spec_queue().contains_key(t.key));
                    assert(old_self.queued_ok(t.key));
                }
                self.cancel_mining(m);
                let ghost after_cancel = *self;
                self.blockchain.mark_mined(block_id);
                let ghost cancelled = *self;
                proof {
                    assert forall|k: usize| #[trigger] self.spec_queue().contains_key(k) implies self.queued_ok(k) by {
                        assert(after_cancel.spec_queue().contains_key(k));
                        assert(after_cancel.queued_ok(k));
                    }
                    assert forall|x: int| 0 <= x < self.spec_nodes().len() implies #[trigger] self.task_ok(x) by {
                        assert(after_cancel.task_ok(x));
                    }
                    assert forall|i: int| 0 <= i < self.spec_nodes().len() implies node_ok(
                        #[trigger] self.spec_nodes()[i],
                        i,
                        self.spec_blocks(),
                    ) by {
                        assert(node_ok(after_cancel.spec_nodes()[i], i, after_cancel.spec_blocks()));
                    }
                    assert forall|i: int| 0 <= i < self.spec_blocks().len() && #[trigger] self.spec_mined()[i] implies self.spec_blocks()[i].time <= self.spec_time() by {
                        if i != block_id.0 {
                            assert(old_self.spec_mined()[i]);
                        }
                    }
                }
                let hb = self.blockchain.get_block(block_id).unwrap().height;
                if hb > self.current_round {
                    self.current_round = hb;
                }
                let ghost mid = *self;
                let mut node = self.nodes[m];
                proof {
                    assert(node_ok(cancelled.spec_nodes()[m as int], m as int, cancelled.spec_blocks()));
                    crate::mining_strategy::lemma_actions_in_pool(
                        node.mining_strategy,
                        mid.spec_blocks(),
                        block_id,
                        mid.spec_env(),
                        m,
                    );
                }
                let actions = node.mining_strategy.on_mining_block(
                    block_id,
                    self.current_time,
                    &self.env,
                    &self.blockchain,
                    m,
                );
                self.nodes.set(m, node);
                proof {
                    assert forall|k: usize| #[trigger] self.spec_queue().contains_key(k) implies self.queued_ok(k) by {
                        assert(cancelled.spec_queue().contains_key(k));
                        assert(cancelled.queued_ok(k));
                    }
                    assert forall|x: int| 0 <= x < self.spec_nodes().len() implies #[trigger] self.task_ok(x) by {
                        assert(cancelled.task_ok(x));
                    }
                    assert forall|i: int| 0 <= i < self.spec_nodes().len() implies node_ok(
                        #[trigger] self.spec_nodes()[i],
                        i,
                        self.spec_blocks(),
                    ) by {
                        assert(node_ok(cancelled.spec_nodes()[i], i, cancelled.spec_blocks()));
                    }
                    assert(self.spec_nodes() =~= old_self.spec_nodes().update(
                        m as int,
                        Node {
                            mining_task: None,
                            mining_strategy: node.mining_strategy,
                            ..old_self.spec_nodes()[m as int]
                        },
                    ));
                }
                self.enqueue_actions(m, &actions, exp_draw, rand_draw);
                proof {
                    match self.spec_nodes()[m as int].mining_task {
                        Some(t) => {
                            assert(self.task_ok(m as int));
                            assert(event_block(self.spec_events()[t.key as int]).0 >= old_self.spec_blocks().len());
                        },
                        None => {},
                    }
                }
            },
            EventType::Propagation { from, to, block_id } => {
                if from == to {
                    return;
                }
                let r = to.0;
                self.choose_mainchain(block_id, r);
                let ghost mid = *self;
                let mut node = self.nodes[r];
                proof {
                    assert(node_ok(mid.spec_nodes()[r as int], r as int, mid.spec_blocks()));
                    crate::mining_strategy::lemma_actions_in_pool(
                        node.mining_strategy,
                        mid.spec_blocks(),
                        block_id,
                        mid.spec_env(),
                        r,
                    );
                }
                let actions = node.mining_strategy.on_receiving_block(
                    block_id,
                    self.current_time,
                    &self.env,
                    &self.blockchain,
                    r,
                );
                self.nodes.set(r, node);
                proof {
                    assert(self.spec_nodes() =~= old_self.spec_nodes().update(
                        r as int,
                        Node {
                            tip: mid.spec_nodes()[r as int].tip,
                            mining_strategy: node.mining_strategy,
                            ..old_self.spec_nodes()[r as int]
                        },
                    ));
                    assert forall|k: usize| #[trigger] self.spec_queue().contains_key(k) implies self.queued_ok(k) by {
                        assert(mid.spec_queue().contains_key(k));
                        assert(mid.queued_ok(k));
                    }
                    assert forall|x: int| 0 <= x < self.spec_nodes().len() implies #[trigger] self.task_ok(x) by {
                        assert(mid.task_ok(x));
                    }
                    assert forall|i: int| 0 <= i < self.spec_nodes().len() implies node_ok(
                        #[trigger] self.spec_nodes()[i],
                        i,
                        self.spec_blocks(),
                    ) by {
                        assert(node_ok(mid.spec_nodes()[i], i, mid.spec_blocks()));
                    }
                }
                self.enqueue_actions(r, &actions, exp_draw, rand_draw);
            },
        }
    }

    /// Whether the event stored at `k` comes first in the queue.
    pub open spec fn is_earliest(&self, k: usize) -> bool {
        &&& self.spec_queue().contains_key(k)
        &&& forall|j: usize| #[trigger] self.spec_queue().contains_key(j) ==> crate::event_queue::priority_le(self.spec_queue()[j], self.spec_queue()[k])
    }

    /// No queued event is earlier than the one stored at `k`, and none at the
    /// same time was queued before it.
    pub open spec fn comes_first(&self, k: usize) -> bool {
        forall|j: usize| #[trigger] self.spec_queue().contains_key(j) ==> {
            let tj = self.spec_events()[j as int].time;
            let tk = self.spec_events()[k as int].time;
            tj > tk || (tj == tk && j >= k)
        }
    }

    /// `next` is this engine once it has run the event stored at `k`: the
    /// clock moves to its time, the round to the height of a block just mined,
    /// and the parts change as handling the event does.
    pub open spec fn handles(&self, k: usize, next: &Self, exp_draw: u64, rand_draw: u64) -> bool {
        let ev = self.spec_events()[k as int];
        &&& next.spec_time() == ev.time
        &&& next.parts() == event_effect(
            (self.spec_blocks(), self.spec_mined(), self.spec_events(), self.spec_queue().remove(k), self.spec_nodes()),
            self.spec_protocol(),
            self.spec_env(),
            self.spec_tie(),
            ev,
            exp_draw,
            rand_draw,
        )
        &&& ev.ty matches EventType::BlockGeneration { block_id, .. } ==> next.spec_round() == if self.spec_blocks()[block_id.0 as int].height > self.spec_round() {
            self.spec_blocks()[block_id.0 as int].height
        } else {
            self.spec_round()
        }
        &&& ev.ty is Propagation ==> next.spec_round() == self.spec_round()
    }

    /// Runs the earliest queued event, unless the queue is empty or the run
    /// has reached its end round; says whether it ran one.
    pub fn step(&mut self, exp_draw: u64, rand_draw: u64) -> (r: bool)
        requires
            old(self).wf(),
        ensures
            final(self).wf(),
            final(self).same_config(old(self)),
            final(self).grows_from(old(self)),
            r == (old(self).spec_round() < old(self).spec_end_round() && old(self).spec_queue().dom() != Set::<usize>::empty()),
            !r ==> *final(self) == *old(self),
            r ==> exists|k: usize| #[trigger] old(self).is_earliest(k) && old(self).comes_first(k) && old(self).handles(k, final(self), exp_draw, rand_draw),
            final(self).spec_time() >= old(self).spec_time(),
    {
        if self.current_round >= self.end_round {
            return false;
        }
        match queue_peek(&self.event_queue) {
            None => false,
            Some((k, _)) => {
                let ghost old_self = *self;
                proof {
                    assert(self.spec_queue().contains_key(k));
                    assert(self.queued_ok(k));
                    assert(self.is_earliest(k));
                    lemma_earliest_comes_first(self, k);
                }
                let ev = self.events[k];
                match ev.ty {
                    EventType::Propagation { .. } => {
                        queue_remove(&mut self.event_queue, k);
                        proof {
                            assert forall|j: usize| #[trigger] self.spec_queue().contains_key(j) implies self.queued_ok(j) by {
                                assert(old_self.spec_queue().contains_key(j));
                                assert(old_self.queued_ok(j));
                            }
                            assert forall|x: int| 0 <= x < self.spec_nodes().len() implies #[trigger] self.task_ok(x) by {
                                assert(old_self.task_ok(x));
                            }
                        }
                    },
                    EventType::BlockGeneration { .. } => {},
                }
                let ghost mid = *self;
                proof {
                    match ev.ty {
                        EventType::BlockGeneration { minter, .. } => {
                            assert(mid.is_live(ev));
                            assert(old_self.queue_without_task(minter.0 as int) == old_self.spec_queue().remove(k));
                        },
                        EventType::Propagation { .. } => {
                            assert(mid.parts() == (old_self.spec_blocks(), old_self.spec_mined(), old_self.spec_events(), old_self.spec_queue().remove(k), old_self.spec_nodes()));
                        },
                    }
                    assert forall|j: usize| #[trigger] mid.spec_queue().contains_key(j) implies mid.spec_events()[j as int].time >= ev.time by {
                        assert(old_self.spec_queue().contains_key(j));
                    }
                }
                self.dispatch_event(ev, exp_draw, rand_draw);
                proof {
                    assert(old_self.is_earliest(k));
                }
                true
            },
        }
    }

    /// Starts node `m` mining on genesis, as every node does when a run
    /// begins; a run already at its end round starts nothing.
    pub fn start_node(&mut self, m: usize, exp_draw: u64, rand_draw: u64) -> (r: bool)
        requires
            old(self).wf(),
            m < old(self).spec_nodes().len(),
        ensures
            final(self).wf(),
            r == (old(self).spec_round() < old(self).spec_end_round()),
            !r ==> *final(self) == *old(self),
            r ==> {
                let b = old(self).candidate_block(m as int, BlockId(0), exp_draw, rand_draw);
                &&& final(self).same_config(old(self))
                &&& final(self).spec_blocks() == old(self).spec_blocks().push(b)
                &&& final(self).spec_nodes()[m as int].mining_task == Some(
                    MiningTask { deadline: b.time, key: old(self).spec_events().len() as usize },
                )
                &&& final(self).spec_time() == old(self).spec_time()
                &&& final(self).spec_round() == old(self).spec_round()
                &&& final(self).parts() == action_effect(
                    old(self).parts(),
                    old(self).spec_protocol(),
                    old(self).spec_env(),
                    old(self).spec_time(),
                    m as int,
                    Action::RestartMining { prev_block_id: BlockId(0) },
                    exp_draw,
                    rand_draw,
                )
            },
    {
        if self.current_round >= self.end_round {
            return false;
        }
        self.schedule_mining(m, BlockId(0), exp_draw, rand_draw);
        true
    }

    pub fn current_time(&self) -> (r: u64)
        ensures
            r == self.spec_time(),
    {
        self.current_time
    }

    pub fn current_round(&self) -> (r: u64)
        ensures
            r == self.spec_round(),
    {
        self.current_round
    }

    pub fn end_round(&self) -> (r: u64)
        ensures
            r == self.spec_end_round(),
    {
        self.end_round
    }

    pub fn env(&self) -> (r: Env)
        ensures
            r == self.spec_env(),
    {
        self.env
    }

    pub fn protocol(&self) -> (r: ProtocolType)
        ensures
            r == self.spec_protocol(),
    {
        self.protocol
    }

    pub fn nodes(&self) -> (r: &[Node])
        ensures
            r@ == self.spec_nodes(),
    {
        self.nodes.as_slice()
    }

    pub fn blockchain(&self) -> (r: &Blockchain)
        requires
            self.wf(),
        ensures
            r.wf(),
            r.spec_blocks() == self.spec_blocks(),
    {
        &self.blockchain
    }

    /// The event that completes node `m`'s outstanding mining attempt.
    pub fn pending_event(&self, m: usize) -> (r: Option<Event>)
        requires
            self.wf(),
            m < self.spec_nodes().len(),
        ensures
            r matches Some(e) ==> self.is_live(e),
            r is None <==> self.spec_nodes()[m as int].mining_task is None,
    {
        proof {
            assert(self.task_ok(m as int));
        }
        match self.nodes[m].mining_task {
            Some(t) => Some(self.events[t.key]),
            None => None,
        }
    }

    /// The sum of all hashrates.
    pub fn total_hashrate(&self) -> (r: u128)
        ensures
            r == hashrate_sum(self.spec_nodes()),
    {
        let mut total: u128 = 0;
        let mut i: usize = 0;
        while i < self.nodes.len()
            invariant
                i <= self.nodes@.len(),
                total == hashrate_sum(self.nodes@.take(i as int)),
                total <= i * (u64::MAX as int),
            decreases self.nodes@.len() - i,
        {
            proof {
                assert(self.nodes@.take(i as int + 1).drop_last() =~= self.nodes@.take(i as int));
                assert((i + 1) * (u64::MAX as int) == i * (u64::MAX as int) + u64::MAX) by (nonlinear_arith);
                assert(i * (u64::MAX as int) + u64::MAX <= u128::MAX) by (nonlinear_arith)
                    requires
                        i <= usize::MAX,
                        usize::MAX <= u64::MAX,
                ;
            }
            total = total + self.nodes[i].hashrate as u128;
            i = i + 1;
        }
        assert(self.nodes@.take(i as int) =~= self.nodes@);
        total
    }

    /// Starts the run over: genesis alone, no events, time and round 0, and
    /// every node back at genesis with a fresh strategy of its kind.
    pub fn reset(&mut self)
        requires
            old(self).wf(),
        ensures
            final(self).same_config(old(self)),
            final(self).is_fresh(
                Seq::new(
                    old(self).spec_nodes().len(),
                    |i: int| reset_node(old(self).spec_nodes()[i]),
                ),
            ),
    {
        let ghost old_nodes = self.nodes@;
        let mut nodes: Vec<Node> = Vec::new();
        let mut i: usize = 0;
        while i < self.nodes.len()
            invariant
                old_nodes == self.nodes@,
                forall|j: int| 0 <= j < old_nodes.len() ==> node_ok(#[trigger] old_nodes[j], j, self.spec_blocks()),
                i <= old_nodes.len(),
                nodes@.len() == i,
                forall|j: int| 0 <= j < i ==> #[trigger] nodes@[j] == reset_node(old_nodes[j]),
            decreases old_nodes.len() - i,
        {
            let n = self.nodes[i];
            let strategy = match n.mining_strategy {
                MiningStrategy::Honest(_) => MiningStrategy::Honest(HonestMiningStrategy::default()),
                MiningStrategy::Selfish(_) => MiningStrategy::Selfish(SelfishMiningStrategy::default()),
            };
            nodes.push(Node::new_with_strategy(n.id, n.hashrate, strategy));
            i = i + 1;
        }
        let ghost expected = Seq::new(old_nodes.len(), |i: int| reset_node(old_nodes[i]));
        assert(nodes@ =~= expected);
        assert forall|j: int| 0 <= j < nodes@.len() implies node_ok(
            #[trigger] nodes@[j],
            j,
            seq![Block::spec_genesis(crate::protocol::DEFAULT_DIFFICULTY)],
        ) by {
            assert(node_ok(old_nodes[j], j, self.spec_blocks()));
        }
        *self = BlockchainSimulator::from_nodes(
            nodes,
            self.end_round,
            self.env.tie,
            self.env.delay,
            self.env.generation_time,
            self.protocol,
        );
    }
}

/// The event of greatest priority is the earliest, and the first queued
/// among those at its time.
pub proof fn lemma_earliest_comes_first(sim: &BlockchainSimulator, k: usize)
    requires
        sim.wf(),
        sim.is_earliest(k),
    ensures
        sim.comes_first(k),
{
    assert(sim.queued_ok(k));
    assert forall|j: usize| #[trigger] sim.spec_queue().contains_key(j) implies {
        let tj = sim.spec_events()[j as int].time;
        let tk = sim.spec_events()[k as int].time;
        tj > tk || (tj == tk && j >= k)
    } by {
        assert(sim.queued_ok(j));
    }
}

/// Only one queued event comes first: keys are queued at distinct priorities.
pub proof fn lemma_earliest_unique(sim: &BlockchainSimulator, k1: usize, k2: usize)
    requires
        sim.wf(),
        sim.is_earliest(k1),
        sim.is_earliest(k2),
    ensures
        k1 == k2,
{
    assert(sim.queued_ok(k1));
    assert(sim.queued_ok(k2));
}

/// A step is determined by the state and the draws: from engines that agree,
/// equal draws lead to engines that agree.
pub proof fn lemma_step_deterministic(
    a: &BlockchainSimulator,
    b: &BlockchainSimulator,
    a_next: &BlockchainSimulator,
    b_next: &BlockchainSimulator,
    ka: usize,
    kb: usize,
    exp_draw: u64,
    rand_draw: u64,
)
    requires
        a.wf(),
        b.wf(),
        a.parts() == b.parts(),
        a.same_config(b),
        a.spec_time() == b.spec_time(),
        a.spec_round() == b.spec_round(),
        a.is_earliest(ka),
        b.is_earliest(kb),
        a.handles(ka, a_next, exp_draw, rand_draw),
        b.handles(kb, b_next, exp_draw, rand_draw),
    ensures
        ka == kb,
        a_next.parts() == b_next.parts(),
        a_next.spec_time() == b_next.spec_time(),
        a_next.spec_round() == b_next.spec_round(),
{
    assert(b.is_earliest(ka));
    lemma_earliest_unique(b, ka, kb);
}

/// Two fresh engines over the same nodes agree on every part, so runs fed the
/// same draws agree step by step.
pub proof fn lemma_fresh_engines_agree(a: &BlockchainSimulator, b: &BlockchainSimulator, nodes: Seq<Node>)
    requires
        a.is_fresh(nodes),
        b.is_fresh(nodes),
    ensures
        a.parts() == b.parts(),
        a.spec_time() == b.spec_time(),
        a.spec_round() == b.spec_round(),
{
    assert(a.spec_events() =~= b.spec_events());
    assert(a.spec_queue() =~= b.spec_queue());
}

/// A restart leaves node `m` one new attempt: its deadline
/// is the candidate block's time, no earlier than now, and the queue holds its
/// completion under a fresh key in place of the node's old attempt.
pub proof fn lemma_restart_sets_deadline(
    v: EngineParts,
    protocol: ProtocolType,
    env: Env,
    now: u64,
    m: int,
    prev: BlockId,
    exp_draw: u64,
    rand_draw: u64,
)
    requires
        0 <= m < v.4.len(),
        prev.0 < v.0.len(),
        v.2.len() <= usize::MAX,
        v.4.len() <= usize::MAX,
    ensures
        ({
            let w = action_effect(v, protocol, env, now, m, Action::RestartMining { prev_block_id: prev }, exp_draw, rand_draw);
            let key = v.2.len() as usize;
            let b = candidate(v.0, v.4, protocol, now, m, prev, exp_draw, rand_draw);
            &&& w.0 == v.0.push(b)
            &&& w.4[m].mining_task == Some(MiningTask { deadline: b.time, key })
            &&& b.time >= now
            &&& w.3.contains_key(key)
            &&& w.2[key as int].time == b.time
            &&& w.2[key as int].ty == EventType::BlockGeneration { minter: NodeId(m as usize), prev_block_id: prev, block_id: b.id }
            &&& (v.4[m].mining_task matches Some(t) ==> (t.key != key ==> !w.3.contains_key(t.key)))
        }),
{
}

/// At most one completion of a mining attempt per node is ever queued.
pub proof fn lemma_one_generation_per_node(sim: &BlockchainSimulator, k1: usize, k2: usize, m: int)
    requires
        sim.wf(),
        sim.spec_queue().contains_key(k1),
        sim.spec_queue().contains_key(k2),
        is_generation_by(sim.spec_events()[k1 as int], m),
        is_generation_by(sim.spec_events()[k2 as int], m),
    ensures
        k1 == k2,
{
    assert(sim.queued_ok(k1));
    assert(sim.queued_ok(k2));
}

/// A node's mining deadline, when set, is the time of its one queued
/// completion event.
pub proof fn lemma_deadline_is_queued(sim: &BlockchainSimulator, m: int)
    requires
        sim.wf(),
        0 <= m < sim.spec_nodes().len(),
        sim.spec_nodes()[m].mining_task is Some,
    ensures
        ({
            let t = sim.spec_nodes()[m].mining_task->0;
            &&& sim.spec_queue().contains_key(t.key)
            &&& is_generation_by(sim.spec_events()[t.key as int], m)
            &&& sim.spec_events()[t.key as int].time == t.deadline
            &&& forall|k: usize| #[trigger] sim.spec_queue().contains_key(k) && is_generation_by(sim.spec_events()[k as int], m) ==> k == t.key
        }),
{
    assert(sim.task_ok(m));
    let t = sim.spec_nodes()[m].mining_task->0;
    assert forall|k: usize| #[trigger] sim.spec_queue().contains_key(k) && is_generation_by(sim.spec_events()[k as int], m) implies k == t.key by {
        lemma_one_generation_per_node(sim, k, t.key, m);
    }
}

/// `node` as it starts a new run: at genesis, with a fresh strategy of its kind.
pub open spec fn reset_node(node: Node) -> Node {
    Node {
        mining_strategy: match node.mining_strategy {
            MiningStrategy::Honest(_) => MiningStrategy::Honest(
                HonestMiningStrategy { current_block_id: BlockId(0) },
            ),
            MiningStrategy::Selfish(_) => MiningStrategy::Selfish(
                SelfishMiningStrategy {
                    public_chain: BlockId(0),
                    private_chain: BlockId(0),
                    private_branch_len: 0,
                },
            ),
        },
        tip: BlockId(0),
        mining_task: None,
        ..node
    }
}

/// The sum of the hashrates of `nodes`.
pub open spec fn hashrate_sum(nodes: Seq<Node>) -> int
    decreases nodes.len(),
{
    if nodes.len() == 0 {
        0
    } else {
        hashrate_sum(nodes.drop_last()) + nodes.last().hashrate
    }
}

/// The pool, its mining flags, the events, the queue and the nodes of an engine.
pub type EngineParts = (Seq<Block>, Seq<bool>, Seq<Event>, Map<usize, Priority>, Seq<Node>);

/// The block that node `m` starts to mine on `prev` at `now`.
pub open spec fn candidate(
    blocks: Seq<Block>,
    nodes: Seq<Node>,
    protocol: ProtocolType,
    now: u64,
    m: int,
    prev: BlockId,
    exp_draw: u64,
    rand_draw: u64,
) -> Block {
    let d = protocol_difficulty(protocol, blocks, prev.0 as int, now);
    let tau = generation_time(exp_draw, d, nodes[m].hashrate);
    Block {
        height: (blocks[prev.0 as int].height + 1) as u64,
        prev_block_id: Some(prev),
        minter: NodeId(m as usize),
        time: saturate(now + tau),
        rand: rand_draw,
        id: BlockId(blocks.len() as usize),
        difficulty: d,
        mining_time: tau,
    }
}

/// What carrying out action `a` of node `m` at `now` does. A propagation
/// queues its arrival one hop later (at once for the node itself); a restart
/// withdraws the node's attempt, stores the candidate block and queues its
/// completion.
pub open spec fn action_effect(
    v: EngineParts,
    protocol: ProtocolType,
    env: Env,
    now: u64,
    m: int,
    a: Action,
    exp_draw: u64,
    rand_draw: u64,
) -> EngineParts {
    let (blocks, mined, events, queue, nodes) = v;
    let key = events.len() as usize;
    match a {
        Action::Propagate { block_id, to } => {
            let e = Event {
                time: saturate(now + spec_delay(env, m as usize, to)),
                ty: EventType::Propagation { from: NodeId(m as usize), to: NodeId(to), block_id },
            };
            (blocks, mined, events.push(e), queue.insert(key, event_priority(e, key)), nodes)
        },
        Action::RestartMining { prev_block_id } => {
            let b = candidate(blocks, nodes, protocol, now, m, prev_block_id, exp_draw, rand_draw);
            let e = Event {
                time: b.time,
                ty: EventType::BlockGeneration { minter: NodeId(m as usize), prev_block_id, block_id: b.id },
            };
            let rest = match nodes[m].mining_task {
                Some(t) => queue.remove(t.key),
                None => queue,
            };
            (
                blocks.push(b),
                mined.push(false),
                events.push(e),
                rest.insert(key, event_priority(e, key)),
                nodes.update(m, Node { mining_task: Some(MiningTask { deadline: b.time, key }), ..nodes[m] }),
            )
        },
    }
}

/// What carrying out `actions` of node `m` in order does.
pub open spec fn actions_effect(
    v: EngineParts,
    protocol: ProtocolType,
    env: Env,
    now: u64,
    m: int,
    actions: Seq<Action>,
    exp_draw: u64,
    rand_draw: u64,
) -> EngineParts
    decreases actions.len(),
{
    if actions.len() == 0 {
        v
    } else {
        action_effect(
            actions_effect(v, protocol, env, now, m, actions.drop_last(), exp_draw, rand_draw),
            protocol,
            env,
            now,
            m,
            actions.last(),
            exp_draw,
            rand_draw,
        )
    }
}

/// What handling a live event does, from the parts in which its queue entry
/// (and for a block generation, its minter's attempt) is already withdrawn.
/// A block generation marks the block mined. The receiving node's strategy,
/// and for a propagation its fork-choice tip, are updated, and the strategy's
/// actions carried out at the event's time. A propagation from a node to
/// itself does nothing.
pub open spec fn event_effect(
    v: EngineParts,
    protocol: ProtocolType,
    env: Env,
    tie: TieBreakingRule,
    ev: Event,
    exp_draw: u64,
    rand_draw: u64,
) -> EngineParts {
    let (blocks, mined, events, queue, nodes) = v;
    match ev.ty {
        EventType::BlockGeneration { minter, block_id, .. } => {
            let m = minter.0 as int;
            let (st, acts) = strategy_mine(nodes[m].mining_strategy, blocks, block_id, env.num_nodes);
            actions_effect(
                (
                    blocks,
                    mined.update(block_id.0 as int, true),
                    events,
                    queue,
                    nodes.update(m, Node { mining_task: None, mining_strategy: st, ..nodes[m] }),
                ),
                protocol,
                env,
                ev.time,
                m,
                acts,
                exp_draw,
                rand_draw,
            )
        },
        EventType::Propagation { from, to, block_id } => {
            if from == to {
                v
            } else {
                let r = to.0 as int;
                let tip = fork_choice(blocks, tie, to.0, nodes[r].tip, block_id);
                let (st, acts) = strategy_receive(nodes[r].mining_strategy, blocks, block_id, env, to.0);
                actions_effect(
                    (
                        blocks,
                        mined,
                        events,
                        queue,
                        nodes.update(r, Node { tip, mining_strategy: st, ..nodes[r] }),
                    ),
                    protocol,
                    env,
                    ev.time,
                    r,
                    acts,
                    exp_draw,
                    rand_draw,
                )
            }
        },
    }
}

/// How many of `actions` are restarts.
pub open spec fn restart_count(actions: Seq<Action>) -> nat
    decreases actions.len(),
{
    if actions.len() == 0 {
        0
    } else {
        restart_count(actions.drop_last()) + if actions.last() is RestartMining {
            1nat
        } else {
            0nat
        }
    }
}

/// Carrying out actions only appends to the pool, one candidate block per
/// restart.
pub proof fn lemma_pool_grows_by_restarts(
    v: EngineParts,
    protocol: ProtocolType,
    env: Env,
    now: u64,
    m: int,
    actions: Seq<Action>,
    exp_draw: u64,
    rand_draw: u64,
)
    ensures
        ({
            let w = actions_effect(v, protocol, env, now, m, actions, exp_draw, rand_draw);
            &&& w.0.len() == v.0.len() + restart_count(actions)
            &&& forall|i: int| 0 <= i < v.0.len() ==> #[trigger] w.0[i] == v.0[i]
        }),
    decreases actions.len(),
{
    if actions.len() > 0 {
        lemma_pool_grows_by_restarts(v, protocol, env, now, m, actions.drop_last(), exp_draw, rand_draw);
        let u = actions_effect(v, protocol, env, now, m, actions.drop_last(), exp_draw, rand_draw);
        let w = action_effect(u, protocol, env, now, m, actions.last(), exp_draw, rand_draw);
        assert forall|i: int| 0 <= i < v.0.len() implies #[trigger] w.0[i] == v.0[i] by {
            assert(w.0[i] == u.0[i]);
        }
    }
}

/// The block that an event is about.
pub open spec fn event_block(e: Event) -> BlockId {
    match e.ty {
        EventType::BlockGeneration { block_id, .. } => block_id,
        EventType::Propagation { block_id, .. } => block_id,
    }
}

} // verus!
