use vstd::prelude::*;

use crate::block::Block;
use crate::blockchain::{link_ok, parent_index, pool_wf, BlockId, Blockchain};
use crate::simulator::{choose_tip, fork_choice, Env};

verus! {

/// What a strategy asks of the engine.
#[derive(Clone, Copy, Debug, PartialEq, Eq, Structural)]
pub enum Action {
    /// Deliver a block of the pool to node `to`.
    Propagate { block_id: BlockId, to: usize },
    /// Drop the node's mining attempt and start one on `prev_block_id`.
    RestartMining { prev_block_id: BlockId },
}

/// The height of the block with id `b`.
pub open spec fn h(blocks: Seq<Block>, b: BlockId) -> int {
    blocks[b.0 as int].height as int
}

/// Of two tips, the higher; the first on equal heights.
pub open spec fn spec_longest_chain(blocks: Seq<Block>, a: BlockId, b: BlockId) -> BlockId {
    if h(blocks, b) > h(blocks, a) {
        b
    } else {
        a
    }
}

/// `block_id` sent to every node, in the order of the node ids.
pub open spec fn broadcast(block_id: BlockId, num_nodes: usize) -> Seq<Action> {
    Seq::new(num_nodes as nat, |i: int| Action::Propagate { block_id, to: i as usize })
}

/// Each block of `branch` in turn sent to every node.
pub open spec fn broadcast_all(branch: Seq<BlockId>, num_nodes: usize) -> Seq<Action>
    decreases branch.len(),
{
    if branch.len() == 0 {
        seq![]
    } else {
        broadcast_all(branch.drop_last(), num_nodes) + broadcast(branch.last(), num_nodes)
    }
}

/// The last `n` blocks of the chain ending at `tip`, oldest first; fewer where
/// genesis comes first.
pub open spec fn chain_back(blocks: Seq<Block>, tip: BlockId, n: nat) -> Seq<BlockId>
    decreases n,
{
    if n == 0 {
        seq![]
    } else {
        match blocks[tip.0 as int].prev_block_id {
            None => seq![tip],
            Some(p) => chain_back(blocks, p, (n - 1) as nat).push(tip),
        }
    }
}

/// The block `n` parent steps above `tip`, or genesis if the chain is shorter.
pub open spec fn walk_back(blocks: Seq<Block>, tip: BlockId, n: nat) -> BlockId
    decreases n,
{
    if n == 0 {
        tip
    } else {
        match blocks[tip.0 as int].prev_block_id {
            None => tip,
            Some(p) => walk_back(blocks, p, (n - 1) as nat),
        }
    }
}

/// Every block an action names is stored in a pool of `len` blocks, and every
/// node it names is one of the first `num_nodes`.
pub open spec fn actions_in_pool(actions: Seq<Action>, num_nodes: usize, len: nat) -> bool {
    forall|i: int| 0 <= i < actions.len() ==> action_ok(#[trigger] actions[i], num_nodes, len)
}

pub open spec fn action_ok(a: Action, num_nodes: usize, len: nat) -> bool {
    match a {
        Action::Propagate { block_id, to } => block_id.0 < len && to < num_nodes,
        Action::RestartMining { prev_block_id } => prev_block_id.0 < len,
    }
}

/// The pool stores block `b`.
pub open spec fn pool_holds(blocks: Seq<Block>, b: BlockId) -> bool {
    b.0 < blocks.len()
}

/// Of two tips, the higher; the first on equal heights.
pub fn longest_chain(blockchain: &Blockchain, block1_id: BlockId, block2_id: BlockId) -> (r:
    BlockId)
    requires
        pool_holds(blockchain.spec_blocks(), block1_id),
        pool_holds(blockchain.spec_blocks(), block2_id),
    ensures
        r == spec_longest_chain(blockchain.spec_blocks(), block1_id, block2_id),
{
    let h1 = blockchain.get_block(block1_id).unwrap().height;
    let h2 = blockchain.get_block(block2_id).unwrap().height;
    if h2 > h1 {
        block2_id
    } else {
        block1_id
    }
}

/// Appends `block_id`, addressed to every node, to `actions`.
fn push_broadcast(actions: &mut Vec<Action>, block_id: BlockId, num_nodes: usize)
    ensures
        final(actions)@ == old(actions)@ + broadcast(block_id, num_nodes),
{
    let ghost start = actions@;
    let mut node: usize = 0;
    while node < num_nodes
        invariant
            node <= num_nodes,
            actions@ == start + broadcast(block_id, node),
        decreases num_nodes - node,
    {
        actions.push(Action::Propagate { block_id, to: node });
        node = node + 1;
        proof {
            assert(actions@ =~= start + broadcast(block_id, node));
        }
    }
    assert(actions@ =~= start + broadcast(block_id, num_nodes));
}

/// Appends each block of `branch` in turn, addressed to every node.
fn push_broadcast_all(actions: &mut Vec<Action>, branch: &Vec<BlockId>, num_nodes: usize)
    ensures
        final(actions)@ == old(actions)@ + broadcast_all(branch@, num_nodes),
{
    let ghost start = actions@;
    let mut j: usize = 0;
    while j < branch.len()
        invariant
            j <= branch@.len(),
            actions@ == start + broadcast_all(branch@.take(j as int), num_nodes),
        decreases branch@.len() - j,
    {
        push_broadcast(actions, branch[j], num_nodes);
        proof {
            let t = branch@.take(j as int + 1);
            assert(t.drop_last() =~= branch@.take(j as int));
            assert(t.last() == branch@[j as int]);
            assert(actions@ =~= start + broadcast_all(t, num_nodes));
        }
        j = j + 1;
    }
    assert(branch@.take(j as int) =~= branch@);
}

/// The last `n` blocks of the chain ending at `tip`, oldest first.
fn chain_back_exec(blockchain: &Blockchain, tip: BlockId, n: usize) -> (r: Vec<BlockId>)
    requires
        blockchain.wf(),
        pool_holds(blockchain.spec_blocks(), tip),
    ensures
        r@ == chain_back(blockchain.spec_blocks(), tip, n as nat),
    decreases n,
{
    if n == 0 {
        return Vec::new();
    }
    let b = blockchain.get_block(tip).unwrap();
    match b.prev_block_id {
        None => {
            let mut v: Vec<BlockId> = Vec::new();
            v.push(tip);
            proof {
                assert(v@ =~= seq![tip]);
            }
            v
        },
        Some(p) => {
            proof {
                let s = blockchain.spec_blocks();
                if tip.0 == 0 {
                    assert(s[0].prev_block_id is None);
                }
                assert(link_ok(s, s[tip.0 as int], tip.0 as int));
            }
            let mut v = chain_back_exec(blockchain, p, n - 1);
            v.push(tip);
            v
        },
    }
}

fn walk_back_exec(blockchain: &Blockchain, tip: BlockId, n: usize) -> (r: BlockId)
    requires
        blockchain.wf(),
        pool_holds(blockchain.spec_blocks(), tip),
    ensures
        r == walk_back(blockchain.spec_blocks(), tip, n as nat),
        pool_holds(blockchain.spec_blocks(), r),
    decreases n,
{
    if n == 0 {
        return tip;
    }
    let b = blockchain.get_block(tip).unwrap();
    match b.prev_block_id {
        None => tip,
        Some(p) => {
            proof {
                let s = blockchain.spec_blocks();
                if tip.0 == 0 {
                    assert(s[0].prev_block_id is None);
                }
                assert(link_ok(s, s[tip.0 as int], tip.0 as int));
            }
            walk_back_exec(blockchain, p, n - 1)
        },
    }
}

/// Every block of `chain_back` is stored in the pool.
pub proof fn lemma_chain_back_in_pool(blocks: Seq<Block>, tip: BlockId, n: nat)
    requires
        pool_wf(blocks),
        pool_holds(blocks, tip),
    ensures
        forall|i: int| 0 <= i < chain_back(blocks, tip, n).len() ==> pool_holds(blocks, #[trigger] chain_back(blocks, tip, n)[i]),
    decreases n,
{
    if n > 0 {
        match blocks[tip.0 as int].prev_block_id {
            None => {},
            Some(p) => {
                if tip.0 == 0 {
                    assert(blocks[0].prev_block_id is None);
                }
                assert(link_ok(blocks, blocks[tip.0 as int], tip.0 as int));
                lemma_chain_back_in_pool(blocks, p, (n - 1) as nat);
                let c = chain_back(blocks, p, (n - 1) as nat);
                assert forall|i: int| 0 <= i < c.push(tip).len() implies pool_holds(blocks, #[trigger] c.push(tip)[i]) by {
                    if i < c.len() {
                        assert(c.push(tip)[i] == c[i]);
                    }
                }
            },
        }
    }
}

/// A broadcast names only the block it sends.
pub proof fn lemma_broadcast_all_in_pool(branch: Seq<BlockId>, num_nodes: usize, len: nat)
    requires
        forall|i: int| 0 <= i < branch.len() ==> (#[trigger] branch[i]).0 < len,
    ensures
        actions_in_pool(broadcast_all(branch, num_nodes), num_nodes, len),
    decreases branch.len(),
{
    if branch.len() > 0 {
        let rest = branch.drop_last();
        assert forall|i: int| 0 <= i < rest.len() implies (#[trigger] rest[i]).0 < len by {
            assert(rest[i] == branch[i]);
        }
        lemma_broadcast_all_in_pool(rest, num_nodes, len);
        let a = broadcast_all(rest, num_nodes);
        let b = broadcast(branch.last(), num_nodes);
        assert forall|i: int| 0 <= i < (a + b).len() implies action_ok(#[trigger] (a + b)[i], num_nodes, len) by {
            if i < a.len() {
                assert((a + b)[i] == a[i]);
            } else {
                assert((a + b)[i] == b[i - a.len()]);
            }
        }
    }
}

/// The honest miner: mines on the highest block it has seen.
#[derive(Clone, Copy, Debug, PartialEq, Eq, Structural)]
pub struct HonestMiningStrategy {
    pub current_block_id: BlockId,
}

/// The selfish miner of Eyal and Sirer: it keeps a private branch and
/// releases it to win races.
#[derive(Clone, Copy, Debug, PartialEq, Eq, Structural)]
pub struct SelfishMiningStrategy {
    /// The highest block the miner admits publicly.
    pub public_chain: BlockId,
    /// The miner's own secret tip.
    pub private_chain: BlockId,
    /// The number of private blocks not yet published.
    pub private_branch_len: usize,
}

/// A miner's strategy and its state.
#[derive(Clone, Copy, Debug, PartialEq, Eq, Structural)]
pub enum MiningStrategy {
    Honest(HonestMiningStrategy),
    Selfish(SelfishMiningStrategy),
}

/// The kind of strategy a node runs, as a profile names it.
#[derive(Clone, Copy, Debug, PartialEq, Eq, Hash, Structural)]
pub enum MiningStrategyEnum {
    Honest,
    Selfish,
}

/// The honest miner mined `b`: take it as its tip, send it everywhere and
/// mine on it.
pub open spec fn honest_mine(b: BlockId, num_nodes: usize) -> (
    HonestMiningStrategy,
    Seq<Action>,
) {
    (
        HonestMiningStrategy { current_block_id: b },
        broadcast(b, num_nodes).push(Action::RestartMining { prev_block_id: b }),
    )
}

/// The honest miner received `b`: switch to it only if it is higher.
pub open spec fn honest_receive(s: HonestMiningStrategy, blocks: Seq<Block>, b: BlockId) -> (
    HonestMiningStrategy,
    Seq<Action>,
) {
    if h(blocks, b) > h(blocks, s.current_block_id) {
        (HonestMiningStrategy { current_block_id: b }, seq![Action::RestartMining { prev_block_id: b }])
    } else {
        (s, seq![])
    }
}

/// How far the private tip stands above the public one.
pub open spec fn lead(s: SelfishMiningStrategy, blocks: Seq<Block>) -> int {
    h(blocks, s.private_chain) - h(blocks, s.public_chain)
}

pub open spec fn saturating_inc(n: usize) -> usize {
    if n == usize::MAX {
        n
    } else {
        (n + 1) as usize
    }
}

/// The selfish miner mined `b` on its private branch. From a tie with one
/// private block it now leads by two and publishes the branch.
pub open spec fn selfish_mine(
    s: SelfishMiningStrategy,
    blocks: Seq<Block>,
    b: BlockId,
    num_nodes: usize,
) -> (SelfishMiningStrategy, Seq<Action>) {
    let d = lead(s, blocks);
    let grown = SelfishMiningStrategy {
        private_chain: b,
        private_branch_len: saturating_inc(s.private_branch_len),
        ..s
    };
    let restart = Action::RestartMining { prev_block_id: b };
    if d == 0 && grown.private_branch_len == 2 {
        (
            SelfishMiningStrategy { private_branch_len: 0, ..grown },
            broadcast_all(chain_back(blocks, b, 2), num_nodes).push(restart),
        )
    } else {
        (grown, seq![restart])
    }
}

/// The oldest private block that is not yet published.
pub open spec fn oldest_private(s: SelfishMiningStrategy, blocks: Seq<Block>) -> BlockId {
    if s.private_branch_len >= 1 {
        walk_back(blocks, s.private_chain, (s.private_branch_len - 1) as nat)
    } else {
        s.private_chain
    }
}

/// The selfish miner `me` received `b`, with `lead` as it stood before. Its
/// public tip moves by the network's fork-choice rule. Beyond a lead of two
/// it publishes its oldest private block, which then is private no longer.
pub open spec fn selfish_receive(
    s: SelfishMiningStrategy,
    blocks: Seq<Block>,
    b: BlockId,
    env: Env,
    me: usize,
) -> (SelfishMiningStrategy, Seq<Action>) {
    let num_nodes = env.num_nodes;
    let d = lead(s, blocks);
    let public = fork_choice(blocks, env.tie, me, s.public_chain, b);
    if d <= 0 {
        (
            SelfishMiningStrategy {
                public_chain: public,
                private_chain: public,
                private_branch_len: 0,
            },
            seq![Action::RestartMining { prev_block_id: public }],
        )
    } else if d == 1 {
        (SelfishMiningStrategy { public_chain: public, ..s }, broadcast(s.private_chain, num_nodes))
    } else if d == 2 {
        (
            SelfishMiningStrategy { public_chain: public, private_branch_len: 0, ..s },
            broadcast_all(
                chain_back(blocks, s.private_chain, s.private_branch_len as nat),
                num_nodes,
            ),
        )
    } else {
        let left = if s.private_branch_len >= 1 {
            (s.private_branch_len - 1) as usize
        } else {
            0
        };
        (
            SelfishMiningStrategy { public_chain: public, private_branch_len: left, ..s },
            broadcast(oldest_private(s, blocks), num_nodes),
        )
    }
}

/// The new state and actions when a node mines `b`.
pub open spec fn strategy_mine(
    st: MiningStrategy,
    blocks: Seq<Block>,
    b: BlockId,
    num_nodes: usize,
) -> (MiningStrategy, Seq<Action>) {
    match st {
        MiningStrategy::Honest(s) => {
            let (t, a) = honest_mine(b, num_nodes);
            (MiningStrategy::Honest(t), a)
        },
        MiningStrategy::Selfish(s) => {
            let (t, a) = selfish_mine(s, blocks, b, num_nodes);
            (MiningStrategy::Selfish(t), a)
        },
    }
}

/// The new state and actions when node `me` receives `b`.
pub open spec fn strategy_receive(
    st: MiningStrategy,
    blocks: Seq<Block>,
    b: BlockId,
    env: Env,
    me: usize,
) -> (MiningStrategy, Seq<Action>) {
    match st {
        MiningStrategy::Honest(s) => {
            let (t, a) = honest_receive(s, blocks, b);
            (MiningStrategy::Honest(t), a)
        },
        MiningStrategy::Selfish(s) => {
            let (t, a) = selfish_receive(s, blocks, b, env, me);
            (MiningStrategy::Selfish(t), a)
        },
    }
}

/// Every tip a strategy holds is stored in the pool.
pub open spec fn strategy_in_pool(st: MiningStrategy, blocks: Seq<Block>) -> bool {
    match st {
        MiningStrategy::Honest(s) => pool_holds(blocks, s.current_block_id),
        MiningStrategy::Selfish(s) => pool_holds(blocks, s.public_chain) && pool_holds(
            blocks,
            s.private_chain,
        ),
    }
}

impl HonestMiningStrategy {
    pub fn default() -> (r: Self)
        ensures
            r.current_block_id == BlockId(0),
    {
        HonestMiningStrategy { current_block_id: BlockId(0) }
    }

    pub fn name(&self) -> (r: &'static str) {
        "Honest"
    }

    /// Takes the new block as its tip, broadcasts it to every node and
    /// restarts mining on it.
    pub fn on_mining_block(
        &mut self,
        block_id: BlockId,
        _current_time: u64,
        env: &Env,
        _node_id: usize,
    ) -> (r: Vec<Action>)
        ensures
            (*final(self), r@) == honest_mine(block_id, env.num_nodes),
    {
        self.current_block_id = block_id;
        let mut actions: Vec<Action> = Vec::new();
        push_broadcast(&mut actions, block_id, env.num_nodes);
        actions.push(Action::RestartMining { prev_block_id: block_id });
        proof {
            assert(actions@ =~= broadcast(block_id, env.num_nodes).push(
                Action::RestartMining { prev_block_id: block_id },
            ));
        }
        actions
    }

    /// Moves to the received block, and restarts mining, only if it is higher.
    pub fn on_receiving_block(
        &mut self,
        block_id: BlockId,
        _current_time: u64,
        blockchain: &Blockchain,
        _node_id: usize,
    ) -> (r: Vec<Action>)
        requires
            pool_holds(blockchain.spec_blocks(), old(self).current_block_id),
            pool_holds(blockchain.spec_blocks(), block_id),
        ensures
            (*final(self), r@) == honest_receive(*old(self), blockchain.spec_blocks(), block_id),
    {
        let hb = blockchain.get_block(block_id).unwrap().height;
        let hc = blockchain.get_block(self.current_block_id).unwrap().height;
        if hb > hc {
            self.current_block_id = block_id;
            let mut actions: Vec<Action> = Vec::new();
            actions.push(Action::RestartMining { prev_block_id: block_id });
            proof {
                assert(actions@ =~= seq![Action::RestartMining { prev_block_id: block_id }]);
            }
            actions
        } else {
            let actions: Vec<Action> = Vec::new();
            proof {
                assert(actions@ =~= seq![]);
            }
            actions
        }
    }
}

impl SelfishMiningStrategy {
    pub fn default() -> (r: Self)
        ensures
            r == (SelfishMiningStrategy {
                public_chain: BlockId(0),
                private_chain: BlockId(0),
                private_branch_len: 0,
            }),
    {
        SelfishMiningStrategy {
            public_chain: BlockId(0),
            private_chain: BlockId(0),
            private_branch_len: 0,
        }
    }

    pub fn name(&self) -> (r: &'static str) {
        "Selfish"
    }

    /// The private blocks not yet published, oldest first.
    pub fn get_private_branch(&self, blockchain: &Blockchain) -> (r: Vec<BlockId>)
        requires
            blockchain.wf(),
            pool_holds(blockchain.spec_blocks(), self.private_chain),
        ensures
            r@ == chain_back(
                blockchain.spec_blocks(),
                self.private_chain,
                self.private_branch_len as nat,
            ),
    {
        chain_back_exec(blockchain, self.private_chain, self.private_branch_len)
    }

    pub fn get_last_private_block(&self) -> (r: BlockId)
        ensures
            r == self.private_chain,
    {
        self.private_chain
    }

    pub fn get_first_unpublished_private_block(&self, blockchain: &Blockchain) -> (r: BlockId)
        requires
            blockchain.wf(),
            pool_holds(blockchain.spec_blocks(), self.private_chain),
        ensures
            r == oldest_private(*self, blockchain.spec_blocks()),
            pool_holds(blockchain.spec_blocks(), r),
    {
        if self.private_branch_len >= 1 {
            walk_back_exec(blockchain, self.private_chain, self.private_branch_len - 1)
        } else {
            self.private_chain
        }
    }

    /// How far the private tip stands above the public one.
    fn lead(&self, blockchain: &Blockchain) -> (r: i128)
        requires
            pool_holds(blockchain.spec_blocks(), self.public_chain),
            pool_holds(blockchain.spec_blocks(), self.private_chain),
        ensures
            r == lead(*self, blockchain.spec_blocks()),
    {
        let hp = blockchain.get_block(self.private_chain).unwrap().height;
        let hq = blockchain.get_block(self.public_chain).unwrap().height;
        hp as i128 - hq as i128
    }

    /// Extends the private branch with `block_id`; publishes it when it turns
    /// a tie into a lead of two, and always mines on the private tip.
    pub fn on_mining_block(
        &mut self,
        block_id: BlockId,
        _current_time: u64,
        env: &Env,
        blockchain: &Blockchain,
        _node_id: usize,
    ) -> (r: Vec<Action>)
        requires
            blockchain.wf(),
            pool_holds(blockchain.spec_blocks(), old(self).public_chain),
            pool_holds(blockchain.spec_blocks(), old(self).private_chain),
            pool_holds(blockchain.spec_blocks(), block_id),
        ensures
            (*final(self), r@) == selfish_mine(
                *old(self),
                blockchain.spec_blocks(),
                block_id,
                env.num_nodes,
            ),
    {
        let mut actions: Vec<Action> = Vec::new();
        let delta_prev = self.lead(blockchain);
        self.private_chain = block_id;
        self.private_branch_len = self.private_branch_len.saturating_add(1);
        if delta_prev == 0 && self.private_branch_len == 2 {
            let branch = self.get_private_branch(blockchain);
            push_broadcast_all(&mut actions, &branch, env.num_nodes);
            self.private_branch_len = 0;
        }
        actions.push(Action::RestartMining { prev_block_id: self.private_chain });
        proof {
            let restart = Action::RestartMining { prev_block_id: block_id };
            if delta_prev == 0 && old(self).private_branch_len == 1 {
                assert(actions@ =~= broadcast_all(
                    chain_back(blockchain.spec_blocks(), block_id, 2),
                    env.num_nodes,
                ).push(restart));
            } else {
                assert(actions@ =~= seq![restart]);
            }
        }
        actions
    }

    /// Updates the public tip and answers by the lead it had: give up at no
    /// lead, race at one, win at two, and keep ahead beyond.
    pub fn on_receiving_block(
        &mut self,
        block_id: BlockId,
        _current_time: u64,
        env: &Env,
        blockchain: &Blockchain,
        node_id: usize,
    ) -> (r: Vec<Action>)
        requires
            blockchain.wf(),
            pool_holds(blockchain.spec_blocks(), old(self).public_chain),
            pool_holds(blockchain.spec_blocks(), old(self).private_chain),
            pool_holds(blockchain.spec_blocks(), block_id),
        ensures
            (*final(self), r@) == selfish_receive(
                *old(self),
                blockchain.spec_blocks(),
                block_id,
                *env,
                node_id,
            ),
    {
        let mut actions: Vec<Action> = Vec::new();
        let delta_prev = self.lead(blockchain);
        self.public_chain = choose_tip(blockchain, env.tie, node_id, self.public_chain, block_id);
        if delta_prev <= 0 {
            self.private_chain = self.public_chain;
            self.private_branch_len = 0;
            actions.push(Action::RestartMining { prev_block_id: self.public_chain });
            proof {
                assert(actions@ =~= seq![Action::RestartMining { prev_block_id: self.public_chain }]);
            }
        } else if delta_prev == 1 {
            push_broadcast(&mut actions, self.private_chain, env.num_nodes);
            assert(actions@ =~= broadcast(self.private_chain, env.num_nodes));
        } else if delta_prev == 2 {
            let branch = self.get_private_branch(blockchain);
            push_broadcast_all(&mut actions, &branch, env.num_nodes);
            assert(actions@ =~= broadcast_all(branch@, env.num_nodes));
            self.private_branch_len = 0;
        } else {
            let published = self.get_first_unpublished_private_block(blockchain);
            push_broadcast(&mut actions, published, env.num_nodes);
            assert(actions@ =~= broadcast(published, env.num_nodes));
            self.private_branch_len = self.private_branch_len.saturating_sub(1);
        }
        actions
    }
}

impl MiningStrategy {
    pub fn name(&self) -> (r: &'static str) {
        match self {
            MiningStrategy::Honest(s) => s.name(),
            MiningStrategy::Selfish(s) => s.name(),
        }
    }

    pub fn on_mining_block(
        &mut self,
        block_id: BlockId,
        current_time: u64,
        env: &Env,
        blockchain: &Blockchain,
        node_id: usize,
    ) -> (r: Vec<Action>)
        requires
            blockchain.wf(),
            strategy_in_pool(*old(self), blockchain.spec_blocks()),
            pool_holds(blockchain.spec_blocks(), block_id),
        ensures
            (*final(self), r@) == strategy_mine(
                *old(self),
                blockchain.spec_blocks(),
                block_id,
                env.num_nodes,
            ),
    {
        match self {
            MiningStrategy::Honest(s) => s.on_mining_block(block_id, current_time, env, node_id),
            MiningStrategy::Selfish(s) => s.on_mining_block(
                block_id,
                current_time,
                env,
                blockchain,
                node_id,
            ),
        }
    }

    pub fn on_receiving_block(
        &mut self,
        block_id: BlockId,
        current_time: u64,
        env: &Env,
        blockchain: &Blockchain,
        node_id: usize,
    ) -> (r: Vec<Action>)
        requires
            blockchain.wf(),
            strategy_in_pool(*old(self), blockchain.spec_blocks()),
            pool_holds(blockchain.spec_blocks(), block_id),
        ensures
            (*final(self), r@) == strategy_receive(
                *old(self),
                blockchain.spec_blocks(),
                block_id,
                *env,
                node_id,
            ),
    {
        match self {
            MiningStrategy::Honest(s) => s.on_receiving_block(
                block_id,
                current_time,
                blockchain,
                node_id,
            ),
            MiningStrategy::Selfish(s) => s.on_receiving_block(
                block_id,
                current_time,
                env,
                blockchain,
                node_id,
            ),
        }
    }
}

impl MiningStrategyEnum {
    /// A fresh strategy of this kind, with every tip at genesis.
    pub open spec fn spec_to_strategy(self) -> MiningStrategy {
        match self {
            MiningStrategyEnum::Honest => MiningStrategy::Honest(
                HonestMiningStrategy { current_block_id: BlockId(0) },
            ),
            MiningStrategyEnum::Selfish => MiningStrategy::Selfish(
                SelfishMiningStrategy {
                    public_chain: BlockId(0),
                    private_chain: BlockId(0),
                    private_branch_len: 0,
                },
            ),
        }
    }

    pub fn to_strategy(&self) -> (r: MiningStrategy)
        ensures
            r == self.spec_to_strategy(),
    {
        match self {
            MiningStrategyEnum::Honest => MiningStrategy::Honest(HonestMiningStrategy::default()),
            MiningStrategyEnum::Selfish => MiningStrategy::Selfish(
                SelfishMiningStrategy::default(),
            ),
        }
    }
}

pub proof fn lemma_walk_back_in_pool(blocks: Seq<Block>, tip: BlockId, n: nat)
    requires
        pool_wf(blocks),
        pool_holds(blocks, tip),
    ensures
        pool_holds(blocks, walk_back(blocks, tip, n)),
    decreases n,
{
    if n > 0 {
        match blocks[tip.0 as int].prev_block_id {
            None => {},
            Some(p) => {
                if tip.0 == 0 {
                    assert(blocks[0].prev_block_id is None);
                }
                assert(link_ok(blocks, blocks[tip.0 as int], tip.0 as int));
                lemma_walk_back_in_pool(blocks, p, (n - 1) as nat);
            },
        }
    }
}

proof fn lemma_broadcast_in_pool(b: BlockId, num_nodes: usize, len: nat)
    requires
        b.0 < len,
    ensures
        actions_in_pool(broadcast(b, num_nodes), num_nodes, len),
{
}

/// Strategies only ever name blocks that are already in the pool, and keep
/// their own tips there.
pub proof fn lemma_actions_in_pool(st: MiningStrategy, blocks: Seq<Block>, b: BlockId, env: Env, me: usize)
    requires
        pool_wf(blocks),
        strategy_in_pool(st, blocks),
        pool_holds(blocks, b),
    ensures
        actions_in_pool(strategy_mine(st, blocks, b, env.num_nodes).1, env.num_nodes, blocks.len()),
        strategy_in_pool(strategy_mine(st, blocks, b, env.num_nodes).0, blocks),
        actions_in_pool(strategy_receive(st, blocks, b, env, me).1, env.num_nodes, blocks.len()),
        strategy_in_pool(strategy_receive(st, blocks, b, env, me).0, blocks),
{
    let num_nodes = env.num_nodes;
    let len = blocks.len();
    let restart = Action::RestartMining { prev_block_id: b };
    match st {
        MiningStrategy::Honest(s) => {
            lemma_broadcast_in_pool(b, num_nodes, len);
            let a = broadcast(b, num_nodes);
            assert forall|i: int| 0 <= i < a.push(restart).len() implies action_ok(#[trigger] a.push(restart)[i], num_nodes, len) by {
                if i < a.len() {
                    assert(a.push(restart)[i] == a[i]);
                }
            }
        },
        MiningStrategy::Selfish(s) => {
            lemma_chain_back_in_pool(blocks, b, 2);
            lemma_broadcast_all_in_pool(chain_back(blocks, b, 2), num_nodes, len);
            let a = broadcast_all(chain_back(blocks, b, 2), num_nodes);
            assert forall|i: int| 0 <= i < a.push(restart).len() implies action_ok(#[trigger] a.push(restart)[i], num_nodes, len) by {
                if i < a.len() {
                    assert(a.push(restart)[i] == a[i]);
                }
            }
            lemma_broadcast_in_pool(s.private_chain, num_nodes, len);
            lemma_chain_back_in_pool(blocks, s.private_chain, s.private_branch_len as nat);
            lemma_broadcast_all_in_pool(
                chain_back(blocks, s.private_chain, s.private_branch_len as nat),
                num_nodes,
                len,
            );
            if s.private_branch_len >= 1 {
                lemma_walk_back_in_pool(blocks, s.private_chain, (s.private_branch_len - 1) as nat);
            }
            lemma_broadcast_in_pool(oldest_private(s, blocks), num_nodes, len);
        },
    }
}

/// A selfish miner that had no lead when a block arrives drops its private
/// branch: its private tip is its public tip, and no private block is left.
pub proof fn lemma_selfish_state_law(
    s: SelfishMiningStrategy,
    blocks: Seq<Block>,
    b: BlockId,
    env: Env,
    me: usize,
)
    requires
        lead(s, blocks) <= 0,
    ensures
        ({
            let t = selfish_receive(s, blocks, b, env, me).0;
            &&& t.private_chain == t.public_chain
            &&& t.private_branch_len == h(blocks, t.private_chain) - h(blocks, t.public_chain)
        }),
{
}

} // verus!
