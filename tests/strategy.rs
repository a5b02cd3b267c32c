use blockchain_sim::mining_strategy::longest_chain;
use blockchain_sim::{
    Action, Block, BlockId, Blockchain, Env, HonestMiningStrategy, MiningStrategy,
    MiningStrategyEnum, NetworkProfile, NodeId, NodeProfile, ProtocolType, SelfishMiningStrategy,
    TieBreakingRule,
};

fn env(n: usize) -> Env {
    Env { num_nodes: n, delay: 600, generation_time: 600_000, tie: TieBreakingRule::Longest }
}

fn extend(bc: &mut Blockchain, prev: usize, minter: usize) -> BlockId {
    let parent = *bc.get_block(BlockId::new(prev)).unwrap();
    let id = bc.next_block_id();
    bc.add_block(Block::new(
        parent.height() + 1,
        Some(BlockId::new(prev)),
        NodeId::new(minter),
        parent.time() + 1,
        id.0 as u64,
        id,
        parent.difficulty(),
        1,
    ))
}

fn propagated(actions: &[Action]) -> Vec<(usize, usize)> {
    actions
        .iter()
        .filter_map(|a| match a {
            Action::Propagate { block_id, to } => Some((block_id.0, *to)),
            Action::RestartMining { .. } => None,
        })
        .collect()
}

#[test]
fn honest_mining_broadcasts_and_restarts() {
    let mut bc = Blockchain::new(&ProtocolType::Bitcoin);
    let b = extend(&mut bc, 0, 0);
    let mut s = HonestMiningStrategy::default();
    let actions = s.on_mining_block(b, 0, &env(3), 0);
    assert_eq!(propagated(&actions), vec![(1, 0), (1, 1), (1, 2)]);
    assert_eq!(actions[3], Action::RestartMining { prev_block_id: b });
    assert_eq!(actions.len(), 4);
    assert_eq!(s.current_block_id, b);
}

#[test]
fn honest_receive_switches_only_to_higher() {
    let mut bc = Blockchain::new(&ProtocolType::Bitcoin);
    let a = extend(&mut bc, 0, 0);
    let b = extend(&mut bc, 0, 1);
    let c = extend(&mut bc, b.0, 1);
    let mut s = HonestMiningStrategy::default();
    let r = s.on_receiving_block(a, 0, &bc, 0);
    assert_eq!(r, vec![Action::RestartMining { prev_block_id: a }]);
    assert_eq!(s.current_block_id, a);
    // Equal height: keep the tip.
    assert!(s.on_receiving_block(b, 0, &bc, 0).is_empty());
    assert_eq!(s.current_block_id, a);
    let r = s.on_receiving_block(c, 0, &bc, 0);
    assert_eq!(r, vec![Action::RestartMining { prev_block_id: c }]);
}

#[test]
fn longest_chain_prefers_first_on_ties() {
    let mut bc = Blockchain::new(&ProtocolType::Bitcoin);
    let a = extend(&mut bc, 0, 0);
    let b = extend(&mut bc, 0, 1);
    assert_eq!(longest_chain(&bc, a, b), a);
    assert_eq!(longest_chain(&bc, b, a), b);
    assert_eq!(longest_chain(&bc, BlockId::new(0), a), a);
}

#[test]
fn selfish_tie_then_lead_publishes_branch() {
    // Private lead of one, published in a race: tie with one private block.
    let mut bc = Blockchain::new(&ProtocolType::Bitcoin);
    let priv1 = extend(&mut bc, 0, 1);
    let hon1 = extend(&mut bc, 0, 0);
    let mut s = SelfishMiningStrategy {
        public_chain: hon1,
        private_chain: priv1,
        private_branch_len: 1,
    };
    let priv2 = extend(&mut bc, priv1.0, 1);
    let actions = s.on_mining_block(priv2, 0, &env(2), &bc, 1);
    assert_eq!(propagated(&actions), vec![(priv1.0, 0), (priv1.0, 1), (priv2.0, 0), (priv2.0, 1)]);
    assert_eq!(actions.last(), Some(&Action::RestartMining { prev_block_id: priv2 }));
    assert_eq!(s.private_chain, priv2);
    assert_eq!(s.private_branch_len, 0);
}

#[test]
fn selfish_mining_keeps_block_private() {
    let mut bc = Blockchain::new(&ProtocolType::Bitcoin);
    let priv1 = extend(&mut bc, 0, 1);
    let mut s = SelfishMiningStrategy::default();
    let actions = s.on_mining_block(priv1, 0, &env(2), &bc, 1);
    assert_eq!(actions, vec![Action::RestartMining { prev_block_id: priv1 }]);
    assert_eq!(s.private_chain, priv1);
    assert_eq!(s.public_chain, BlockId::new(0));
    assert_eq!(s.private_branch_len, 1);
    assert_eq!(s.get_last_private_block(), priv1);
    assert_eq!(s.get_private_branch(&bc), vec![priv1]);
    assert_eq!(s.get_first_unpublished_private_block(&bc), priv1);
}

#[test]
fn selfish_receive_without_lead_adopts_public() {
    let mut bc = Blockchain::new(&ProtocolType::Bitcoin);
    let hon1 = extend(&mut bc, 0, 0);
    let mut s = SelfishMiningStrategy::default();
    let actions = s.on_receiving_block(hon1, 0, &env(2), &bc, 1);
    assert_eq!(actions, vec![Action::RestartMining { prev_block_id: hon1 }]);
    assert_eq!(s.public_chain, hon1);
    assert_eq!(s.private_chain, hon1);
    assert_eq!(s.private_branch_len, 0);
}

#[test]
fn selfish_receive_with_lead_one_races() {
    let mut bc = Blockchain::new(&ProtocolType::Bitcoin);
    let priv1 = extend(&mut bc, 0, 1);
    let hon1 = extend(&mut bc, 0, 0);
    let mut s = SelfishMiningStrategy {
        public_chain: BlockId::new(0),
        private_chain: priv1,
        private_branch_len: 1,
    };
    let actions = s.on_receiving_block(hon1, 0, &env(2), &bc, 1);
    assert_eq!(propagated(&actions), vec![(priv1.0, 0), (priv1.0, 1)]);
    assert_eq!(actions.len(), 2);
    assert_eq!(s.public_chain, hon1);
    assert_eq!(s.private_branch_len, 1);
}

#[test]
fn selfish_receive_with_lead_two_publishes_all() {
    let mut bc = Blockchain::new(&ProtocolType::Bitcoin);
    let priv1 = extend(&mut bc, 0, 1);
    let priv2 = extend(&mut bc, priv1.0, 1);
    let hon1 = extend(&mut bc, 0, 0);
    let mut s = SelfishMiningStrategy {
        public_chain: BlockId::new(0),
        private_chain: priv2,
        private_branch_len: 2,
    };
    let actions = s.on_receiving_block(hon1, 0, &env(2), &bc, 1);
    assert_eq!(propagated(&actions), vec![(priv1.0, 0), (priv1.0, 1), (priv2.0, 0), (priv2.0, 1)]);
    assert_eq!(s.private_branch_len, 0);
    assert_eq!(s.public_chain, hon1);
    assert_eq!(s.private_chain, priv2);
}

#[test]
fn selfish_receive_with_big_lead_publishes_oldest() {
    let mut bc = Blockchain::new(&ProtocolType::Bitcoin);
    let priv1 = extend(&mut bc, 0, 1);
    let priv2 = extend(&mut bc, priv1.0, 1);
    let priv3 = extend(&mut bc, priv2.0, 1);
    let hon1 = extend(&mut bc, 0, 0);
    let mut s = SelfishMiningStrategy {
        public_chain: BlockId::new(0),
        private_chain: priv3,
        private_branch_len: 3,
    };
    assert_eq!(s.get_private_branch(&bc), vec![priv1, priv2, priv3]);
    let actions = s.on_receiving_block(hon1, 0, &env(3), &bc, 1);
    assert_eq!(propagated(&actions), vec![(priv1.0, 0), (priv1.0, 1), (priv1.0, 2)]);
    assert_eq!(s.public_chain, hon1);
    assert_eq!(s.private_chain, priv3);
    assert_eq!(s.private_branch_len, 2);
    assert_eq!(s.get_first_unpublished_private_block(&bc), priv2);
}

#[test]
fn strategy_enum_dispatch_and_profile() {
    let profile = NetworkProfile {
        nodes: vec![
            NodeProfile { hashrate: 1000, strategy: MiningStrategyEnum::Honest },
            NodeProfile { hashrate: 2000, strategy: MiningStrategyEnum::Selfish },
        ],
    };
    assert_eq!(profile.num_nodes(), 2);
    let s0 = profile.create_strategy(0);
    let s1 = profile.create_strategy(1);
    assert_eq!(s0, MiningStrategy::Honest(HonestMiningStrategy::default()));
    assert_eq!(s1, MiningStrategy::Selfish(SelfishMiningStrategy::default()));
    assert_eq!(s0.name(), "Honest");
    assert_eq!(s1.name(), "Selfish");
    let mut bc = Blockchain::new(&ProtocolType::Bitcoin);
    let b = extend(&mut bc, 0, 0);
    let mut st = MiningStrategyEnum::Honest.to_strategy();
    let r = st.on_receiving_block(b, 0, &env(1), &bc, 0);
    assert_eq!(r, vec![Action::RestartMining { prev_block_id: b }]);
    let mut st = MiningStrategyEnum::Selfish.to_strategy();
    let r = st.on_mining_block(b, 0, &env(1), &bc, 0);
    assert_eq!(r, vec![Action::RestartMining { prev_block_id: b }]);
}

#[test]
fn selfish_public_tip_follows_fork_choice() {
    let mut bc = Blockchain::new(&ProtocolType::Bitcoin);
    let a = extend(&mut bc, 0, 0);
    let b = extend(&mut bc, 0, 2);
    // `extend` gives each block its id as `rand`: `b` has the higher one.
    let mut s = SelfishMiningStrategy { public_chain: a, private_chain: a, private_branch_len: 0 };
    let random = Env { tie: TieBreakingRule::Random, ..env(3) };
    s.on_receiving_block(b, 0, &random, &bc, 1);
    assert_eq!(s.public_chain, b);
    let mut s = SelfishMiningStrategy { public_chain: a, private_chain: a, private_branch_len: 0 };
    s.on_receiving_block(b, 0, &env(3), &bc, 1);
    assert_eq!(s.public_chain, a);
}
