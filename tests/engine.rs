use blockchain_sim::{
    reward_counts, Action, BlockId, BlockchainSimulator, ConfigError, Event, EventType, MiningStrategyEnum,
    NetworkProfile, NodeId, NodeProfile, ProtocolType, Task, TaskType, TieBreakingRule,
};
use rand::rngs::StdRng;
use rand::{Rng, SeedableRng};
use rand_distr::{Distribution, Exp1};

/// An exponential draw of mean one, in fixed point with 32 fractional bits.
fn exp_draw(rng: &mut StdRng) -> u64 {
    let x: f64 = Exp1.sample(rng);
    (x * 4294967296.0) as u64
}

fn start(sim: &mut BlockchainSimulator, rng: &mut StdRng) {
    for m in 0..sim.nodes().len() {
        let e = exp_draw(rng);
        let r: u64 = rng.gen();
        sim.start_node(m, e, r);
    }
}

fn run(sim: &mut BlockchainSimulator, seed: u64) {
    let mut rng = StdRng::seed_from_u64(seed);
    start(sim, &mut rng);
    loop {
        let e = exp_draw(&mut rng);
        let r: u64 = rng.gen();
        if !sim.step(e, r) {
            break;
        }
    }
}

fn honest(hashrates: Vec<u64>, end_round: u64, delay: u64, tie: TieBreakingRule) -> BlockchainSimulator {
    BlockchainSimulator::new(hashrates, end_round, tie, delay, 600_000, ProtocolType::Bitcoin).unwrap()
}

#[test]
fn zero_hashrate_is_refused() {
    let r = BlockchainSimulator::new(vec![3, 0, 1], 10, TieBreakingRule::Longest, 600, 600_000, ProtocolType::Bitcoin);
    assert!(matches!(r, Err(ConfigError::NonPositiveHashrate { node: 1 })));
    let profile = NetworkProfile {
        nodes: vec![
            NodeProfile { hashrate: 5, strategy: MiningStrategyEnum::Honest },
            NodeProfile { hashrate: -2, strategy: MiningStrategyEnum::Selfish },
        ],
    };
    let r = BlockchainSimulator::new_with_profile(&profile, 10, TieBreakingRule::Longest, 600, 600_000, ProtocolType::Bitcoin);
    assert!(matches!(r, Err(ConfigError::NonPositiveHashrate { node: 1 })));
}

#[test]
fn genesis_only_when_end_round_is_zero() {
    let mut sim = honest(vec![1, 1], 0, 600, TieBreakingRule::Longest);
    run(&mut sim, 1);
    assert_eq!(sim.current_round(), 0);
    assert_eq!(sim.blockchain().get_main_chain(), vec![BlockId::new(0)]);
}

#[test]
fn two_honest_nodes_without_delay() {
    let mut sim = honest(vec![1, 1], 50, 0, TieBreakingRule::Longest);
    run(&mut sim, 42);
    assert_eq!(sim.current_round(), 50);
    let bc = sim.blockchain();
    let chain = bc.get_main_chain();
    assert_eq!(chain[0], BlockId::new(0));
    for w in chain.windows(2) {
        assert_eq!(bc.get_block(w[1]).unwrap().prev_block_id(), Some(w[0]));
    }
    assert_eq!(chain.len(), 51);
    assert_eq!(chain.len() as u64, bc.max_height() + 1);
    let mined = (0..bc.len()).filter(|i| bc.is_mined(BlockId::new(*i))).count();
    assert_eq!(mined, 51);
    for id in &chain {
        assert!(bc.is_mined(*id));
    }
    let counts = reward_counts(bc, &chain, 2);
    assert_eq!(counts.iter().sum::<u64>(), 50);
    for c in &counts {
        let fairness = (*c as f64 / 50.0) / 0.5;
        assert!(fairness >= 0.6 && fairness <= 1.4, "fairness {}", fairness);
    }
}

#[test]
fn reward_counts_sum_to_main_chain_without_genesis() {
    let mut sim = honest(vec![3, 1, 2], 30, 600, TieBreakingRule::Random);
    run(&mut sim, 5);
    let chain = sim.blockchain().get_main_chain();
    let counts = reward_counts(sim.blockchain(), &chain, 3);
    assert_eq!(counts.iter().sum::<u64>() as usize, chain.len() - 1);
    let shares: f64 = counts.iter().map(|c| *c as f64 / (chain.len() - 1) as f64).sum();
    assert!((shares - 1.0).abs() < 1e-9);
}

#[test]
fn runs_are_deterministic() {
    let mut a = honest(vec![5, 2, 9], 40, 600, TieBreakingRule::Time);
    let mut b = honest(vec![5, 2, 9], 40, 600, TieBreakingRule::Time);
    run(&mut a, 99);
    run(&mut b, 99);
    assert_eq!(a.blockchain().blocks(), b.blockchain().blocks());
    assert_eq!(a.current_time(), b.current_time());
    assert_eq!(a.blockchain().get_main_chain(), b.blockchain().get_main_chain());
}

#[test]
fn deadline_matches_pending_generation() {
    let mut sim = honest(vec![1, 2, 3, 4], 1000, 600, TieBreakingRule::Longest);
    let mut rng = StdRng::seed_from_u64(3);
    start(&mut sim, &mut rng);
    for _ in 0..200 {
        let before = sim.current_time();
        for m in 0..4 {
            let pending = sim.pending_event(m).map(|e| e.time());
            assert_eq!(pending, sim.nodes()[m].next_mining_deadline());
            assert!(pending.is_some());
        }
        let e = exp_draw(&mut rng);
        let r: u64 = rng.gen();
        assert!(sim.step(e, r));
        assert!(sim.current_time() >= before);
    }
}

#[test]
fn stale_generation_is_dropped() {
    let mut sim = honest(vec![1], 10, 600, TieBreakingRule::Longest);
    let mut rng = StdRng::seed_from_u64(8);
    start(&mut sim, &mut rng);
    let ev = sim.pending_event(0).unwrap();
    assert!(ev.is_block_generation());
    sim.dispatch_event(ev, 1 << 32, 7);
    let blocks = sim.blockchain().len();
    assert_eq!(blocks, 3);
    assert_eq!(sim.current_round(), 1);
    let pending = sim.pending_event(0);
    assert_ne!(pending, Some(ev));
    sim.dispatch_event(ev, 1 << 32, 7);
    assert_eq!(sim.blockchain().len(), blocks);
    assert_eq!(sim.pending_event(0), pending);
    assert_eq!(sim.current_round(), 1);
}

#[test]
fn bitcoin_retarget_fires_once_at_epoch() {
    let mut sim = honest(vec![1], 2100, 600, TieBreakingRule::Longest);
    run(&mut sim, 0);
    let bc = sim.blockchain();
    let chain = bc.get_main_chain();
    let at = |h: usize| *bc.get_block(chain[h]).unwrap();
    let d0 = at(0).difficulty();
    for h in 1..2016 {
        assert_eq!(at(h).difficulty(), d0);
    }
    let b = at(2016);
    let started = b.time() - b.mining_time;
    let elapsed = started as u128 - at(0).time() as u128;
    let span = 2015u128 * 600_000;
    let expected = if 4 * elapsed <= span {
        4 * d0 as u128
    } else if elapsed >= 4 * span {
        d0 as u128 / 4
    } else {
        d0 as u128 * span / elapsed
    };
    assert_eq!(b.difficulty() as u128, expected);
    for h in 2017..=2100 {
        assert_eq!(at(h).difficulty(), b.difficulty());
    }
}

#[test]
fn selfish_profile_runs_and_keeps_invariants() {
    let profile = NetworkProfile {
        nodes: vec![
            NodeProfile { hashrate: 60, strategy: MiningStrategyEnum::Honest },
            NodeProfile { hashrate: 40, strategy: MiningStrategyEnum::Selfish },
        ],
    };
    let mut sim = BlockchainSimulator::new_with_profile(&profile, 300, TieBreakingRule::Longest, 1, 600_000, ProtocolType::Ethereum).unwrap();
    run(&mut sim, 7);
    assert_eq!(sim.current_round(), 300);
    let bc = sim.blockchain();
    for blk in bc.blocks().iter().skip(1) {
        let p = bc.get_block(blk.prev_block_id().unwrap()).unwrap();
        assert_eq!(p.height() + 1, blk.height());
        let d = p.difficulty() as i128;
        assert!((blk.difficulty() as i128 - d).abs() <= d / 2048 * 99);
    }
    let chain = bc.get_main_chain();
    let counts = reward_counts(bc, &chain, 2);
    assert_eq!(counts.iter().sum::<u64>() as usize, chain.len() - 1);
}

#[test]
fn reset_starts_over() {
    let mut sim = honest(vec![1, 1], 20, 600, TieBreakingRule::Longest);
    run(&mut sim, 4);
    assert!(sim.blockchain().len() > 1);
    sim.reset();
    assert_eq!(sim.blockchain().len(), 1);
    assert_eq!(sim.current_round(), 0);
    assert_eq!(sim.current_time(), 0);
    assert_eq!(sim.nodes()[1].next_mining_deadline(), None);
    assert_eq!(sim.total_hashrate(), 2);
}

#[test]
fn events_and_tasks() {
    let ty = EventType::Propagation { from: NodeId::new(0), to: NodeId::new(1), block_id: BlockId::new(4) };
    let e = Event::new(12, ty);
    assert_eq!(e.time(), 12);
    assert_eq!(*e.event_type(), ty);
    assert!(e.is_propagation());
    assert!(!e.is_block_generation());
    let g = Event::new(3, EventType::BlockGeneration { minter: NodeId::new(2), prev_block_id: BlockId::new(0), block_id: BlockId::new(1) });
    assert!(g.is_block_generation());
    let t = Task::new(5, TaskType::BlockGeneration { minter: 1 });
    assert_eq!(t.time(), 5);
    assert!(t.is_block_generation());
    assert!(!t.is_propagation());
    assert_eq!(*t.task_type(), TaskType::BlockGeneration { minter: 1 });
    let p = Task::new(6, TaskType::Propagation { from: 0, to: 1, block_id: 2 });
    assert!(p.is_propagation());
    assert_eq!(NodeId::new(7).into_usize(), 7);
    assert_eq!(NodeId::dummy().into_usize(), usize::MAX);
}

#[test]
fn selfish_miner_beats_its_hashrate_share() {
    let profile = NetworkProfile {
        nodes: vec![
            NodeProfile { hashrate: 60, strategy: MiningStrategyEnum::Honest },
            NodeProfile { hashrate: 40, strategy: MiningStrategyEnum::Selfish },
        ],
    };
    let mut sim = BlockchainSimulator::new_with_profile(&profile, 5000, TieBreakingRule::Longest, 1, 600_000, ProtocolType::Bitcoin).unwrap();
    run(&mut sim, 7);
    let bc = sim.blockchain();
    let chain = bc.get_main_chain();
    let counts = reward_counts(bc, &chain, 2);
    let total: u64 = counts.iter().sum();
    let selfish_share = counts[1] as f64 / total as f64;
    let honest_fairness = (counts[0] as f64 / total as f64) / 0.6;
    assert!(selfish_share > 0.40, "selfish share {}", selfish_share);
    assert!(honest_fairness < 1.0);
}

#[test]
fn random_ties_reach_the_end_round() {
    for seed in [1u64, 2] {
        let mut sim = honest(vec![1, 1], 40, 1 << 40, TieBreakingRule::Random);
        run(&mut sim, seed);
        assert_eq!(sim.current_round(), 40);
        let chain = sim.blockchain().get_main_chain();
        assert_eq!(chain.len(), 41);
    }
}

#[test]
fn self_propagation_is_queued_and_does_nothing() {
    let mut sim = honest(vec![1, 1], 10, 600, TieBreakingRule::Longest);
    let mut rng = StdRng::seed_from_u64(11);
    start(&mut sim, &mut rng);
    // Run the earliest completion: its miner broadcasts the block to both
    // nodes, to itself at once.
    let (first, ev) = (0..2)
        .map(|m| (m, sim.pending_event(m).unwrap()))
        .min_by_key(|(_, e)| e.time())
        .unwrap();
    sim.dispatch_event(ev, 1 << 32, 3);
    let b = match ev.event_type() {
        EventType::BlockGeneration { block_id, .. } => *block_id,
        EventType::Propagation { .. } => unreachable!(),
    };
    assert!(sim.blockchain().is_mined(b));
    let blocks = sim.blockchain().len();
    let tips: Vec<_> = sim.nodes().iter().map(|n| (n.tip, n.mining_strategy)).collect();
    let own = Event::new(
        sim.current_time(),
        EventType::Propagation { from: NodeId::new(first), to: NodeId::new(first), block_id: b },
    );
    sim.dispatch_event(own, 1 << 32, 3);
    assert_eq!(sim.blockchain().len(), blocks);
    let after: Vec<_> = sim.nodes().iter().map(|n| (n.tip, n.mining_strategy)).collect();
    assert_eq!(tips, after);
    // The queued self-propagation is run by a step at the same time, to no effect.
    let time = sim.current_time();
    assert!(sim.step(1 << 32, 3));
    assert_eq!(sim.current_time(), time);
    assert_eq!(sim.blockchain().len(), blocks);
}

#[test]
fn restart_on_unmined_candidate_appends_a_block() {
    let mut sim = honest(vec![1, 1], 10, 600, TieBreakingRule::Longest);
    let mut rng = StdRng::seed_from_u64(2);
    start(&mut sim, &mut rng);
    let candidate = match sim.pending_event(1).unwrap().event_type() {
        EventType::BlockGeneration { block_id, .. } => *block_id,
        EventType::Propagation { .. } => unreachable!(),
    };
    assert!(!sim.blockchain().is_mined(candidate));
    let before = sim.blockchain().len();
    sim.enqueue_actions(0, &vec![Action::RestartMining { prev_block_id: candidate }], 1 << 32, 5);
    assert_eq!(sim.blockchain().len(), before + 1);
    let child = *sim.blockchain().last_block().unwrap();
    assert_eq!(child.prev_block_id(), Some(candidate));
    assert_eq!(child.height(), 2);
    let pending = sim.pending_event(0).unwrap();
    assert_eq!(Some(pending.time()), sim.nodes()[0].next_mining_deadline());
}
