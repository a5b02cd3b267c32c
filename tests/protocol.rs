use blockchain_sim::{
    BitcoinProtocol, Block, BlockId, Blockchain, EthereumProtocol, NodeId, ProtocolType,
};

const D0: u64 = 1 << 32;

/// A straight chain of `n` blocks above genesis, the block at height `h`
/// mined at `time_of(h)`.
fn chain(protocol: ProtocolType, n: u64, time_of: impl Fn(u64) -> u64, difficulty: u64) -> Blockchain {
    let mut bc = Blockchain::new(&protocol);
    for h in 1..=n {
        let id = bc.next_block_id();
        bc.add_block(Block::new(
            h,
            Some(BlockId::new(h as usize - 1)),
            NodeId::new(0),
            time_of(h),
            0,
            id,
            difficulty,
            0,
        ));
    }
    bc
}

fn tip(bc: &Blockchain) -> Block {
    *bc.last_block().unwrap()
}

#[test]
fn bitcoin_identity_outside_epoch_boundary() {
    let bc = chain(ProtocolType::Bitcoin, 10, |h| h * 600_000, D0);
    let d = BitcoinProtocol.calculate_difficulty(&tip(&bc), 7_000_000, &bc);
    assert_eq!(d, D0);
}

#[test]
fn bitcoin_retarget_halves_interval() {
    // The epoch took half the target span: difficulty doubles.
    let bc = chain(ProtocolType::Bitcoin, 2015, |h| h * 300_000, D0);
    let now = 2015 * 300_000;
    let d = BitcoinProtocol.calculate_difficulty(&tip(&bc), now, &bc);
    assert_eq!(d, 2 * D0);
}

#[test]
fn bitcoin_retarget_clamps() {
    let bc = chain(ProtocolType::Bitcoin, 2015, |h| h, D0);
    assert_eq!(BitcoinProtocol.calculate_difficulty(&tip(&bc), 2015, &bc), 4 * D0);
    let slow = 2015u64 * 600_000 * 10;
    assert_eq!(BitcoinProtocol.calculate_difficulty(&tip(&bc), slow, &bc), D0 / 4);
    let exact = 2015u64 * 600_000;
    assert_eq!(BitcoinProtocol.calculate_difficulty(&tip(&bc), exact, &bc), D0);
    // 1.5 times the target: D / 1.5, rounded down.
    let d = BitcoinProtocol.calculate_difficulty(&tip(&bc), exact * 3 / 2, &bc);
    assert_eq!(d, (D0 as u128 * 2 / 3) as u64);
}

#[test]
fn bitcoin_bound_holds_on_many_elapsed_times() {
    let bc = chain(ProtocolType::Bitcoin, 2015, |h| h, 123_456_789);
    let parent = tip(&bc);
    for now in [0u64, 1, 1000, 300_000_000, 1_209_000_000, 2_000_000_000, 9_000_000_000] {
        let d = ProtocolType::Bitcoin.calculate_difficulty(&parent, now, &bc);
        assert!(d >= parent.difficulty() / 4 && d <= parent.difficulty() * 4);
    }
}

#[test]
fn ethereum_steps() {
    let base = 2048 * 1000;
    // Parent is genesis: the default.
    let bc = chain(ProtocolType::Ethereum, 0, |h| h, base);
    assert_eq!(EthereumProtocol.calculate_difficulty(&tip(&bc), 0, &bc), D0);
    // 5 s apart: one step up.
    let bc = chain(ProtocolType::Ethereum, 2, |h| h * 5_000, base);
    assert_eq!(EthereumProtocol.calculate_difficulty(&tip(&bc), 0, &bc), base + 1000);
    // 25 s apart: one step down.
    let bc = chain(ProtocolType::Ethereum, 2, |h| h * 25_000, base);
    assert_eq!(EthereumProtocol.calculate_difficulty(&tip(&bc), 0, &bc), base - 1000);
    // 2000 s apart: the floor of 99 steps down.
    let bc = chain(ProtocolType::Ethereum, 2, |h| h * 2_000_000, base);
    assert_eq!(EthereumProtocol.calculate_difficulty(&tip(&bc), 0, &bc), base - 99 * 1000);
    // 10 s apart: no change.
    let bc = chain(ProtocolType::Ethereum, 2, |h| h * 10_000, base);
    assert_eq!(ProtocolType::Ethereum.calculate_difficulty(&tip(&bc), 0, &bc), base);
}

#[test]
fn generation_time_scales_with_difficulty_and_hashrate() {
    assert_eq!(ProtocolType::Bitcoin.calculate_generation_time(1 << 32, 1 << 32, 1), 1 << 32);
    assert_eq!(ProtocolType::Ethereum.calculate_generation_time(1 << 31, 1000, 1), 500);
    assert_eq!(BitcoinProtocol.calculate_generation_time(3 << 32, 1000, 4), 750);
    assert_eq!(EthereumProtocol.calculate_generation_time(0, 1000, 4), 0);
    assert_eq!(ProtocolType::Bitcoin.calculate_generation_time(u64::MAX, u64::MAX, 1), u64::MAX);
}

#[test]
fn protocol_names_and_scales() {
    assert_eq!(ProtocolType::Bitcoin.name(), "Bitcoin");
    assert_eq!(ProtocolType::Ethereum.name(), "Ethereum");
    assert_eq!(ProtocolType::Bitcoin.difficulty_scale(), 1 << 32);
    assert_eq!(ProtocolType::Ethereum.difficulty_scale(), 1);
    assert_eq!(ProtocolType::Ethereum.default_difficulty(), D0);
}
