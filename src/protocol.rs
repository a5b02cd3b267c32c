use vstd::prelude::*;

use crate::block::Block;
use crate::blockchain::{link_ok, parent_index, pool_wf, BlockId, Blockchain};

verus! {

/// The difficulty every protocol gives to genesis, in expected hashes per block.
pub const DEFAULT_DIFFICULTY: u64 = 0x1_0000_0000;

/// Bitcoin retargets at heights that are positive multiples of this.
pub const BTC_DAA_EPOCH: u64 = 2016;

/// Bitcoin's target block interval, in milliseconds.
pub const BTC_TARGET_GENERATION_TIME: u64 = 600_000;

/// The time that one epoch should take: 2015 intervals of the target.
pub const BTC_EPOCH_SPAN: u64 = 1_209_000_000;

/// One in fixed point with 32 fractional bits, the format of exponential draws.
pub const FIXED_ONE: u64 = 0x1_0000_0000;

/// The Bitcoin rule: retarget every 2016 blocks towards one block per ten minutes.
#[derive(Clone, Copy, Debug, PartialEq, Eq, Structural)]
pub struct BitcoinProtocol;

/// The Homestead Ethereum rule, uncles ignored: a small step per block.
#[derive(Clone, Copy, Debug, PartialEq, Eq, Structural)]
pub struct EthereumProtocol;

/// Which difficulty rule a run uses.
#[derive(Clone, Copy, Debug, PartialEq, Eq, Structural)]
pub enum ProtocolType {
    Bitcoin,
    Ethereum,
}

/// `x` cut down to what a `u64` holds.
pub open spec fn saturate(x: int) -> u64 {
    if x > u64::MAX {
        u64::MAX
    } else if x < 0 {
        0
    } else {
        x as u64
    }
}

/// The block `k` parent steps above the one at `i`.
pub open spec fn ancestor(blocks: Seq<Block>, i: int, k: nat) -> int
    decreases k,
{
    if k == 0 {
        i
    } else {
        ancestor(blocks, parent_index(blocks[i]), (k - 1) as nat)
    }
}

/// Bitcoin's step at an epoch boundary, given the time the epoch took:
/// `D / clamp(elapsed / span, 1/4, 4)`, rounded down.
pub open spec fn btc_retarget(parent_difficulty: u64, elapsed: int) -> u64 {
    let span = BTC_EPOCH_SPAN as int;
    if 4 * elapsed <= span {
        saturate(4 * parent_difficulty)
    } else if elapsed >= 4 * span {
        parent_difficulty / 4
    } else {
        saturate(parent_difficulty * span / elapsed)
    }
}

/// Whether a block at `height` opens a new Bitcoin epoch.
pub open spec fn is_epoch_boundary(height: int) -> bool {
    height % (BTC_DAA_EPOCH as int) == 0 && height >= BTC_DAA_EPOCH
}

/// The Bitcoin difficulty of a child of the block at `parent` mined at `now`.
pub open spec fn bitcoin_difficulty(blocks: Seq<Block>, parent: int, now: u64) -> u64 {
    let p = blocks[parent];
    if is_epoch_boundary(p.height + 1) {
        let first = blocks[ancestor(blocks, parent, (BTC_DAA_EPOCH - 1) as nat)];
        btc_retarget(p.difficulty, now - first.time)
    } else {
        p.difficulty
    }
}

/// Division that rounds towards zero, as machine integers do.
pub open spec fn trunc_div(x: int, d: int) -> int {
    if x >= 0 {
        x / d
    } else {
        -((-x) / d)
    }
}

/// Ethereum's adjustment factor for a parent mined `dt_ms` after its own parent.
pub open spec fn eth_factor(dt_ms: int) -> int {
    let a = 1 - trunc_div(trunc_div(dt_ms, 1000), 10);
    if a < -99 {
        -99
    } else {
        a
    }
}

/// The Ethereum difficulty of a child of the block at `parent`.
pub open spec fn ethereum_difficulty(blocks: Seq<Block>, parent: int) -> u64 {
    let p = blocks[parent];
    if p.height == 0 {
        DEFAULT_DIFFICULTY
    } else {
        let gp = blocks[parent_index(p)];
        saturate(p.difficulty + (p.difficulty / 2048) * eth_factor(p.time - gp.time))
    }
}

/// The expected mining time of `difficulty` hashes at `hashrate`, scaled by an
/// exponential draw given in fixed point with 32 fractional bits.
pub open spec fn generation_time(exp_draw: u64, difficulty: u64, hashrate: u64) -> u64 {
    saturate((exp_draw * difficulty) / (hashrate * FIXED_ONE))
}

/// `block` is stored in the pool, at the index of its id.
pub open spec fn in_pool(blocks: Seq<Block>, block: Block) -> bool {
    0 <= block.id.0 < blocks.len() && blocks[block.id.0 as int] == block
}

fn expected_generation_time(exp_draw: u64, difficulty: u64, hashrate: u64) -> (r: u64)
    requires
        hashrate >= 1,
    ensures
        r == generation_time(exp_draw, difficulty, hashrate),
{
    assert((exp_draw as int) * (difficulty as int) <= u128::MAX) by (nonlinear_arith)
        requires
            exp_draw <= u64::MAX,
            difficulty <= u64::MAX,
    ;
    assert((hashrate as int) * (FIXED_ONE as int) <= u128::MAX) by (nonlinear_arith)
        requires
            hashrate <= u64::MAX,
    ;
    let num: u128 = exp_draw as u128 * difficulty as u128;
    let den: u128 = hashrate as u128 * FIXED_ONE as u128;
    let t: u128 = num / den;
    if t > u64::MAX as u128 {
        u64::MAX
    } else {
        t as u64
    }
}

impl BitcoinProtocol {
    pub fn name(&self) -> (r: &'static str) {
        "Bitcoin"
    }

    pub fn default_difficulty(&self) -> (r: u64)
        ensures
            r == DEFAULT_DIFFICULTY,
    {
        DEFAULT_DIFFICULTY
    }

    /// The difficulty of a child of `parent_block` whose mining starts at `current_time`.
    pub fn calculate_difficulty(
        &self,
        parent_block: &Block,
        current_time: u64,
        blockchain: &Blockchain,
    ) -> (r: u64)
        requires
            blockchain.wf(),
            in_pool(blockchain.spec_blocks(), *parent_block),
        ensures
            r == bitcoin_difficulty(blockchain.spec_blocks(), parent_block.id.0 as int, current_time),
    {
        let ghost s = blockchain.spec_blocks();
        let parent_difficulty = parent_block.difficulty;
        let parent_height = parent_block.height;
        let pool_len: usize = blockchain.len();
        proof {
            assert(s[parent_block.id.0 as int].height <= parent_block.id.0);
            assert(usize::MAX <= u64::MAX);
        }
        let new_height: u64 = parent_height + 1;
        if new_height % BTC_DAA_EPOCH == 0 && new_height >= BTC_DAA_EPOCH {
            let mut cur: usize = parent_block.id.0;
            let mut k: u64 = 0;
            while k < BTC_DAA_EPOCH - 1
                invariant
                    pool_wf(s),
                    s == blockchain.spec_blocks(),
                    in_pool(s, *parent_block),
                    parent_block.height >= BTC_DAA_EPOCH - 1,
                    k <= BTC_DAA_EPOCH - 1,
                    cur < s.len(),
                    cur as int == ancestor(s, parent_block.id.0 as int, k as nat),
                    s[cur as int].height == parent_block.height - k,
                decreases BTC_DAA_EPOCH - 1 - k,
            {
                proof {
                    if cur == 0 {
                        assert(s[0].height == 0);
                    }
                    assert(link_ok(s, s[cur as int], cur as int));
                    assert(ancestor(s, parent_block.id.0 as int, (k + 1) as nat) == parent_index(
                        s[cur as int],
                    )) by {
                        lemma_ancestor_step(s, parent_block.id.0 as int, k as nat);
                    }
                }
                let b = blockchain.get_block(BlockId(cur)).unwrap();
                cur = b.prev_block_id.unwrap().0;
                k = k + 1;
            }
            let first_time = blockchain.get_block(BlockId(cur)).unwrap().time;
            retarget(parent_difficulty, current_time, first_time)
        } else {
            parent_difficulty
        }
    }

    pub fn calculate_generation_time(&self, exp_draw: u64, difficulty: u64, hashrate: u64) -> (r:
        u64)
        requires
            hashrate >= 1,
        ensures
            r == generation_time(exp_draw, difficulty, hashrate),
    {
        expected_generation_time(exp_draw, difficulty, hashrate)
    }
}

/// One more parent step from the block `k` steps up.
pub proof fn lemma_ancestor_step(blocks: Seq<Block>, i: int, k: nat)
    ensures
        ancestor(blocks, i, k + 1) == parent_index(blocks[ancestor(blocks, i, k)]),
    decreases k,
{
    reveal_with_fuel(ancestor, 2);
    if k > 0 {
        lemma_ancestor_step(blocks, parent_index(blocks[i]), (k - 1) as nat);
    }
}

fn retarget(parent_difficulty: u64, now: u64, first_time: u64) -> (r: u64)
    ensures
        r == btc_retarget(parent_difficulty, now - first_time),
{
    let d: u128 = parent_difficulty as u128;
    let span: u128 = BTC_EPOCH_SPAN as u128;
    let r: u128 = if now <= first_time || 4 * ((now - first_time) as u128) <= span {
        4 * d
    } else {
        let elapsed: u128 = (now - first_time) as u128;
        if elapsed >= 4 * span {
            d / 4
        } else {
            d * span / elapsed
        }
    };
    if r > u64::MAX as u128 {
        u64::MAX
    } else {
        r as u64
    }
}

/// `x / d` rounded towards zero, for a positive `d`.
fn trunc_div_i128(x: i128, d: i128) -> (r: i128)
    requires
        d > 0,
        x > i128::MIN,
    ensures
        r == trunc_div(x as int, d as int),
{
    if x >= 0 {
        x / d
    } else {
        -((-x) / d)
    }
}

impl EthereumProtocol {
    pub fn name(&self) -> (r: &'static str) {
        "Ethereum"
    }

    pub fn default_difficulty(&self) -> (r: u64)
        ensures
            r == DEFAULT_DIFFICULTY,
    {
        DEFAULT_DIFFICULTY
    }

    /// The difficulty of a child of `parent_block`; the time of mining plays no part.
    pub fn calculate_difficulty(
        &self,
        parent_block: &Block,
        _current_time: u64,
        blockchain: &Blockchain,
    ) -> (r: u64)
        requires
            blockchain.wf(),
            in_pool(blockchain.spec_blocks(), *parent_block),
        ensures
            r == ethereum_difficulty(blockchain.spec_blocks(), parent_block.id.0 as int),
    {
        let ghost s = blockchain.spec_blocks();
        if parent_block.height == 0 {
            return DEFAULT_DIFFICULTY;
        }
        proof {
            if parent_block.id.0 == 0 {
                assert(s[0].height == 0);
            }
            assert(link_ok(s, s[parent_block.id.0 as int], parent_block.id.0 as int));
        }
        let gp = blockchain.get_block(parent_block.prev_block_id.unwrap()).unwrap();
        let dt_ms: i128 = parent_block.time as i128 - gp.time as i128;
        let dt_s: i128 = trunc_div_i128(dt_ms, 1000);
        let step: i128 = trunc_div_i128(dt_s, 10);
        let a: i128 = if 1 - step < -99 {
            -99
        } else {
            1 - step
        };
        let d: i128 = parent_block.difficulty as i128;
        assert(-(0x8000_0000_0000_0000i128) <= a <= 0x8000_0000_0000_0000i128);
        let q: i128 = d / 2048;
        assert(0 <= q <= 0x20_0000_0000_0000i128);
        assert(-0x10_0000_0000_0000_0000_0000_0000_0000i128 <= q * a
            <= 0x10_0000_0000_0000_0000_0000_0000_0000i128) by (nonlinear_arith)
            requires
                0 <= q <= 0x20_0000_0000_0000i128,
                -(0x8000_0000_0000_0000i128) <= a <= 0x8000_0000_0000_0000i128,
        ;
        let new_d: i128 = d + q * a;
        if new_d > u64::MAX as i128 {
            u64::MAX
        } else if new_d < 0 {
            0
        } else {
            new_d as u64
        }
    }

    pub fn calculate_generation_time(&self, exp_draw: u64, difficulty: u64, hashrate: u64) -> (r:
        u64)
        requires
            hashrate >= 1,
        ensures
            r == generation_time(exp_draw, difficulty, hashrate),
    {
        expected_generation_time(exp_draw, difficulty, hashrate)
    }
}

/// The difficulty a run's protocol gives to a child of the block at `parent`.
pub open spec fn protocol_difficulty(
    protocol: ProtocolType,
    blocks: Seq<Block>,
    parent: int,
    now: u64,
) -> u64 {
    match protocol {
        ProtocolType::Bitcoin => bitcoin_difficulty(blocks, parent, now),
        ProtocolType::Ethereum => ethereum_difficulty(blocks, parent),
    }
}

impl ProtocolType {
    pub fn name(&self) -> (r: &'static str) {
        match self {
            ProtocolType::Bitcoin => BitcoinProtocol.name(),
            ProtocolType::Ethereum => EthereumProtocol.name(),
        }
    }

    pub fn default_difficulty(&self) -> (r: u64)
        ensures
            r == DEFAULT_DIFFICULTY,
    {
        DEFAULT_DIFFICULTY
    }

    /// How many stored difficulty units make one unit of the protocol's own
    /// difficulty: Bitcoin counts in multiples of 2^32 hashes.
    pub fn difficulty_scale(&self) -> (r: u64)
        ensures
            self is Bitcoin ==> r == FIXED_ONE,
            self is Ethereum ==> r == 1,
    {
        match self {
            ProtocolType::Bitcoin => FIXED_ONE,
            ProtocolType::Ethereum => 1,
        }
    }

    pub fn calculate_difficulty(
        &self,
        parent_block: &Block,
        current_time: u64,
        blockchain: &Blockchain,
    ) -> (r: u64)
        requires
            blockchain.wf(),
            in_pool(blockchain.spec_blocks(), *parent_block),
        ensures
            r == protocol_difficulty(
                *self,
                blockchain.spec_blocks(),
                parent_block.id.0 as int,
                current_time,
            ),
    {
        match self {
            ProtocolType::Bitcoin => BitcoinProtocol.calculate_difficulty(
                parent_block,
                current_time,
                blockchain,
            ),
            ProtocolType::Ethereum => EthereumProtocol.calculate_difficulty(
                parent_block,
                current_time,
                blockchain,
            ),
        }
    }

    pub fn calculate_generation_time(&self, exp_draw: u64, difficulty: u64, hashrate: u64) -> (r:
        u64)
        requires
            hashrate >= 1,
        ensures
            r == generation_time(exp_draw, difficulty, hashrate),
    {
        expected_generation_time(exp_draw, difficulty, hashrate)
    }
}

/// Bitcoin's difficulty moves by at most a factor of four, and only at an
/// epoch boundary.
pub proof fn lemma_bitcoin_retarget_bound(blocks: Seq<Block>, parent: int, now: u64)
    requires
        pool_wf(blocks),
        0 <= parent < blocks.len(),
    ensures
        blocks[parent].difficulty / 4 <= bitcoin_difficulty(blocks, parent, now)
            <= 4 * blocks[parent].difficulty,
        !is_epoch_boundary(blocks[parent].height + 1) ==> bitcoin_difficulty(blocks, parent, now)
            == blocks[parent].difficulty,
{
    let d = blocks[parent].difficulty as int;
    if is_epoch_boundary(blocks[parent].height + 1) {
        let first = blocks[ancestor(blocks, parent, (BTC_DAA_EPOCH - 1) as nat)];
        let elapsed = now - first.time;
        let span = BTC_EPOCH_SPAN as int;
        if 4 * elapsed <= span {
        } else if elapsed >= 4 * span {
        } else {
            assert(d * span / elapsed <= 4 * d) by (nonlinear_arith)
                requires
                    4 * elapsed > span,
                    span > 0,
                    d >= 0,
            {
                assert(d * span < 4 * d * elapsed + 4 * elapsed);
                vstd::arithmetic::div_mod::lemma_div_is_ordered(d * span, 4 * d * elapsed, elapsed);
            }
            assert(d / 4 <= d * span / elapsed) by (nonlinear_arith)
                requires
                    elapsed < 4 * span,
                    elapsed > 0,
                    span > 0,
                    d >= 0,
            ;
        }
    }
}

/// Ethereum's difficulty moves by at most 99 steps of `D / 2048`, where the
/// parent was mined no earlier than its own parent.
pub proof fn lemma_ethereum_retarget_bound(blocks: Seq<Block>, parent: int)
    requires
        pool_wf(blocks),
        0 <= parent < blocks.len(),
        blocks[parent].height > 0 ==> blocks[parent].time >= blocks[parent_index(
            blocks[parent],
        )].time,
    ensures
        ({
            let d = blocks[parent].difficulty as int;
            let n = ethereum_difficulty(blocks, parent) as int;
            -((d / 2048) * 99) <= n - d <= (d / 2048) * 99
        }),
{
    let p = blocks[parent];
    if p.height == 0 {
        crate::blockchain::lemma_height_zero_is_genesis(blocks, parent);
    } else {
        let gp = blocks[parent_index(p)];
        assert(link_ok(blocks, p, parent));
        let a = eth_factor(p.time - gp.time);
        let q = p.difficulty as int / 2048;
        assert(-99 <= a <= 1);
        assert(-99 * q <= q * a <= q) by (nonlinear_arith)
            requires
                -99 <= a <= 1,
                q >= 0,
        ;
    }
}

} // verus!
