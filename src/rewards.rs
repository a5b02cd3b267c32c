use vstd::prelude::*;

use crate::block::Block;
use crate::blockchain::{is_path_from_genesis, BlockId, Blockchain};
use crate::simulator::BlockchainSimulator;

verus! {

/// How many blocks of `chain` node `m` mined.
pub open spec fn count_minted(blocks: Seq<Block>, chain: Seq<BlockId>, m: int) -> nat
    decreases chain.len(),
{
    if chain.len() == 0 {
        0
    } else {
        count_minted(blocks, chain.drop_last(), m) + if blocks[chain.last().0 as int].minter.0
            == m {
            1nat
        } else {
            0nat
        }
    }
}

/// How many blocks of `chain` one of the first `num_nodes` nodes mined.
pub open spec fn count_minted_by_nodes(blocks: Seq<Block>, chain: Seq<BlockId>, num_nodes: int) -> nat
    decreases chain.len(),
{
    if chain.len() == 0 {
        0
    } else {
        count_minted_by_nodes(blocks, chain.drop_last(), num_nodes) + if blocks[chain.last().0 as int].minter.0
            < num_nodes {
            1nat
        } else {
            0nat
        }
    }
}

pub open spec fn seq_sum(s: Seq<u64>) -> int
    decreases s.len(),
{
    if s.len() == 0 {
        0
    } else {
        seq_sum(s.drop_last()) + s.last()
    }
}

proof fn lemma_seq_sum_update(s: Seq<u64>, i: int, v: u64)
    requires
        0 <= i < s.len(),
    ensures
        seq_sum(s.update(i, v)) == seq_sum(s) - s[i] + v,
    decreases s.len(),
{
    let t = s.update(i, v);
    if i == s.len() - 1 {
        assert(t.drop_last() =~= s.drop_last());
    } else {
        lemma_seq_sum_update(s.drop_last(), i, v);
        assert(t.drop_last() =~= s.drop_last().update(i, v));
    }
}

/// For each of the first `num_nodes` nodes, how many blocks of `main_chain` it mined.
pub fn reward_counts(blockchain: &Blockchain, main_chain: &Vec<BlockId>, num_nodes: usize) -> (r:
    Vec<u64>)
    requires
        forall|j: int| 0 <= j < main_chain@.len() ==> (#[trigger] main_chain@[j]).0 < blockchain.spec_blocks().len(),
    ensures
        r@.len() == num_nodes,
        forall|m: int| 0 <= m < num_nodes ==> #[trigger] r@[m] == count_minted(blockchain.spec_blocks(), main_chain@, m),
        seq_sum(r@) == count_minted_by_nodes(blockchain.spec_blocks(), main_chain@, num_nodes as int),
{
    let ghost blocks = blockchain.spec_blocks();
    let mut counts: Vec<u64> = Vec::new();
    let mut i: usize = 0;
    while i < num_nodes
        invariant
            i <= num_nodes,
            counts@.len() == i,
            forall|m: int| 0 <= m < i ==> #[trigger] counts@[m] == 0,
            seq_sum(counts@) == 0,
        decreases num_nodes - i,
    {
        proof {
            assert(counts@.push(0).drop_last() =~= counts@);
        }
        counts.push(0);
        i = i + 1;
    }
    let mut j: usize = 0;
    while j < main_chain.len()
        invariant
            j <= main_chain@.len(),
            counts@.len() == num_nodes,
            blocks == blockchain.spec_blocks(),
            forall|k: int| 0 <= k < main_chain@.len() ==> (#[trigger] main_chain@[k]).0 < blocks.len(),
            forall|m: int| 0 <= m < num_nodes ==> #[trigger] counts@[m] == count_minted(blocks, main_chain@.take(j as int), m),
            forall|m: int| 0 <= m < num_nodes ==> #[trigger] counts@[m] <= j,
            seq_sum(counts@) == count_minted_by_nodes(blocks, main_chain@.take(j as int), num_nodes as int),
        decreases main_chain@.len() - j,
    {
        let ghost prev = counts@;
        proof {
            assert(main_chain@.take(j as int + 1).drop_last() =~= main_chain@.take(j as int));
            assert(main_chain@.take(j as int + 1).last() == main_chain@[j as int]);
        }
        let minter = blockchain.get_block(main_chain[j]).unwrap().minter.0;
        if minter < num_nodes {
            let c = counts[minter];
            counts.set(minter, c + 1);
            proof {
                lemma_seq_sum_update(prev, minter as int, (c + 1) as u64);
            }
        }
        j = j + 1;
    }
    assert(main_chain@.take(j as int) =~= main_chain@);
    counts
}

/// Every block of a main chain but genesis was mined by a node of the run, so
/// the reward counts add up to its length less one, and the reward shares to one.
pub proof fn lemma_rewards_sum(sim: &BlockchainSimulator, chain: Seq<BlockId>)
    requires
        sim.wf(),
        is_path_from_genesis(sim.spec_blocks(), chain),
    ensures
        count_minted_by_nodes(sim.spec_blocks(), chain, sim.spec_nodes().len() as int) == chain.len() - 1,
    decreases chain.len(),
{
    let blocks = sim.spec_blocks();
    let n = sim.spec_nodes().len() as int;
    if chain.len() == 1 {
        assert(chain.drop_last().len() == 0);
        assert(count_minted_by_nodes(blocks, chain.drop_last(), n) == 0);
        assert(blocks[0].minter.0 == usize::MAX);
        assert(n <= usize::MAX);
    } else {
        let rest = chain.drop_last();
        assert forall|i: int| 1 <= i < rest.len() implies blocks[(#[trigger] rest[i]).0 as int].prev_block_id == Some(rest[i - 1]) by {
            assert(rest[i] == chain[i]);
        }
        assert forall|i: int| 0 <= i < rest.len() implies (#[trigger] rest[i]).0 < blocks.len() by {
            assert(rest[i] == chain[i]);
        }
        lemma_rewards_sum(sim, rest);
        let last = chain.last();
        assert(blocks[last.0 as int].prev_block_id is Some);
        assert(last.0 != 0);
        assert(blocks[last.0 as int].minter.0 < n);
    }
}

} // verus!
