use vstd::prelude::*;

use crate::block::Block;
use crate::protocol::ProtocolType;

verus! {

/// The identity of a block: its index in the pool.
#[derive(Clone, Copy, Debug, Hash, PartialEq, Eq, Structural)]
pub struct BlockId(pub usize);

impl BlockId {
    pub fn new(id: usize) -> (r: Self)
        ensures
            r.0 == id,
    {
        BlockId(id)
    }
}

/// The pool is well formed: genesis at index 0, every block stored at the
/// index of its id, and every other block one above a parent stored before it.
pub open spec fn pool_wf(blocks: Seq<Block>) -> bool {
    &&& blocks.len() >= 1
    &&& blocks[0] == Block::spec_genesis(crate::protocol::DEFAULT_DIFFICULTY)
    &&& blocks[0].height == 0
    &&& blocks[0].prev_block_id is None
    &&& forall|i: int| 0 <= i < blocks.len() ==> (#[trigger] blocks[i]).id.0 == i
    &&& forall|i: int| 0 <= i < blocks.len() ==> (#[trigger] blocks[i]).height <= i
    &&& forall|i: int|
        1 <= i < blocks.len() ==> link_ok(blocks, #[trigger] blocks[i], i)
}

/// The index of `b`'s parent, -1 for none.
pub open spec fn parent_index(b: Block) -> int {
    match b.prev_block_id {
        Some(p) => p.0 as int,
        None => -1,
    }
}

/// Block `b`, stored at `i`, has a parent stored before it, one lower.
pub open spec fn link_ok(blocks: Seq<Block>, b: Block, i: int) -> bool {
    &&& b.prev_block_id is Some
    &&& parent_index(b) < i
    &&& b.height == blocks[parent_index(b)].height + 1
}

/// `block` may be appended to `blocks`: it takes the next id and sits one
/// above a parent that is already stored.
pub open spec fn extends(blocks: Seq<Block>, block: Block) -> bool {
    &&& block.id.0 == blocks.len()
    &&& block.prev_block_id is Some
    &&& parent_index(block) < blocks.len()
    &&& block.height == blocks[parent_index(block)].height + 1
}

/// The greatest height among the mined blocks, 0 for none.
pub open spec fn max_height_of(blocks: Seq<Block>, mined: Seq<bool>) -> u64
    decreases blocks.len(),
{
    if blocks.len() == 0 {
        0
    } else {
        let rest = max_height_of(blocks.drop_last(), mined);
        if mined[blocks.len() - 1] && blocks.last().height > rest {
            blocks.last().height
        } else {
            rest
        }
    }
}

/// The mining flags fit the pool, and genesis counts as mined.
pub open spec fn mined_wf(blocks: Seq<Block>, mined: Seq<bool>) -> bool {
    &&& mined.len() == blocks.len()
    &&& mined[0]
}

/// `chain` runs from genesis, each block the parent of the next.
pub open spec fn is_path_from_genesis(blocks: Seq<Block>, chain: Seq<BlockId>) -> bool {
    &&& chain.len() >= 1
    &&& chain[0] == BlockId(0)
    &&& forall|i: int| 0 <= i < chain.len() ==> (#[trigger] chain[i]).0 < blocks.len()
    &&& forall|i: int|
        1 <= i < chain.len() ==> blocks[(#[trigger] chain[i]).0 as int].prev_block_id == Some(
            chain[i - 1],
        )
}

/// The tip of the main chain: the first mined block at the greatest height
/// that a mined block reaches.
pub open spec fn is_main_tip(blocks: Seq<Block>, mined: Seq<bool>, t: int) -> bool {
    &&& 0 <= t < blocks.len()
    &&& mined[t]
    &&& blocks[t].height == max_height_of(blocks, mined)
    &&& forall|j: int| 0 <= j < t && #[trigger] mined[j] ==> blocks[j].height < max_height_of(blocks, mined)
}

/// Every mined block is at most the greatest mined height, and some mined
/// block reaches it.
pub proof fn lemma_max_height(blocks: Seq<Block>, mined: Seq<bool>)
    requires
        blocks.len() >= 1,
        mined.len() >= blocks.len(),
        mined[0],
    ensures
        forall|i: int| 0 <= i < blocks.len() && #[trigger] mined[i] ==> blocks[i].height <= max_height_of(
            blocks,
            mined,
        ),
        exists|i: int| 0 <= i < blocks.len() && #[trigger] mined[i] && blocks[i].height == max_height_of(blocks, mined),
    decreases blocks.len(),
{
    if blocks.len() > 1 {
        let rest = blocks.drop_last();
        lemma_max_height(rest, mined);
        assert forall|i: int| 0 <= i < blocks.len() && #[trigger] mined[i] implies blocks[i].height
            <= max_height_of(blocks, mined) by {
            if i < blocks.len() - 1 {
                assert(blocks[i] == rest[i]);
            }
        }
        if mined[blocks.len() - 1] && blocks.last().height > max_height_of(rest, mined) {
            assert(blocks[blocks.len() - 1].height == max_height_of(blocks, mined));
        } else {
            let w = choose|i: int| 0 <= i < rest.len() && #[trigger] mined[i] && rest[i].height == max_height_of(rest, mined);
            assert(blocks[w] == rest[w]);
        }
    } else {
        assert(blocks.drop_last().len() == 0);
        assert(max_height_of(blocks.drop_last(), mined) == 0);
        assert(blocks[0].height == max_height_of(blocks, mined));
    }
}

/// In a well-formed pool genesis is the only block at height 0.
pub proof fn lemma_height_zero_is_genesis(blocks: Seq<Block>, i: int)
    requires
        pool_wf(blocks),
        0 <= i < blocks.len(),
        blocks[i].height == 0,
    ensures
        i == 0,
{
    if i > 0 {
        assert(link_ok(blocks, blocks[i], i));
    }
}

/// Every block is stored at the index of its id, so ids are unique and run
/// from 0 without gaps; genesis has no parent, and every other block sits
/// one above a parent stored before it.
pub proof fn lemma_pool_links(blocks: Seq<Block>, i: int)
    requires
        pool_wf(blocks),
        0 <= i < blocks.len(),
    ensures
        blocks[i].id.0 == i,
        i == 0 ==> blocks[i].prev_block_id is None && blocks[i].height == 0,
        i > 0 ==> ({
            let p = parent_index(blocks[i]);
            &&& blocks[i].prev_block_id is Some
            &&& 0 <= p < i
            &&& blocks[p].height + 1 == blocks[i].height
        }),
{
    if i > 0 {
        assert(link_ok(blocks, blocks[i], i));
    }
}

/// The pool of every block of a run, orphans included. A block is stored
/// when its mining is scheduled, and counts as mined once that completes.
pub struct Blockchain {
    blocks: Vec<Block>,
    mined: Vec<bool>,
}

impl Blockchain {
    pub closed spec fn spec_blocks(&self) -> Seq<Block> {
        self.blocks@
    }

    /// Which stored blocks have been mined.
    pub closed spec fn spec_mined(&self) -> Seq<bool> {
        self.mined@
    }

    pub open spec fn wf(&self) -> bool {
        &&& pool_wf(self.spec_blocks())
        &&& mined_wf(self.spec_blocks(), self.spec_mined())
        &&& self.spec_blocks().len() <= usize::MAX
    }

    /// A pool holding genesis alone, with the protocol's default difficulty.
    pub fn new(protocol: &ProtocolType) -> (r: Self)
        ensures
            r.wf(),
            r.spec_blocks() == seq![Block::spec_genesis(crate::protocol::DEFAULT_DIFFICULTY)],
            r.spec_mined() == seq![true],
    {
        let mut blocks: Vec<Block> = Vec::new();
        blocks.push(Block::genesis(protocol));
        let mut mined: Vec<bool> = Vec::new();
        mined.push(true);
        Blockchain { blocks, mined }
    }

    fn push_block(&mut self, block: Block, is_mined: bool)
        requires
            old(self).wf(),
            extends(old(self).spec_blocks(), block),
        ensures
            final(self).wf(),
            final(self).spec_blocks() == old(self).spec_blocks().push(block),
            final(self).spec_mined() == old(self).spec_mined().push(is_mined),
    {
        self.blocks.push(block);
        self.mined.push(is_mined);
        proof {
            let s = self.blocks@;
            let m = self.mined@;
            assert(self.blocks.len() == s.len());
            assert(s[s.len() - 1] == block);
            assert forall|i: int| 1 <= i < s.len() implies link_ok(s, #[trigger] s[i], i) by {
                if i < s.len() - 1 {
                    assert(link_ok(old(self).blocks@, old(self).blocks@[i], i));
                }
            }
        }
    }

    /// Stores a mined block whose id was taken from `next_block_id`.
    pub fn add_block(&mut self, block: Block) -> (r: BlockId)
        requires
            old(self).wf(),
            extends(old(self).spec_blocks(), block),
        ensures
            final(self).wf(),
            final(self).spec_blocks() == old(self).spec_blocks().push(block),
            final(self).spec_mined() == old(self).spec_mined().push(true),
            r == block.id,
    {
        let id = block.id;
        self.push_block(block, true);
        id
    }

    /// Stores a block whose mining is scheduled but not done.
    pub fn add_candidate(&mut self, block: Block) -> (r: BlockId)
        requires
            old(self).wf(),
            extends(old(self).spec_blocks(), block),
        ensures
            final(self).wf(),
            final(self).spec_blocks() == old(self).spec_blocks().push(block),
            final(self).spec_mined() == old(self).spec_mined().push(false),
            r == block.id,
    {
        let id = block.id;
        self.push_block(block, false);
        id
    }

    /// Records that the mining of a stored block has completed.
    pub fn mark_mined(&mut self, id: BlockId)
        requires
            old(self).wf(),
            id.0 < old(self).spec_blocks().len(),
        ensures
            final(self).wf(),
            final(self).spec_blocks() == old(self).spec_blocks(),
            final(self).spec_mined() == old(self).spec_mined().update(id.0 as int, true),
    {
        self.mined.set(id.0, true);
    }

    pub fn is_mined(&self, id: BlockId) -> (r: bool)
        requires
            self.wf(),
        ensures
            r == (id.0 < self.spec_blocks().len() && self.spec_mined()[id.0 as int]),
    {
        id.0 < self.mined.len() && self.mined[id.0]
    }

    pub fn get_block(&self, id: BlockId) -> (r: Option<&Block>)
        ensures
            id.0 < self.spec_blocks().len() ==> r == Some(&self.spec_blocks()[id.0 as int]),
            id.0 >= self.spec_blocks().len() ==> r is None,
    {
        if id.0 < self.blocks.len() {
            Some(&self.blocks[id.0])
        } else {
            None
        }
    }

    pub fn blocks(&self) -> (r: &[Block])
        ensures
            r@ == self.spec_blocks(),
    {
        self.blocks.as_slice()
    }

    pub fn len(&self) -> (r: usize)
        ensures
            r == self.spec_blocks().len(),
    {
        self.blocks.len()
    }

    /// The greatest height a mined block reaches.
    pub fn max_height(&self) -> (r: u64)
        requires
            self.wf(),
        ensures
            r == max_height_of(self.spec_blocks(), self.spec_mined()),
    {
        let mut m: u64 = 0;
        let mut i: usize = 0;
        while i < self.blocks.len()
            invariant
                i <= self.blocks@.len(),
                self.mined@.len() == self.blocks@.len(),
                m == max_height_of(self.blocks@.subrange(0, i as int), self.mined@),
            decreases self.blocks@.len() - i,
        {
            proof {
                let s = self.blocks@.subrange(0, i as int + 1);
                assert(s.drop_last() == self.blocks@.subrange(0, i as int));
            }
            if self.mined[i] && self.blocks[i].height > m {
                m = self.blocks[i].height;
            }
            i = i + 1;
        }
        assert(self.blocks@.subrange(0, i as int) == self.blocks@);
        m
    }

    /// The id that the next stored block must carry.
    pub fn next_block_id(&self) -> (r: BlockId)
        ensures
            r.0 == self.spec_blocks().len(),
    {
        BlockId(self.blocks.len())
    }

    pub fn last_block(&self) -> (r: Option<&Block>)
        ensures
            self.spec_blocks().len() > 0 ==> r == Some(&self.spec_blocks().last()),
            self.spec_blocks().len() == 0 ==> r is None,
    {
        if self.blocks.len() > 0 {
            Some(&self.blocks[self.blocks.len() - 1])
        } else {
            None
        }
    }

    /// Index of the first mined block at the greatest mined height.
    fn main_tip(&self) -> (r: usize)
        requires
            self.wf(),
        ensures
            is_main_tip(self.spec_blocks(), self.spec_mined(), r as int),
    {
        let h = self.max_height();
        proof {
            lemma_max_height(self.blocks@, self.mined@);
        }
        let mut i: usize = 0;
        while i < self.blocks.len()
            invariant
                h == max_height_of(self.blocks@, self.mined@),
                self.mined@.len() == self.blocks@.len(),
                i <= self.blocks@.len(),
                forall|j: int| 0 <= j < i && #[trigger] self.mined@[j] ==> self.blocks@[j].height < h,
                exists|k: int| i <= k < self.blocks@.len() && #[trigger] self.mined@[k] && self.blocks@[k].height == h,
                forall|j: int| 0 <= j < self.blocks@.len() && #[trigger] self.mined@[j] ==> self.blocks@[j].height <= h,
            decreases self.blocks@.len() - i,
        {
            if self.mined[i] && self.blocks[i].height == h {
                return i;
            }
            i = i + 1;
        }
        i
    }

    /// The main chain, genesis first: the path from genesis to the first
    /// mined block at the greatest mined height.
    pub fn get_main_chain(&self) -> (r: Vec<BlockId>)
        requires
            self.wf(),
        ensures
            is_path_from_genesis(self.spec_blocks(), r@),
            is_main_tip(self.spec_blocks(), self.spec_mined(), r@.last().0 as int),
            r@.len() == max_height_of(self.spec_blocks(), self.spec_mined()) + 1,
    {
        let tip = self.main_tip();
        let h = self.blocks[tip].height;
        let ghost s = self.blocks@;
        let ghost mi = self.mined@;
        assert(s[tip as int].height <= tip);
        assert(h == s[tip as int].height);
        let hu: usize = h as usize;
        let n: usize = self.blocks.len();
        assert(hu < n);
        let len: usize = hu + 1;
        let mut chain: Vec<BlockId> = Vec::new();
        let mut k: usize = 0;
        while k < len
            invariant
                k <= len,
                chain@.len() == k,
                forall|j: int| 0 <= j < k ==> chain@[j] == BlockId(0),
            decreases len - k,
        {
            chain.push(BlockId(0));
            k = k + 1;
        }
        let mut cur: usize = tip;
        let mut cur_h: usize = h as usize;
        chain.set(cur_h, BlockId(cur));
        while cur_h > 0
            invariant
                pool_wf(s),
                mined_wf(s, mi),
                s == self.blocks@,
                mi == self.mined@,
                chain@.len() == len,
                len == h + 1,
                cur < s.len(),
                cur_h < len,
                s[cur as int].height == cur_h,
                chain@[cur_h as int] == BlockId(cur),
                chain@[len - 1] == BlockId(tip),
                is_main_tip(s, mi, tip as int),
                forall|j: int| cur_h <= j < len ==> (#[trigger] chain@[j]).0 < s.len(),
                forall|j: int|
                    cur_h < j < len ==> s[(#[trigger] chain@[j]).0 as int].prev_block_id == Some(
                        chain@[j - 1],
                    ),
            decreases cur_h,
        {
            proof {
                if cur == 0 {
                    assert(s[0].height == 0);
                }
                assert(link_ok(s, s[cur as int], cur as int));
            }
            let prev = self.blocks[cur].prev_block_id.unwrap();
            cur = prev.0;
            cur_h = cur_h - 1;
            chain.set(cur_h, prev);
        }
        proof {
            lemma_height_zero_is_genesis(s, cur as int);
        }
        chain
    }
}

} // verus!
