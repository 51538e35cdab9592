//! Fixed-block-size allocator with free-list reuse and lazy growth.
//!
//! The pool owns a byte arena carved into equally sized blocks.  A block is
//! named by its byte offset into the arena; the free list is a stack of
//! offsets, so allocation is LIFO: the block most recently given back is the
//! next one handed out.  When the free list is empty, the arena grows by a
//! fixed number of blocks.  The block size is rounded up to a multiple of the
//! machine word, so every offset the pool hands out is word-aligned.
//!
//! A ghost set tracks the offsets currently held by callers: an offset is
//! handed out only if no caller holds it, and only a held offset may be given
//! back, which rules out double frees.

use vstd::prelude::*;

verus! {

/// Natural alignment of a machine word; every block offset is a multiple.
pub const WORD_SIZE: usize = 8;

/// Number of blocks added when the free list runs dry.
pub const GROWTH_BLOCKS: usize = 100;

/// The block size actually used for a requested size: at least one word,
/// rounded up to a whole number of words.
pub open spec fn spec_rounded_block_size(block_size: usize) -> int {
    if block_size <= WORD_SIZE {
        WORD_SIZE as int
    } else if block_size % WORD_SIZE == 0 {
        block_size as int
    } else {
        block_size - (block_size % WORD_SIZE) + WORD_SIZE
    }
}

pub struct MemoryPool {
    block_size: usize,
    arena: Vec<u8>,
    free_list: Vec<usize>,
    outstanding: Ghost<Set<usize>>,
}

impl MemoryPool {
    /// Bytes per block.
    pub closed spec fn spec_block_size(self) -> usize {
        self.block_size
    }

    /// The backing storage, as bytes.
    pub closed spec fn spec_arena(self) -> Seq<u8> {
        self.arena@
    }

    /// Offsets of the free blocks; the last entry is the stack top.
    pub closed spec fn spec_free(self) -> Seq<usize> {
        self.free_list@
    }

    /// Offsets currently held by callers.
    pub closed spec fn spec_outstanding(self) -> Set<usize> {
        self.outstanding@
    }

    /// `o` names a whole, word-aligned block inside the arena.
    pub open spec fn block_ok(self, o: usize) -> bool {
        &&& o % WORD_SIZE == 0
        &&& o + self.spec_block_size() <= self.spec_arena().len()
    }

    /// Every reachable pool state satisfies this.
    pub open spec fn wf(self) -> bool {
        &&& WORD_SIZE <= self.spec_block_size()
        &&& self.spec_block_size() % WORD_SIZE == 0
        &&& (self.spec_arena().len() as int) % (WORD_SIZE as int) == 0
        &&& self.spec_free().no_duplicates()
        &&& (forall|j: int|
            0 <= j < self.spec_free().len() ==> self.block_ok(#[trigger] self.spec_free()[j]))
        &&& (forall|o: usize| #[trigger] self.spec_outstanding().contains(o) ==> self.block_ok(o))
        &&& (forall|j: int|
            0 <= j < self.spec_free().len() ==> !self.spec_outstanding().contains(
                #[trigger] self.spec_free()[j],
            ))
        &&& self.spec_outstanding().finite()
    }

    /// Relation between the pool before and after `allocate` returned `r`.
    pub open spec fn alloc_post(pre: Self, post: Self, r: usize) -> bool {
        &&& post.spec_block_size() == pre.spec_block_size()
        &&& r % WORD_SIZE == 0
        &&& r + post.spec_block_size() <= post.spec_arena().len()
        &&& !pre.spec_outstanding().contains(r)
        &&& post.spec_outstanding() == pre.spec_outstanding().insert(r)
        &&& !post.spec_free().contains(r)
        &&& (pre.spec_free().len() > 0 ==> {
            &&& r == pre.spec_free().last()
            &&& post.spec_free() == pre.spec_free().drop_last()
            &&& post.spec_arena() == pre.spec_arena()
        })
        &&& (pre.spec_free().len() == 0 ==> {
            &&& r >= pre.spec_arena().len()
            &&& post.spec_free().len() == GROWTH_BLOCKS - 1
            &&& post.spec_arena().len() == pre.spec_arena().len() + GROWTH_BLOCKS
                * pre.spec_block_size()
            &&& post.spec_arena().subrange(0, pre.spec_arena().len() as int) == pre.spec_arena()
        })
    }

    /// Relation between the pool before and after `deallocate(ptr)`.
    pub open spec fn dealloc_post(pre: Self, post: Self, ptr: usize) -> bool {
        &&& post.spec_block_size() == pre.spec_block_size()
        &&& post.spec_arena() == pre.spec_arena()
        &&& post.spec_free() == pre.spec_free().push(ptr)
        &&& post.spec_outstanding() == pre.spec_outstanding().remove(ptr)
    }

    /// Rounds the block size up to at least one word, allocates one chunk of
    /// `initial_blocks` blocks and links them all onto the free list.
    pub fn new(block_size: usize, initial_blocks: usize) -> (p: MemoryPool)
        requires
            block_size <= usize::MAX - WORD_SIZE,
            spec_rounded_block_size(block_size) * initial_blocks <= usize::MAX,
        ensures
            p.wf(),
            p.spec_block_size() == spec_rounded_block_size(block_size),
            p.spec_free().len() == initial_blocks,
            p.spec_arena().len() == p.spec_block_size() * initial_blocks,
            p.spec_outstanding() == Set::<usize>::empty(),
    {
        let rem = block_size % WORD_SIZE;
        let bs = if block_size <= WORD_SIZE {
            WORD_SIZE
        } else if rem == 0 {
            block_size
        } else {
            block_size - rem + WORD_SIZE
        };
        let mut p = MemoryPool {
            block_size: bs,
            arena: Vec::new(),
            free_list: Vec::new(),
            outstanding: Ghost(Set::empty()),
        };
        proof {
            assert(bs == spec_rounded_block_size(block_size));
            assert(initial_blocks * bs == bs * initial_blocks) by (nonlinear_arith);
        }
        p.grow(initial_blocks);
        proof {
            assert(initial_blocks * bs == bs * initial_blocks) by (nonlinear_arith);
        }
        p
    }

    /// Extends the arena by `blocks` zeroed blocks and pushes their offsets,
    /// in ascending order, onto the free list.
    fn grow(&mut self, blocks: usize)
        requires
            old(self).wf(),
            old(self).spec_arena().len() + blocks * old(self).spec_block_size() <= usize::MAX,
        ensures
            final(self).wf(),
            final(self).spec_block_size() == old(self).spec_block_size(),
            final(self).spec_outstanding() == old(self).spec_outstanding(),
            final(self).spec_arena().len() == old(self).spec_arena().len() + blocks * old(
                self,
            ).spec_block_size(),
            final(self).spec_arena().subrange(0, old(self).spec_arena().len() as int) == old(
                self,
            ).spec_arena(),
            final(self).spec_free().len() == old(self).spec_free().len() + blocks,
            final(self).spec_free().subrange(0, old(self).spec_free().len() as int) == old(
                self,
            ).spec_free(),
            forall|j: int|
                old(self).spec_free().len() <= j < final(self).spec_free().len() ==> (
                #[trigger] final(self).spec_free()[j]) >= old(self).spec_arena().len(),
    {
        let bs = self.block_size;
        let bytes = blocks * bs;
        let old_len = self.arena.len();
        let new_len = old_len + bytes;
        proof {
            let w = WORD_SIZE as int;
            let k = (bs as int) / w;
            vstd::arithmetic::div_mod::lemma_fundamental_div_mod(bs as int, w);
            assert(bs == w * k);
            assert((blocks as int) * (bs as int) == ((blocks as int) * k) * w) by (nonlinear_arith)
                requires
                    bs == w * k,
            ;
            vstd::arithmetic::div_mod::lemma_mod_multiples_basic((blocks as int) * k, w);
        }
        self.arena.resize(new_len, 0u8);
        let ghost old_free = self.free_list@;
        let mut off: usize = old_len;
        let mut i: usize = 0;
        proof {
            assert(forall|j: int|
                0 <= j < old_free.len() ==> (#[trigger] old_free[j]) + bs <= old_len);
        }
        while i < blocks
            invariant
                i <= blocks,
                bs == self.spec_block_size(),
                WORD_SIZE <= bs,
                bs % WORD_SIZE == 0,
                old_len % WORD_SIZE == 0,
                off % WORD_SIZE == 0,
                old_len <= off,
                off + (blocks - i) * bs == new_len,
                self.spec_arena().len() == new_len,
                (new_len as int) % (WORD_SIZE as int) == 0,
                self.spec_arena().subrange(0, old_len as int) == old(self).spec_arena(),
                self.spec_outstanding() == old(self).spec_outstanding(),
                self.spec_free().len() == old_free.len() + i,
                self.spec_free().subrange(0, old_free.len() as int) == old_free,
                forall|j: int|
                    0 <= j < self.spec_free().len() ==> (#[trigger] self.spec_free()[j]) + bs
                        <= off,
                forall|j: int|
                    old_free.len() <= j < self.spec_free().len() ==> (
                    #[trigger] self.spec_free()[j]) >= old_len,
                self.spec_free().no_duplicates(),
                forall|j: int|
                    0 <= j < self.spec_free().len() ==> (#[trigger] self.spec_free()[j])
                        % WORD_SIZE == 0,
                forall|j: int|
                    0 <= j < self.spec_free().len() ==> !self.spec_outstanding().contains(
                        #[trigger] self.spec_free()[j],
                    ),
                forall|o: usize| #[trigger]
                    self.spec_outstanding().contains(o) ==> o % WORD_SIZE == 0 && o + bs
                        <= old_len,
                self.spec_outstanding().finite(),
            decreases blocks - i,
        {
            proof {
                assert((blocks - i) * bs == bs + (blocks - i - 1) * bs) by (nonlinear_arith);
                assert((blocks - i - 1) * bs >= 0) by (nonlinear_arith)
                    requires
                        i < blocks,
                        bs >= 0,
                ;
            }
            let ghost prev_free = self.free_list@;
            self.free_list.push(off);
            proof {
                assert(self.spec_free().drop_last() == prev_free);
                assert(forall|j: int|
                    0 <= j < prev_free.len() ==> (#[trigger] prev_free[j]) != off);
                assert(self.spec_free().subrange(0, old_free.len() as int) =~= old_free);
            }
            off = off + bs;
            i = i + 1;
        }
        proof {
            assert((blocks - i) * bs == 0) by (nonlinear_arith)
                requires
                    i == blocks,
            ;
            assert(self.spec_free().subrange(0, old_free.len() as int) =~= old_free);
        }
    }

    /// Pops one block from the free list, growing the pool first if the list
    /// is empty.  The offset returned is word-aligned, names a whole block,
    /// and is held by no other caller; if the free list was non-empty, it is
    /// exactly the most recently freed block.
    pub fn allocate(&mut self) -> (r: usize)
        requires
            old(self).wf(),
            old(self).spec_free().len() > 0 || old(self).spec_arena().len() + GROWTH_BLOCKS * old(
                self,
            ).spec_block_size() <= usize::MAX,
        ensures
            final(self).wf(),
            Self::alloc_post(*old(self), *final(self), r),
    {
        if self.free_list.len() == 0 {
            self.grow(GROWTH_BLOCKS);
        }
        let ghost pre_pop = self.free_list@;
        let r = self.free_list.pop().unwrap();
        proof {
            assert(pre_pop.no_duplicates());
            assert(forall|j: int|
                0 <= j < pre_pop.len() - 1 ==> (#[trigger] pre_pop[j]) != pre_pop.last());
            assert(!self.spec_free().contains(r));
        }
        self.outstanding = Ghost(self.outstanding@.insert(r));
        r
    }

    /// Pushes a block the caller holds back onto the free list, making it the
    /// next block `allocate` will return.  Only a held block may be given
    /// back, so a block cannot be freed twice.
    pub fn deallocate(&mut self, ptr: usize)
        requires
            old(self).wf(),
            old(self).spec_outstanding().contains(ptr),
        ensures
            final(self).wf(),
            Self::dealloc_post(*old(self), *final(self), ptr),
    {
        self.free_list.push(ptr);
        self.outstanding = Ghost(self.outstanding@.remove(ptr));
        proof {
            assert(self.spec_free().drop_last() == old(self).spec_free());
            assert(forall|j: int|
                0 <= j < old(self).spec_free().len() ==> (#[trigger] old(self).spec_free()[j])
                    != ptr);
        }
    }

    /// Bytes per block, after rounding.
    pub fn block_size(&self) -> (s: usize)
        ensures
            s == self.spec_block_size(),
    {
        self.block_size
    }

    /// Number of blocks on the free list.
    pub fn free_count(&self) -> (n: usize)
        ensures
            n == self.spec_free().len(),
    {
        self.free_list.len()
    }

    /// Bytes of backing storage carved so far.
    pub fn arena_len(&self) -> (n: usize)
        ensures
            n == self.spec_arena().len(),
    {
        self.arena.len()
    }

    /// Reads one byte of the arena.
    pub fn read_byte(&self, i: usize) -> (b: u8)
        requires
            i < self.spec_arena().len(),
        ensures
            b == self.spec_arena()[i as int],
    {
        self.arena[i]
    }

    /// Writes one byte of the arena; the bookkeeping is untouched.
    pub fn write_byte(&mut self, i: usize, b: u8)
        requires
            i < old(self).spec_arena().len(),
        ensures
            final(self).spec_arena() == old(self).spec_arena().update(i as int, b),
            final(self).spec_block_size() == old(self).spec_block_size(),
            final(self).spec_free() == old(self).spec_free(),
            final(self).spec_outstanding() == old(self).spec_outstanding(),
            old(self).wf() ==> final(self).wf(),
    {
        self.arena[i] = b;
    }
}

/// With a non-empty free list, allocation pops the stack top: the block
/// handed out is the most recently freed one.
pub proof fn lemma_allocate_lifo(pre: MemoryPool, post: MemoryPool, r: usize)
    requires
        pre.wf(),
        pre.spec_free().len() > 0,
        MemoryPool::alloc_post(pre, post, r),
    ensures
        r == pre.spec_free().last(),
{
}

/// Freeing a block and then allocating returns that very block.
pub proof fn lemma_reuse_most_recent(
    pre: MemoryPool,
    mid: MemoryPool,
    post: MemoryPool,
    ptr: usize,
    r: usize,
)
    requires
        pre.wf(),
        MemoryPool::dealloc_post(pre, mid, ptr),
        MemoryPool::alloc_post(mid, post, r),
    ensures
        r == ptr,
{
    assert(mid.spec_free().len() > 0);
    assert(mid.spec_free().last() == ptr);
}

/// Two allocations with no intervening free return distinct blocks: no two
/// holders ever share a block.
pub proof fn lemma_allocate_unique(
    pre: MemoryPool,
    mid: MemoryPool,
    post: MemoryPool,
    r1: usize,
    r2: usize,
)
    requires
        pre.wf(),
        MemoryPool::alloc_post(pre, mid, r1),
        MemoryPool::alloc_post(mid, post, r2),
    ensures
        r1 != r2,
{
    assert(mid.spec_outstanding().contains(r1));
}

/// Every block the pool hands out is aligned to the machine word.
pub proof fn lemma_allocate_aligned(pre: MemoryPool, post: MemoryPool, r: usize)
    requires
        pre.wf(),
        MemoryPool::alloc_post(pre, post, r),
    ensures
        r % WORD_SIZE == 0,
{
}

} // verus!
