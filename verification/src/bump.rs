//! The bump allocator: a block together with its mark metadata and a bump
//! pointer.  Object storage is handed out from the current hole
//! `[cursor, limit)`; when the hole is exhausted the next one is obtained
//! from the metadata, so that allocation never bumps into a region that
//! still holds live data.

use vstd::prelude::*;

use crate::block::Block;
use crate::meta::{spec_hole, BlockMeta};
use crate::{BLOCK_SIZE, LINE_COUNT, LINE_SIZE};

verus! {

/// A block, its mark metadata, and the bump pointer state: `cursor` is the
/// next free byte offset, `limit` the end offset of the current hole.
pub struct BumpBlock {
    cursor: usize,
    limit: usize,
    block: Block,
    meta: BlockMeta,
}

/// The successful bump-allocation transition: the request fits in the hole,
/// `addr` is the address at the old cursor, the cursor advances past the
/// granted region, and nothing else changes.
pub open spec fn alloc_step(pre: BumpBlock, post: BumpBlock, size: usize, addr: usize) -> bool {
    &&& pre.wf()
    &&& pre.spec_cursor() + size <= pre.spec_limit()
    &&& addr == pre.spec_block().spec_base() + pre.spec_cursor()
    &&& post.spec_cursor() == pre.spec_cursor() + size
    &&& post.spec_limit() == pre.spec_limit()
    &&& post.spec_block() == pre.spec_block()
    &&& post.spec_meta() == pre.spec_meta()
}

impl BumpBlock {
    /// The next free byte offset within the block.
    pub closed spec fn spec_cursor(self) -> usize {
        self.cursor
    }

    /// The end offset of the current hole.
    pub closed spec fn spec_limit(self) -> usize {
        self.limit
    }

    /// The owned block.
    pub closed spec fn spec_block(self) -> Block {
        self.block
    }

    /// The owned mark metadata.
    pub closed spec fn spec_meta(self) -> BlockMeta {
        self.meta
    }

    /// The owned block has the configured size, the metadata is well formed,
    /// the bump pointer stays within `0 <= cursor <= limit <= BLOCK_SIZE`,
    /// and the hole limit is line-aligned.
    pub open spec fn wf(self) -> bool {
        &&& self.spec_block().wf()
        &&& self.spec_block().spec_size() == BLOCK_SIZE
        &&& self.spec_meta().wf()
        &&& self.spec_cursor() <= self.spec_limit() <= BLOCK_SIZE
        &&& self.spec_limit() % LINE_SIZE == 0
    }

    /// Wrap a fresh block with all-unmarked metadata: the whole block is one
    /// usable hole, so the cursor starts at 0 with the limit at `BLOCK_SIZE`.
    pub fn new(block: Block) -> (r: BumpBlock)
        requires
            block.wf(),
            block.spec_size() == BLOCK_SIZE,
        ensures
            r.wf(),
            r.spec_cursor() == 0,
            r.spec_limit() == BLOCK_SIZE,
            r.spec_block() == block,
            forall|j: int| 0 <= j < LINE_COUNT ==> !r.spec_meta().lines()[j],
            !r.spec_meta().spec_block_mark(),
    {
        BumpBlock { cursor: 0, limit: BLOCK_SIZE, block, meta: BlockMeta::new() }
    }

    /// Bump-allocate `alloc_size` bytes from the current hole.  On success
    /// the returned address is the start of the granted region and the
    /// cursor advances past it; when the request does not fit in
    /// `[cursor, limit)` the call fails and nothing changes, so the caller
    /// can refresh the hole or move on to another block.
    pub fn inner_alloc(&mut self, alloc_size: usize) -> (r: Option<usize>)
        requires
            old(self).wf(),
            alloc_size > 0,
        ensures
            final(self).wf(),
            match r {
                Some(addr) => alloc_step(*old(self), *final(self), alloc_size, addr),
                None => *final(self) == *old(self),
            },
            r is Some <==> old(self).spec_cursor() + alloc_size <= old(self).spec_limit(),
    {
        if alloc_size <= self.limit - self.cursor {
            let offset: usize = self.cursor;
            self.cursor = self.cursor + alloc_size;
            Some(self.block.as_ptr() + offset)
        } else {
            None
        }
    }

    /// Re-establish the hole bounds once the current hole is exhausted:
    /// query the metadata for the next hole at or after the cursor.  Moves
    /// `[cursor, limit)` to that hole and returns true if one exists;
    /// returns false with nothing changed when the rest of the block is
    /// exhausted.
    pub fn refresh_hole(&mut self) -> (found: bool)
        requires
            old(self).wf(),
            old(self).spec_cursor() == old(self).spec_limit(),
        ensures
            final(self).wf(),
            final(self).spec_block() == old(self).spec_block(),
            final(self).spec_meta() == old(self).spec_meta(),
            match spec_hole(old(self).spec_meta().lines(), old(self).spec_cursor() as int) {
                Some(h) => found && final(self).spec_cursor() == h.0
                    && final(self).spec_limit() == h.1
                    && old(self).spec_cursor() <= final(self).spec_cursor(),
                None => !found && *final(self) == *old(self),
            },
    {
        match self.meta.find_next_available_hole(self.cursor) {
            Some((cursor, limit)) => {
                self.cursor = cursor;
                self.limit = limit;
                true
            },
            None => false,
        }
    }

    /// After a collection has rewritten the line marks, restart allocation:
    /// reset the cursor to the first post-collection hole, if any.  Returns
    /// true when the block is usable again; returns false, with an empty
    /// hole at offset 0, when every line is still live.
    pub fn recycle(&mut self) -> (found: bool)
        requires
            old(self).wf(),
        ensures
            final(self).wf(),
            final(self).spec_block() == old(self).spec_block(),
            final(self).spec_meta() == old(self).spec_meta(),
            match spec_hole(old(self).spec_meta().lines(), 0) {
                Some(h) => found && final(self).spec_cursor() == h.0
                    && final(self).spec_limit() == h.1,
                None => !found && final(self).spec_cursor() == 0
                    && final(self).spec_limit() == 0,
            },
    {
        self.cursor = 0;
        self.limit = 0;
        self.refresh_hole()
    }

    /// Mark-phase boundary: record that `line` holds live data.
    pub fn mark_line(&mut self, line: usize)
        requires
            old(self).wf(),
            line < LINE_COUNT,
        ensures
            final(self).wf(),
            final(self).spec_meta().lines() == old(self).spec_meta().lines().update(
                line as int,
                true,
            ),
            final(self).spec_meta().spec_block_mark(),
            final(self).spec_cursor() == old(self).spec_cursor(),
            final(self).spec_limit() == old(self).spec_limit(),
            final(self).spec_block() == old(self).spec_block(),
    {
        self.meta.mark_line(line);
    }

    /// The next free byte offset within the block.
    pub fn cursor(&self) -> (r: usize)
        ensures
            r == self.spec_cursor(),
    {
        self.cursor
    }

    /// The end offset of the current hole.
    pub fn limit(&self) -> (r: usize)
        ensures
            r == self.spec_limit(),
    {
        self.limit
    }

    /// A read-only view of the mark metadata, for the heap manager.
    pub fn meta(&self) -> (r: &BlockMeta)
        ensures
            *r == self.spec_meta(),
    {
        &self.meta
    }
}

/// Monotonic bump law: two successive successful allocations from one hole
/// return strictly increasing addresses, separated by at least the size of
/// the first request.
pub proof fn lemma_monotonic_bump(
    b0: BumpBlock,
    b1: BumpBlock,
    b2: BumpBlock,
    n1: usize,
    n2: usize,
    a1: usize,
    a2: usize,
)
    requires
        alloc_step(b0, b1, n1, a1),
        alloc_step(b1, b2, n2, a2),
        n1 > 0,
    ensures
        a2 == a1 + n1,
        a1 < a2,
{
}

/// Exhaustion law: once the cursor has reached the limit, any further
/// request fails and moves nothing.
pub proof fn lemma_exhausted_hole_never_allocates(pre: BumpBlock, size: usize)
    requires
        pre.wf(),
        pre.spec_cursor() == pre.spec_limit(),
        size > 0,
    ensures
        !(pre.spec_cursor() + size <= pre.spec_limit()),
{
}

} // verus!
