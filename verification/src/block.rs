//! The raw block: a fixed-size, self-aligned region of memory, described by
//! its base address and size.  The underlying memory reservation itself is
//! performed by unverified code outside this library; this module records
//! and validates the geometry of the region and keeps its invariant.

use vstd::prelude::*;

verus! {

/// Errors from acquiring a block.
#[derive(Clone, Copy, Debug, PartialEq, Eq, Structural)]
pub enum BlockError {
    /// The requested geometry is invalid: the size (and therefore the
    /// alignment) is not a power of two, or the base address does not fit it.
    BadRequest,
    /// Insufficient memory: the underlying reservation failed.
    OOM,
}

/// Whether `n` is a power of two.
pub open spec fn is_power_of_two(n: nat) -> bool
    decreases n,
{
    if n == 0 {
        false
    } else if n == 1 {
        true
    } else if n % 2 == 1 {
        false
    } else {
        is_power_of_two(n / 2)
    }
}

/// A base address and a size describe a valid block when the address is
/// non-null, the size is a power of two, the address is self-aligned
/// (a multiple of the size), and the region does not wrap the address space.
pub open spec fn valid_block(base: usize, size: usize) -> bool {
    &&& base != 0
    &&& is_power_of_two(size as nat)
    &&& base % size == 0
    &&& base + size <= usize::MAX
}

/// A fixed-size, self-aligned region of memory: a base address and a size.
pub struct Block {
    base: usize,
    size: usize,
}

impl Block {
    /// The base address of the block.
    pub closed spec fn spec_base(self) -> usize {
        self.base
    }

    /// The size of the block in bytes.
    pub closed spec fn spec_size(self) -> usize {
        self.size
    }

    /// Every block this module hands out satisfies the block invariant.
    pub open spec fn wf(self) -> bool {
        valid_block(self.spec_base(), self.spec_size())
    }

    /// Wrap a base address and a size as an owned block descriptor.  The
    /// address must come from a reservation of `size` bytes aligned to
    /// `size`; an invalid geometry is a caller configuration error and is
    /// rejected as `BadRequest`.
    pub fn new(base: usize, size: usize) -> (r: Result<Block, BlockError>)
        ensures
            r is Ok <==> valid_block(base, size),
            match r {
                Ok(b) => b.spec_base() == base && b.spec_size() == size && b.wf(),
                Err(e) => e == BlockError::BadRequest,
            },
    {
        if base == 0 || !check_power_of_two(size) || base % size != 0 || usize::MAX - size < base {
            Err(BlockError::BadRequest)
        } else {
            Ok(Block { base, size })
        }
    }

    /// The base address, as an integer address into the underlying region.
    pub fn as_ptr(&self) -> (r: usize)
        ensures
            r == self.spec_base(),
    {
        self.base
    }

    /// The size of the block in bytes.
    pub fn size(&self) -> (r: usize)
        ensures
            r == self.spec_size(),
    {
        self.size
    }
}

/// Alignment law: every well-formed block is self-aligned, that is, its base
/// address is a multiple of its size.
pub proof fn lemma_block_self_aligned(b: Block)
    requires
        b.wf(),
    ensures
        b.spec_base() % b.spec_size() == 0,
{
}

/// Whether `n` is a power of two, decided by repeated halving.
fn check_power_of_two(n: usize) -> (r: bool)
    ensures
        r == is_power_of_two(n as nat),
{
    if n == 0 {
        return false;
    }
    let mut m: usize = n;
    while m % 2 == 0
        invariant
            m >= 1,
            is_power_of_two(n as nat) == is_power_of_two(m as nat),
        decreases m,
    {
        m = m / 2;
    }
    m == 1
}

} // verus!
