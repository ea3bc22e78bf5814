//! Byte spans within one backing allocation, and alignment padding.

use vstd::prelude::*;

verus! {

/// A contiguous byte span `[offset, offset + size)` within one backing
/// allocation. A pure value with no identity of its own.
#[derive(Clone, Copy, PartialEq, Eq, Structural, Debug)]
pub struct MemoryRegion {
    pub offset: u64,
    pub size: u64,
}

impl MemoryRegion {
    /// One past the last byte of the span.
    pub open spec fn end(self) -> int {
        self.offset + self.size
    }

    /// The span lies within the first `total` bytes of its allocation.
    pub open spec fn within(self, total: u64) -> bool {
        self.offset + self.size <= total
    }

    /// The two spans share no byte.
    pub open spec fn disjoint(self, other: Self) -> bool {
        self.end() <= other.offset || other.end() <= self.offset
    }
}

/// How many bytes must be skipped past `addr` to reach the next
/// `alignment`-aligned address; zero when `alignment` is zero.
pub open spec fn spec_padding(addr: u64, alignment: u64) -> int {
    if alignment == 0 {
        0
    } else {
        let a = alignment as int;
        (a - (addr as int) % a) % a
    }
}

/// `addr + spec_padding(addr, alignment)` is divisible by the alignment.
pub proof fn lemma_padding_aligns(addr: u64, alignment: u64)
    requires
        alignment > 0,
    ensures
        (addr + spec_padding(addr, alignment)) % (alignment as int) == 0,
        0 <= spec_padding(addr, alignment) < alignment,
{
    let a = alignment as int;
    let r = (addr as int) % a;
    let pad = spec_padding(addr, alignment);
    assert(pad == (a - r) % a);
    assert((addr + pad) % a == 0 && 0 <= pad < a) by (nonlinear_arith)
        requires
            a > 0,
            r == (addr as int) % a,
            pad == (a - r) % a,
    {
    }
}

/// Alignment padding: `(alignment - addr % alignment) % alignment`,
/// defined as zero when `alignment` is zero.
pub fn padding(addr: u64, alignment: u64) -> (pad: u64)
    ensures
        pad == spec_padding(addr, alignment),
        alignment > 0 ==> (addr + pad) % (alignment as int) == 0,
        pad <= alignment,
{
    if alignment != 0 {
        let pad = (alignment - addr % alignment) % alignment;
        proof {
            lemma_padding_aligns(addr, alignment);
        }
        pad
    } else {
        0
    }
}

} // verus!
