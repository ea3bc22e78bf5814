//! The sub-allocator core: arenas of free regions, pools per memory kind,
//! and the two-pool allocator that routes and validates requests.
//!
//! One arena owns one backing device-memory object and keeps an ordered,
//! pairwise-disjoint list of free regions inside it. A pool owns all arenas
//! of one memory kind and tries them in creation order, first fit. The
//! allocator owns two pools (device-local and host-visible), each bound at
//! construction to one memory-type index chosen by exact property-flag
//! equality.
//!
//! Creating, mapping and releasing the backing objects is the platform
//! layer's work: when no existing arena fits, `allocate` hands back an
//! [`ArenaRequest`]; the caller performs the backing allocation and returns
//! the handle (and, for host-visible memory, the mapped base address) through
//! [`VkAllocator::allocate_with_arena`]. All bookkeeping decisions are made
//! and verified here.

use vstd::prelude::*;

use crate::region::{MemoryRegion, padding, spec_padding, lemma_padding_aligns};

verus! {

/// Minimum size of one device-local backing allocation: 16 MiB.
pub const MIN_DEVICE_VK_MEM_SIZE: u64 = 16 * 1024 * 1024;

/// Minimum size of one host-visible backing allocation: 4 MiB.
pub const MIN_HOST_VK_MEM_SIZE: u64 = 4 * 1024 * 1024;

/// The Vulkan `DEVICE_LOCAL` memory property flag bit.
pub const DEVICE_MEMORY_FLAGS: u32 = 0x1;

/// The Vulkan `HOST_VISIBLE` (0x2), `HOST_COHERENT` (0x4) and `HOST_CACHED`
/// (0x8) memory property flag bits combined.
pub const HOST_MEMORY_FLAGS: u32 = 0xe;

/// Relies on erupt's `vk::DeviceMemory`: an opaque, copyable Vulkan handle
/// naming one backing device-memory object. This library only stores and
/// hands back such handles; it never inspects them.
#[verifier::external_type_specification]
#[verifier::external_body]
pub struct ExDeviceMemory(erupt::vk::DeviceMemory);

/// The semantic memory kind a request is served from. Each kind is bound to
/// exactly one concrete memory-type index at allocator construction.
#[derive(Clone, Copy, Debug, PartialEq, Eq, Structural)]
pub enum MemoryType {
    /// Fast memory local to the device, not mappable by the host.
    Device,
    /// Memory the host can map and write directly.
    Host,
}

/// Why construction or an allocation request failed.
#[derive(Clone, Copy, Debug, PartialEq, Eq, Structural)]
pub enum AllocError {
    /// No memory type in the platform's property table matches the wanted
    /// property flags exactly. Fatal at construction; nothing is built.
    NoSuitableMemoryType,
    /// The request's compatible-type bitmask excludes the memory-type index
    /// the pool is bound to. Per-call; no state is touched.
    IncompatibleMemoryType,
    /// The platform refused to create a new backing allocation object.
    /// Raised by the platform layer, never by the bookkeeping itself.
    AllocationFailed,
}

impl AllocError {
    /// The description `message` returns for each error.
    pub open spec fn spec_message(self) -> Seq<char> {
        match self {
            AllocError::NoSuitableMemoryType => "no exactly matching memory type"@,
            AllocError::IncompatibleMemoryType => "allocation incompatible with the pool's memory type"@,
            AllocError::AllocationFailed => "failed to allocate backing device memory"@,
        }
    }

    /// A short description of the error.
    pub fn message(&self) -> (m: &'static str)
        ensures
            m@ == self.spec_message(),
    {
        match self {
            AllocError::NoSuitableMemoryType => "no exactly matching memory type",
            AllocError::IncompatibleMemoryType => "allocation incompatible with the pool's memory type",
            AllocError::AllocationFailed => "failed to allocate backing device memory",
        }
    }
}

/// Per-request memory requirements as the resource-creation collaborator
/// reports them after creating the real resource object.
#[derive(Clone, Copy, Debug, PartialEq, Eq, Structural)]
pub struct MemoryRequirements {
    /// Bytes the resource needs.
    pub size: u64,
    /// Required alignment of the span's start; zero means unconstrained.
    pub alignment: u64,
    /// Bitmask with bit `i` set when memory-type index `i` can back the
    /// resource.
    pub memory_type_bits: u32,
}

/// Identifies the arena a block was carved from, so that `free` can route
/// back without searching: the memory kind plus the arena's index in its
/// pool.
#[derive(Clone, Copy, Debug, PartialEq, Eq, Structural)]
struct BlockSource {
    mem_type: MemoryType,
    idx: usize,
}

/// An allocated span handed to the caller: the backing-allocation handle,
/// the consumed region, the alignment padding inside it, and an optional
/// mapped address. A block is created exactly once by an allocation and
/// consumed exactly once by `free`.
///
/// The recorded region is the whole consumed span, padding included, while
/// `offset` points past the padding to the usable bytes. This is a
/// deliberate choice: `free` then returns exactly the bytes the allocation
/// consumed, no more (which would overlap a neighbour) and no fewer (which
/// would leak the padding as permanent fragmentation), and the disjointness
/// invariant holds for the recorded spans themselves.
pub struct MemoryBlock {
    mem: erupt::vk::DeviceMemory,
    region: MemoryRegion,
    align_pad: u64,
    addr: Option<u64>,
    source: BlockSource,
}

impl MemoryBlock {
    /// The handle of the backing allocation the block lives in.
    pub closed spec fn spec_mem(self) -> erupt::vk::DeviceMemory {
        self.mem
    }

    /// The consumed span: alignment padding first, then the usable bytes.
    /// This is the unit of free-list bookkeeping, so releasing the block
    /// returns the padding too.
    pub closed spec fn region(self) -> MemoryRegion {
        self.region
    }

    /// Bytes at the start of `region` skipped to align the usable span.
    pub closed spec fn align_pad(self) -> u64 {
        self.align_pad
    }

    /// The mapped address of the usable span, when the arena is mapped.
    pub closed spec fn spec_addr(self) -> Option<u64> {
        self.addr
    }

    /// The memory kind of the pool the block came from.
    pub closed spec fn source_type(self) -> MemoryType {
        self.source.mem_type
    }

    /// The index of the block's arena within its pool.
    pub closed spec fn source_idx(self) -> int {
        self.source.idx as int
    }

    /// Start of the usable span within the backing allocation.
    pub open spec fn spec_offset(self) -> int {
        self.region().offset + self.align_pad()
    }

    /// The padding fits inside the consumed span, and the span's end fits
    /// in a byte offset.
    pub open spec fn wf(self) -> bool {
        &&& self.align_pad() <= self.region().size
        &&& self.region().end() <= u64::MAX
    }

    /// The handle of the backing allocation, for binding the real resource.
    pub fn mem(&self) -> (m: erupt::vk::DeviceMemory)
        ensures
            m == self.spec_mem(),
    {
        self.mem
    }

    /// The mapped address of the usable span, when the arena is mapped; the
    /// platform layer turns it back into a pointer to write data.
    pub fn ptr(&self) -> (p: Option<u64>)
        ensures
            p == self.spec_addr(),
    {
        self.addr
    }

    /// Offset of the usable span within the backing allocation, for binding
    /// the real resource.
    pub fn offset(&self) -> (o: u64)
        requires
            self.wf(),
        ensures
            o == self.spec_offset(),
    {
        self.region.offset + self.align_pad
    }
}

/// `size` bytes at alignment `alignment` fit in the free region `r`,
/// padding included.
pub open spec fn region_fits(r: MemoryRegion, size: u64, alignment: u64) -> bool {
    spec_padding(r.offset, alignment) + size <= r.size
}

/// Some region of the free list fits `size` bytes at alignment `alignment`.
pub open spec fn can_fit(free: Seq<MemoryRegion>, size: u64, alignment: u64) -> bool {
    exists|i: int| 0 <= i < free.len() && region_fits(#[trigger] free[i], size, alignment)
}

/// `i` is the index of the first region of the free list that fits:
/// first-fit picks it even when a later region fits more snugly.
pub open spec fn is_first_fit(free: Seq<MemoryRegion>, size: u64, alignment: u64, i: int) -> bool {
    &&& 0 <= i < free.len()
    &&& region_fits(free[i], size, alignment)
    &&& forall|j: int| 0 <= j < i ==> !region_fits(#[trigger] free[j], size, alignment)
}

/// The free list after carving `consumed` bytes from the front of region
/// `i`: the region disappears on an exact fit and shrinks otherwise.
pub open spec fn free_list_after_take(free: Seq<MemoryRegion>, i: int, consumed: int) -> Seq<MemoryRegion> {
    if consumed == free[i].size {
        free.remove(i)
    } else {
        free.update(
            i,
            MemoryRegion { offset: (free[i].offset + consumed) as u64, size: (free[i].size - consumed) as u64 },
        )
    }
}

/// `i` is the index of the first free region that starts at or past `end`.
pub open spec fn is_first_following(free: Seq<MemoryRegion>, end: int, i: int) -> bool {
    &&& 0 <= i < free.len()
    &&& free[i].offset >= end
    &&& forall|j: int| 0 <= j < i ==> (#[trigger] free[j]).offset < end
}

/// The free list after the span `region` returns to it: merged forward into
/// the first following region when that region starts exactly at the span's
/// end, inserted before it otherwise, and appended when nothing follows.
/// A span contiguous with a *preceding* free region is never merged into it.
pub open spec fn free_list_after_give(free: Seq<MemoryRegion>, region: MemoryRegion) -> Seq<MemoryRegion> {
    let end = region.end();
    if exists|i: int| is_first_following(free, end, i) {
        let i = choose|i: int| is_first_following(free, end, i);
        if free[i].offset == end {
            free.update(i, MemoryRegion { offset: region.offset, size: (region.size + free[i].size) as u64 })
        } else {
            free.insert(i, region)
        }
    } else {
        free.push(region)
    }
}

/// At most one index is the first following one.
pub proof fn lemma_first_following_unique(free: Seq<MemoryRegion>, end: int, i1: int, i2: int)
    requires
        is_first_following(free, end, i1),
        is_first_following(free, end, i2),
    ensures
        i1 == i2,
{
    if i1 < i2 {
        assert(free[i1].offset < end);
    }
    if i2 < i1 {
        assert(free[i2].offset < end);
    }
}

/// One backing allocation object together with its internal free-space
/// bookkeeping: the handle, the fixed total size, an ordered list of free
/// regions, and (for mapped arenas) the mapped base address. The set of
/// spans currently handed out is tracked in ghost state.
pub struct VkMemory {
    mem: erupt::vk::DeviceMemory,
    free_regions: Vec<MemoryRegion>,
    base_addr: Option<u64>,
    size: u64,
    allocated: Ghost<Set<MemoryRegion>>,
}

impl VkMemory {
    /// The handle of the arena's backing allocation object.
    pub closed spec fn spec_mem(self) -> erupt::vk::DeviceMemory {
        self.mem
    }

    /// The free regions, ordered by ascending offset.
    pub closed spec fn free_list(self) -> Seq<MemoryRegion> {
        self.free_regions@
    }

    /// The mapped base address of the whole arena, when mapped.
    pub closed spec fn spec_base_addr(self) -> Option<u64> {
        self.base_addr
    }

    /// Total size in bytes of the backing allocation, fixed at creation.
    pub closed spec fn total_size(self) -> u64 {
        self.size
    }

    /// The consumed spans currently handed out and not yet returned.
    pub closed spec fn allocated_set(self) -> Set<MemoryRegion> {
        self.allocated@
    }

    /// The arena is host-mapped.
    pub open spec fn mapped(self) -> bool {
        self.spec_base_addr() is Some
    }

    /// Free regions are sorted by offset and do not touch: each ends at or
    /// before the next begins.
    pub open spec fn free_list_ordered(self) -> bool {
        forall|i: int, j: int|
            #![trigger self.free_list()[i], self.free_list()[j]]
            0 <= i < j < self.free_list().len() ==> self.free_list()[i].end() <= self.free_list()[j].offset
    }

    /// Every free region is non-empty and lies within the arena.
    pub open spec fn free_regions_wf(self) -> bool {
        forall|i: int|
            0 <= i < self.free_list().len() ==> (#[trigger] self.free_list()[i]).size > 0
                && self.free_list()[i].within(self.total_size())
    }

    /// Every handed-out span is non-empty and lies within the arena.
    pub open spec fn allocated_wf(self) -> bool {
        forall|r: MemoryRegion|
            #[trigger] self.allocated_set().contains(r) ==> r.size > 0 && r.within(self.total_size())
    }

    /// No two distinct handed-out spans share a byte.
    pub open spec fn allocated_disjoint(self) -> bool {
        forall|r1: MemoryRegion, r2: MemoryRegion|
            #![trigger self.allocated_set().contains(r1), self.allocated_set().contains(r2)]
            self.allocated_set().contains(r1) && self.allocated_set().contains(r2) && r1 != r2
                ==> r1.disjoint(r2)
    }

    /// No free region shares a byte with any handed-out span.
    pub open spec fn free_allocated_disjoint(self) -> bool {
        forall|i: int, r: MemoryRegion|
            #![trigger self.free_list()[i].disjoint(r)]
            0 <= i < self.free_list().len() && self.allocated_set().contains(r)
                ==> self.free_list()[i].disjoint(r)
    }

    /// A mapped arena's base address plus its size stays addressable.
    pub open spec fn base_addr_wf(self) -> bool {
        match self.spec_base_addr() {
            Some(base) => base + self.total_size() <= u64::MAX,
            None => true,
        }
    }

    /// The arena invariant: holds after construction and after every
    /// `alloc` and `free`. Its disjointness clauses are the memory-safety
    /// heart of the whole sub-allocator.
    pub open spec fn inv(self) -> bool {
        &&& self.free_list_ordered()
        &&& self.free_regions_wf()
        &&& self.allocated_wf()
        &&& self.allocated_disjoint()
        &&& self.free_allocated_disjoint()
        &&& self.base_addr_wf()
    }

    /// Ordered, non-touching free regions are pairwise disjoint.
    pub proof fn lemma_free_list_disjoint(self, i: int, j: int)
        requires
            self.free_list_ordered(),
            0 <= i < self.free_list().len(),
            0 <= j < self.free_list().len(),
            i != j,
        ensures
            self.free_list()[i].disjoint(self.free_list()[j]),
    {
    }

    /// Scan the free regions in order and serve the request from the first
    /// one that fits, padding included: shrink the region from the front, or
    /// drop it on an exact fit. `None` when no region fits; the pool then
    /// has to create a new arena. First fit is the deliberate policy: lower
    /// search cost is preferred over tighter packing. A request spans at
    /// least one byte, as the graphics API's reported requirement sizes
    /// always do.
    pub fn allocate(&mut self, size: u64, alignment: u64, mem_type: MemoryType, idx: usize) -> (r: Option<
        MemoryBlock,
    >)
        requires
            old(self).inv(),
            size >= 1,
        ensures
            final(self).inv(),
            match r {
                None => {
                    &&& *final(self) == *old(self)
                    &&& !can_fit(old(self).free_list(), size, alignment)
                },
                Some(b) => arena_alloc_block_post(
                    *old(self),
                    *final(self),
                    b,
                    size,
                    alignment,
                    mem_type,
                    idx as int,
                ),
            },
    {
        let n = self.free_regions.len();
        let mut k: usize = 0;
        while k < n
            invariant
                *self == *old(self),
                self.inv(),
                size >= 1,
                n == self.free_regions.len(),
                k <= n,
                forall|j: int| 0 <= j < k ==> !region_fits(#[trigger] self.free_list()[j], size, alignment),
            decreases n - k,
        {
            let region = self.free_regions[k];
            let pad = padding(region.offset, alignment);
            if pad <= region.size && size <= region.size - pad {
                let ghost pre = *self;
                proof {
                    assert(region_fits(region, size, alignment));
                    assert(is_first_fit(pre.free_list(), size, alignment, k as int));
                    assert(region.within(pre.total_size()));
                }
                let consumed = pad + size;
                let offset_aligned = region.offset + pad;
                let block_region = MemoryRegion { offset: region.offset, size: consumed };
                let addr = if let Some(base) = self.base_addr {
                    Some(base + offset_aligned)
                } else {
                    None
                };
                if consumed == region.size {
                    self.free_regions.remove(k);
                } else {
                    self.free_regions[k] = MemoryRegion {
                        offset: region.offset + consumed,
                        size: region.size - consumed,
                    };
                }
                self.allocated = Ghost(self.allocated@.insert(block_region));
                let block = MemoryBlock {
                    mem: self.mem,
                    region: block_region,
                    align_pad: pad,
                    addr,
                    source: BlockSource { mem_type, idx },
                };
                proof {
                    if alignment > 0 {
                        lemma_padding_aligns(region.offset, alignment);
                    }
                    lemma_arena_take(pre, *self, block_region, k as int, size, alignment);
                    assert(self.free_list() == free_list_after_take(
                        pre.free_list(),
                        k as int,
                        consumed as int,
                    ));
                    assert(arena_alloc_block_post(pre, *self, block, size, alignment, mem_type, idx as int));
                }
                return Some(block);
            }
            k += 1;
        }
        proof {
            assert(!can_fit(self.free_list(), size, alignment)) by {
                if can_fit(self.free_list(), size, alignment) {
                    let i = choose|i: int|
                        0 <= i < self.free_list().len() && region_fits(
                            #[trigger] self.free_list()[i],
                            size,
                            alignment,
                        );
                    assert(!region_fits(self.free_list()[i], size, alignment));
                }
            }
        }
        None
    }

    /// Return a consumed span to the free list. The span is merged forward
    /// into the first free region that starts exactly at its end; otherwise
    /// it becomes a standalone entry at its sorted position. A span
    /// contiguous with a *preceding* free region is deliberately left
    /// unmerged, exactly as the free-list policy prescribes.
    pub fn free(&mut self, returning_region: MemoryRegion)
        requires
            old(self).inv(),
            old(self).allocated_set().contains(returning_region),
        ensures
            final(self).inv(),
            final(self).spec_mem() == old(self).spec_mem(),
            final(self).total_size() == old(self).total_size(),
            final(self).spec_base_addr() == old(self).spec_base_addr(),
            final(self).allocated_set() == old(self).allocated_set().remove(returning_region),
            final(self).free_list() == free_list_after_give(old(self).free_list(), returning_region),
    {
        let ghost pre = *old(self);
        let end_addr = returning_region.offset + returning_region.size;
        let n = self.free_regions.len();
        let mut k: usize = 0;
        while k < n && self.free_regions[k].offset < end_addr
            invariant
                *self == pre,
                pre.inv(),
                pre.allocated_set().contains(returning_region),
                n == self.free_regions.len(),
                k <= n,
                end_addr == returning_region.end(),
                forall|j: int| 0 <= j < k ==> (#[trigger] self.free_list()[j]).offset < end_addr,
            decreases n - k,
        {
            k += 1;
        }
        // every free region is disjoint from the span being returned
        proof {
            assert forall|j: int| 0 <= j < n implies (#[trigger] pre.free_list()[j]).disjoint(
                returning_region,
            ) by {}
        }
        if k < n {
            proof {
                assert(is_first_following(pre.free_list(), end_addr as int, k as int));
            }
            let f = self.free_regions[k];
            if f.offset == end_addr {
                // contiguous: merge forward by absorbing the span
                self.free_regions[k] = MemoryRegion {
                    offset: returning_region.offset,
                    size: returning_region.size + f.size,
                };
            } else {
                self.free_regions.insert(k, returning_region);
            }
        } else {
            self.free_regions.push(returning_region);
        }
        self.allocated = Ghost(self.allocated@.remove(returning_region));
        proof {
            lemma_arena_give(pre, *self, returning_region, k as int);
        }
    }
}

/// Returning the span `region` to the free list at position `k` preserves
/// the arena invariant, and the result is what `free_list_after_give` says.
proof fn lemma_arena_give(pre: VkMemory, post: VkMemory, region: MemoryRegion, k: int)
    requires
        pre.inv(),
        pre.allocated_set().contains(region),
        0 <= k <= pre.free_list().len(),
        forall|j: int| 0 <= j < k ==> (#[trigger] pre.free_list()[j]).offset < region.end(),
        k < pre.free_list().len() ==> pre.free_list()[k].offset >= region.end(),
        k == pre.free_list().len() || pre.free_list()[k].offset != region.end()
            ==> post.free_list() == if k < pre.free_list().len() {
            pre.free_list().insert(k, region)
        } else {
            pre.free_list().push(region)
        },
        k < pre.free_list().len() && pre.free_list()[k].offset == region.end()
            ==> post.free_list() == pre.free_list().update(
            k,
            MemoryRegion {
                offset: region.offset,
                size: (region.size + pre.free_list()[k].size) as u64,
            },
        ),
        post.allocated_set() == pre.allocated_set().remove(region),
        post.total_size() == pre.total_size(),
        post.spec_base_addr() == pre.spec_base_addr(),
    ensures
        post.inv(),
        post.free_list() == free_list_after_give(pre.free_list(), region),
{
    let old_free = pre.free_list();
    let new_free = post.free_list();
    let end = region.end();
    let len = old_free.len() as int;

    assert(region.size > 0 && region.within(pre.total_size()));

    // every old free region is disjoint from the returning span; those
    // before position k therefore end at or before its start
    assert forall|j: int| 0 <= j < len implies (#[trigger] old_free[j]).disjoint(region) by {}
    assert forall|j: int| 0 <= j < k implies (#[trigger] old_free[j]).end() <= region.offset by {
        assert(old_free[j].disjoint(region));
        assert(old_free[j].offset < end);
    }

    // tie the computed position to the specification's chosen one
    if k < len {
        assert(is_first_following(old_free, end, k));
        let i0 = choose|i: int| is_first_following(old_free, end, i);
        assert(is_first_following(old_free, end, i0));
        lemma_first_following_unique(old_free, end, i0, k);
    } else {
        assert(!exists|i: int| is_first_following(old_free, end, i)) by {
            if exists|i: int| is_first_following(old_free, end, i) {
                let i0 = choose|i: int| is_first_following(old_free, end, i);
                assert(old_free[i0].offset < end);
            }
        }
    }
    assert(new_free == free_list_after_give(old_free, region));

    if k < len && old_free[k].offset == end {
        // merged entry spans the returning region and its follower
        let f = old_free[k];
        let merged = MemoryRegion { offset: region.offset, size: (region.size + f.size) as u64 };
        assert(merged.end() == f.end());
        assert forall|i: int, j: int|
            #![trigger new_free[i], new_free[j]]
            0 <= i < j < new_free.len() implies new_free[i].end() <= new_free[j].offset by {
            if i != k {
                assert(new_free[i] == old_free[i]);
            }
            if j != k {
                assert(new_free[j] == old_free[j]);
            }
        }
        assert forall|i: int| 0 <= i < new_free.len() implies (#[trigger] new_free[i]).size > 0
            && new_free[i].within(post.total_size()) by {
            if i != k {
                assert(new_free[i] == old_free[i]);
            }
        }
        assert forall|i: int, r: MemoryRegion|
            #![trigger new_free[i].disjoint(r)]
            0 <= i < new_free.len() && post.allocated_set().contains(r) implies new_free[i].disjoint(
            r,
        ) by {
            assert(pre.allocated_set().contains(r) && r != region);
            if i == k {
                // r avoids both halves of the merged span, and the halves
                // are contiguous, so r avoids the whole of it
                assert(old_free[k].disjoint(r));
                assert(r.disjoint(region));
                assert(r.size > 0);
            } else {
                assert(new_free[i] == old_free[i]);
                assert(old_free[i].disjoint(r));
            }
        }
    } else {
        // the span becomes a standalone entry at position k
        assert forall|i: int, j: int|
            #![trigger new_free[i], new_free[j]]
            0 <= i < j < new_free.len() implies new_free[i].end() <= new_free[j].offset by {
            let i0 = if i < k { i } else { i - 1 };
            let j0 = if j < k { j } else { j - 1 };
            if i != k && j != k {
                assert(new_free[i] == old_free[i0]);
                assert(new_free[j] == old_free[j0]);
            } else if i == k {
                assert(new_free[j] == old_free[j0]);
                assert(j0 >= k);
                assert(old_free[j0].offset >= end) by {
                    if j0 == k {
                    } else {
                        assert(old_free[k].end() <= old_free[j0].offset);
                    }
                }
            } else {
                assert(new_free[i] == old_free[i0]);
                assert(i0 < k);
            }
        }
        assert forall|i: int| 0 <= i < new_free.len() implies (#[trigger] new_free[i]).size > 0
            && new_free[i].within(post.total_size()) by {
            if i != k {
                let i0 = if i < k { i } else { i - 1 };
                assert(new_free[i] == old_free[i0]);
            }
        }
        assert forall|i: int, r: MemoryRegion|
            #![trigger new_free[i].disjoint(r)]
            0 <= i < new_free.len() && post.allocated_set().contains(r) implies new_free[i].disjoint(
            r,
        ) by {
            assert(pre.allocated_set().contains(r) && r != region);
            if i == k {
                assert(r.disjoint(region));
            } else {
                let i0 = if i < k { i } else { i - 1 };
                assert(new_free[i] == old_free[i0]);
                assert(old_free[i0].disjoint(r));
            }
        }
    }
}

/// What a successful arena allocation leaves behind: the block's exact
/// shape (aligned offset, padding, consumed span, mapped address, source),
/// the first-fit choice over the old free list, and the bookkeeping update.
pub open spec fn arena_alloc_block_post(
    pre: VkMemory,
    post: VkMemory,
    b: MemoryBlock,
    size: u64,
    alignment: u64,
    mem_type: MemoryType,
    idx: int,
) -> bool {
    &&& b.wf()
    &&& b.spec_mem() == pre.spec_mem()
    &&& b.source_type() == mem_type
    &&& b.source_idx() == idx
    &&& b.align_pad() == spec_padding(b.region().offset, alignment)
    &&& b.region().size == b.align_pad() + size
    &&& alignment > 0 ==> b.spec_offset() % (alignment as int) == 0
    &&& b.spec_offset() + size <= pre.total_size()
    &&& !pre.allocated_set().contains(b.region())
    &&& post.allocated_set() == pre.allocated_set().insert(b.region())
    &&& b.spec_addr() == (match pre.spec_base_addr() {
        Some(base) => Some((base + b.spec_offset()) as u64),
        None => None::<u64>,
    })
    &&& exists|i: int|
        #[trigger] is_first_fit(pre.free_list(), size, alignment, i) && b.region().offset
            == pre.free_list()[i].offset && post.free_list() == free_list_after_take(
            pre.free_list(),
            i,
            b.region().size as int,
        )
    &&& post.spec_mem() == pre.spec_mem()
    &&& post.total_size() == pre.total_size()
    &&& post.spec_base_addr() == pre.spec_base_addr()
}

/// Carving `block_region` out of the front of free region `k` preserves the
/// arena invariant.
proof fn lemma_arena_take(
    pre: VkMemory,
    post: VkMemory,
    block_region: MemoryRegion,
    k: int,
    size: u64,
    alignment: u64,
)
    requires
        pre.inv(),
        0 <= k < pre.free_list().len(),
        size >= 1,
        block_region.offset == pre.free_list()[k].offset,
        block_region.size == spec_padding(pre.free_list()[k].offset, alignment) + size,
        block_region.size <= pre.free_list()[k].size,
        post.free_list() == free_list_after_take(pre.free_list(), k, block_region.size as int),
        post.allocated_set() == pre.allocated_set().insert(block_region),
        post.total_size() == pre.total_size(),
        post.spec_base_addr() == pre.spec_base_addr(),
    ensures
        post.inv(),
        !pre.allocated_set().contains(block_region),
{
    let old_free = pre.free_list();
    let new_free = post.free_list();
    let f = old_free[k];
    let consumed = block_region.size as int;

    assert(spec_padding(f.offset, alignment) >= 0) by {
        if alignment > 0 {
            lemma_padding_aligns(f.offset, alignment);
        }
    }
    assert(block_region.size > 0);
    assert(block_region.end() <= f.end());
    assert(f.within(pre.total_size()));

    // the new block does not collide with anything already handed out
    assert forall|r: MemoryRegion|
        pre.allocated_set().contains(r) implies r.disjoint(block_region) && block_region.disjoint(
        r,
    ) by {
        assert(f.disjoint(r));
    }
    assert(!pre.allocated_set().contains(block_region)) by {
        if pre.allocated_set().contains(block_region) {
            assert(f.disjoint(block_region));
        }
    }

    if consumed == f.size {
        // the free region disappears
        assert forall|i: int, j: int|
            #![trigger new_free[i], new_free[j]]
            0 <= i < j < new_free.len() implies new_free[i].end() <= new_free[j].offset by {
            let i0 = if i < k { i } else { i + 1 };
            let j0 = if j < k { j } else { j + 1 };
            assert(new_free[i] == old_free[i0]);
            assert(new_free[j] == old_free[j0]);
        }
        assert forall|i: int| 0 <= i < new_free.len() implies (#[trigger] new_free[i]).size > 0
            && new_free[i].within(post.total_size()) by {
            let i0 = if i < k { i } else { i + 1 };
            assert(new_free[i] == old_free[i0]);
        }
        assert forall|i: int, r: MemoryRegion|
            #![trigger new_free[i].disjoint(r)]
            0 <= i < new_free.len() && post.allocated_set().contains(r) implies new_free[i].disjoint(
            r,
        ) by {
            let i0 = if i < k { i } else { i + 1 };
            assert(new_free[i] == old_free[i0]);
            if r == block_region {
                pre.lemma_free_list_disjoint(i0, k);
            } else {
                assert(old_free[i0].disjoint(r));
            }
        }
    } else {
        // the free region shrinks from the front
        let shrunk = new_free[k];
        assert(shrunk.offset == f.offset + consumed && shrunk.size == f.size - consumed);
        assert forall|i: int, j: int|
            #![trigger new_free[i], new_free[j]]
            0 <= i < j < new_free.len() implies new_free[i].end() <= new_free[j].offset by {
            if i != k {
                assert(new_free[i] == old_free[i]);
            }
            if j != k {
                assert(new_free[j] == old_free[j]);
            }
        }
        assert forall|i: int| 0 <= i < new_free.len() implies (#[trigger] new_free[i]).size > 0
            && new_free[i].within(post.total_size()) by {
            if i != k {
                assert(new_free[i] == old_free[i]);
            }
        }
        assert forall|i: int, r: MemoryRegion|
            #![trigger new_free[i].disjoint(r)]
            0 <= i < new_free.len() && post.allocated_set().contains(r) implies new_free[i].disjoint(
            r,
        ) by {
            if i == k {
                if r == block_region {
                } else {
                    assert(f.disjoint(r));
                }
            } else {
                assert(new_free[i] == old_free[i]);
                if r == block_region {
                    pre.lemma_free_list_disjoint(i, k);
                } else {
                    assert(old_free[i].disjoint(r));
                }
            }
        }
    }

    // handed-out spans stay pairwise disjoint
    assert forall|r1: MemoryRegion, r2: MemoryRegion|
        #![trigger post.allocated_set().contains(r1), post.allocated_set().contains(r2)]
        post.allocated_set().contains(r1) && post.allocated_set().contains(r2) && r1 != r2 implies r1.disjoint(
        r2,
    ) by {
        if r1 == block_region {
            assert(pre.allocated_set().contains(r2));
            assert(f.disjoint(r2));
        } else if r2 == block_region {
            assert(pre.allocated_set().contains(r1));
            assert(f.disjoint(r1));
        } else {
            assert(pre.allocated_set().contains(r1));
            assert(pre.allocated_set().contains(r2));
        }
    }
}

/// The backing size a pool grows by for a request of `size` bytes: the
/// request itself when it reaches the pool's minimum, the minimum otherwise.
pub open spec fn spec_grown_size(size: u64, min_size: u64) -> u64 {
    if size >= min_size {
        size
    } else {
        min_size
    }
}

/// All arenas of one memory kind, tried in creation order. A pool is bound
/// to one concrete memory-type index, knows whether its arenas are host
/// mapped, and never discards an arena.
pub struct VkMemoryManager {
    mem_type: MemoryType,
    mem_type_idx: u32,
    should_map: bool,
    min_vk_mem_size: u64,
    vk_mems: Vec<VkMemory>,
}

impl VkMemoryManager {
    /// The memory kind this pool serves.
    pub closed spec fn spec_mem_type(self) -> MemoryType {
        self.mem_type
    }

    /// The memory-type index the pool was bound to at construction.
    pub closed spec fn spec_mem_type_idx(self) -> u32 {
        self.mem_type_idx
    }

    /// Whether arenas of this pool are host mapped when created.
    pub closed spec fn spec_should_map(self) -> bool {
        self.should_map
    }

    /// The minimum size of one backing allocation of this pool.
    pub closed spec fn spec_min_size(self) -> u64 {
        self.min_vk_mem_size
    }

    /// The pool's arenas, in creation order.
    pub closed spec fn arenas(self) -> Seq<VkMemory> {
        self.vk_mems@
    }

    /// The pool invariant: a representable type index, a positive growth
    /// minimum, and every arena internally consistent and mapped exactly
    /// when the pool says so.
    pub open spec fn inv(self) -> bool {
        &&& self.spec_mem_type_idx() < 32
        &&& self.spec_min_size() >= 1
        &&& forall|k: int| 0 <= k < self.arenas().len() ==> (#[trigger] self.arenas()[k]).inv()
        &&& forall|k: int|
            0 <= k < self.arenas().len() ==> ((#[trigger] self.arenas()[k]).mapped()
                <==> self.spec_should_map())
    }

    /// The block is an outstanding allocation of this pool: its arena index
    /// is real and its consumed span is currently handed out there.
    pub open spec fn owns(self, b: MemoryBlock) -> bool {
        &&& 0 <= b.source_idx() < self.arenas().len()
        &&& self.arenas()[b.source_idx()].allocated_set().contains(b.region())
    }

    /// All five pool fields the caller can observe, unchanged.
    pub open spec fn same_pool(pre: VkMemoryManager, post: VkMemoryManager) -> bool {
        &&& post.spec_mem_type() == pre.spec_mem_type()
        &&& post.spec_mem_type_idx() == pre.spec_mem_type_idx()
        &&& post.spec_should_map() == pre.spec_should_map()
        &&& post.spec_min_size() == pre.spec_min_size()
        &&& post.arenas() == pre.arenas()
    }

    /// The pool's fixed configuration, unchanged (arenas may differ).
    pub open spec fn same_config(pre: VkMemoryManager, post: VkMemoryManager) -> bool {
        &&& post.spec_mem_type() == pre.spec_mem_type()
        &&& post.spec_mem_type_idx() == pre.spec_mem_type_idx()
        &&& post.spec_should_map() == pre.spec_should_map()
        &&& post.spec_min_size() == pre.spec_min_size()
    }

    /// Try to serve the request from the existing arenas, in creation
    /// order, first fit. `None` when no arena has a fitting free region;
    /// the pool is then grown through [`VkMemoryManager::allocate_grown`].
    pub fn try_allocate(&mut self, req: &MemoryRequirements) -> (r: Option<MemoryBlock>)
        requires
            old(self).inv(),
            req.size >= 1,
        ensures
            final(self).inv(),
            Self::same_config(*old(self), *final(self)),
            match r {
                None => {
                    &&& final(self).arenas() == old(self).arenas()
                    &&& pool_cannot_fit(*old(self), *req)
                },
                Some(b) => pool_alloc_block_post(*old(self), *final(self), b, *req),
            },
            forall|b2: MemoryBlock| #[trigger] old(self).owns(b2) ==> final(self).owns(b2),
    {
        let ghost pre = *old(self);
        let n = self.vk_mems.len();
        let mut k: usize = 0;
        while k < n
            invariant
                pre == *old(self),
                pre.inv(),
                Self::same_config(pre, *self),
                self.arenas() == pre.arenas(),
                req.size >= 1,
                n == self.vk_mems.len(),
                k <= n,
                forall|j: int|
                    0 <= j < k ==> !can_fit(
                        (#[trigger] pre.arenas()[j]).free_list(),
                        req.size,
                        req.alignment,
                    ),
            decreases n - k,
        {
            let ghost at_entry = *self;
            let mem_type = self.mem_type;
            let block_opt = self.vk_mems[k].allocate(req.size, req.alignment, mem_type, k);
            proof {
                assert(at_entry.arenas()[k as int] == pre.arenas()[k as int]);
            }
            if let Some(b) = block_opt {
                proof {
                    assert(self.arenas() == pre.arenas().update(k as int, self.arenas()[k as int]));
                    assert forall|b2: MemoryBlock| #[trigger] pre.owns(b2) implies self.owns(b2) by {
                        if b2.source_idx() == k as int {
                            assert(self.arenas()[b2.source_idx()].allocated_set().contains(
                                b2.region(),
                            ));
                        } else {
                            assert(self.arenas()[b2.source_idx()] == pre.arenas()[b2.source_idx()]);
                        }
                    }
                    assert(pool_alloc_block_post(pre, *self, b, *req));
                }
                return Some(b);
            }
            proof {
                assert(self.arenas() =~= pre.arenas());
            }
            k += 1;
        }
        None
    }

    /// Grow the pool with one fresh arena and serve the request from its
    /// start. The caller has created the backing allocation object of size
    /// `spec_grown_size(req.size, min)` on the pool's memory-type index and,
    /// for a mapping pool, mapped it at `base_addr`. A request at or above
    /// the pool minimum gets the whole arena to itself: the new free list is
    /// then empty.
    pub fn allocate_grown(
        &mut self,
        req: &MemoryRequirements,
        mem: erupt::vk::DeviceMemory,
        base_addr: Option<u64>,
    ) -> (b: MemoryBlock)
        requires
            old(self).inv(),
            req.size >= 1,
            base_addr is Some <==> old(self).spec_should_map(),
            (base_addr matches Some(a) ==> a + spec_grown_size(
                req.size,
                old(self).spec_min_size(),
            ) <= u64::MAX),
            old(self).arenas().len() < usize::MAX,
        ensures
            final(self).inv(),
            Self::same_config(*old(self), *final(self)),
            pool_grow_post(*old(self), *final(self), b, *req, mem, base_addr),
            forall|b2: MemoryBlock| #[trigger] old(self).owns(b2) ==> final(self).owns(b2),
    {
        let ghost pre = *old(self);
        let alloc_size = if req.size >= self.min_vk_mem_size {
            req.size
        } else {
            self.min_vk_mem_size
        };
        let block_region = MemoryRegion { offset: 0, size: req.size };
        let mut free_regions: Vec<MemoryRegion> = Vec::new();
        if req.size < self.min_vk_mem_size {
            // the request leaves spare room: one free region covers the rest
            free_regions.push(
                MemoryRegion { offset: req.size, size: self.min_vk_mem_size - req.size },
            );
        }
        let arena = VkMemory {
            mem,
            free_regions,
            base_addr,
            size: alloc_size,
            allocated: Ghost(Set::empty().insert(block_region)),
        };
        let idx = self.vk_mems.len();
        let block = MemoryBlock {
            mem,
            region: block_region,
            align_pad: 0,
            addr: base_addr,
            source: BlockSource { mem_type: self.mem_type, idx },
        };
        self.vk_mems.push(arena);
        proof {
            assert(self.arenas() == pre.arenas().push(arena));
            assert(arena.inv()) by {
                assert forall|r1: MemoryRegion, r2: MemoryRegion|
                    #![trigger arena.allocated_set().contains(r1), arena.allocated_set().contains(r2)]
                    arena.allocated_set().contains(r1) && arena.allocated_set().contains(r2) && r1
                        != r2 implies r1.disjoint(r2) by {
                    assert(r1 == block_region && r2 == block_region);
                }
            }
            assert forall|b2: MemoryBlock| #[trigger] pre.owns(b2) implies self.owns(b2) by {
                assert(self.arenas()[b2.source_idx()] == pre.arenas()[b2.source_idx()]);
            }
            assert(pool_grow_post(pre, *self, block, *req, mem, base_addr));
        }
        block
    }

    /// Return a block's consumed span to the arena it came from, identified
    /// by the index stored in the block; no other arena is searched or
    /// touched. Consumes the block: the span can be handed out again.
    pub fn free(&mut self, block: MemoryBlock)
        requires
            old(self).inv(),
            old(self).owns(block),
        ensures
            final(self).inv(),
            Self::same_config(*old(self), *final(self)),
            pool_free_post(*old(self), *final(self), block),
    {
        let ghost pre = *old(self);
        let idx = block.source.idx;
        self.vk_mems[idx].free(block.region);
        proof {
            assert(self.arenas() == pre.arenas().update(idx as int, self.arenas()[idx as int]));
            assert forall|b2: MemoryBlock|
                #[trigger] pre.owns(b2) && !(b2.source_idx() == block.source_idx() && b2.region()
                    == block.region()) implies self.owns(b2) by {
                if b2.source_idx() == idx as int {
                    assert(self.arenas()[b2.source_idx()].allocated_set().contains(b2.region()));
                } else {
                    assert(self.arenas()[b2.source_idx()] == pre.arenas()[b2.source_idx()]);
                }
            }
        }
    }
}

/// What growing the pool for a request leaves behind: one arena appended
/// with the exact grown size, mapping and bookkeeping, the block carved
/// from its start at offset zero, and every older arena untouched.
pub open spec fn pool_grow_post(
    pre: VkMemoryManager,
    post: VkMemoryManager,
    b: MemoryBlock,
    req: MemoryRequirements,
    mem: erupt::vk::DeviceMemory,
    base_addr: Option<u64>,
) -> bool {
    let arena = post.arenas().last();
    &&& post.arenas().len() == pre.arenas().len() + 1
    &&& forall|j: int|
        0 <= j < pre.arenas().len() ==> post.arenas()[j] == (#[trigger] pre.arenas()[j])
    &&& arena.spec_mem() == mem
    &&& arena.total_size() == spec_grown_size(req.size, pre.spec_min_size())
    &&& arena.spec_base_addr() == base_addr
    &&& arena.allocated_set() == Set::<MemoryRegion>::empty().insert(b.region())
    &&& arena.free_list() == (if req.size >= pre.spec_min_size() {
        Seq::<MemoryRegion>::empty()
    } else {
        seq![MemoryRegion { offset: req.size, size: (pre.spec_min_size() - req.size) as u64 }]
    })
    &&& b.wf()
    &&& b.spec_mem() == mem
    &&& b.region() == (MemoryRegion { offset: 0, size: req.size })
    &&& b.align_pad() == 0
    &&& b.spec_offset() == 0
    &&& b.spec_addr() == base_addr
    &&& b.source_type() == pre.spec_mem_type()
    &&& b.source_idx() == pre.arenas().len()
    &&& post.owns(b)
}

/// What freeing a block leaves behind: its arena's free list as
/// [`free_list_after_give`] says, its span no longer outstanding, every
/// other arena untouched, and every other outstanding block still owned.
pub open spec fn pool_free_post(
    pre: VkMemoryManager,
    post: VkMemoryManager,
    block: MemoryBlock,
) -> bool {
    let idx = block.source_idx();
    let arena_pre = pre.arenas()[idx];
    let arena_post = post.arenas()[idx];
    &&& post.arenas().len() == pre.arenas().len()
    &&& arena_post.free_list() == free_list_after_give(arena_pre.free_list(), block.region())
    &&& arena_post.allocated_set() == arena_pre.allocated_set().remove(block.region())
    &&& arena_post.spec_mem() == arena_pre.spec_mem()
    &&& arena_post.total_size() == arena_pre.total_size()
    &&& arena_post.spec_base_addr() == arena_pre.spec_base_addr()
    &&& forall|j: int|
        0 <= j < pre.arenas().len() && j != idx ==> post.arenas()[j] == (#[trigger] pre.arenas()[j])
    &&& forall|b2: MemoryBlock|
        #[trigger] pre.owns(b2) && !(b2.source_idx() == idx && b2.region() == block.region())
            ==> post.owns(b2)
}

/// No arena of the pool has a free region that fits the request.
pub open spec fn pool_cannot_fit(pool: VkMemoryManager, req: MemoryRequirements) -> bool {
    forall|j: int|
        0 <= j < pool.arenas().len() ==> !can_fit(
            (#[trigger] pool.arenas()[j]).free_list(),
            req.size,
            req.alignment,
        )
}

/// What a successful pool allocation from an existing arena leaves behind:
/// the serving arena is the first one that could fit (arenas before it had
/// no fitting region), it alone changed, and it changed exactly as
/// [`arena_alloc_block_post`] says.
pub open spec fn pool_alloc_block_post(
    pre: VkMemoryManager,
    post: VkMemoryManager,
    b: MemoryBlock,
    req: MemoryRequirements,
) -> bool {
    &&& post.arenas().len() == pre.arenas().len()
    &&& 0 <= b.source_idx() < pre.arenas().len()
    &&& b.source_type() == pre.spec_mem_type()
    &&& forall|j: int|
        0 <= j < b.source_idx() ==> !can_fit(
            (#[trigger] pre.arenas()[j]).free_list(),
            req.size,
            req.alignment,
        )
    &&& arena_alloc_block_post(
        pre.arenas()[b.source_idx()],
        post.arenas()[b.source_idx()],
        b,
        req.size,
        req.alignment,
        pre.spec_mem_type(),
        b.source_idx(),
    )
    &&& forall|j: int|
        0 <= j < pre.arenas().len() && j != b.source_idx() ==> post.arenas()[j] == (
        #[trigger] pre.arenas()[j])
    &&& post.owns(b)
}

/// `i` is the index of the first entry of the property table whose flags
/// equal `want` exactly; a superset of the wanted flags never matches.
pub open spec fn exact_match_at(flags: Seq<u32>, want: u32, i: int) -> bool {
    &&& 0 <= i < flags.len()
    &&& flags[i] == want
    &&& forall|j: int| 0 <= j < i ==> flags[j] != want
}

/// Some entry of the property table equals `want` exactly.
pub open spec fn has_exact_match(flags: Seq<u32>, want: u32) -> bool {
    exists|i: int| 0 <= i < flags.len() && flags[i] == want
}

/// First index whose property flags equal `want` exactly.
fn find_exact(flags: &Vec<u32>, want: u32) -> (r: Option<u32>)
    requires
        flags@.len() <= 32,
    ensures
        match r {
            Some(i) => exact_match_at(flags@, want, i as int),
            None => !has_exact_match(flags@, want),
        },
{
    let n = flags.len();
    let mut k: usize = 0;
    while k < n
        invariant
            n == flags@.len(),
            n <= 32,
            k <= n,
            forall|j: int| 0 <= j < k ==> flags@[j] != want,
        decreases n - k,
    {
        if flags[k] == want {
            return Some(k as u32);
        }
        k += 1;
    }
    proof {
        assert(!has_exact_match(flags@, want)) by {
            if has_exact_match(flags@, want) {
                let i = choose|i: int| 0 <= i < flags@.len() && flags@[i] == want;
                assert(flags@[i] != want);
            }
        }
    }
    None
}

/// The request's compatible-type bitmask admits memory-type index `idx`.
pub open spec fn compatible(req: MemoryRequirements, idx: u32) -> bool {
    req.memory_type_bits & (1u32 << idx) != 0
}

/// What the pool must be grown by when no arena fits: the caller creates a
/// backing allocation object of `size` bytes on memory-type index
/// `mem_type_idx`, maps it when `should_map` says so, and hands both back
/// through [`VkAllocator::allocate_with_arena`].
#[derive(Clone, Copy, Debug, PartialEq, Eq, Structural)]
pub struct ArenaRequest {
    /// Size in bytes of the backing allocation to create.
    pub size: u64,
    /// The memory-type index to create it on.
    pub mem_type_idx: u32,
    /// Whether the new allocation must be mapped for host access.
    pub should_map: bool,
}

/// Outcome of an allocation request against the existing arenas.
pub enum Allocation {
    /// Served from an existing arena.
    Block(MemoryBlock),
    /// No arena fits: grow the pool as the request says, then retry through
    /// [`VkAllocator::allocate_with_arena`].
    NeedsArena(ArenaRequest),
}

/// The two-pool allocator: one pool of device-local arenas, one of
/// host-visible ones. It validates each request's compatible-type bitmask
/// against the pool's bound index and routes allocation and release; it
/// makes no platform call itself.
pub struct VkAllocator {
    device_mgr: VkMemoryManager,
    host_mgr: VkMemoryManager,
}

impl VkAllocator {
    /// The pool of device-local arenas.
    pub closed spec fn device_mgr(self) -> VkMemoryManager {
        self.device_mgr
    }

    /// The pool of host-visible arenas.
    pub closed spec fn host_mgr(self) -> VkMemoryManager {
        self.host_mgr
    }

    /// The pool serving the given memory kind.
    pub open spec fn mgr(self, mem_type: MemoryType) -> VkMemoryManager {
        match mem_type {
            MemoryType::Device => self.device_mgr(),
            MemoryType::Host => self.host_mgr(),
        }
    }

    /// Both pools are consistent and configured as construction fixed them:
    /// the device pool unmapped with the device minimum, the host pool
    /// mapped with the host minimum.
    pub open spec fn inv(self) -> bool {
        &&& self.device_mgr().inv()
        &&& self.host_mgr().inv()
        &&& self.device_mgr().spec_mem_type() == MemoryType::Device
        &&& !self.device_mgr().spec_should_map()
        &&& self.device_mgr().spec_min_size() == MIN_DEVICE_VK_MEM_SIZE
        &&& self.host_mgr().spec_mem_type() == MemoryType::Host
        &&& self.host_mgr().spec_should_map()
        &&& self.host_mgr().spec_min_size() == MIN_HOST_VK_MEM_SIZE
    }

    /// The block is an outstanding allocation of this allocator, in the
    /// pool of its recorded memory kind.
    pub open spec fn owns(self, b: MemoryBlock) -> bool {
        self.mgr(b.source_type()).owns(b)
    }

    /// Bind each memory kind to one index of the platform's property table
    /// by exact flag equality: `DEVICE_MEMORY_FLAGS` for the device pool,
    /// `HOST_MEMORY_FLAGS` for the host pool. Construction fails with
    /// `NoSuitableMemoryType` exactly when either kind has no exact match;
    /// a table offering only supersets of the wanted flags is rejected.
    /// The table holds at most 32 entries, one per expressible bit of a
    /// request's compatible-type bitmask.
    pub fn new(mem_type_flags: &Vec<u32>) -> (r: Result<VkAllocator, AllocError>)
        requires
            mem_type_flags@.len() <= 32,
        ensures
            r is Ok <==> has_exact_match(mem_type_flags@, DEVICE_MEMORY_FLAGS) && has_exact_match(
                mem_type_flags@,
                HOST_MEMORY_FLAGS,
            ),
            match r {
                Ok(a) => {
                    &&& a.inv()
                    &&& a.device_mgr().arenas().len() == 0
                    &&& a.host_mgr().arenas().len() == 0
                    &&& exact_match_at(
                        mem_type_flags@,
                        DEVICE_MEMORY_FLAGS,
                        a.device_mgr().spec_mem_type_idx() as int,
                    )
                    &&& exact_match_at(
                        mem_type_flags@,
                        HOST_MEMORY_FLAGS,
                        a.host_mgr().spec_mem_type_idx() as int,
                    )
                },
                Err(e) => e == AllocError::NoSuitableMemoryType,
            },
    {
        let device_mem_type_idx = match find_exact(mem_type_flags, DEVICE_MEMORY_FLAGS) {
            Some(i) => i,
            None => {
                return Err(AllocError::NoSuitableMemoryType);
            },
        };
        let host_mem_type_idx = match find_exact(mem_type_flags, HOST_MEMORY_FLAGS) {
            Some(i) => i,
            None => {
                return Err(AllocError::NoSuitableMemoryType);
            },
        };
        let device_mgr = VkMemoryManager {
            mem_type: MemoryType::Device,
            mem_type_idx: device_mem_type_idx,
            should_map: false,
            min_vk_mem_size: MIN_DEVICE_VK_MEM_SIZE,
            vk_mems: Vec::new(),
        };
        let host_mgr = VkMemoryManager {
            mem_type: MemoryType::Host,
            mem_type_idx: host_mem_type_idx,
            should_map: true,
            min_vk_mem_size: MIN_HOST_VK_MEM_SIZE,
            vk_mems: Vec::new(),
        };
        Ok(VkAllocator { device_mgr, host_mgr })
    }

    /// Serve a request from the pool of the given kind. Fails with
    /// `IncompatibleMemoryType`, touching nothing, exactly when the
    /// request's bitmask excludes the pool's bound index; hands back an
    /// [`ArenaRequest`], touching nothing, when no existing arena fits. A
    /// request spans at least one byte, as the graphics API's reported
    /// requirement sizes always do.
    pub fn allocate(&mut self, req: &MemoryRequirements, mem_type: MemoryType) -> (r: Result<
        Allocation,
        AllocError,
    >)
        requires
            old(self).inv(),
            req.size >= 1,
        ensures
            final(self).inv(),
            allocator_allocate_post(*old(self), *final(self), *req, mem_type, r),
            forall|b2: MemoryBlock| #[trigger] old(self).owns(b2) ==> final(self).owns(b2),
    {
        let r = match mem_type {
            MemoryType::Device => Self::pool_allocate(&mut self.device_mgr, req),
            MemoryType::Host => Self::pool_allocate(&mut self.host_mgr, req),
        };
        proof {
            assert forall|b2: MemoryBlock| #[trigger] old(self).owns(b2) implies self.owns(b2) by {
                match b2.source_type() {
                    MemoryType::Device => assert(old(self).device_mgr().owns(b2)),
                    MemoryType::Host => assert(old(self).host_mgr().owns(b2)),
                }
            }
        }
        r
    }

    /// One pool's view of `allocate`: check the bitmask, then first-fit
    /// over the existing arenas.
    fn pool_allocate(mgr: &mut VkMemoryManager, req: &MemoryRequirements) -> (r: Result<
        Allocation,
        AllocError,
    >)
        requires
            old(mgr).inv(),
            req.size >= 1,
        ensures
            final(mgr).inv(),
            VkMemoryManager::same_config(*old(mgr), *final(mgr)),
            pool_allocate_post(*old(mgr), *final(mgr), *req, r),
            forall|b2: MemoryBlock| #[trigger] old(mgr).owns(b2) ==> final(mgr).owns(b2),
    {
        if req.memory_type_bits & (1u32 << mgr.mem_type_idx) == 0 {
            return Err(AllocError::IncompatibleMemoryType);
        }
        match mgr.try_allocate(req) {
            Some(b) => Ok(Allocation::Block(b)),
            None => Ok(
                Allocation::NeedsArena(
                    ArenaRequest {
                        size: if req.size >= mgr.min_vk_mem_size {
                            req.size
                        } else {
                            mgr.min_vk_mem_size
                        },
                        mem_type_idx: mgr.mem_type_idx,
                        should_map: mgr.should_map,
                    },
                ),
            ),
        }
    }
}

/// What one pool's `allocate` promises for each outcome: rejection exactly
/// on an excluded index with nothing touched, a block from the first fitting
/// arena, or an exact growth request with nothing touched when no arena
/// fits.
pub open spec fn pool_allocate_post(
    pre: VkMemoryManager,
    post: VkMemoryManager,
    req: MemoryRequirements,
    r: Result<Allocation, AllocError>,
) -> bool {
    match r {
        Err(e) => {
            &&& e == AllocError::IncompatibleMemoryType
            &&& !compatible(req, pre.spec_mem_type_idx())
            &&& VkMemoryManager::same_pool(pre, post)
        },
        Ok(Allocation::Block(b)) => {
            &&& compatible(req, pre.spec_mem_type_idx())
            &&& pool_alloc_block_post(pre, post, b, req)
        },
        Ok(Allocation::NeedsArena(ar)) => {
            &&& compatible(req, pre.spec_mem_type_idx())
            &&& VkMemoryManager::same_pool(pre, post)
            &&& pool_cannot_fit(pre, req)
            &&& ar.size == spec_grown_size(req.size, pre.spec_min_size())
            &&& ar.mem_type_idx == pre.spec_mem_type_idx()
            &&& ar.should_map == pre.spec_should_map()
        },
    }
}

/// What `VkAllocator::allocate` promises: the routed pool answers as
/// [`pool_allocate_post`] says and the other pool is untouched.
pub open spec fn allocator_allocate_post(
    pre: VkAllocator,
    post: VkAllocator,
    req: MemoryRequirements,
    mem_type: MemoryType,
    r: Result<Allocation, AllocError>,
) -> bool {
    &&& pool_allocate_post(pre.mgr(mem_type), post.mgr(mem_type), req, r)
    &&& match mem_type {
        MemoryType::Device => post.host_mgr() == pre.host_mgr(),
        MemoryType::Host => post.device_mgr() == pre.device_mgr(),
    }
}

impl VkAllocator {
    /// Grow the pool of the given kind with the backing allocation the
    /// caller just created for an [`ArenaRequest`], and serve the request
    /// from the fresh arena's start; this always succeeds once the bitmask
    /// admits the pool's index. For the host kind the caller passes the
    /// mapped base address of the new allocation.
    pub fn allocate_with_arena(
        &mut self,
        req: &MemoryRequirements,
        mem_type: MemoryType,
        mem: erupt::vk::DeviceMemory,
        base_addr: Option<u64>,
    ) -> (r: Result<MemoryBlock, AllocError>)
        requires
            old(self).inv(),
            req.size >= 1,
            base_addr is Some <==> mem_type == MemoryType::Host,
            (base_addr matches Some(a) ==> a + spec_grown_size(
                req.size,
                old(self).mgr(mem_type).spec_min_size(),
            ) <= u64::MAX),
            old(self).mgr(mem_type).arenas().len() < usize::MAX,
        ensures
            final(self).inv(),
            allocator_grow_post(*old(self), *final(self), *req, mem_type, mem, base_addr, r),
            forall|b2: MemoryBlock| #[trigger] old(self).owns(b2) ==> final(self).owns(b2),
    {
        let r = match mem_type {
            MemoryType::Device => Self::pool_allocate_grown(&mut self.device_mgr, req, mem, base_addr),
            MemoryType::Host => Self::pool_allocate_grown(&mut self.host_mgr, req, mem, base_addr),
        };
        proof {
            assert forall|b2: MemoryBlock| #[trigger] old(self).owns(b2) implies self.owns(b2) by {
                match b2.source_type() {
                    MemoryType::Device => assert(old(self).device_mgr().owns(b2)),
                    MemoryType::Host => assert(old(self).host_mgr().owns(b2)),
                }
            }
        }
        r
    }

    /// One pool's view of `allocate_with_arena`: check the bitmask, then
    /// grow and serve.
    fn pool_allocate_grown(
        mgr: &mut VkMemoryManager,
        req: &MemoryRequirements,
        mem: erupt::vk::DeviceMemory,
        base_addr: Option<u64>,
    ) -> (r: Result<MemoryBlock, AllocError>)
        requires
            old(mgr).inv(),
            req.size >= 1,
            base_addr is Some <==> old(mgr).spec_should_map(),
            (base_addr matches Some(a) ==> a + spec_grown_size(req.size, old(mgr).spec_min_size())
                <= u64::MAX),
            old(mgr).arenas().len() < usize::MAX,
        ensures
            final(mgr).inv(),
            VkMemoryManager::same_config(*old(mgr), *final(mgr)),
            match r {
                Err(e) => {
                    &&& e == AllocError::IncompatibleMemoryType
                    &&& !compatible(*req, old(mgr).spec_mem_type_idx())
                    &&& VkMemoryManager::same_pool(*old(mgr), *final(mgr))
                },
                Ok(b) => {
                    &&& compatible(*req, old(mgr).spec_mem_type_idx())
                    &&& pool_grow_post(*old(mgr), *final(mgr), b, *req, mem, base_addr)
                },
            },
            forall|b2: MemoryBlock| #[trigger] old(mgr).owns(b2) ==> final(mgr).owns(b2),
    {
        if req.memory_type_bits & (1u32 << mgr.mem_type_idx) == 0 {
            return Err(AllocError::IncompatibleMemoryType);
        }
        Ok(mgr.allocate_grown(req, mem, base_addr))
    }

    /// Return a block to the arena it came from, routed by the memory kind
    /// recorded in the block. Consumes the block; infallible.
    pub fn free(&mut self, block: MemoryBlock)
        requires
            old(self).inv(),
            old(self).owns(block),
        ensures
            final(self).inv(),
            allocator_free_post(*old(self), *final(self), block),
    {
        let ghost pre = *old(self);
        match block.source.mem_type {
            MemoryType::Device => self.device_mgr.free(block),
            MemoryType::Host => self.host_mgr.free(block),
        }
        proof {
            let bt = block.source_type();
            assert forall|b2: MemoryBlock|
                #[trigger] pre.owns(b2) && !(b2.source_type() == bt && b2.source_idx()
                    == block.source_idx() && b2.region() == block.region()) implies self.owns(
                b2,
            ) by {
                if b2.source_type() == bt {
                    assert(pre.mgr(bt).owns(b2));
                }
            }
        }
    }

    /// Tear the allocator down: consume it and hand back the handle of
    /// every backing allocation object of both pools, device pool first,
    /// each in creation order, for the platform layer to release. Must
    /// happen once, after every outstanding block has been freed.
    pub fn destroy(self) -> (mems: Vec<erupt::vk::DeviceMemory>)
        ensures
            mems@ == self.device_mgr().arenas().map_values(|a: VkMemory| a.spec_mem())
                + self.host_mgr().arenas().map_values(|a: VkMemory| a.spec_mem()),
    {
        let mut mems: Vec<erupt::vk::DeviceMemory> = Vec::new();
        let dn = self.device_mgr.vk_mems.len();
        let mut k: usize = 0;
        while k < dn
            invariant
                dn == self.device_mgr().arenas().len(),
                k <= dn,
                mems@.len() == k,
                forall|j: int|
                    0 <= j < k ==> mems@[j] == (#[trigger] self.device_mgr().arenas()[j]).spec_mem(),
            decreases dn - k,
        {
            mems.push(self.device_mgr.vk_mems[k].mem);
            k += 1;
        }
        let hn = self.host_mgr.vk_mems.len();
        let mut l: usize = 0;
        while l < hn
            invariant
                dn == self.device_mgr().arenas().len(),
                hn == self.host_mgr().arenas().len(),
                l <= hn,
                mems@.len() == dn + l,
                forall|j: int|
                    0 <= j < dn ==> mems@[j] == (#[trigger] self.device_mgr().arenas()[j]).spec_mem(),
                forall|j: int|
                    0 <= j < l ==> mems@[dn + j] == (#[trigger] self.host_mgr().arenas()[j]).spec_mem(),
            decreases hn - l,
        {
            mems.push(self.host_mgr.vk_mems[l].mem);
            l += 1;
        }
        proof {
            assert(mems@ =~= self.device_mgr().arenas().map_values(|a: VkMemory| a.spec_mem())
                + self.host_mgr().arenas().map_values(|a: VkMemory| a.spec_mem()));
        }
        mems
    }
}

impl VkAllocator {
    /// How many arenas the pool of the given kind holds. Arenas are never
    /// discarded, so this only grows.
    pub fn arena_count(&self, mem_type: MemoryType) -> (n: usize)
        ensures
            n == self.mgr(mem_type).arenas().len(),
    {
        match mem_type {
            MemoryType::Device => self.device_mgr.vk_mems.len(),
            MemoryType::Host => self.host_mgr.vk_mems.len(),
        }
    }

    /// How many free regions one arena holds; `None` for an arena index out
    /// of range.
    pub fn free_region_count(&self, mem_type: MemoryType, arena_idx: usize) -> (n: Option<usize>)
        ensures
            match n {
                Some(c) => arena_idx < self.mgr(mem_type).arenas().len() && c == self.mgr(
                    mem_type,
                ).arenas()[arena_idx as int].free_list().len(),
                None => arena_idx >= self.mgr(mem_type).arenas().len(),
            },
    {
        let mgr = match mem_type {
            MemoryType::Device => &self.device_mgr,
            MemoryType::Host => &self.host_mgr,
        };
        if arena_idx < mgr.vk_mems.len() {
            Some(mgr.vk_mems[arena_idx].free_regions.len())
        } else {
            None
        }
    }

    /// One free region of one arena, by position in its ordered free list;
    /// `None` when either index is out of range.
    pub fn free_region_at(&self, mem_type: MemoryType, arena_idx: usize, region_idx: usize) -> (r:
        Option<MemoryRegion>)
        ensures
            match r {
                Some(region) => {
                    &&& arena_idx < self.mgr(mem_type).arenas().len()
                    &&& region_idx < self.mgr(mem_type).arenas()[arena_idx as int].free_list().len()
                    &&& region == self.mgr(mem_type).arenas()[arena_idx as int].free_list()[region_idx as int]
                },
                None => arena_idx >= self.mgr(mem_type).arenas().len() || region_idx >= self.mgr(
                    mem_type,
                ).arenas()[arena_idx as int].free_list().len(),
            },
    {
        let mgr = match mem_type {
            MemoryType::Device => &self.device_mgr,
            MemoryType::Host => &self.host_mgr,
        };
        if arena_idx < mgr.vk_mems.len() {
            let arena = &mgr.vk_mems[arena_idx];
            if region_idx < arena.free_regions.len() {
                Some(arena.free_regions[region_idx])
            } else {
                None
            }
        } else {
            None
        }
    }
}

/// What `VkAllocator::allocate_with_arena` promises: rejection exactly on
/// an excluded index with nothing touched, or the routed pool grown as
/// [`pool_grow_post`] says; the other pool is untouched either way.
pub open spec fn allocator_grow_post(
    pre: VkAllocator,
    post: VkAllocator,
    req: MemoryRequirements,
    mem_type: MemoryType,
    mem: erupt::vk::DeviceMemory,
    base_addr: Option<u64>,
    r: Result<MemoryBlock, AllocError>,
) -> bool {
    &&& match r {
        Err(e) => {
            &&& e == AllocError::IncompatibleMemoryType
            &&& !compatible(req, pre.mgr(mem_type).spec_mem_type_idx())
            &&& VkMemoryManager::same_pool(pre.mgr(mem_type), post.mgr(mem_type))
        },
        Ok(b) => {
            &&& compatible(req, pre.mgr(mem_type).spec_mem_type_idx())
            &&& pool_grow_post(pre.mgr(mem_type), post.mgr(mem_type), b, req, mem, base_addr)
            &&& b.source_type() == mem_type
        },
    }
    &&& match mem_type {
        MemoryType::Device => post.host_mgr() == pre.host_mgr(),
        MemoryType::Host => post.device_mgr() == pre.device_mgr(),
    }
}

/// What `VkAllocator::free` promises: the routed pool's arena takes the
/// span back as [`pool_free_post`] says, the other pool is untouched, and
/// every other outstanding block stays owned.
pub open spec fn allocator_free_post(pre: VkAllocator, post: VkAllocator, block: MemoryBlock) -> bool {
    &&& pool_free_post(pre.mgr(block.source_type()), post.mgr(block.source_type()), block)
    &&& match block.source_type() {
        MemoryType::Device => post.host_mgr() == pre.host_mgr(),
        MemoryType::Host => post.device_mgr() == pre.device_mgr(),
    }
    &&& forall|b2: MemoryBlock|
        #[trigger] pre.owns(b2) && !(b2.source_type() == block.source_type() && b2.source_idx()
            == block.source_idx() && b2.region() == block.region()) ==> post.owns(b2)
}

/// Law: what `free` gives back can be taken again. When a consumed span of
/// `spec_padding(offset, alignment) + size` bytes returns to a free list
/// whose regions all lie within `total` bytes, the resulting list always
/// has a region that fits `size` bytes at that alignment — so the very next
/// request of the same size and alignment is served from the same arena and
/// never forces a new one.
pub proof fn lemma_reuse_after_free(
    free: Seq<MemoryRegion>,
    region: MemoryRegion,
    size: u64,
    alignment: u64,
    total: u64,
)
    requires
        region.size == spec_padding(region.offset, alignment) + size,
        region.within(total),
        forall|j: int| 0 <= j < free.len() ==> (#[trigger] free[j]).within(total),
    ensures
        can_fit(free_list_after_give(free, region), size, alignment),
{
    let nf = free_list_after_give(free, region);
    let end = region.end();
    if exists|i: int| is_first_following(free, end, i) {
        let i = choose|i: int| is_first_following(free, end, i);
        if free[i].offset == end {
            // merged: the merged region starts where the span started and
            // is at least as large
            assert(free[i].within(total));
            assert(region.size + free[i].size <= total);
            assert(nf == free.update(i, MemoryRegion {
                offset: region.offset,
                size: (region.size + free[i].size) as u64,
            }));
            assert(nf[i].offset == region.offset);
            assert(nf[i].size == region.size + free[i].size);
            assert(region_fits(nf[i], size, alignment));
        } else {
            assert(nf[i] == region);
            assert(region_fits(nf[i], size, alignment));
        }
    } else {
        assert(nf[free.len() as int] == region);
        assert(region_fits(nf[free.len() as int], size, alignment));
    }
}

/// Law: `free` never merges backward. When an existing free region `p` ends
/// exactly where the returned span begins, the two stay separate entries:
/// region `p` survives unchanged, and a distinct entry still starts at the
/// span's own offset. Only a *following* contiguous region is absorbed.
pub proof fn lemma_no_backward_merge(
    free: Seq<MemoryRegion>,
    region: MemoryRegion,
    p: int,
    total: u64,
)
    requires
        0 <= p < free.len(),
        free[p].end() == region.offset,
        free[p].size > 0,
        region.size > 0,
        region.within(total),
        forall|j: int| 0 <= j < free.len() ==> (#[trigger] free[j]).within(total),
        // the list is ordered, as an arena's free list always is
        forall|i: int, j: int|
            #![trigger free[i], free[j]]
            0 <= i < j < free.len() ==> free[i].end() <= free[j].offset,
    ensures
        ({
            let nf = free_list_after_give(free, region);
            exists|q1: int, q2: int|
                {
                    &&& 0 <= q1 < nf.len()
                    &&& 0 <= q2 < nf.len()
                    &&& q1 != q2
                    &&& nf[q1] == free[p]
                    &&& nf[q2].offset == region.offset
                    &&& nf[q2].size >= region.size
                }
        }),
{
    let nf = free_list_after_give(free, region);
    let end = region.end();
    if exists|i: int| is_first_following(free, end, i) {
        let i = choose|i: int| is_first_following(free, end, i);
        assert(free[p].offset < region.offset);
        assert(free[i].offset >= end);
        assert(p != i);
        if free[i].offset == end {
            assert(nf[p] == free[p]);
            assert(free[i].within(total));
            assert(region.size + free[i].size <= total);
            assert(nf[i].offset == region.offset && nf[i].size >= region.size);
            assert({
                &&& 0 <= p < nf.len()
                &&& 0 <= i < nf.len()
                &&& p != i
                &&& nf[p] == free[p]
                &&& nf[i].offset == region.offset
                &&& nf[i].size >= region.size
            });
        } else {
            // the span is inserted at position i; p stays before it
            assert(p < i) by {
                if p > i {
                    assert(free[i].end() <= free[p].offset);
                }
            }
            assert(nf[p] == free[p]);
            assert(nf[i] == region);
            assert({
                &&& 0 <= p < nf.len()
                &&& 0 <= i < nf.len()
                &&& p != i
                &&& nf[p] == free[p]
                &&& nf[i].offset == region.offset
                &&& nf[i].size >= region.size
            });
        }
    } else {
        let q2 = free.len() as int;
        assert(nf[p] == free[p]);
        assert(nf[q2] == region);
        assert({
            &&& 0 <= p < nf.len()
            &&& 0 <= q2 < nf.len()
            &&& p != q2
            &&& nf[p] == free[p]
            &&& nf[q2].offset == region.offset
            &&& nf[q2].size >= region.size
        });
    }
}

/// Law: freeing a block never forces the next equal request to grow the
/// pool. After `free(block)`, the block's own arena again has a region
/// fitting a request of the block's size and alignment, so the pool cannot
/// answer it with a growth request — the reclaimed span is reused instead.
pub proof fn lemma_pool_reuse(
    pre: VkMemoryManager,
    post: VkMemoryManager,
    block: MemoryBlock,
    req: MemoryRequirements,
)
    requires
        pre.inv(),
        pre.owns(block),
        pool_free_post(pre, post, block),
        block.align_pad() == spec_padding(block.region().offset, req.alignment),
        block.region().size == block.align_pad() + req.size,
    ensures
        !pool_cannot_fit(post, req),
{
    let idx = block.source_idx();
    let arena_pre = pre.arenas()[idx];
    let arena_post = post.arenas()[idx];
    assert(arena_pre.inv());
    assert(arena_pre.allocated_set().contains(block.region()));
    assert(block.region().within(arena_pre.total_size()));
    lemma_reuse_after_free(
        arena_pre.free_list(),
        block.region(),
        req.size,
        req.alignment,
        arena_pre.total_size(),
    );
    assert(can_fit(arena_post.free_list(), req.size, req.alignment));
}

/// Law: the allocator reuses what it freed. After `free(block)`, the pool
/// of the block's kind again fits a request of the block's size and
/// alignment, so an equal `allocate` is served from an existing arena and
/// never answers with a growth request.
pub proof fn lemma_allocator_reuse(
    pre: VkAllocator,
    post: VkAllocator,
    block: MemoryBlock,
    req: MemoryRequirements,
)
    requires
        pre.inv(),
        pre.owns(block),
        allocator_free_post(pre, post, block),
        block.align_pad() == spec_padding(block.region().offset, req.alignment),
        block.region().size == block.align_pad() + req.size,
    ensures
        !pool_cannot_fit(post.mgr(block.source_type()), req),
{
    lemma_pool_reuse(pre.mgr(block.source_type()), post.mgr(block.source_type()), block, req);
}

} // verus!
