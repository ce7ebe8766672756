//! The physical memory manager: a block-granular bitmap over all of
//! physical memory, one bit per 4096-byte block, bit set meaning
//! allocated. The manager owns the bitmap words together with the
//! total/allocated/free block counters, and keeps the counters and the
//! bitmap in lock step: `allocated_blocks + free_blocks == mem_blocks`
//! and `free_blocks` equals the number of clear bits.

use vstd::prelude::*;

use crate::mem_view::PhysMemView;
use crate::MemError;

verus! {

/// Fixed allocation granularity: one block is 4096 bytes.
pub const MEM_BLOCK_SIZE: u32 = 4096;

/// Kind of a firmware-reported memory region.
#[derive(Debug, PartialEq, Eq, Structural, Clone, Copy)]
pub enum MemoryRegionKind {
    Available,
    Reserved,
}

/// One region of the boot memory map: `[start_address, start_address + length)`.
#[derive(Debug, PartialEq, Eq, Structural, Clone, Copy)]
pub struct MemoryRegion {
    pub start_address: u64,
    pub length: u64,
    pub kind: MemoryRegionKind,
}

/// A block descriptor handed to callers. Produced fresh on every query;
/// it never aliases the bitmap, so callers cannot corrupt allocator state
/// through it.
#[derive(Debug, PartialEq, Eq, Structural, Clone, Copy)]
pub struct MemoryBlockInfo {
    pub memmap_addr: u32,
    pub mem_block_start_addr: u32,
    pub mem_block_size: u32,
    pub mem_block_index: usize,
    pub is_available: bool,
}

impl MemoryBlockInfo {
    /// An empty descriptor: all fields zero, not available.
    pub fn new() -> (r: MemoryBlockInfo)
        ensures
            r.memmap_addr == 0,
            r.mem_block_start_addr == 0,
            r.mem_block_size == 0,
            r.mem_block_index == 0,
            !r.is_available,
    {
        MemoryBlockInfo {
            memmap_addr: 0,
            mem_block_start_addr: 0,
            mem_block_size: 0,
            mem_block_index: 0,
            is_available: false,
        }
    }
}

/// Whether block `i` is marked allocated in the bitmap words `words`.
#[verifier::opaque]
pub open spec fn spec_bit(words: Seq<u32>, i: int) -> bool {
    words[i / 32] & (1u32 << ((i % 32) as u32)) != 0
}

/// Number of clear (free) bits among the first `n` blocks.
#[verifier::opaque]
pub open spec fn count_free(words: Seq<u32>, n: int) -> int
    decreases n,
{
    if n <= 0 {
        0
    } else {
        count_free(words, n - 1) + if spec_bit(words, n - 1) {
            0int
        } else {
            1int
        }
    }
}

/// Number of bitmap words needed for `n` blocks.
pub open spec fn spec_word_count(n: int) -> int {
    (n + 31) / 32
}

proof fn lemma_set_bit_self(w: u32, b: u32)
    by (bit_vector)
    requires
        b < 32,
    ensures
        (w | (1u32 << b)) & (1u32 << b) != 0,
{
}

proof fn lemma_set_bit_other(w: u32, b: u32, k: u32)
    by (bit_vector)
    requires
        b < 32,
        k < 32,
        b != k,
    ensures
        ((w | (1u32 << b)) & (1u32 << k)) == (w & (1u32 << k)),
{
}

proof fn lemma_clear_bit_self(w: u32, b: u32)
    by (bit_vector)
    requires
        b < 32,
    ensures
        (w & !(1u32 << b)) & (1u32 << b) == 0,
{
}

proof fn lemma_clear_bit_other(w: u32, b: u32, k: u32)
    by (bit_vector)
    requires
        b < 32,
        k < 32,
        b != k,
    ensures
        ((w & !(1u32 << b)) & (1u32 << k)) == (w & (1u32 << k)),
{
}

proof fn lemma_full_word_bit(b: u32)
    by (bit_vector)
    requires
        b < 32,
    ensures
        0xffff_ffffu32 & (1u32 << b) != 0,
{
}

/// Counting is unchanged when every bit below `n` is unchanged.
proof fn lemma_count_free_same(w1: Seq<u32>, w2: Seq<u32>, n: int)
    requires
        forall|k: int| 0 <= k < n ==> spec_bit(w1, k) == spec_bit(w2, k),
    ensures
        count_free(w1, n) == count_free(w2, n),
    decreases n,
{
    reveal(count_free);
    if n > 0 {
        lemma_count_free_same(w1, w2, n - 1);
    }
}

/// Setting exactly one clear bit below `n` lowers the free count by one.
proof fn lemma_count_free_set(w1: Seq<u32>, w2: Seq<u32>, j: int, n: int)
    requires
        0 <= j < n,
        forall|k: int| 0 <= k < n && k != j ==> spec_bit(w1, k) == spec_bit(w2, k),
        !spec_bit(w1, j),
        spec_bit(w2, j),
    ensures
        count_free(w2, n) == count_free(w1, n) - 1,
    decreases n,
{
    reveal(count_free);
    if j == n - 1 {
        lemma_count_free_same(w1, w2, n - 1);
    } else {
        lemma_count_free_set(w1, w2, j, n - 1);
    }
}

/// Clearing exactly one set bit below `n` raises the free count by one.
proof fn lemma_count_free_clear(w1: Seq<u32>, w2: Seq<u32>, j: int, n: int)
    requires
        0 <= j < n,
        forall|k: int| 0 <= k < n && k != j ==> spec_bit(w1, k) == spec_bit(w2, k),
        spec_bit(w1, j),
        !spec_bit(w2, j),
    ensures
        count_free(w2, n) == count_free(w1, n) + 1,
    decreases n,
{
    reveal(count_free);
    if j == n - 1 {
        lemma_count_free_same(w1, w2, n - 1);
    } else {
        lemma_count_free_clear(w1, w2, j, n - 1);
    }
}

/// The free count is between 0 and `n`.
proof fn lemma_count_free_bounds(w: Seq<u32>, n: int)
    requires
        n >= 0,
    ensures
        0 <= count_free(w, n) <= n,
    decreases n,
{
    reveal(count_free);
    if n > 0 {
        lemma_count_free_bounds(w, n - 1);
    }
}

/// When every bit below `n` is set, nothing is free.
proof fn lemma_count_free_all_set(w: Seq<u32>, n: int)
    requires
        n >= 0,
        forall|k: int| 0 <= k < n ==> spec_bit(w, k),
    ensures
        count_free(w, n) == 0,
    decreases n,
{
    reveal(count_free);
    if n > 0 {
        lemma_count_free_all_set(w, n - 1);
    }
}

/// Highest address any region of a boot memory map reaches: the bitmap
/// must cover every addressable block up to here, holes included.
pub open spec fn max_region_end(regions: Seq<MemoryRegion>) -> int
    decreases regions.len(),
{
    if regions.len() == 0 {
        0
    } else {
        let rest = max_region_end(regions.drop_last());
        let last = regions.last().start_address + regions.last().length;
        if last > rest {
            last as int
        } else {
            rest
        }
    }
}

/// A value clamped to the 32-bit address-width maximum.
pub open spec fn spec_clamp_u32(x: int) -> int {
    if x > u32::MAX {
        u32::MAX as int
    } else {
        x
    }
}

/// First block lying fully inside the region: a leading partial block is
/// left out.
pub open spec fn region_first_block(r: MemoryRegion) -> int {
    r.start_address / 4096 + if r.start_address % 4096 != 0 {
        1int
    } else {
        0int
    }
}

/// First block past the region: a trailing partial block is left out.
pub open spec fn region_end_block(r: MemoryRegion) -> int {
    (r.start_address + r.length) as int / 4096
}

/// Whether block `k` lies fully inside the `Available` region `r`.
pub open spec fn block_in_region(r: MemoryRegion, k: int) -> bool {
    r.kind is Available && region_first_block(r) <= k < region_end_block(r)
}

/// Whether block `k` lies fully inside some `Available` region of the map.
pub open spec fn block_in_available(regions: Seq<MemoryRegion>, k: int) -> bool {
    exists|i: int| 0 <= i < regions.len() && block_in_region(regions[i], k)
}

/// Whether block `k` overlaps the byte range `[start, end)`: such blocks
/// are re-reserved after the available regions have been freed.
pub open spec fn block_covers_range(start: int, end: int, k: int) -> bool {
    start < end && start / 4096 <= k < (end + 4095) / 4096
}

/// Extending a prefix of the boot map by one region extends the set of
/// blocks it makes available by exactly that region's blocks.
proof fn lemma_block_in_available_take_step(regions: Seq<MemoryRegion>, i: int)
    requires
        0 <= i < regions.len(),
    ensures
        forall|k: int|
            block_in_available(regions.take(i + 1), k) <==> (block_in_available(
                regions.take(i),
                k,
            ) || #[trigger] block_in_region(regions[i], k)),
{
    let prefix = regions.take(i);
    let prefix2 = regions.take(i + 1);
    assert forall|k: int|
        block_in_available(prefix2, k) <==> (block_in_available(prefix, k) || block_in_region(
            regions[i],
            k,
        )) by {
        if block_in_available(prefix, k) {
            let w = choose|w: int| 0 <= w < prefix.len() && block_in_region(prefix[w], k);
            assert(block_in_region(prefix2[w], k));
        }
        if block_in_region(regions[i], k) {
            assert(block_in_region(prefix2[i], k));
        }
        if block_in_available(prefix2, k) {
            let w = choose|w: int| 0 <= w < prefix2.len() && block_in_region(prefix2[w], k);
            if w < i {
                assert(block_in_region(prefix[w], k));
            } else {
                assert(block_in_region(regions[i], k));
            }
        }
    }
}

/// A boot map never reaches a negative address.
proof fn lemma_max_region_end_nonneg(regions: Seq<MemoryRegion>)
    ensures
        max_region_end(regions) >= 0,
    decreases regions.len(),
{
    if regions.len() > 0 {
        lemma_max_region_end_nonneg(regions.drop_last());
    }
}

/// The physical memory manager. `memmap` holds the block bitmap itself;
/// `memmap_addr` and `memmap_size` record the physical placement that the
/// running kernel reserves for it.
#[derive(Debug, PartialEq, Eq)]
pub struct PhysicalMemoryManager {
    pub total_mem_size: u32,
    pub mem_blocks: u32,
    pub allocated_blocks: u32,
    pub free_blocks: u32,
    pub memmap_addr: u32,
    pub memmap_size: u32,
    pub memmap: Vec<u32>,
}

impl PhysicalMemoryManager {
    /// Whether block `i` is marked allocated.
    pub open spec fn spec_is_allocated(self, i: int) -> bool {
        spec_bit(self.memmap@, i)
    }

    /// Well-formedness: the counters and the bitmap agree. This is the
    /// state invariant every operation preserves; in particular
    /// `allocated_blocks + free_blocks == mem_blocks` holds in every
    /// reachable state.
    pub open spec fn wf(self) -> bool {
        &&& self.mem_blocks == self.total_mem_size / MEM_BLOCK_SIZE
        &&& self.memmap@.len() == spec_word_count(self.mem_blocks as int)
        &&& self.allocated_blocks + self.free_blocks == self.mem_blocks
        &&& self.free_blocks as int == count_free(self.memmap@, self.mem_blocks as int)
        &&& forall|k: int|
            self.mem_blocks <= k < 32 * self.memmap@.len() ==> spec_bit(self.memmap@, k)
        &&& self.memmap_size == (self.mem_blocks / 32) * 4
        &&& self.memmap_addr as int + spec_word_count(self.mem_blocks as int) * 4 <= u32::MAX
    }

    /// A manager with no memory attached yet; `init` populates it.
    pub fn new() -> (r: PhysicalMemoryManager)
        ensures
            r.wf(),
            r.total_mem_size == 0,
            r.mem_blocks == 0,
            r.allocated_blocks == 0,
            r.free_blocks == 0,
            r.memmap_addr == 0,
            r.memmap_size == 0,
    {
        proof {
            reveal(count_free);
        }
        PhysicalMemoryManager {
            total_mem_size: 0,
            mem_blocks: 0,
            allocated_blocks: 0,
            free_blocks: 0,
            memmap_addr: 0,
            memmap_size: 0,
            memmap: Vec::new(),
        }
    }

    /// Sets up the bitmap from the boot memory map. First every block is
    /// marked allocated, so that an unrecognized region is never handed
    /// out; then the blocks lying fully inside `Available` regions are
    /// freed; last, the blocks overlapping the bitmap's own storage, the
    /// kernel image `[kernel_start, kernel_end)` and the boot payload
    /// `[payload_start, payload_end)` are re-marked allocated, in exactly
    /// this order. The bitmap is placed directly after the boot payload.
    #[verifier::rlimit(100)]
    #[verifier::spinoff_prover]
    pub fn init(
        &mut self,
        regions: &Vec<MemoryRegion>,
        kernel_start: u32,
        kernel_end: u32,
        payload_start: u32,
        payload_end: u32,
    )
        requires
            // the bitmap (at most 128 KiB plus one word for a 4 GiB space)
            // must itself fit in the 32-bit address space after the payload
            payload_end < 0xfffd_0000,
            // every region ends within the 64-bit address space
            forall|i: int|
                0 <= i < regions@.len() ==> regions@[i].start_address + regions@[i].length
                    <= u64::MAX,
        ensures
            final(self).wf(),
            final(self).total_mem_size == spec_clamp_u32(max_region_end(regions@)),
            final(self).mem_blocks == final(self).total_mem_size / MEM_BLOCK_SIZE,
            final(self).memmap_addr == payload_end + 1,
            final(self).memmap_size == (final(self).mem_blocks / 32) * 4,
            forall|k: int| #![trigger final(self).spec_is_allocated(k)]
                0 <= k < final(self).mem_blocks ==> (final(self).spec_is_allocated(k) <==> {
                    ||| !block_in_available(regions@, k)
                    ||| block_covers_range(
                        final(self).memmap_addr as int,
                        final(self).memmap_addr + final(self).memmap_size,
                        k,
                    )
                    ||| block_covers_range(kernel_start as int, kernel_end as int, k)
                    ||| block_covers_range(payload_start as int, payload_end as int, k)
                }),
    {
        // total memory: the highest address any region reaches, clamped
        // to the 32-bit maximum
        let mut total: u32 = 0;
        let mut ri: usize = 0;
        while ri < regions.len()
            invariant
                ri <= regions@.len(),
                forall|i: int|
                    0 <= i < regions@.len() ==> regions@[i].start_address + regions@[i].length
                        <= u64::MAX,
                total as int == spec_clamp_u32(max_region_end(regions@.take(ri as int))),
            decreases regions@.len() - ri,
        {
            let r: MemoryRegion = regions[ri];
            let ghost prefix = regions@.take(ri as int);
            let end: u64 = r.start_address + r.length;
            let end32: u32 = if end > u32::MAX as u64 {
                u32::MAX
            } else {
                end as u32
            };
            if end32 > total {
                total = end32;
            }
            proof {
                let prefix2 = regions@.take(ri + 1);
                assert(prefix2.drop_last() =~= prefix);
                assert(prefix2.last() == regions@[ri as int]);
                lemma_max_region_end_nonneg(prefix);
            }
            ri += 1;
        }
        proof {
            assert(regions@.take(regions@.len() as int) =~= regions@);
        }
        self.total_mem_size = total;
        self.mem_blocks = total / MEM_BLOCK_SIZE;
        self.allocated_blocks = self.mem_blocks;
        self.free_blocks = 0;
        self.memmap_addr = payload_end + 1;
        self.memmap_size = (self.mem_blocks / 32) * 4;

        // mark all blocks allocated: reserved is the default, free is an
        // explicit grant
        assert(self.mem_blocks < 0x100000);
        let wc: usize = (self.mem_blocks as usize + 31) / 32;
        let mut mm: Vec<u32> = Vec::new();
        while mm.len() < wc
            invariant
                mm@.len() <= wc,
                forall|w: int| 0 <= w < mm@.len() ==> mm@[w] == u32::MAX,
            decreases wc - mm@.len(),
        {
            mm.push(u32::MAX);
        }
        self.memmap = mm;
        proof {
            reveal(spec_bit);
            assert forall|k: int| 0 <= k < 32 * self.memmap@.len() implies spec_bit(
                self.memmap@,
                k,
            ) by {
                assert(0 <= k / 32 < self.memmap@.len());
                assert(self.memmap@[k / 32] == u32::MAX);
                lemma_full_word_bit((k % 32) as u32);
            }
            lemma_count_free_all_set(self.memmap@, self.mem_blocks as int);
            assert(self.wf());
        }

        // free the blocks lying fully inside available regions
        let ghost mb = self.mem_blocks;
        let mut ri2: usize = 0;
        while ri2 < regions.len()
            invariant
                ri2 <= regions@.len(),
                forall|i: int|
                    0 <= i < regions@.len() ==> regions@[i].start_address + regions@[i].length
                        <= u64::MAX,
                self.wf(),
                self.mem_blocks == mb,
                self.total_mem_size == total,
                self.memmap_addr == payload_end + 1,
                self.memmap_size == (mb / 32) * 4,
                forall|k: int| #![trigger self.spec_is_allocated(k)]
                    0 <= k < mb ==> (self.spec_is_allocated(k) <==> !block_in_available(
                        regions@.take(ri2 as int),
                        k,
                    )),
            decreases regions@.len() - ri2,
        {
            let r: MemoryRegion = regions[ri2];
            let ghost at_iter = *self;
            self.clear_region(r);
            proof {
                lemma_block_in_available_take_step(regions@, ri2 as int);
                assert forall|k: int| 0 <= k < mb implies (self.spec_is_allocated(k)
                    <==> !block_in_available(regions@.take(ri2 + 1), k)) by {
                    assert(at_iter.spec_is_allocated(k) <==> !block_in_available(
                        regions@.take(ri2 as int),
                        k,
                    ));
                    assert(self.spec_is_allocated(k) <==> at_iter.spec_is_allocated(k)
                        && !block_in_region(r, k));
                }
            }
            ri2 += 1;
        }
        proof {
            assert(regions@.take(regions@.len() as int) =~= regions@);
        }

        // re-reserve what is known to be occupied: the bitmap's own
        // storage, the kernel image and the boot payload, in this order
        let memmap_start: u32 = self.memmap_addr;
        let memmap_end: u32 = self.memmap_addr + self.memmap_size;
        self.reserve_range(memmap_start, memmap_end);
        self.reserve_range(kernel_start, kernel_end);
        self.reserve_range(payload_start, payload_end);
    }

    /// Frees every block lying fully inside the region, when the region
    /// is `Available`; leaves the bitmap unchanged otherwise.
    #[verifier::rlimit(100)]
    #[verifier::spinoff_prover]
    fn clear_region(&mut self, r: MemoryRegion)
        requires
            old(self).wf(),
            r.start_address + r.length <= u64::MAX,
        ensures
            final(self).wf(),
            final(self).total_mem_size == old(self).total_mem_size,
            final(self).mem_blocks == old(self).mem_blocks,
            final(self).memmap_addr == old(self).memmap_addr,
            final(self).memmap_size == old(self).memmap_size,
            forall|k: int| #![trigger final(self).spec_is_allocated(k)]
                0 <= k < final(self).mem_blocks ==> (final(self).spec_is_allocated(k) <==> old(
                    self).spec_is_allocated(k) && !block_in_region(r, k)),
    {
        let ghost pre = *old(self);
        if !(r.kind == MemoryRegionKind::Available) {
            return ;
        }
        let s: u64 = r.start_address;
        let first64: u64 = s / 4096 + if s % 4096 != 0 {
            1
        } else {
            0
        };
        let end64: u64 = (s + r.length) / 4096;
        let endc: u64 = if end64 > self.mem_blocks as u64 {
            self.mem_blocks as u64
        } else {
            end64
        };
        let mut b: u64 = if first64 > endc {
            endc
        } else {
            first64
        };
        while b < endc
            invariant
                self.wf(),
                self.total_mem_size == pre.total_mem_size,
                self.mem_blocks == pre.mem_blocks,
                self.memmap_addr == pre.memmap_addr,
                self.memmap_size == pre.memmap_size,
                b <= endc,
                endc <= pre.mem_blocks,
                first64 as int == region_first_block(r),
                end64 as int == region_end_block(r),
                endc == if end64 > pre.mem_blocks as u64 {
                    pre.mem_blocks as u64
                } else {
                    end64
                },
                b >= first64 || b == endc,
                forall|k: int| #![trigger self.spec_is_allocated(k)]
                    0 <= k < pre.mem_blocks ==> (self.spec_is_allocated(k)
                        <==> pre.spec_is_allocated(k) && !(first64 <= k < b)),
            decreases endc - b,
        {
            let ghost at_iter = *self;
            let bi: usize = b as usize;
            if self.is_allocated_block(bi) {
                self.mark_free(bi);
            }
            proof {
                assert(pre.mem_blocks as int <= 32 * at_iter.memmap@.len());
                assert forall|k: int| 0 <= k < pre.mem_blocks implies (self.spec_is_allocated(k)
                    <==> pre.spec_is_allocated(k) && !(first64 <= k < b + 1)) by {
                    if k == b as int {
                        assert(!self.spec_is_allocated(k));
                    } else {
                        assert(self.spec_is_allocated(k) == at_iter.spec_is_allocated(k));
                        assert(at_iter.spec_is_allocated(k) <==> pre.spec_is_allocated(k) && !(
                        first64 <= k < b));
                    }
                }
            }
            b += 1;
        }
        proof {
            assert forall|k: int| 0 <= k < pre.mem_blocks implies (self.spec_is_allocated(k)
                <==> pre.spec_is_allocated(k) && !block_in_region(r, k)) by {
                assert(self.spec_is_allocated(k) <==> pre.spec_is_allocated(k) && !(first64 <= k
                    < b));
                assert(block_in_region(r, k) <==> (first64 <= k < b));
            }
        }
    }

    /// Marks every block overlapping the byte range `[start, end)`
    /// allocated.
    #[verifier::rlimit(100)]
    #[verifier::spinoff_prover]
    fn reserve_range(&mut self, start: u32, end: u32)
        requires
            old(self).wf(),
        ensures
            final(self).wf(),
            final(self).total_mem_size == old(self).total_mem_size,
            final(self).mem_blocks == old(self).mem_blocks,
            final(self).memmap_addr == old(self).memmap_addr,
            final(self).memmap_size == old(self).memmap_size,
            forall|k: int| #![trigger final(self).spec_is_allocated(k)]
                0 <= k < final(self).mem_blocks ==> (final(self).spec_is_allocated(k) <==> old(
                    self,
                ).spec_is_allocated(k) || block_covers_range(start as int, end as int, k)),
    {
        let ghost pre = *old(self);
        if start >= end {
            return ;
        }
        let first: u64 = (start / 4096) as u64;
        let endcover: u64 = (end as u64 + 4095) / 4096;
        let endc: u64 = if endcover > self.mem_blocks as u64 {
            self.mem_blocks as u64
        } else {
            endcover
        };
        let mut b: u64 = if first > endc {
            endc
        } else {
            first
        };
        while b < endc
            invariant
                self.wf(),
                self.total_mem_size == pre.total_mem_size,
                self.mem_blocks == pre.mem_blocks,
                self.memmap_addr == pre.memmap_addr,
                self.memmap_size == pre.memmap_size,
                b <= endc,
                endc <= self.mem_blocks,
                first == start as int / 4096,
                endcover == (end as int + 4095) / 4096,
                endc == if endcover > pre.mem_blocks as u64 {
                    pre.mem_blocks as u64
                } else {
                    endcover
                },
                b >= first || b == endc,
                forall|k: int| #![trigger self.spec_is_allocated(k)]
                    0 <= k < pre.mem_blocks ==> (self.spec_is_allocated(k)
                        <==> pre.spec_is_allocated(k) || (first <= k < b)),
            decreases endc - b,
        {
            let ghost at_iter = *self;
            let bi: usize = b as usize;
            if !self.is_allocated_block(bi) {
                self.mark_allocated(bi);
            }
            proof {
                assert(pre.mem_blocks as int <= 32 * at_iter.memmap@.len());
                assert forall|k: int| 0 <= k < pre.mem_blocks implies (self.spec_is_allocated(k)
                    <==> pre.spec_is_allocated(k) || (first <= k < b + 1)) by {
                    if k == b as int {
                        assert(self.spec_is_allocated(k));
                        assert(first <= k < b + 1);
                    } else {
                        assert(self.spec_is_allocated(k) == at_iter.spec_is_allocated(k));
                        assert(at_iter.spec_is_allocated(k) <==> pre.spec_is_allocated(k) || (
                        first <= k < b));
                    }
                }
            }
            b += 1;
        }
        proof {
            assert(forall|k: int|
                0 <= k < pre.mem_blocks ==> (self.spec_is_allocated(k) <==> pre.spec_is_allocated(
                    k,
                ) || (first <= k < b)));
            assert forall|k: int| 0 <= k < pre.mem_blocks implies (self.spec_is_allocated(k)
                <==> pre.spec_is_allocated(k) || block_covers_range(
                start as int,
                end as int,
                k,
            )) by {
                assert(start < end);
            }
        }
    }

    /// Reads bit `i` of the bitmap.
    fn is_allocated_block(&self, i: usize) -> (r: bool)
        requires
            self.wf(),
            i < self.mem_blocks,
        ensures
            r == self.spec_is_allocated(i as int),
    {
        proof {
            reveal(spec_bit);
        }
        let wi: usize = i / 32;
        let bi: u32 = (i % 32) as u32;
        assert(wi < self.memmap@.len() && bi < 32);
        (self.memmap[wi] & (1u32 << bi)) != 0
    }

    /// Marks the free block `i` allocated and moves one block from the
    /// free counter to the allocated counter.
    fn mark_allocated(&mut self, i: usize)
        requires
            old(self).wf(),
            i < old(self).mem_blocks,
            !old(self).spec_is_allocated(i as int),
        ensures
            final(self).wf(),
            final(self).spec_is_allocated(i as int),
            forall|k: int|
                0 <= k < 32 * old(self).memmap@.len() && k != i ==> final(self).spec_is_allocated(
                    k,
                ) == old(self).spec_is_allocated(k),
            final(self).free_blocks == old(self).free_blocks - 1,
            final(self).allocated_blocks == old(self).allocated_blocks + 1,
            final(self).total_mem_size == old(self).total_mem_size,
            final(self).mem_blocks == old(self).mem_blocks,
            final(self).memmap_addr == old(self).memmap_addr,
            final(self).memmap_size == old(self).memmap_size,
            final(self).memmap@.len() == old(self).memmap@.len(),
    {
        let ghost pre = *self;
        let wi: usize = i / 32;
        let bi: u32 = (i % 32) as u32;
        assert(wi < self.memmap@.len() && bi < 32);
        let w: u32 = self.memmap[wi];
        self.memmap[wi] = w | (1u32 << bi);
        proof {
            reveal(spec_bit);
            let words1 = pre.memmap@;
            let words2 = self.memmap@;
            assert forall|k: int| 0 <= k < 32 * words1.len() && k != i implies spec_bit(
                words2,
                k,
            ) == spec_bit(words1, k) by {
                if k / 32 == wi {
                    assert(32 * (k / 32) + (k % 32) == k && 32 * (i / 32) + (i % 32) == i as int);
                    assert((k % 32) as u32 != bi);
                    lemma_set_bit_other(w, bi, (k % 32) as u32);
                } else {
                    assert(words2[k / 32] == words1[k / 32]);
                }
            }
            lemma_set_bit_self(w, bi);
            assert(spec_bit(words2, i as int));
            lemma_count_free_set(words1, words2, i as int, pre.mem_blocks as int);
            lemma_count_free_bounds(words1, pre.mem_blocks as int);
            // the cleared bit witnesses free_blocks > 0
            assert(count_free(words1, pre.mem_blocks as int) >= 1) by {
                lemma_count_free_bounds(words2, pre.mem_blocks as int);
            }
        }
        self.free_blocks = self.free_blocks - 1;
        self.allocated_blocks = self.allocated_blocks + 1;
    }

    /// Marks the allocated block `i` free and moves one block from the
    /// allocated counter to the free counter.
    fn mark_free(&mut self, i: usize)
        requires
            old(self).wf(),
            i < old(self).mem_blocks,
            old(self).spec_is_allocated(i as int),
        ensures
            final(self).wf(),
            !final(self).spec_is_allocated(i as int),
            forall|k: int|
                0 <= k < 32 * old(self).memmap@.len() && k != i ==> final(self).spec_is_allocated(
                    k,
                ) == old(self).spec_is_allocated(k),
            final(self).free_blocks == old(self).free_blocks + 1,
            final(self).allocated_blocks == old(self).allocated_blocks - 1,
            final(self).total_mem_size == old(self).total_mem_size,
            final(self).mem_blocks == old(self).mem_blocks,
            final(self).memmap_addr == old(self).memmap_addr,
            final(self).memmap_size == old(self).memmap_size,
            final(self).memmap@.len() == old(self).memmap@.len(),
    {
        let ghost pre = *self;
        let wi: usize = i / 32;
        let bi: u32 = (i % 32) as u32;
        assert(wi < self.memmap@.len() && bi < 32);
        let w: u32 = self.memmap[wi];
        self.memmap[wi] = w & !(1u32 << bi);
        proof {
            reveal(spec_bit);
            let words1 = pre.memmap@;
            let words2 = self.memmap@;
            assert forall|k: int| 0 <= k < 32 * words1.len() && k != i implies spec_bit(
                words2,
                k,
            ) == spec_bit(words1, k) by {
                if k / 32 == wi {
                    assert(32 * (k / 32) + (k % 32) == k && 32 * (i / 32) + (i % 32) == i as int);
                    assert((k % 32) as u32 != bi);
                    lemma_clear_bit_other(w, bi, (k % 32) as u32);
                } else {
                    assert(words2[k / 32] == words1[k / 32]);
                }
            }
            lemma_clear_bit_self(w, bi);
            assert(!spec_bit(words2, i as int));
            lemma_count_free_clear(words1, words2, i as int, pre.mem_blocks as int);
            lemma_count_free_bounds(words2, pre.mem_blocks as int);
        }
        self.free_blocks = self.free_blocks + 1;
        self.allocated_blocks = self.allocated_blocks - 1;
    }

    /// Builds the descriptor of block `index` from the current bitmap
    /// state.
    pub fn get_mem_block(&self, index: usize) -> (r: MemoryBlockInfo)
        requires
            self.wf(),
            index < self.mem_blocks,
        ensures
            r.memmap_addr == self.memmap_addr + index as int / 8,
            r.mem_block_start_addr == index * MEM_BLOCK_SIZE,
            r.mem_block_size == MEM_BLOCK_SIZE,
            r.mem_block_index == index,
            r.is_available == !self.spec_is_allocated(index as int),
    {
        proof {
            lemma_block_addr_fits(self.mem_blocks as int, index as int, self.total_mem_size as int);
            assert(index as int / 8 < spec_word_count(self.mem_blocks as int) * 4);
        }
        let memmap_addr: u32 = self.memmap_addr + (index / 8) as u32;
        let mem_block_start_addr: u32 = index as u32 * MEM_BLOCK_SIZE;
        let is_available: bool = !self.is_allocated_block(index);
        MemoryBlockInfo {
            memmap_addr,
            mem_block_start_addr,
            mem_block_size: MEM_BLOCK_SIZE,
            mem_block_index: index,
            is_available,
        }
    }

    /// Allocates the lowest-addressed free block: scans the bitmap words
    /// from the start, skipping words with no clear bit, sets the first
    /// clear bit found and adjusts the counters. Fails with `OutOfMemory`
    /// exactly when no block is free, in which case nothing changes.
    pub fn alloc_single_mem_block(&mut self) -> (r: Result<MemoryBlockInfo, MemError>)
        requires
            old(self).wf(),
        ensures
            final(self).wf(),
            r is Ok <==> old(self).free_blocks > 0,
            r is Err ==> r == Result::<MemoryBlockInfo, MemError>::Err(MemError::OutOfMemory)
                && *final(self) == *old(self),
            r matches Ok(b) ==> {
                &&& b.mem_block_index < old(self).mem_blocks
                &&& !old(self).spec_is_allocated(b.mem_block_index as int)
                &&& forall|k: int|
                    0 <= k < b.mem_block_index ==> old(self).spec_is_allocated(k)
                &&& final(self).spec_is_allocated(b.mem_block_index as int)
                &&& forall|k: int|
                    0 <= k < 32 * old(self).memmap@.len() && k != b.mem_block_index ==> final(self).spec_is_allocated(k) == old(self).spec_is_allocated(k)
                &&& final(self).free_blocks == old(self).free_blocks - 1
                &&& final(self).allocated_blocks == old(self).allocated_blocks + 1
                &&& final(self).total_mem_size == old(self).total_mem_size
                &&& final(self).mem_blocks == old(self).mem_blocks
                &&& final(self).memmap_addr == old(self).memmap_addr
                &&& final(self).memmap_size == old(self).memmap_size
                &&& b.mem_block_start_addr == b.mem_block_index * MEM_BLOCK_SIZE
                &&& b.mem_block_size == MEM_BLOCK_SIZE
                &&& !b.is_available
                &&& b.memmap_addr == final(self).memmap_addr + b.mem_block_index as int / 8
            },
    {
        if self.free_blocks == 0 {
            return Err(MemError::OutOfMemory);
        }
        let ghost pre = *old(self);
        let mut wi: usize = 0;
        while wi < self.memmap.len()
            invariant
                *self == pre,
                pre == *old(self),
                pre.wf(),
                pre.free_blocks > 0,
                wi <= pre.memmap@.len(),
                forall|k: int| 0 <= k < 32 * wi ==> spec_bit(pre.memmap@, k),
            decreases pre.memmap@.len() - wi,
        {
            let w: u32 = self.memmap[wi];
            if w != u32::MAX {
                let mut j: u32 = 0;
                while j < 32
                    invariant
                        *self == pre,
                        pre == *old(self),
                        pre.wf(),
                        pre.free_blocks > 0,
                        wi < pre.memmap@.len(),
                        j <= 32,
                        w == pre.memmap@[wi as int],
                        forall|k: int| 0 <= k < 32 * wi ==> spec_bit(pre.memmap@, k),
                        forall|b: u32| b < j ==> w & (1u32 << b) != 0,
                    decreases 32 - j,
                {
                    if w & (1u32 << j) == 0 {
                        proof {
                            reveal(spec_bit);
                            assert(32 * wi + (j as int) < 32 * pre.memmap@.len());
                            assert((32 * wi + j as int) / 32 == wi as int && (32 * wi
                                + j as int) % 32 == j as int);
                            assert(!spec_bit(pre.memmap@, 32 * wi + j as int));
                            // padding bits are always set, so this index is a real block
                            assert(32 * wi + (j as int) < pre.mem_blocks as int);
                            assert forall|k: int| 0 <= k < 32 * wi + j as int implies spec_bit(
                                pre.memmap@,
                                k,
                            ) by {
                                if 32 * wi <= k {
                                    assert(k / 32 == wi as int && 0 <= k % 32 < j as int);
                                    assert(w & (1u32 << ((k % 32) as u32)) != 0);
                                }
                            }
                        }
                        let idx: usize = wi * 32 + j as usize;
                        self.mark_allocated(idx);
                        let info = self.get_mem_block(idx);
                        return Ok(info);
                    }
                    j += 1;
                }
                proof {
                    reveal(spec_bit);
                    assert forall|k: int| 32 * wi <= k < 32 * (wi + 1) implies spec_bit(
                        pre.memmap@,
                        k,
                    ) by {
                        assert(k / 32 == wi as int && 0 <= k % 32 < 32);
                        assert(w & (1u32 << ((k % 32) as u32)) != 0);
                    }
                }
            } else {
                proof {
                    reveal(spec_bit);
                    assert forall|k: int| 32 * wi <= k < 32 * (wi + 1) implies spec_bit(
                        pre.memmap@,
                        k,
                    ) by {
                        assert(k / 32 == wi as int && 0 <= k % 32 < 32);
                        lemma_full_word_bit((k % 32) as u32);
                    }
                }
            }
            wi += 1;
        }
        proof {
            assert forall|k: int| 0 <= k < pre.mem_blocks as int implies spec_bit(
                pre.memmap@,
                k,
            ) by {
                assert(pre.mem_blocks as int <= 32 * pre.memmap@.len());
            }
            lemma_count_free_all_set(pre.memmap@, pre.mem_blocks as int);
            assert(false);
        }
        Err(MemError::OutOfMemory)
    }

    /// Frees the block described by `mem_block` if it is currently
    /// allocated; freeing an already-free block is a no-op.
    pub fn dealloc_single_mem_block(&mut self, mem_block: MemoryBlockInfo)
        requires
            old(self).wf(),
            mem_block.mem_block_index < old(self).mem_blocks,
        ensures
            final(self).wf(),
            !final(self).spec_is_allocated(mem_block.mem_block_index as int),
            forall|k: int|
                0 <= k < 32 * old(self).memmap@.len() && k != mem_block.mem_block_index ==> final(self).spec_is_allocated(k) == old(self).spec_is_allocated(k),
            old(self).spec_is_allocated(mem_block.mem_block_index as int) ==> {
                &&& final(self).free_blocks == old(self).free_blocks + 1
                &&& final(self).allocated_blocks == old(self).allocated_blocks - 1
            },
            !old(self).spec_is_allocated(mem_block.mem_block_index as int) ==> *final(self) == *old(self),
            final(self).total_mem_size == old(self).total_mem_size,
            final(self).mem_blocks == old(self).mem_blocks,
            final(self).memmap_addr == old(self).memmap_addr,
            final(self).memmap_size == old(self).memmap_size,
    {
        let idx: usize = mem_block.mem_block_index;
        if self.is_allocated_block(idx) {
            self.mark_free(idx);
        }
    }

    /// Zeroes all `MEM_BLOCK_SIZE` bytes of the block in the physical
    /// memory view. Callers must clear a block before reusing it so that
    /// no stale data leaks across allocations.
    pub fn clear_mem_block(&self, view: &mut PhysMemView, mem_block: MemoryBlockInfo)
        requires
            mem_block.mem_block_start_addr + mem_block.mem_block_size <= old(view).bytes@.len(),
        ensures
            final(view).bytes@.len() == old(view).bytes@.len(),
            forall|a: int|
                mem_block.mem_block_start_addr <= a < mem_block.mem_block_start_addr
                    + mem_block.mem_block_size ==> final(view).bytes@[a] == 0,
            forall|a: int|
                0 <= a < old(view).bytes@.len() && !(mem_block.mem_block_start_addr <= a
                    < mem_block.mem_block_start_addr + mem_block.mem_block_size) ==> final(view).bytes@[a] == old(view).bytes@[a],
    {
        view.clear_range(mem_block.mem_block_start_addr, mem_block.mem_block_size);
    }

    /// Total bytes of physical memory under management.
    pub fn get_total_mem_size(&self) -> (r: u32)
        ensures
            r == self.total_mem_size,
    {
        self.total_mem_size
    }

    /// Bytes covered by allocated blocks.
    pub fn get_used_mem_size(&self) -> (r: u32)
        requires
            self.wf(),
        ensures
            r == self.allocated_blocks * MEM_BLOCK_SIZE,
    {
        proof {
            lemma_block_count_fits(
                self.mem_blocks as int,
                self.allocated_blocks as int,
                self.total_mem_size as int,
            );
        }
        self.allocated_blocks * MEM_BLOCK_SIZE
    }

    /// Bytes not covered by allocated blocks.
    pub fn get_free_mem_size(&self) -> (r: u32)
        requires
            self.wf(),
        ensures
            r == self.total_mem_size - self.allocated_blocks * MEM_BLOCK_SIZE,
    {
        proof {
            lemma_block_count_fits(
                self.mem_blocks as int,
                self.allocated_blocks as int,
                self.total_mem_size as int,
            );
        }
        self.total_mem_size - self.allocated_blocks * MEM_BLOCK_SIZE
    }

    /// Number of blocks under management.
    pub fn get_mem_blocks(&self) -> (r: u32)
        ensures
            r == self.mem_blocks,
    {
        self.mem_blocks
    }

    /// Number of blocks currently allocated.
    pub fn get_allocated_blocks(&self) -> (r: u32)
        ensures
            r == self.allocated_blocks,
    {
        self.allocated_blocks
    }

    /// Number of blocks currently free.
    pub fn get_free_blocks(&self) -> (r: u32)
        ensures
            r == self.free_blocks,
    {
        self.free_blocks
    }

    /// Index of the block containing a physical address.
    pub fn get_mem_block_index_from_phys_addr(&self, phys_addr: u32) -> (r: usize)
        ensures
            r == phys_addr / MEM_BLOCK_SIZE,
    {
        (phys_addr / MEM_BLOCK_SIZE) as usize
    }

    /// First byte of the bitmap's own physical storage.
    pub fn get_memmap_start_addr(&self) -> (r: u32)
        ensures
            r == self.memmap_addr,
    {
        self.memmap_addr
    }

    /// First byte past the bitmap's own physical storage.
    pub fn get_memmap_end_addr(&self) -> (r: u32)
        requires
            self.wf(),
        ensures
            r == self.memmap_addr + self.memmap_size,
    {
        proof {
            assert((self.mem_blocks as int / 32) * 4 <= spec_word_count(self.mem_blocks as int)
                * 4);
        }
        self.memmap_addr + self.memmap_size
    }
}

/// In every reachable state of the manager the counters balance: the
/// allocated and the free blocks together are exactly the managed
/// blocks.
pub proof fn lemma_counter_invariant(pmm: PhysicalMemoryManager)
    requires
        pmm.wf(),
    ensures
        pmm.allocated_blocks + pmm.free_blocks == pmm.mem_blocks,
{
}

/// Reserved-region exclusion: while every block overlapping a byte
/// range is marked allocated — as `init` marks the kernel image, the
/// boot payload and the bitmap's own storage — a block that the bitmap
/// shows free, such as any block the allocator returns, cannot overlap
/// that range.
pub proof fn lemma_reserved_exclusion(
    pmm: PhysicalMemoryManager,
    idx: int,
    range_start: u32,
    range_end: u32,
)
    requires
        pmm.wf(),
        forall|k: int|
            0 <= k < pmm.mem_blocks && block_covers_range(range_start as int, range_end as int, k)
                ==> pmm.spec_is_allocated(k),
        0 <= idx < pmm.mem_blocks,
        !pmm.spec_is_allocated(idx),
        range_start < range_end,
    ensures
        idx * 4096 + 4096 <= range_start || range_end <= idx * 4096,
{
    if !(idx * 4096 + 4096 <= range_start || range_end <= idx * 4096) {
        assert(range_start < idx * 4096 + 4096 && idx * 4096 < range_end);
        assert(range_start as int / 4096 <= idx) by (nonlinear_arith)
            requires
                range_start < idx * 4096 + 4096,
                idx >= 0,
        ;
        assert(idx < (range_end as int + 4095) / 4096) by (nonlinear_arith)
            requires
                idx * 4096 < range_end,
                idx >= 0,
        ;
        assert(block_covers_range(range_start as int, range_end as int, idx));
        assert(false);
    }
}

/// Allocation and deallocation track the bitmap exactly: an allocation
/// marks exactly the returned index, freeing that index unmarks exactly
/// it, so a block is marked between the allocation that returned it and
/// the deallocation that releases it, and the two together leave every
/// mark as it was.
pub proof fn lemma_alloc_dealloc_round_trip(
    pre: PhysicalMemoryManager,
    mid: PhysicalMemoryManager,
    post: PhysicalMemoryManager,
    idx: int,
)
    requires
        pre.memmap@.len() == mid.memmap@.len(),
        mid.memmap@.len() == post.memmap@.len(),
        0 <= idx < 32 * pre.memmap@.len(),
        // the allocation marked exactly `idx`
        !pre.spec_is_allocated(idx),
        mid.spec_is_allocated(idx),
        forall|k: int|
            0 <= k < 32 * pre.memmap@.len() && k != idx ==> mid.spec_is_allocated(k)
                == pre.spec_is_allocated(k),
        // the deallocation unmarked exactly `idx`
        !post.spec_is_allocated(idx),
        forall|k: int|
            0 <= k < 32 * mid.memmap@.len() && k != idx ==> post.spec_is_allocated(k)
                == mid.spec_is_allocated(k),
    ensures
        forall|k: int|
            0 <= k < 32 * pre.memmap@.len() ==> post.spec_is_allocated(k) == pre.spec_is_allocated(
                k,
            ),
{
}

/// A block index below the block count stays within the managed byte
/// range and within the bitmap.
proof fn lemma_block_addr_fits(mem_blocks: int, index: int, total: int)
    requires
        0 <= index < mem_blocks,
        mem_blocks == total / 4096,
        total <= u32::MAX,
    ensures
        index * 4096 + 4096 <= total,
        index / 8 < spec_word_count(mem_blocks) * 4,
{
    assert(index + 1 <= mem_blocks);
    assert((index + 1) * 4096 <= mem_blocks * 4096) by (nonlinear_arith)
        requires
            index + 1 <= mem_blocks,
    ;
    assert(mem_blocks * 4096 <= total) by (nonlinear_arith)
        requires
            mem_blocks == total / 4096,
            total >= 0,
    ;
    assert(index * 4096 + 4096 == (index + 1) * 4096) by (nonlinear_arith);
    assert(index / 8 < spec_word_count(mem_blocks) * 4) by (nonlinear_arith)
        requires
            0 <= index < mem_blocks,
            spec_word_count(mem_blocks) == (mem_blocks + 31) / 32,
    ;
}

/// A block-count times the block size stays within the managed byte range.
proof fn lemma_block_count_fits(mem_blocks: int, blocks: int, total: int)
    requires
        0 <= blocks <= mem_blocks,
        mem_blocks == total / 4096,
        total <= u32::MAX,
    ensures
        blocks * 4096 <= total,
{
    assert(blocks * 4096 <= mem_blocks * 4096) by (nonlinear_arith)
        requires
            0 <= blocks <= mem_blocks,
    ;
    assert(mem_blocks * 4096 <= total) by (nonlinear_arith)
        requires
            mem_blocks == total / 4096,
            total >= 0,
    ;
}

} // verus!
