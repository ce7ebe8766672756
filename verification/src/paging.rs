//! The paging manager: one page directory and 1024 page tables, built
//! over blocks obtained from the physical memory manager, forming an
//! identity-mapped two-level address space. Page-directory and
//! page-table entries are 32-bit words: bits 31..12 hold a physical
//! address, the low bits hold the hardware flags.

use vstd::prelude::*;

use crate::machine::MachineState;
use crate::mem_view::PhysMemView;
use crate::phys_mem::{MemoryBlockInfo, PhysicalMemoryManager, MEM_BLOCK_SIZE};
use crate::virt_mem::{spec_pd_index, spec_pt_index, VirtualAddress};
use crate::MemError;

verus! {

pub const PDE_PAGE_TABLE_ADDR_MASK: u32 = 0xfffff000;
pub const PDE_FLAGS_MASK: u32 = 0xff;
pub const PDE_FLAGS_MAX: u32 = 0xfff;
pub const PDE_FLAGS_R_W: u32 = 0x2;
pub const PDE_FLAGS_P: u32 = 0x1;

pub const PTE_PAGE_FRAME_ADDR_MASK: u32 = 0xfffff000;
pub const PTE_FLAGS_MASK: u32 = 0x1ff;
pub const PTE_FLAGS_MAX: u32 = 0xfff;
pub const PTE_FLAGS_R_W: u32 = 0x2;
pub const PTE_FLAGS_P: u32 = 0x1;

/// Whether an entry's `Present` flag is set.
pub open spec fn entry_present(e: u32) -> bool {
    e & 0x1u32 != 0
}

/// The physical address held in an entry's top twenty bits.
pub open spec fn entry_frame(e: u32) -> u32 {
    e & 0xfffff000u32
}

/// A page-table entry as a plain 32-bit word.
#[derive(Debug, PartialEq, Eq, Structural, Clone, Copy)]
pub struct PageTableEntry {
    pub inner: u32,
}

impl PageTableEntry {
    /// Wraps a raw entry word.
    pub fn new(inner: u32) -> (r: PageTableEntry)
        ensures
            r.inner == inner,
    {
        PageTableEntry { inner }
    }

    /// Replaces the entry with the given frame address and flags.
    pub fn set(&mut self, page_frame_addr: u32, flags: u32)
        requires
            flags <= PTE_FLAGS_MAX,
        ensures
            final(self).inner == (page_frame_addr & PTE_PAGE_FRAME_ADDR_MASK) | flags,
    {
        self.inner = (page_frame_addr & PTE_PAGE_FRAME_ADDR_MASK) | flags;
    }

    /// Sets the given flag bits.
    pub fn set_flag(&mut self, flags: u32)
        requires
            flags <= PTE_FLAGS_MAX,
        ensures
            final(self).inner == old(self).inner | flags,
    {
        self.inner = self.inner | flags;
    }

    /// Clears the given flag bits.
    pub fn clear_flag(&mut self, flags: u32)
        requires
            flags <= PTE_FLAGS_MAX,
        ensures
            final(self).inner == old(self).inner & !flags,
    {
        self.inner = self.inner & !flags;
    }

    /// The physical frame address held in the entry.
    pub fn get_page_frame_addr(&self) -> (r: u32)
        ensures
            r == entry_frame(self.inner),
    {
        self.inner & PTE_PAGE_FRAME_ADDR_MASK
    }

    /// Adds the given frame address bits to the entry.
    pub fn set_page_frame_addr(&mut self, page_frame_addr: u32)
        ensures
            final(self).inner == old(self).inner | (page_frame_addr & PTE_PAGE_FRAME_ADDR_MASK),
    {
        self.inner = self.inner | (page_frame_addr & PTE_PAGE_FRAME_ADDR_MASK);
    }

    /// The flag bits of the entry.
    pub fn get_flags(&self) -> (r: u32)
        ensures
            r == self.inner & PTE_FLAGS_MASK,
    {
        self.inner & PTE_FLAGS_MASK
    }

    /// Whether the `Present` flag is set.
    pub fn get_flag_present(&self) -> (r: bool)
        ensures
            r == entry_present(self.inner),
    {
        proof {
            lemma_flags_low_bits(self.inner);
        }
        (self.inner & PTE_FLAGS_MASK) & PTE_FLAGS_P != 0
    }

    /// Whether the `Read/Write` flag is set.
    pub fn get_flag_writable(&self) -> (r: bool)
        ensures
            r == (self.inner & PTE_FLAGS_R_W != 0),
    {
        proof {
            lemma_flags_low_bits(self.inner);
        }
        (self.inner & PTE_FLAGS_MASK) & PTE_FLAGS_R_W != 0
    }

    /// Width of an entry in bits.
    pub fn get_size() -> (r: u32)
        ensures
            r == 32,
    {
        32
    }
}

/// A page-directory entry as a plain 32-bit word.
#[derive(Debug, PartialEq, Eq, Structural, Clone, Copy)]
pub struct PageDirectoryEntry {
    pub inner: u32,
}

impl PageDirectoryEntry {
    /// Wraps a raw entry word.
    pub fn new(inner: u32) -> (r: PageDirectoryEntry)
        ensures
            r.inner == inner,
    {
        PageDirectoryEntry { inner }
    }

    /// Replaces the entry with the given page-table address and flags.
    pub fn set(&mut self, page_table_addr: u32, flags: u32)
        requires
            flags <= PDE_FLAGS_MAX,
        ensures
            final(self).inner == (page_table_addr & PDE_PAGE_TABLE_ADDR_MASK) | flags,
    {
        self.inner = (page_table_addr & PDE_PAGE_TABLE_ADDR_MASK) | flags;
    }

    /// Sets the given flag bits.
    pub fn set_flag(&mut self, flags: u32)
        requires
            flags <= PDE_FLAGS_MAX,
        ensures
            final(self).inner == old(self).inner | flags,
    {
        self.inner = self.inner | flags;
    }

    /// Clears the given flag bits.
    pub fn clear_flag(&mut self, flags: u32)
        requires
            flags <= PDE_FLAGS_MAX,
        ensures
            final(self).inner == old(self).inner & !flags,
    {
        self.inner = self.inner & !flags;
    }

    /// The physical page-table address held in the entry.
    pub fn get_page_table_addr(&self) -> (r: u32)
        ensures
            r == entry_frame(self.inner),
    {
        self.inner & PDE_PAGE_TABLE_ADDR_MASK
    }

    /// Adds the given page-table address bits to the entry.
    pub fn set_page_table_addr(&mut self, page_table_addr: u32)
        ensures
            final(self).inner == old(self).inner | (page_table_addr & PDE_PAGE_TABLE_ADDR_MASK),
    {
        self.inner = self.inner | (page_table_addr & PDE_PAGE_TABLE_ADDR_MASK);
    }

    /// The flag bits of the entry.
    pub fn get_flags(&self) -> (r: u32)
        ensures
            r == self.inner & PDE_FLAGS_MASK,
    {
        self.inner & PDE_FLAGS_MASK
    }

    /// Whether the `Present` flag is set.
    pub fn get_flag_present(&self) -> (r: bool)
        ensures
            r == entry_present(self.inner),
    {
        proof {
            lemma_flags_low_bits(self.inner);
        }
        (self.inner & PDE_FLAGS_MASK) & PDE_FLAGS_P != 0
    }

    /// Whether the `Read/Write` flag is set.
    pub fn get_flag_writable(&self) -> (r: bool)
        ensures
            r == (self.inner & PDE_FLAGS_R_W != 0),
    {
        proof {
            lemma_flags_low_bits(self.inner);
        }
        (self.inner & PDE_FLAGS_MASK) & PDE_FLAGS_R_W != 0
    }

    /// Width of an entry in bits.
    pub fn get_size() -> (r: u32)
        ensures
            r == 32,
    {
        32
    }
}

/// The paging manager. `directory` holds the contents of the page
/// directory living in `pd_block`; `tables` holds the contents of the
/// 1024 page tables living in `pt_blocks`. All of these blocks come
/// from the physical memory manager at `init` and are never returned.
pub struct Paging {
    pub pd_block: MemoryBlockInfo,
    pub pt_blocks: Vec<MemoryBlockInfo>,
    pub directory: Vec<u32>,
    pub tables: Vec<Vec<u32>>,
    pub page_directory_addr_backup: u32,
    pub is_init: bool,
    pub is_enabled: bool,
}

impl Paging {
    /// The directory and every table have exactly 1024 entries.
    pub open spec fn dims_ok(self) -> bool {
        &&& self.directory@.len() == 1024
        &&& self.pt_blocks@.len() == 1024
        &&& self.tables@.len() == 1024
        &&& forall|d: int| 0 <= d < 1024 ==> (#[trigger] self.tables@[d])@.len() == 1024
    }

    /// Every present page-table entry maps its own slot's linear page to
    /// the equal physical frame: the address space is an identity map.
    pub open spec fn maps_identity(self) -> bool {
        forall|d: int, t: int|
            #![trigger self.tables@[d]@[t]]
            0 <= d < 1024 && 0 <= t < 1024 && entry_present(self.tables@[d]@[t])
                ==> entry_frame(self.tables@[d]@[t]) == (d * 0x400000 + t * 0x1000) as u32
    }

    /// Every present directory entry points at the block that backs the
    /// table whose contents `tables` holds at the same slot.
    pub open spec fn directory_linked(self) -> bool {
        forall|d: int|
            #![trigger self.directory@[d]]
            0 <= d < 1024 && entry_present(self.directory@[d]) ==> {
                &&& entry_frame(self.directory@[d])
                    == self.pt_blocks@[d].mem_block_start_addr
                &&& self.pt_blocks@[d].mem_block_start_addr % 4096 == 0
            }
    }

    /// The directory entries of every chunk that contains one of the
    /// first `nblocks` blocks are present.
    pub open spec fn covers_blocks(self, nblocks: int) -> bool {
        forall|d: int|
            #![trigger self.directory@[d]]
            0 <= d < 1024 && d * 1024 < nblocks ==> entry_present(self.directory@[d])
    }

    /// Well-formedness: once initialised, the structure has its full
    /// dimensions, is an identity map, and its directory entries point
    /// at the owned table blocks. Enabled implies initialised.
    pub open spec fn wf(self) -> bool {
        &&& self.is_enabled ==> self.is_init
        &&& self.is_init ==> self.dims_ok()
        &&& self.is_init ==> self.maps_identity()
        &&& self.is_init ==> self.directory_linked()
    }

    /// The translation the hardware would perform on `va`: look up the
    /// directory entry, then the table entry, and combine the frame with
    /// the page offset; `None` when either entry is not present.
    pub open spec fn spec_translate(self, va: u32) -> Option<u32> {
        let d = spec_pd_index(va) as int;
        let t = spec_pt_index(va) as int;
        if entry_present(self.directory@[d]) && entry_present(self.tables@[d]@[t]) {
            Some(entry_frame(self.tables@[d]@[t]) | (va & 0xfffu32))
        } else {
            None
        }
    }

    /// A manager with nothing built yet; `init` populates it.
    pub fn new() -> (r: Paging)
        ensures
            r.wf(),
            !r.is_init,
            !r.is_enabled,
            r.page_directory_addr_backup == 0,
    {
        Paging {
            pd_block: MemoryBlockInfo::new(),
            pt_blocks: Vec::new(),
            directory: Vec::new(),
            tables: Vec::new(),
            page_directory_addr_backup: 0,
            is_init: false,
            is_enabled: false,
        }
    }

    /// Whether `enable` has completed.
    pub fn is_enabled(&self) -> (r: bool)
        ensures
            r == self.is_enabled,
    {
        self.is_enabled
    }

    /// Whether `init` has completed.
    pub fn is_init(&self) -> (r: bool)
        ensures
            r == self.is_init,
    {
        self.is_init
    }

    /// Total bytes of physical memory under management.
    pub fn get_total_mem_size(&self, pmm: &PhysicalMemoryManager) -> (r: u32)
        ensures
            r == pmm.total_mem_size,
    {
        pmm.get_total_mem_size()
    }

    /// Bytes covered by allocated blocks.
    pub fn get_used_mem_size(&self, pmm: &PhysicalMemoryManager) -> (r: u32)
        requires
            pmm.wf(),
        ensures
            r == pmm.allocated_blocks * MEM_BLOCK_SIZE,
    {
        pmm.get_allocated_blocks() * MEM_BLOCK_SIZE
    }

    /// Bytes not covered by allocated blocks.
    pub fn get_free_mem_size(&self, pmm: &PhysicalMemoryManager) -> (r: u32)
        requires
            pmm.wf(),
        ensures
            r == pmm.total_mem_size - pmm.allocated_blocks * MEM_BLOCK_SIZE,
    {
        self.get_total_mem_size(pmm) - self.get_used_mem_size(pmm)
    }

    /// The directory entry at `index`.
    fn get_page_directory_entry(&self, index: usize) -> (r: PageDirectoryEntry)
        requires
            self.dims_ok(),
            index < 1024,
        ensures
            r.inner == self.directory@[index as int],
    {
        PageDirectoryEntry::new(self.directory[index])
    }

    /// The table entry at `(page_directory_index, page_table_index)`.
    fn get_page_table_entry(&self, page_directory_index: usize, page_table_index: usize) -> (r:
        PageTableEntry)
        requires
            self.dims_ok(),
            page_directory_index < 1024,
            page_table_index < 1024,
        ensures
            r.inner == self.tables@[page_directory_index as int]@[page_table_index as int],
    {
        PageTableEntry::new(self.tables[page_directory_index][page_table_index])
    }

    /// Stores an entry word into the table at `(d, t)`.
    fn set_page_table_entry(&mut self, d: usize, t: usize, entry: u32)
        requires
            old(self).dims_ok(),
            d < 1024,
            t < 1024,
        ensures
            final(self).dims_ok(),
            final(self).tables@[d as int]@[t as int] == entry,
            forall|dd: int, tt: int|
                #![trigger final(self).tables@[dd]@[tt]]
                0 <= dd < 1024 && 0 <= tt < 1024 && !(dd == d && tt == t) ==> final(
                    self).tables@[dd]@[tt] == old(self).tables@[dd]@[tt],
            final(self).directory == old(self).directory,
            final(self).pt_blocks == old(self).pt_blocks,
            final(self).pd_block == old(self).pd_block,
            final(self).page_directory_addr_backup == old(self).page_directory_addr_backup,
            final(self).is_init == old(self).is_init,
            final(self).is_enabled == old(self).is_enabled,
    {
        self.tables[d][t] = entry;
    }

    /// Stores an entry word into the directory at `d`.
    fn set_page_directory_entry(&mut self, d: usize, entry: u32)
        requires
            old(self).dims_ok(),
            d < 1024,
        ensures
            final(self).dims_ok(),
            final(self).directory@[d as int] == entry,
            forall|dd: int|
                #![trigger final(self).directory@[dd]]
                0 <= dd < 1024 && dd != d ==> final(self).directory@[dd] == old(
                    self).directory@[dd],
            final(self).tables == old(self).tables,
            final(self).pt_blocks == old(self).pt_blocks,
            final(self).pd_block == old(self).pd_block,
            final(self).page_directory_addr_backup == old(self).page_directory_addr_backup,
            final(self).is_init == old(self).is_init,
            final(self).is_enabled == old(self).is_enabled,
    {
        self.directory[d] = entry;
    }

    /// Chunk index of a block: which directory slot maps it.
    fn get_page_directory_index(&self, mem_block_index: usize) -> (r: usize)
        ensures
            r == mem_block_index / 1024 % 1024,
    {
        mem_block_index / 1024 % 1024
    }

    /// Slot of a block inside its chunk's page table.
    fn get_page_table_index(&self, mem_block_index: usize) -> (r: usize)
        ensures
            r == mem_block_index % 1024,
    {
        mem_block_index % 1024
    }

    /// The page-table entry the identity map installs for block `j`:
    /// the block's own address as the frame, `Present` and `Read/Write`
    /// set.
    pub open spec fn identity_pte(j: int) -> u32 {
        (((j * 4096) as u32) & 0xfffff000u32) | 3u32
    }

    /// Builds the identity-mapped address space: takes one block for
    /// the directory and 1024 blocks for page tables from the physical
    /// memory manager, clears them, and maps every 4096-aligned address
    /// from zero up to the managed memory size to itself. Fails with
    /// `OutOfMemory`, changing nothing, exactly when fewer than 1025
    /// blocks are free. The previous page-table base register value is
    /// kept for diagnostics.
    #[verifier::rlimit(100)]
    #[verifier::spinoff_prover]
    pub fn init(&mut self, pmm: &mut PhysicalMemoryManager, machine: &MachineState) -> (r: Result<
        (),
        MemError,
    >)
        requires
            old(pmm).wf(),
            old(self).wf(),
            !old(self).is_init,
        ensures
            final(self).wf(),
            final(pmm).wf(),
            r is Ok <==> old(pmm).free_blocks >= 1025,
            r is Err ==> r == Result::<(), MemError>::Err(MemError::OutOfMemory) && *final(self)
                == *old(self) && *final(pmm) == *old(pmm),
            r is Ok ==> ({
                &&& final(self).is_init
                &&& final(self).is_enabled == old(self).is_enabled
                &&& final(self).page_directory_addr_backup == machine.page_dir_base
                &&& final(pmm).free_blocks == old(pmm).free_blocks - 1025
                &&& final(pmm).allocated_blocks == old(pmm).allocated_blocks + 1025
                &&& final(pmm).total_mem_size == old(pmm).total_mem_size
                &&& final(pmm).mem_blocks == old(pmm).mem_blocks
                &&& final(pmm).memmap_addr == old(pmm).memmap_addr
                &&& final(pmm).memmap_size == old(pmm).memmap_size
                &&& (forall|k: int|
                    0 <= k < 32 * old(pmm).memmap@.len() && old(pmm).spec_is_allocated(k)
                        ==> final(pmm).spec_is_allocated(k))
                &&& final(self).covers_blocks(final(pmm).mem_blocks as int)
                &&& (forall|a: u32|
                    #![trigger final(self).spec_translate(a)]
                    a % 4096 == 0 && (a == 0 || a + 4096 <= old(pmm).total_mem_size) ==> final(
                        self).spec_translate(a) == Some(a))
            }),
    {
        if pmm.get_free_blocks() < 1025 {
            return Err(MemError::OutOfMemory);
        }
        let ghost pmm0 = *old(pmm);
        let ghost f0 = old(pmm).free_blocks;

        // one block for the directory, cleared
        let pd_b: MemoryBlockInfo = match pmm.alloc_single_mem_block() {
            Ok(b) => b,
            Err(_) => {
                proof {
                    assert(false);
                }
                return Err(MemError::OutOfMemory);
            },
        };
        self.pd_block = pd_b;
        let mut dir: Vec<u32> = Vec::new();
        while dir.len() < 1024
            invariant
                dir@.len() <= 1024,
                forall|d: int| 0 <= d < dir@.len() ==> dir@[d] == 0,
            decreases 1024 - dir@.len(),
        {
            dir.push(0);
        }
        self.directory = dir;

        // 1024 blocks for the page tables, each cleared
        self.pt_blocks = Vec::new();
        self.tables = Vec::new();
        let mut i: usize = 0;
        while i < 1024
            invariant
                i <= 1024,
                pmm.wf(),
                f0 >= 1025,
                pmm.free_blocks == f0 - 1 - i,
                pmm.allocated_blocks == pmm0.allocated_blocks + 1 + i,
                pmm.total_mem_size == pmm0.total_mem_size,
                pmm.mem_blocks == pmm0.mem_blocks,
                pmm.memmap_addr == pmm0.memmap_addr,
                pmm.memmap_size == pmm0.memmap_size,
                pmm.memmap@.len() == pmm0.memmap@.len(),
                forall|k: int|
                    0 <= k < 32 * pmm0.memmap@.len() && pmm0.spec_is_allocated(k)
                        ==> pmm.spec_is_allocated(k),
                self.pt_blocks@.len() == i,
                self.tables@.len() == i,
                forall|d: int| 0 <= d < i ==> (#[trigger] self.tables@[d])@.len() == 1024,
                forall|d: int, t: int|
                    #![trigger self.tables@[d]@[t]]
                    0 <= d < i && 0 <= t < 1024 ==> self.tables@[d]@[t] == 0,
                forall|d: int|
                    0 <= d < i ==> (#[trigger] self.pt_blocks@[d]).mem_block_start_addr % 4096
                        == 0,
                self.directory@.len() == 1024,
                forall|d: int| 0 <= d < 1024 ==> self.directory@[d] == 0u32,
                self.pd_block == pd_b,
                self.is_init == old(self).is_init,
                self.is_enabled == old(self).is_enabled,
            decreases 1024 - i,
        {
            let ghost pmm_iter = *pmm;
            let b: MemoryBlockInfo = match pmm.alloc_single_mem_block() {
                Ok(b) => b,
                Err(_) => {
                    proof {
                        assert(false);
                    }
                    return Err(MemError::OutOfMemory);
                },
            };
            proof {
                assert(b.mem_block_start_addr == b.mem_block_index * 4096);
                assert(b.mem_block_start_addr % 4096 == 0) by (nonlinear_arith)
                    requires
                        b.mem_block_start_addr == b.mem_block_index * 4096,
                ;
                assert forall|k: int|
                    0 <= k < 32 * pmm0.memmap@.len() && pmm0.spec_is_allocated(k) implies
                    pmm.spec_is_allocated(k) by {
                    assert(pmm_iter.spec_is_allocated(k));
                }
            }
            self.pt_blocks.push(b);
            let mut tbl: Vec<u32> = Vec::new();
            while tbl.len() < 1024
                invariant
                    tbl@.len() <= 1024,
                    forall|t: int| 0 <= t < tbl@.len() ==> tbl@[t] == 0,
                decreases 1024 - tbl@.len(),
            {
                tbl.push(0);
            }
            self.tables.push(tbl);
            i += 1;
        }

        // keep the previous page-table base register value for diagnostics
        self.page_directory_addr_backup = machine.page_dir_base;

        // identity-map every block of managed memory
        proof {
            assert(pmm.mem_blocks <= 0xfffff);
        }
        let mem_blocks: u32 = pmm.get_mem_blocks();
        let n: usize = if mem_blocks == 0 {
            1
        } else {
            mem_blocks as usize
        };
        let ghost pt_snapshot = self.pt_blocks@;
        let mut bi: usize = 0;
        while bi < n
            invariant
                bi <= n,
                1 <= n <= 0x100000,
                n == if pmm0.mem_blocks == 0 {
                    1int
                } else {
                    pmm0.mem_blocks as int
                },
                self.dims_ok(),
                self.pt_blocks@ == pt_snapshot,
                forall|d: int|
                    0 <= d < 1024 ==> (#[trigger] self.pt_blocks@[d]).mem_block_start_addr % 4096
                        == 0,
                forall|d: int, t: int|
                    #![trigger self.tables@[d]@[t]]
                    0 <= d < 1024 && 0 <= t < 1024 && d * 1024 + t < bi ==> self.tables@[d]@[t]
                        == Paging::identity_pte(d * 1024 + t),
                forall|d: int, t: int|
                    #![trigger self.tables@[d]@[t]]
                    0 <= d < 1024 && 0 <= t < 1024 && d * 1024 + t >= bi ==> self.tables@[d]@[t]
                        == 0,
                forall|d: int|
                    #![trigger self.directory@[d]]
                    0 <= d < 1024 ==> self.directory@[d] == if d * 1024 < bi {
                        (self.pt_blocks@[d].mem_block_start_addr & 0xfffff000u32) | 3u32
                    } else {
                        0u32
                    },
                self.pd_block == pd_b,
                self.page_directory_addr_backup == machine.page_dir_base,
                self.is_init == old(self).is_init,
                self.is_enabled == old(self).is_enabled,
            decreases n - bi,
        {
            let d: usize = bi / 1024;
            let t: usize = bi % 1024;
            let page: u32 = (bi as u32) * 4096;
            proof {
                assert(1024 * (d as int) + (t as int) == bi as int);
                assert(page == (bi as int) * 4096);
            }
            proof {
                assert(PTE_FLAGS_P | PTE_FLAGS_R_W == 3u32) by (bit_vector);
                assert(PDE_FLAGS_P | PDE_FLAGS_R_W == 3u32) by (bit_vector);
            }
            let mut pte = PageTableEntry::new(0);
            pte.set(page, PTE_FLAGS_P | PTE_FLAGS_R_W);
            self.set_page_table_entry(d, t, pte.inner);
            if t == 0 {
                let pt_addr: u32 = self.pt_blocks[d].mem_block_start_addr;
                let mut pde = PageDirectoryEntry::new(0);
                pde.set(pt_addr, PDE_FLAGS_P | PDE_FLAGS_R_W);
                self.set_page_directory_entry(d, pde.inner);
            }
            proof {
                assert forall|dd: int, tt: int|
                    #![trigger self.tables@[dd]@[tt]]
                    0 <= dd < 1024 && 0 <= tt < 1024 && dd * 1024 + tt < bi + 1 implies
                    self.tables@[dd]@[tt] == Paging::identity_pte(dd * 1024 + tt) by {
                    if dd == d as int && tt == t as int {
                        assert(dd * 1024 + tt == bi as int);
                    } else {
                        assert(dd * 1024 + tt != bi as int);
                    }
                }
                assert forall|dd: int, tt: int|
                    #![trigger self.tables@[dd]@[tt]]
                    0 <= dd < 1024 && 0 <= tt < 1024 && dd * 1024 + tt >= bi + 1 implies
                    self.tables@[dd]@[tt] == 0 by {
                    assert(!(dd == d as int && tt == t as int));
                }
                assert forall|dd: int| #![trigger self.directory@[dd]] 0 <= dd < 1024 implies
                    self.directory@[dd] == (if dd * 1024 < bi + 1 {
                    (self.pt_blocks@[dd].mem_block_start_addr & 0xfffff000u32) | 3u32
                } else {
                    0u32
                }) by {
                    if t == 0 {
                        assert(d as int * 1024 == bi as int);
                    } else {
                        assert(d as int * 1024 < bi as int);
                    }
                }
            }
            bi += 1;
        }
        self.is_init = true;

        proof {
            let fs = *self;
            assert forall|d: int, t: int|
                #![trigger fs.tables@[d]@[t]]
                0 <= d < 1024 && 0 <= t < 1024 && entry_present(fs.tables@[d]@[t]) implies
                entry_frame(fs.tables@[d]@[t]) == (d * 0x400000 + t * 0x1000) as u32 by {
                lemma_zero_entry();
                if d * 1024 + t < n as int {
                    let j = d * 1024 + t;
                    assert(fs.tables@[d]@[t] == Paging::identity_pte(j));
                    lemma_identity_pte_bits(j as u32);
                    assert(j * 4096 == d * 0x400000 + t * 0x1000);
                }
            }
            assert forall|d: int| #![trigger fs.directory@[d]] 0 <= d < 1024 && entry_present(
                fs.directory@[d],
            ) implies entry_frame(fs.directory@[d]) == fs.pt_blocks@[d].mem_block_start_addr
                && fs.pt_blocks@[d].mem_block_start_addr % 4096 == 0 by {
                lemma_zero_entry();
                if d * 1024 < n as int {
                    lemma_aligned_addr_entry(fs.pt_blocks@[d].mem_block_start_addr);
                }
            }
            assert(fs.maps_identity());
            assert(fs.directory_linked());
            assert forall|d: int| #![trigger fs.directory@[d]] 0 <= d < 1024 && d * 1024 < pmm.mem_blocks
                as int implies entry_present(fs.directory@[d]) by {
                lemma_aligned_addr_entry(fs.pt_blocks@[d].mem_block_start_addr);
            }
            assert(fs.covers_blocks(pmm.mem_blocks as int));
            assert forall|a: u32|
                #![trigger fs.spec_translate(a)]
                a % 4096 == 0 && (a == 0 || a + 4096 <= pmm0.total_mem_size) implies
                fs.spec_translate(a) == Some(a) by {
                let j = a as int / 4096;
                assert(a as int == j * 4096);
                if a != 0 {
                    assert(j + 1 <= pmm0.mem_blocks as int) by (nonlinear_arith)
                        requires
                            (j + 1) * 4096 <= pmm0.total_mem_size,
                            pmm0.mem_blocks == pmm0.total_mem_size as int / 4096,
                            j >= 0,
                    ;
                }
                assert(j < n as int);
                lemma_block_page_decompose(j as u32);
                let d = j / 1024;
                let t = j % 1024;
                assert(d * 1024 + t == j);
                assert(d * 1024 <= j);
                assert(fs.tables@[d]@[t] == Paging::identity_pte(j));
                assert(entry_present(fs.directory@[d])) by {
                    lemma_aligned_addr_entry(fs.pt_blocks@[d].mem_block_start_addr);
                }
                lemma_identity_pte_bits(j as u32);
                assert(spec_pd_index(a) == d && spec_pt_index(a) == t);
                assert(entry_present(fs.tables@[d]@[t]));
                assert(entry_frame(fs.tables@[d]@[t]) == a);
                assert(a & 0xfffu32 == 0 && (a | 0u32) == a) by (bit_vector)
                    requires
                        a % 4096 == 0,
                ;
            }
        }
        Ok(())
    }

    /// Activates the address space: with interrupts held off, loads the
    /// directory's physical address into the page-table base register
    /// and sets the paging-enable mode bit, which also drops every
    /// cached translation; then interrupts are enabled again. Fails
    /// with `NotInitialized`, changing nothing, when `init` has not
    /// completed.
    pub fn enable(&mut self, machine: &mut MachineState) -> (r: Result<(), MemError>)
        requires
            old(self).wf(),
        ensures
            final(self).wf(),
            r is Ok <==> old(self).is_init,
            r is Err ==> r == Result::<(), MemError>::Err(MemError::NotInitialized) && *final(self)
                == *old(self) && *final(machine) == *old(machine),
            r is Ok ==> ({
                &&& final(self).is_enabled
                &&& final(self).is_init
                &&& final(self).pd_block == old(self).pd_block
                &&& final(self).pt_blocks == old(self).pt_blocks
                &&& final(self).directory == old(self).directory
                &&& final(self).tables == old(self).tables
                &&& final(self).page_directory_addr_backup == old(
                    self).page_directory_addr_backup
                &&& final(machine).page_dir_base == old(self).pd_block.mem_block_start_addr
                &&& final(machine).paging_enabled
                &&& final(machine).interrupts_enabled
                &&& final(machine).tlb@.len() == 0
            }),
    {
        if !self.is_init {
            return Err(MemError::NotInitialized);
        }
        // interrupts stay off while the addressing mode is inconsistent
        machine.interrupts_enabled = false;
        machine.page_dir_base = self.pd_block.mem_block_start_addr;
        machine.paging_enabled = true;
        // loading the base register drops every cached translation
        machine.tlb = Vec::new();
        machine.interrupts_enabled = true;
        self.is_enabled = true;
        Ok(())
    }

    /// Allocates one block from the physical memory manager, clears it
    /// and maps it in place with its `Present` flag set; because the map
    /// is built as an identity map, the block's physical and linear
    /// addresses coincide. Fails with `NotInitialized` before `enable`,
    /// without touching the allocator, and with `OutOfMemory` when no
    /// block is free.
    #[verifier::rlimit(100)]
    #[verifier::spinoff_prover]
    pub fn alloc_single_page(&mut self, pmm: &mut PhysicalMemoryManager, view: &mut PhysMemView)
        -> (r: Result<MemoryBlockInfo, MemError>)
        requires
            old(self).wf(),
            old(pmm).wf(),
            old(self).is_enabled ==> old(self).covers_blocks(old(pmm).mem_blocks as int),
            old(view).bytes@.len() >= old(pmm).total_mem_size,
        ensures
            final(self).wf(),
            final(pmm).wf(),
            !old(self).is_enabled ==> r == Result::<MemoryBlockInfo, MemError>::Err(
                MemError::NotInitialized,
            ) && *final(self) == *old(self) && *final(pmm) == *old(pmm) && final(view).bytes@
                == old(view).bytes@,
            old(self).is_enabled ==> (r is Ok <==> old(pmm).free_blocks > 0),
            old(self).is_enabled && old(pmm).free_blocks == 0 ==> r == Result::<
                MemoryBlockInfo,
                MemError,
            >::Err(MemError::OutOfMemory) && *final(self) == *old(self) && *final(pmm) == *old(
                pmm,
            ) && final(view).bytes@ == old(view).bytes@,
            r matches Ok(b) ==> ({
                &&& b.mem_block_index < old(pmm).mem_blocks
                &&& !old(pmm).spec_is_allocated(b.mem_block_index as int)
                &&& (forall|k: int| 0 <= k < b.mem_block_index ==> old(pmm).spec_is_allocated(k))
                &&& final(pmm).spec_is_allocated(b.mem_block_index as int)
                &&& (forall|k: int|
                    0 <= k < 32 * old(pmm).memmap@.len() && k != b.mem_block_index ==> final(
                        pmm).spec_is_allocated(k) == old(pmm).spec_is_allocated(k))
                &&& final(pmm).free_blocks == old(pmm).free_blocks - 1
                &&& final(pmm).allocated_blocks == old(pmm).allocated_blocks + 1
                &&& final(pmm).total_mem_size == old(pmm).total_mem_size
                &&& final(pmm).mem_blocks == old(pmm).mem_blocks
                &&& b.mem_block_start_addr == b.mem_block_index * MEM_BLOCK_SIZE
                &&& b.mem_block_size == MEM_BLOCK_SIZE
                &&& !b.is_available
                &&& final(self).spec_translate(b.mem_block_start_addr) == Some(
                    b.mem_block_start_addr,
                )
                &&& final(self).covers_blocks(final(pmm).mem_blocks as int)
                &&& final(self).is_enabled && final(self).is_init
                &&& final(self).directory == old(self).directory
                &&& final(self).pt_blocks == old(self).pt_blocks
                &&& final(self).pd_block == old(self).pd_block
                &&& final(self).tables@[b.mem_block_index as int / 1024]@[b.mem_block_index
                    as int % 1024] == (b.mem_block_start_addr & 0xfffff000u32) | 0x1u32
                &&& (forall|dd: int, tt: int|
                    #![trigger final(self).tables@[dd]@[tt]]
                    0 <= dd < 1024 && 0 <= tt < 1024 && !(dd == b.mem_block_index as int / 1024
                        && tt == b.mem_block_index as int % 1024) ==> final(self).tables@[dd]@[tt]
                        == old(self).tables@[dd]@[tt])
                &&& (forall|a: int|
                    b.mem_block_start_addr <= a < b.mem_block_start_addr + MEM_BLOCK_SIZE
                        ==> final(view).bytes@[a] == 0)
                &&& (forall|a: int|
                    0 <= a < old(view).bytes@.len() && !(b.mem_block_start_addr <= a
                        < b.mem_block_start_addr + MEM_BLOCK_SIZE) ==> final(view).bytes@[a]
                        == old(view).bytes@[a])
                &&& final(view).bytes@.len() == old(view).bytes@.len()
            }),
    {
        if !self.is_enabled() {
            return Err(MemError::NotInitialized);
        }
        let mb_info: MemoryBlockInfo = match pmm.alloc_single_mem_block() {
            Ok(b) => b,
            Err(_) => {
                return Err(MemError::OutOfMemory);
            },
        };
        let idx: usize = mb_info.mem_block_index;
        proof {
            assert(idx + 1 <= pmm.mem_blocks);
            assert((idx + 1) * 4096 <= pmm.mem_blocks * 4096) by (nonlinear_arith)
                requires
                    idx + 1 <= pmm.mem_blocks,
            ;
            assert(pmm.mem_blocks * 4096 <= pmm.total_mem_size) by (nonlinear_arith)
                requires
                    pmm.mem_blocks == pmm.total_mem_size as int / 4096,
                    pmm.total_mem_size >= 0,
            ;
            assert(mb_info.mem_block_start_addr + mb_info.mem_block_size
                <= view.bytes@.len());
        }
        pmm.clear_mem_block(view, mb_info);
        let pd_i: usize = self.get_page_directory_index(idx);
        let pt_i: usize = self.get_page_table_index(idx);
        proof {
            assert(pmm.mem_blocks <= 0xfffff);
            assert(idx / 1024 % 1024 == idx as int / 1024);
            assert(1024 * (idx as int / 1024) + (idx as int % 1024) == idx as int);
        }
        let mut pte = PageTableEntry::new(0);
        pte.set(mb_info.mem_block_start_addr, PTE_FLAGS_P);
        self.set_page_table_entry(pd_i, pt_i, pte.inner);
        proof {
            let fs = *self;
            let a = mb_info.mem_block_start_addr;
            assert(a == idx * 4096);
            lemma_identity_pte_bits(idx as u32);
            lemma_alloc_entry_bits(idx as u32);
            lemma_block_page_decompose(idx as u32);
            assert(spec_pd_index(a) == pd_i && spec_pt_index(a) == pt_i);
            assert(entry_present(fs.directory@[pd_i as int]));
            assert(fs.tables@[pd_i as int]@[pt_i as int] == (a & 0xfffff000u32) | 0x1u32);
            assert(entry_present(fs.tables@[pd_i as int]@[pt_i as int]));
            assert(entry_frame(fs.tables@[pd_i as int]@[pt_i as int]) == a);
            assert(a & 0xfffu32 == 0 && (a | 0u32) == a) by (bit_vector)
                requires
                    a % 4096 == 0,
            ;
            assert(fs.spec_translate(a) == Some(a));
            assert forall|dd: int, tt: int|
                #![trigger fs.tables@[dd]@[tt]]
                0 <= dd < 1024 && 0 <= tt < 1024 && entry_present(fs.tables@[dd]@[tt]) implies
                entry_frame(fs.tables@[dd]@[tt]) == (dd * 0x400000 + tt * 0x1000) as u32 by {
                if dd == pd_i as int && tt == pt_i as int {
                    assert(dd * 0x400000 + tt * 0x1000 == idx * 4096);
                } else {
                    assert(fs.tables@[dd]@[tt] == old(self).tables@[dd]@[tt]);
                }
            }
            assert(fs.maps_identity());
        }
        Ok(mb_info)
    }

    /// Returns the block to the physical memory manager, clears its
    /// bytes, clears the `Present` flag on its page-table entry and
    /// drops the page's cached translation. Fails with `NotInitialized`,
    /// changing nothing, before `enable`.
    #[verifier::rlimit(100)]
    #[verifier::spinoff_prover]
    pub fn dealloc_single_page(
        &mut self,
        pmm: &mut PhysicalMemoryManager,
        view: &mut PhysMemView,
        machine: &mut MachineState,
        mem_block: MemoryBlockInfo,
    ) -> (r: Result<(), MemError>)
        requires
            old(self).wf(),
            old(pmm).wf(),
            old(self).is_enabled ==> ({
                &&& mem_block.mem_block_index < old(pmm).mem_blocks
                &&& mem_block.mem_block_start_addr == mem_block.mem_block_index * MEM_BLOCK_SIZE
                &&& mem_block.mem_block_size == MEM_BLOCK_SIZE
                &&& old(view).bytes@.len() >= old(pmm).total_mem_size
            }),
        ensures
            final(self).wf(),
            final(pmm).wf(),
            r is Ok <==> old(self).is_enabled,
            !old(self).is_enabled ==> r == Result::<(), MemError>::Err(MemError::NotInitialized)
                && *final(self) == *old(self) && *final(pmm) == *old(pmm) && final(view).bytes@
                == old(view).bytes@ && *final(machine) == *old(machine),
            old(self).is_enabled ==> ({
                &&& !final(pmm).spec_is_allocated(mem_block.mem_block_index as int)
                &&& (forall|k: int|
                    0 <= k < 32 * old(pmm).memmap@.len() && k != mem_block.mem_block_index
                        ==> final(pmm).spec_is_allocated(k) == old(pmm).spec_is_allocated(k))
                &&& (old(pmm).spec_is_allocated(mem_block.mem_block_index as int) ==> final(
                    pmm).free_blocks == old(pmm).free_blocks + 1 && final(pmm).allocated_blocks
                    == old(pmm).allocated_blocks - 1)
                &&& final(pmm).total_mem_size == old(pmm).total_mem_size
                &&& final(pmm).mem_blocks == old(pmm).mem_blocks
                &&& final(self).spec_translate(mem_block.mem_block_start_addr) is None
                &&& final(self).tables@[mem_block.mem_block_index as int / 1024]@[
                    mem_block.mem_block_index as int % 1024] == old(self).tables@[
                    mem_block.mem_block_index as int / 1024]@[mem_block.mem_block_index
                    as int % 1024] & !0x1u32
                &&& (forall|dd: int, tt: int|
                    #![trigger final(self).tables@[dd]@[tt]]
                    0 <= dd < 1024 && 0 <= tt < 1024 && !(dd == mem_block.mem_block_index
                        as int / 1024 && tt == mem_block.mem_block_index as int % 1024)
                        ==> final(self).tables@[dd]@[tt] == old(self).tables@[dd]@[tt])
                &&& final(self).directory == old(self).directory
                &&& final(self).is_enabled && final(self).is_init
                &&& (forall|a: int|
                    mem_block.mem_block_start_addr <= a < mem_block.mem_block_start_addr
                        + MEM_BLOCK_SIZE ==> final(view).bytes@[a] == 0)
                &&& (forall|a: int|
                    0 <= a < old(view).bytes@.len() && !(mem_block.mem_block_start_addr <= a
                        < mem_block.mem_block_start_addr + MEM_BLOCK_SIZE) ==> final(
                        view).bytes@[a] == old(view).bytes@[a])
                &&& !final(machine).tlb@.contains(mem_block.mem_block_start_addr)
                &&& (forall|x: u32| #[trigger]
                    final(machine).tlb@.contains(x) ==> old(machine).tlb@.contains(x))
                &&& final(machine).page_dir_base == old(machine).page_dir_base
                &&& final(machine).paging_enabled == old(machine).paging_enabled
                &&& final(machine).interrupts_enabled == old(machine).interrupts_enabled
            }),
    {
        if !self.is_enabled() {
            return Err(MemError::NotInitialized);
        }
        let idx: usize = mem_block.mem_block_index;
        pmm.dealloc_single_mem_block(mem_block);
        proof {
            assert(idx + 1 <= pmm.mem_blocks);
            assert((idx + 1) * 4096 <= pmm.mem_blocks * 4096) by (nonlinear_arith)
                requires
                    idx + 1 <= pmm.mem_blocks,
            ;
            assert(pmm.mem_blocks * 4096 <= pmm.total_mem_size) by (nonlinear_arith)
                requires
                    pmm.mem_blocks == pmm.total_mem_size as int / 4096,
                    pmm.total_mem_size >= 0,
            ;
        }
        pmm.clear_mem_block(view, mem_block);
        let pd_i: usize = self.get_page_directory_index(idx);
        let pt_i: usize = self.get_page_table_index(idx);
        proof {
            assert(pmm.mem_blocks <= 0xfffff);
            assert(idx / 1024 % 1024 == idx as int / 1024);
            assert(1024 * (idx as int / 1024) + (idx as int % 1024) == idx as int);
        }
        let mut pte = self.get_page_table_entry(pd_i, pt_i);
        pte.clear_flag(PTE_FLAGS_P);
        self.set_page_table_entry(pd_i, pt_i, pte.inner);
        let va = VirtualAddress::new(mem_block.mem_block_start_addr);
        va.flash_tlb(machine);
        proof {
            let fs = *self;
            let a = mem_block.mem_block_start_addr;
            lemma_identity_pte_bits(idx as u32);
            lemma_block_page_decompose(idx as u32);
            assert(spec_pd_index(a) == pd_i && spec_pt_index(a) == pt_i);
            lemma_entry_clear_present(old(self).tables@[pd_i as int]@[pt_i as int]);
            assert(!entry_present(fs.tables@[pd_i as int]@[pt_i as int]));
            assert(fs.spec_translate(a) is None);
            assert forall|dd: int, tt: int|
                #![trigger fs.tables@[dd]@[tt]]
                0 <= dd < 1024 && 0 <= tt < 1024 && entry_present(fs.tables@[dd]@[tt]) implies
                entry_frame(fs.tables@[dd]@[tt]) == (dd * 0x400000 + tt * 0x1000) as u32 by {
                if !(dd == pd_i as int && tt == pt_i as int) {
                    assert(fs.tables@[dd]@[tt] == old(self).tables@[dd]@[tt]);
                }
            }
            assert(fs.maps_identity());
            assert(a & 0xfffff000u32 == a) by (bit_vector)
                requires
                    a % 4096 == 0,
            ;
        }
        Ok(())
    }

    /// Walks the live tables exactly as the hardware would, returning
    /// the physical address that the linear address `addr` reaches.
    pub fn translate_addr(&self, addr: u32) -> (r: Option<u32>)
        requires
            self.wf(),
            self.is_init,
        ensures
            r == self.spec_translate(addr),
    {
        let va = VirtualAddress::new(addr);
        let d: usize = va.get_page_directory_index();
        let t: usize = va.get_page_table_index();
        let pde = self.get_page_directory_entry(d);
        if !pde.get_flag_present() {
            return None;
        }
        let pte = self.get_page_table_entry(d, t);
        if !pte.get_flag_present() {
            return None;
        }
        Some(pte.get_page_frame_addr() | (addr & 0xfff))
    }

    /// The address space is an identity map: whenever the live tables
    /// translate a linear address at all, they translate it to itself.
    pub proof fn lemma_translate_identity(self, va: u32)
        requires
            self.wf(),
            self.is_init,
            self.spec_translate(va) is Some,
        ensures
            self.spec_translate(va) == Some(va),
    {
        crate::virt_mem::lemma_va_round_trip(va);
        let d = spec_pd_index(va) as int;
        let t = spec_pt_index(va) as int;
        assert(entry_present(self.tables@[d]@[t]));
        assert(entry_frame(self.tables@[d]@[t]) == (d * 0x400000 + t * 0x1000) as u32);
        lemma_va_frame_recompose(va);
    }
}

/// A zero entry has no flags set.
proof fn lemma_zero_entry()
    by (bit_vector)
    ensures
        0u32 & 0x1u32 == 0,
{
}

/// Bit facts about the entry installed for block `j` of the identity
/// map: it is present and its frame is the block's own address.
proof fn lemma_identity_pte_bits(j: u32)
    by (bit_vector)
    requires
        j < 0x100000,
    ensures
        ((((j * 4096) as u32) & 0xfffff000u32) | 3u32) & 0x1u32 != 0,
        (((((j * 4096) as u32) & 0xfffff000u32) | 3u32) & 0xfffff000u32) == (j * 4096) as u32,
        ((j * 4096) as u32) & 0xfffu32 == 0,
        ((j * 4096) as u32) % 4096 == 0,
{
}

/// Bit facts about the entry installed for a freshly allocated page:
/// present, with the page's own address as the frame.
proof fn lemma_alloc_entry_bits(j: u32)
    by (bit_vector)
    requires
        j < 0x100000,
    ensures
        ((((j * 4096) as u32) & 0xfffff000u32) | 0x1u32) & 0x1u32 != 0,
        (((((j * 4096) as u32) & 0xfffff000u32) | 0x1u32) & 0xfffff000u32) == (j * 4096) as u32,
{
}

/// Clearing the low bit makes an entry not present and keeps its frame.
proof fn lemma_entry_clear_present(e: u32)
    by (bit_vector)
    ensures
        (e & !0x1u32) & 0x1u32 == 0,
        ((e & !0x1u32) & 0xfffff000u32) == (e & 0xfffff000u32),
{
}

/// A directory entry built from a block-aligned address is present and
/// holds that address as its frame.
proof fn lemma_aligned_addr_entry(p: u32)
    by (bit_vector)
    requires
        p % 4096 == 0,
    ensures
        ((p & 0xfffff000u32) | 3u32) & 0x1u32 != 0,
        (((p & 0xfffff000u32) | 3u32) & 0xfffff000u32) == p,
{
}

/// A block index's page address decomposes back into the block's chunk
/// and slot.
proof fn lemma_block_page_decompose(j: u32)
    by (bit_vector)
    requires
        j < 0x100000,
    ensures
        spec_pd_index((j * 4096) as u32) == j / 1024,
        spec_pt_index((j * 4096) as u32) == j % 1024,
{
}

/// The frame address selected by a linear address's two indexes,
/// recombined with its page offset, is the address itself.
proof fn lemma_va_frame_recompose(va: u32)
    by (bit_vector)
    ensures
        ((((va & 0xffc00000u32) >> 22u32) * 0x400000 + ((va & 0x3ff000u32) >> 12u32)
            * 0x1000) as u32) | (va & 0xfffu32) == va,
{
}

/// Masking an entry with either flags mask keeps its low flag bits.
proof fn lemma_flags_low_bits(e: u32)
    by (bit_vector)
    ensures
        ((e & 0x1ffu32) & 0x1u32 != 0) == (e & 0x1u32 != 0),
        ((e & 0xffu32) & 0x1u32 != 0) == (e & 0x1u32 != 0),
        ((e & 0x1ffu32) & 0x2u32 != 0) == (e & 0x2u32 != 0),
        ((e & 0xffu32) & 0x2u32 != 0) == (e & 0x2u32 != 0),
{
}

} // verus!
