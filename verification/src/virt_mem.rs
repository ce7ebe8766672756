//! The virtual address codec: a 32-bit linear address decomposed as
//! ten bits of page-directory index, ten bits of page-table index and
//! twelve bits of page offset. Pure arithmetic, no storage.

use vstd::prelude::*;

use crate::machine::MachineState;
use crate::MemError;

verus! {

pub const VA_PD_INDEX_MASK: u32 = 0xffc00000;
pub const VA_PD_INDEX_MAX: u32 = 0x3ff;
pub const VA_PD_INDEX_SHIFT: u32 = 22;
pub const VA_PT_INDEX_MASK: u32 = 0x3ff000;
pub const VA_PT_INDEX_MAX: u32 = 0x3ff;
pub const VA_PT_INDEX_SHIFT: u32 = 12;
pub const VA_PAGE_OFFSET_MASK: u32 = 0xfff;
pub const VA_PAGE_OFFSET_MAX: u32 = 0xfff;

/// A 32-bit linear address, interpreted as `[dir:10][table:10][offset:12]`.
#[derive(Debug, PartialEq, Eq, Structural, Clone, Copy)]
pub struct VirtualAddress {
    pub inner: u32,
}

/// Directory index of a linear address: its top ten bits.
pub open spec fn spec_pd_index(addr: u32) -> u32 {
    (addr & VA_PD_INDEX_MASK) >> VA_PD_INDEX_SHIFT
}

/// Table index of a linear address: bits 12 to 21.
pub open spec fn spec_pt_index(addr: u32) -> u32 {
    (addr & VA_PT_INDEX_MASK) >> VA_PT_INDEX_SHIFT
}

/// Page offset of a linear address: its low twelve bits.
pub open spec fn spec_page_offset(addr: u32) -> u32 {
    addr & VA_PAGE_OFFSET_MASK
}

/// Recomposition of a linear address from its three components.
pub open spec fn spec_linear(pd: u32, pt: u32, offset: u32) -> u32 {
    (pd << VA_PD_INDEX_SHIFT) | (pt << VA_PT_INDEX_SHIFT) | offset
}

/// Decomposing any linear address and recomposing the parts gives the
/// address back, and each component is within its ten- or twelve-bit range.
pub proof fn lemma_va_round_trip(addr: u32)
    ensures
        spec_linear(spec_pd_index(addr), spec_pt_index(addr), spec_page_offset(addr)) == addr,
        spec_pd_index(addr) <= VA_PD_INDEX_MAX,
        spec_pt_index(addr) <= VA_PT_INDEX_MAX,
        spec_page_offset(addr) <= VA_PAGE_OFFSET_MAX,
{
    assert(((addr & 0xffc00000) >> 22) << 22 | ((addr & 0x3ff000) >> 12) << 12 | (addr & 0xfff)
        == addr) by (bit_vector);
    assert((addr & 0xffc00000) >> 22 <= 0x3ff) by (bit_vector);
    assert((addr & 0x3ff000) >> 12 <= 0x3ff) by (bit_vector);
    assert(addr & 0xfff <= 0xfff) by (bit_vector);
}

/// Recomposing in-range components and decomposing the result gives each
/// component back.
pub proof fn lemma_va_components_round_trip(pd: u32, pt: u32, offset: u32)
    requires
        pd <= VA_PD_INDEX_MAX,
        pt <= VA_PT_INDEX_MAX,
        offset <= VA_PAGE_OFFSET_MAX,
    ensures
        spec_pd_index(spec_linear(pd, pt, offset)) == pd,
        spec_pt_index(spec_linear(pd, pt, offset)) == pt,
        spec_page_offset(spec_linear(pd, pt, offset)) == offset,
{
    let a = spec_linear(pd, pt, offset);
    assert(pd <= 0x3ff && pt <= 0x3ff && offset <= 0xfff ==> {
        let a = (pd << 22) | (pt << 12) | offset;
        &&& (a & 0xffc00000) >> 22 == pd
        &&& (a & 0x3ff000) >> 12 == pt
        &&& a & 0xfff == offset
    }) by (bit_vector);
}

impl VirtualAddress {
    /// Wraps a raw 32-bit linear address.
    pub fn new(inner: u32) -> (r: VirtualAddress)
        ensures
            r.inner == inner,
    {
        VirtualAddress { inner }
    }

    /// Builds an address from its three components; a component outside its
    /// range is rejected with `OutOfRange`.
    pub fn set(page_directory_index: u32, page_table_index: u32, page_offset: u32) -> (r: Result<
        VirtualAddress,
        MemError,
    >)
        ensures
            r is Ok <==> page_directory_index <= VA_PD_INDEX_MAX && page_table_index
                <= VA_PT_INDEX_MAX && page_offset <= VA_PAGE_OFFSET_MAX,
            r matches Ok(v) ==> v.inner == spec_linear(
                page_directory_index,
                page_table_index,
                page_offset,
            ),
            r is Err ==> r == Result::<VirtualAddress, MemError>::Err(MemError::OutOfRange),
    {
        if page_directory_index > VA_PD_INDEX_MAX {
            return Err(MemError::OutOfRange);
        }
        if page_table_index > VA_PT_INDEX_MAX {
            return Err(MemError::OutOfRange);
        }
        if page_offset > VA_PAGE_OFFSET_MAX {
            return Err(MemError::OutOfRange);
        }
        let inner = (page_directory_index << VA_PD_INDEX_SHIFT) | (page_table_index
            << VA_PT_INDEX_SHIFT) | page_offset;
        Ok(VirtualAddress { inner })
    }

    /// Page-directory index encoded in the address.
    pub fn get_page_directory_index(&self) -> (r: usize)
        ensures
            r == spec_pd_index(self.inner),
            r <= VA_PD_INDEX_MAX,
    {
        proof {
            lemma_va_round_trip(self.inner);
        }
        ((self.inner & VA_PD_INDEX_MASK) >> VA_PD_INDEX_SHIFT) as usize
    }

    /// Page-table index encoded in the address.
    pub fn get_page_table_index(&self) -> (r: usize)
        ensures
            r == spec_pt_index(self.inner),
            r <= VA_PT_INDEX_MAX,
    {
        proof {
            lemma_va_round_trip(self.inner);
        }
        ((self.inner & VA_PT_INDEX_MASK) >> VA_PT_INDEX_SHIFT) as usize
    }

    /// Page offset encoded in the address.
    pub fn get_page_offset(&self) -> (r: usize)
        ensures
            r == spec_page_offset(self.inner),
            r <= VA_PAGE_OFFSET_MAX,
    {
        proof {
            lemma_va_round_trip(self.inner);
        }
        (self.inner & VA_PAGE_OFFSET_MASK) as usize
    }

    /// The raw 32-bit address.
    pub fn get_addr(&self) -> (r: u32)
        ensures
            r == self.inner,
    {
        self.inner
    }

    /// Drops the cached translation of the page containing this
    /// address, as a single-address translation invalidation does.
    pub fn flash_tlb(&self, machine: &mut MachineState)
        ensures
            final(machine).page_dir_base == old(machine).page_dir_base,
            final(machine).paging_enabled == old(machine).paging_enabled,
            final(machine).interrupts_enabled == old(machine).interrupts_enabled,
            !final(machine).tlb@.contains(self.inner & 0xfffff000u32),
            forall|x: u32| #[trigger] final(machine).tlb@.contains(x) ==> old(
                machine).tlb@.contains(x),
            forall|x: u32|
                old(machine).tlb@.contains(x) && x != self.inner & 0xfffff000u32 ==> #[trigger]
                    final(machine).tlb@.contains(x),
    {
        machine.invalidate_translation(self.inner & 0xfffff000);
    }
}

} // verus!
