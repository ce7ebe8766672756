//! Gate descriptors for the interrupt descriptor table, built as plain
//! values; the kernel's table-loading edge copies them into the
//! hardware's packed layout.

use vstd::prelude::*;

verus! {

pub const IDT_ADDR: i32 = 0x0026f800;
pub const IDT_LIMIT: i32 = 0x000007ff;

/// One eight-byte interrupt gate descriptor, field by field.
#[derive(Debug, PartialEq, Eq, Structural, Clone, Copy)]
pub struct GateDescriptor {
    pub offset_low: u16,
    pub selector: u16,
    pub dw_count: u8,
    pub access_right: u8,
    pub offset_high: u16,
}

impl GateDescriptor {
    /// Packs a handler offset, a selector and access rights into gate
    /// descriptor fields.
    pub fn new(offset: u32, selector: i32, ar: i32) -> (r: GateDescriptor)
        ensures
            r.offset_low == offset as u16,
            r.selector == selector as u16,
            r.dw_count == (ar >> 8) as u8,
            r.access_right == ar as u8,
            r.offset_high == (offset >> 16) as u16,
    {
        GateDescriptor {
            offset_low: offset as u16,
            selector: selector as u16,
            dw_count: (ar >> 8) as u8,
            access_right: ar as u8,
            offset_high: (offset >> 16) as u16,
        }
    }
}

} // verus!
