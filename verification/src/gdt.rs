//! Segment descriptors for the global descriptor table, built as plain
//! values; the kernel's table-loading edge copies them into the
//! hardware's packed layout.

use vstd::prelude::*;

verus! {

pub const GDT_ADDR: i32 = 0x00270000;
pub const GDT_LIMIT: i32 = 0x0000ffff;

/// One eight-byte segment descriptor, field by field.
#[derive(Debug, PartialEq, Eq, Structural, Clone, Copy)]
pub struct SegmentDescriptor {
    pub limit_low: u16,
    pub base_low: u16,
    pub base_mid: u8,
    pub access_right: u8,
    pub limit_high: u8,
    pub base_high: u8,
}

impl SegmentDescriptor {
    /// Packs a segment's limit, base and access rights into descriptor
    /// fields; a limit above twenty bits switches to page granularity.
    pub fn new(limit: u32, base: i32, ar: i32) -> (r: SegmentDescriptor)
        ensures
            ({
                let limit2: u32 = if limit > 0xfffff {
                    limit / 0x1000
                } else {
                    limit
                };
                let ar2: i32 = if limit > 0xfffff {
                    ar | 0x8000
                } else {
                    ar
                };
                &&& r.limit_low == limit2 as u16
                &&& r.base_low == base as u16
                &&& r.base_mid == (base >> 16) as u8
                &&& r.access_right == ar2 as u8
                &&& r.limit_high == (((limit2 >> 16) as u8 & 0x0f) | ((ar2 >> 8) as u8 & 0xf0))
                &&& r.base_high == (base >> 24) as u8
            }),
    {
        let mut limit2: u32 = limit;
        let mut ar2: i32 = ar;
        if limit2 > 0xfffff {
            ar2 = ar2 | 0x8000;
            limit2 = limit2 / 0x1000;
        }
        SegmentDescriptor {
            limit_low: limit2 as u16,
            base_low: base as u16,
            base_mid: (base >> 16) as u8,
            access_right: ar2 as u8,
            limit_high: ((limit2 >> 16) as u8 & 0x0f) | ((ar2 >> 8) as u8 & 0xf0),
            base_high: (base >> 24) as u8,
        }
    }
}

} // verus!
