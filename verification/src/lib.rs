//! Verified core of a small 32-bit kernel: physical memory management,
//! two-level paging with an identity-mapped address space, the virtual
//! address codec, and the pure register-level logic of the PCI and FIFO
//! helpers that the rest of the kernel builds on.

pub mod boot;
pub mod fifo;
pub mod gdt;
pub mod idt;
pub mod machine;
pub mod mem_view;
pub mod paging;
pub mod pci;
pub mod phys_mem;
pub mod util;
pub mod virt_mem;

use vstd::prelude::*;

verus! {

/// Failure taxonomy of the memory subsystem: exhaustion is reported to the
/// caller, use of an uninitialised manager and out-of-range components are
/// rejected explicitly.
#[derive(Debug, PartialEq, Eq, Structural, Clone, Copy)]
pub enum MemError {
    OutOfMemory,
    NotInitialized,
    OutOfRange,
}

} // verus!
