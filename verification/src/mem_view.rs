//! A typed view of a window of physical memory starting at address zero.
//! All higher-level code reads and writes bytes through this one
//! abstraction instead of through raw addresses, so every access is
//! bounds-checked against the window.

use vstd::prelude::*;

verus! {

/// A byte-addressable window `[0, len)` of physical memory.
pub struct PhysMemView {
    pub bytes: Vec<u8>,
}

impl PhysMemView {
    /// A window of `size` bytes, all zero.
    pub fn new(size: usize) -> (r: PhysMemView)
        ensures
            r.bytes@.len() == size,
            forall|a: int| 0 <= a < size ==> r.bytes@[a] == 0,
    {
        let mut bytes: Vec<u8> = Vec::new();
        while bytes.len() < size
            invariant
                bytes@.len() <= size,
                forall|a: int| 0 <= a < bytes@.len() ==> bytes@[a] == 0,
            decreases size - bytes@.len(),
        {
            bytes.push(0);
        }
        PhysMemView { bytes }
    }

    /// Number of bytes in the window.
    pub fn len(&self) -> (r: usize)
        ensures
            r == self.bytes@.len(),
    {
        self.bytes.len()
    }

    /// Reads the byte at physical address `addr`.
    pub fn read_byte(&self, addr: u32) -> (r: u8)
        requires
            addr < self.bytes@.len(),
        ensures
            r == self.bytes@[addr as int],
    {
        self.bytes[addr as usize]
    }

    /// Writes the byte at physical address `addr`.
    pub fn write_byte(&mut self, addr: u32, value: u8)
        requires
            addr < old(self).bytes@.len(),
        ensures
            final(self).bytes@ == old(self).bytes@.update(addr as int, value),
    {
        self.bytes[addr as usize] = value;
    }

    /// Zeroes the address range `[start, start + size)`.
    pub fn clear_range(&mut self, start: u32, size: u32)
        requires
            start + size <= old(self).bytes@.len(),
        ensures
            final(self).bytes@.len() == old(self).bytes@.len(),
            forall|a: int| start <= a < start + size ==> final(self).bytes@[a] == 0,
            forall|a: int|
                0 <= a < old(self).bytes@.len() && !(start <= a < start + size) ==> final(self).bytes@[a] == old(self).bytes@[a],

    {
        let n: usize = self.bytes.len();
        let mut i: u32 = 0;
        while i < size
            invariant
                i <= size,
                n == self.bytes@.len(),
                start + size <= self.bytes@.len(),
                self.bytes@.len() == old(self).bytes@.len(),
                forall|a: int| start <= a < start + i ==> self.bytes@[a] == 0,
                forall|a: int|
                    0 <= a < old(self).bytes@.len() && !(start <= a < start + i) ==> self.bytes@[a]
                        == old(self).bytes@[a],
            decreases size - i,
        {
            let idx: usize = start as usize + i as usize;
            self.bytes[idx] = 0;
            i += 1;
        }
    }
}

} // verus!
