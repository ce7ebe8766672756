//! A bounded first-in-first-out byte queue over a fixed ring buffer,
//! used for interrupt-time input buffering.

use vstd::prelude::*;

verus! {

const FLAGS_OVERRUN: u32 = 1;

/// Position of logical slot `i` of a ring of `size` slots that starts
/// at slot `q`.
pub open spec fn ring_index(q: int, i: int, size: int) -> int {
    if q + i < size {
        q + i
    } else {
        q + i - size
    }
}

/// A byte queue of up to `size` elements in a 128-byte ring buffer.
/// `p` is the write slot, `q` the read slot, `free` the remaining
/// capacity; an overrun attempt is latched in `flags`.
pub struct Fifo {
    pub buf: Vec<u8>,
    pub p: u32,
    pub q: u32,
    pub free: u32,
    pub flags: u32,
    pub size: u32,
}

impl Fifo {
    /// Number of bytes stored.
    pub open spec fn count(self) -> int {
        self.size - self.free
    }

    /// Well-formedness: indices stay inside the ring and the write slot
    /// sits `count` slots after the read slot.
    pub open spec fn wf(self) -> bool {
        &&& self.buf@.len() == 128
        &&& 1 <= self.size <= 128
        &&& self.p < self.size
        &&& self.q < self.size
        &&& self.free <= self.size
        &&& self.p == ring_index(self.q as int, self.count(), self.size as int)
    }

    /// The stored bytes, oldest first.
    pub open spec fn contents(self) -> Seq<u8> {
        Seq::new(
            self.count() as nat,
            |i: int| self.buf@[ring_index(self.q as int, i, self.size as int)],
        )
    }

    /// An empty queue of capacity `size`.
    pub fn new(size: u32) -> (r: Fifo)
        requires
            1 <= size <= 128,
        ensures
            r.wf(),
            r.contents() == Seq::<u8>::empty(),
            r.size == size,
            r.free == size,
            r.flags == 0,
    {
        let mut buf: Vec<u8> = Vec::new();
        while buf.len() < 128
            invariant
                buf@.len() <= 128,
            decreases 128 - buf@.len(),
        {
            buf.push(0);
        }
        let r = Fifo { buf, p: 0, q: 0, free: size, flags: 0, size };
        proof {
            assert(r.contents() =~= Seq::<u8>::empty());
        }
        r
    }

    /// Appends a byte at the tail. When the queue is full nothing is
    /// stored, the overrun flag is latched, and the call reports the
    /// overrun.
    pub fn put(&mut self, data: u8) -> (r: Result<(), &'static str>)
        requires
            old(self).wf(),
        ensures
            final(self).wf(),
            final(self).size == old(self).size,
            final(self).q == old(self).q,
            r is Ok <==> old(self).free > 0,
            r matches Err(m) ==> m@ == "Flags overrun"@,
            old(self).free == 0 ==> final(self).contents() == old(self).contents() && final(
                self).flags == old(self).flags | 0x1u32 && final(self).free == old(self).free,
            old(self).free > 0 ==> final(self).contents() == old(self).contents().push(data)
                && final(self).flags == old(self).flags && final(self).free == old(self).free
                - 1,
    {
        if self.free == 0 {
            self.flags = self.flags | FLAGS_OVERRUN;
            proof {
                assert(self.contents() =~= old(self).contents());
            }
            return Err("Flags overrun");
        }
        let idx: usize = self.p as usize;
        self.buf[idx] = data;
        self.p = self.p + 1;
        if self.p == self.size {
            self.p = 0;
        }
        self.free = self.free - 1;
        proof {
            assert forall|i: int| 0 <= i < self.contents().len() implies self.contents()[i]
                == old(self).contents().push(data)[i] by {
                let s = self.size as int;
                let qq = self.q as int;
                if i < old(self).count() {
                    assert(ring_index(qq, i, s) != old(self).p as int);
                }
            }
            assert(self.contents() =~= old(self).contents().push(data));
        }
        Ok(())
    }

    /// Removes and returns the oldest byte; reports when nothing is
    /// stored.
    pub fn get(&mut self) -> (r: Result<u8, &'static str>)
        requires
            old(self).wf(),
        ensures
            final(self).wf(),
            final(self).size == old(self).size,
            final(self).p == old(self).p,
            final(self).flags == old(self).flags,
            r is Ok <==> old(self).count() > 0,
            r matches Err(m) ==> m@ == "No data"@,
            old(self).count() == 0 ==> *final(self) == *old(self),
            old(self).count() > 0 ==> r == Result::<u8, &'static str>::Ok(
                old(self).contents()[0],
            ) && final(self).contents() == old(self).contents().subrange(
                1,
                old(self).count(),
            ) && final(self).free == old(self).free + 1,
    {
        if self.free == self.size {
            return Err("No data");
        }
        let data: u8 = self.buf[self.q as usize];
        self.q = self.q + 1;
        if self.q == self.size {
            self.q = 0;
        }
        self.free = self.free + 1;
        proof {
            let s = self.size as int;
            assert forall|i: int| 0 <= i < self.contents().len() implies self.contents()[i]
                == old(self).contents().subrange(1, old(self).count())[i] by {
                assert(ring_index(self.q as int, i, s) == ring_index(
                    old(self).q as int,
                    i + 1,
                    s,
                ));
            }
            assert(self.contents() =~= old(self).contents().subrange(1, old(self).count()));
        }
        Ok(data)
    }

    /// Number of bytes currently stored.
    pub fn status(&self) -> (r: u32)
        requires
            self.wf(),
        ensures
            r == self.count(),
            r == self.contents().len(),
    {
        self.size - self.free
    }
}

} // verus!
