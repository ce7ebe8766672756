//! A value model of the architecture-primitive state that the memory
//! subsystem drives: the page-table base register, the paging-enable
//! mode bit, the interrupt flag and the set of linear page addresses
//! with a cached translation. The kernel's register and `invlpg`
//! instructions act on the real machine; the managers' contracts are
//! stated over this model.

use vstd::prelude::*;

verus! {

/// The machine state visible to the memory subsystem.
pub struct MachineState {
    /// Physical address held in the page-table base register.
    pub page_dir_base: u32,
    /// Whether the paging-enable mode bit is set.
    pub paging_enabled: bool,
    /// Whether interrupts are enabled.
    pub interrupts_enabled: bool,
    /// Linear page addresses whose translation may be cached.
    pub tlb: Vec<u32>,
}

impl MachineState {
    /// The reset state: paging off, interrupts off, nothing cached.
    pub fn new() -> (r: MachineState)
        ensures
            r.page_dir_base == 0,
            !r.paging_enabled,
            !r.interrupts_enabled,
            r.tlb@.len() == 0,
    {
        MachineState { page_dir_base: 0, paging_enabled: false, interrupts_enabled: false, tlb: Vec::new() }
    }

    /// Drops every cached translation for the page `page_addr`, leaving
    /// all other cached translations in place.
    pub fn invalidate_translation(&mut self, page_addr: u32)
        ensures
            final(self).page_dir_base == old(self).page_dir_base,
            final(self).paging_enabled == old(self).paging_enabled,
            final(self).interrupts_enabled == old(self).interrupts_enabled,
            !final(self).tlb@.contains(page_addr),
            forall|x: u32| #[trigger] final(self).tlb@.contains(x) ==> old(self).tlb@.contains(x),
            forall|x: u32|
                old(self).tlb@.contains(x) && x != page_addr ==> #[trigger] final(
                    self).tlb@.contains(x),
    {
        let ghost pre_tlb = self.tlb@;
        let mut kept: Vec<u32> = Vec::new();
        let mut i: usize = 0;
        while i < self.tlb.len()
            invariant
                i <= self.tlb@.len(),
                self.tlb@ == pre_tlb,
                !kept@.contains(page_addr),
                forall|x: u32| #[trigger] kept@.contains(x) ==> pre_tlb.contains(x),
                forall|j: int| 0 <= j < i && pre_tlb[j] != page_addr ==> kept@.contains(pre_tlb[j]),
            decreases self.tlb@.len() - i,
        {
            let e: u32 = self.tlb[i];
            if e != page_addr {
                let ghost kept_before = kept@;
                kept.push(e);
                proof {
                    assert forall|x: u32| #[trigger] kept@.contains(x) implies pre_tlb.contains(
                        x,
                    ) by {
                        if x != e {
                            let w = choose|w: int| 0 <= w < kept@.len() && kept@[w] == x;
                            assert(w < kept_before.len()) by {
                                if w == kept_before.len() {
                                    assert(kept@[w] == e);
                                }
                            }
                            assert(kept_before[w] == x);
                            assert(kept_before.contains(x));
                        } else {
                            assert(pre_tlb[i as int] == e);
                            assert(pre_tlb.contains(x));
                        }
                    }
                    assert forall|j: int| 0 <= j < i + 1 && pre_tlb[j] != page_addr implies
                        kept@.contains(pre_tlb[j]) by {
                        if j < i {
                            let w = choose|w: int|
                                0 <= w < kept_before.len() && kept_before[w] == pre_tlb[j];
                            assert(kept@[w] == pre_tlb[j]);
                        } else {
                            assert(kept@[kept@.len() - 1] == pre_tlb[j]);
                        }
                    }
                }
            }
            i += 1;
        }
        self.tlb = kept;
        proof {
            assert forall|x: u32| pre_tlb.contains(x) && x != page_addr implies
                self.tlb@.contains(x) by {
                let w = choose|w: int| 0 <= w < pre_tlb.len() && pre_tlb[w] == x;
                assert(self.tlb@.contains(pre_tlb[w]));
            }
        }
    }
}

} // verus!
