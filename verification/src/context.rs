//! The register and memory interface that instruction semantics are written against.
use vstd::prelude::*;

verus! {

/// Register file, status register and memory of a core, as instructions see them.
pub trait CpuContext {
    /// Whether the context is in a usable state.
    spec fn ctx_wf(&self) -> bool;

    /// The sixteen general registers R0..R15.
    spec fn ctx_regs(&self) -> Seq<u32>;

    /// The application status register.
    spec fn ctx_apsr(&self) -> u32;

    /// Whether the main stack pointer is the one in use.
    spec fn ctx_is_msp(&self) -> bool;

    /// Whether a word access at `addr` is decoded by some memory region.
    spec fn ctx_mapped(&self, addr: u32) -> bool;

    /// The word at `addr` when it lies in memory that the core itself holds; `None` when the
    /// word belongs to a peripheral, whose contents are not part of this model.
    spec fn ctx_word(&self, addr: u32) -> Option<u32>;

    /// The word that a read at a mapped `addr` gives: `ctx_word(addr)` where that has a
    /// value, otherwise what the peripheral that decodes `addr` returns.
    spec fn ctx_read(&self, addr: u32) -> u32;

    /// The memory that `self` holds became that of `new` through a word write of `v` at
    /// `addr`.
    spec fn ctx_stored(&self, new: &Self, addr: u32, v: u32) -> bool;

    /// Whether `other` decodes the same addresses as `self` and holds the same words there.
    open spec fn ctx_same_mem(&self, other: &Self) -> bool {
        forall|a: u32| #![trigger other.ctx_word(a)] #![trigger other.ctx_mapped(a)] #![trigger other.ctx_read(a)]
            other.ctx_word(a) == self.ctx_word(a) && other.ctx_mapped(a) == self.ctx_mapped(a)
                && other.ctx_read(a) == self.ctx_read(a)
    }

    /// Whether `other` has the same registers, APSR and stack selection as `self`.
    open spec fn ctx_same_regs(&self, other: &Self) -> bool {
        &&& other.ctx_regs() == self.ctx_regs()
        &&& other.ctx_apsr() == self.ctx_apsr()
        &&& other.ctx_is_msp() == self.ctx_is_msp()
    }

    fn read_reg(&self, r: u32) -> (v: u32)
        requires
            self.ctx_wf(),
            r < 16,
        ensures
            v == self.ctx_regs()[r as int],
    ;

    fn write_reg(&mut self, r: u32, v: u32)
        requires
            old(self).ctx_wf(),
            r < 16,
        ensures
            final(self).ctx_wf(),
            final(self).ctx_regs() == old(self).ctx_regs().update(r as int, v),
            final(self).ctx_apsr() == old(self).ctx_apsr(),
            final(self).ctx_is_msp() == old(self).ctx_is_msp(),
            old(self).ctx_same_mem(final(self)),
    ;

    fn read_mem(&self, addr: u32) -> (v: u32)
        requires
            self.ctx_wf(),
            self.ctx_mapped(addr),
        ensures
            self.ctx_word(addr) matches Some(w) ==> v == w,
            v == self.ctx_read(addr),
    ;

    fn write_mem(&mut self, addr: u32, v: u32)
        requires
            old(self).ctx_wf(),
            old(self).ctx_mapped(addr),
        ensures
            final(self).ctx_wf(),
            old(self).ctx_same_regs(final(self)),
            old(self).ctx_stored(final(self), addr, v),
    ;

    fn read_gpr(&self, r: u32) -> (v: u32)
        requires
            self.ctx_wf(),
            r < 16,
        ensures
            v == self.ctx_regs()[r as int],
    ;

    fn write_gpr(&mut self, r: u32, v: u32)
        requires
            old(self).ctx_wf(),
            r < 16,
        ensures
            final(self).ctx_wf(),
            final(self).ctx_regs() == old(self).ctx_regs().update(r as int, v),
            final(self).ctx_apsr() == old(self).ctx_apsr(),
            final(self).ctx_is_msp() == old(self).ctx_is_msp(),
            old(self).ctx_same_mem(final(self)),
    ;

    /// The main stack pointer when it is the one in use, 0 otherwise.
    fn read_msp(&self, r: u32) -> (v: u32)
        requires
            self.ctx_wf(),
        ensures
            v == (if self.ctx_is_msp() { self.ctx_regs()[13] } else { 0 }),
    ;

    /// Writes SP when the main stack pointer is the one in use; otherwise nothing changes.
    fn write_msp(&mut self, v: u32)
        requires
            old(self).ctx_wf(),
        ensures
            final(self).ctx_wf(),
            final(self).ctx_regs() == (if old(self).ctx_is_msp() {
                old(self).ctx_regs().update(13, v)
            } else {
                old(self).ctx_regs()
            }),
            final(self).ctx_apsr() == old(self).ctx_apsr(),
            final(self).ctx_is_msp() == old(self).ctx_is_msp(),
            old(self).ctx_same_mem(final(self)),
    ;

    /// The process stack pointer when it is the one in use, 0 otherwise.
    fn read_psp(&self, r: u32) -> (v: u32)
        requires
            self.ctx_wf(),
        ensures
            v == (if !self.ctx_is_msp() { self.ctx_regs()[13] } else { 0 }),
    ;

    /// Writes SP when the process stack pointer is the one in use; otherwise nothing changes.
    fn write_psp(&mut self, v: u32)
        requires
            old(self).ctx_wf(),
        ensures
            final(self).ctx_wf(),
            final(self).ctx_regs() == (if !old(self).ctx_is_msp() {
                old(self).ctx_regs().update(13, v)
            } else {
                old(self).ctx_regs()
            }),
            final(self).ctx_apsr() == old(self).ctx_apsr(),
            final(self).ctx_is_msp() == old(self).ctx_is_msp(),
            old(self).ctx_same_mem(final(self)),
    ;

    fn read_sp(&self) -> (v: u32)
        requires
            self.ctx_wf(),
        ensures
            v == self.ctx_regs()[13],
    ;

    fn write_sp(&mut self, v: u32)
        requires
            old(self).ctx_wf(),
        ensures
            final(self).ctx_wf(),
            final(self).ctx_regs() == old(self).ctx_regs().update(13, v),
            final(self).ctx_apsr() == old(self).ctx_apsr(),
            final(self).ctx_is_msp() == old(self).ctx_is_msp(),
            old(self).ctx_same_mem(final(self)),
    ;

    fn read_lr(&self, r: u32) -> (v: u32)
        requires
            self.ctx_wf(),
        ensures
            v == self.ctx_regs()[14],
    ;

    fn write_lr(&mut self, v: u32)
        requires
            old(self).ctx_wf(),
        ensures
            final(self).ctx_wf(),
            final(self).ctx_regs() == old(self).ctx_regs().update(14, v),
            final(self).ctx_apsr() == old(self).ctx_apsr(),
            final(self).ctx_is_msp() == old(self).ctx_is_msp(),
            old(self).ctx_same_mem(final(self)),
    ;

    fn read_pc(&self) -> (v: u32)
        requires
            self.ctx_wf(),
        ensures
            v == self.ctx_regs()[15],
    ;

    fn write_pc(&mut self, pc: u32)
        requires
            old(self).ctx_wf(),
        ensures
            final(self).ctx_wf(),
            final(self).ctx_regs() == old(self).ctx_regs().update(15, pc),
            final(self).ctx_apsr() == old(self).ctx_apsr(),
            final(self).ctx_is_msp() == old(self).ctx_is_msp(),
            old(self).ctx_same_mem(final(self)),
    ;

    fn read_apsr(&self) -> (v: u32)
        requires
            self.ctx_wf(),
        ensures
            v == self.ctx_apsr(),
    ;

    fn write_apsr(&mut self, v: u32)
        requires
            old(self).ctx_wf(),
        ensures
            final(self).ctx_wf(),
            final(self).ctx_regs() == old(self).ctx_regs(),
            final(self).ctx_apsr() == v,
            final(self).ctx_is_msp() == old(self).ctx_is_msp(),
            old(self).ctx_same_mem(final(self)),
    ;
}

} // verus!
