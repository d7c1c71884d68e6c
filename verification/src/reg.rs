//! Registers and the register file.
//!
//! A `Reg` stores a single 16-bit value.  A `RegFile` holds the eight
//! general-purpose registers `r0`-`r7`; `r0` is hard-wired to zero: reads
//! of it always yield 0 and writes to it are silently discarded.

use vstd::prelude::*;

verus! {

/// A single 16-bit storage element (used for the program counter and the
/// instruction register).
pub struct Reg {
    data: u16,
}

impl View for Reg {
    type V = u16;

    closed spec fn view(&self) -> u16 {
        self.data
    }
}

impl Reg {
    /// Creates a new `Reg` holding zero.
    pub fn new() -> (r: Reg)
        ensures
            r@ == 0u16,
    {
        Reg { data: 0x0000 }
    }

    /// Clears (zeros) the `Reg`.
    pub fn clear(&mut self)
        ensures
            final(self)@ == 0u16,
    {
        self.data = 0x0000;
    }

    /// Reads the stored value.
    pub fn read(&self) -> (r: u16)
        ensures
            r == self@,
    {
        self.data
    }

    /// Overwrites the stored value.
    pub fn write(&mut self, data: u16)
        ensures
            final(self)@ == data,
    {
        self.data = data;
    }
}

/// The contents of a register file after a write of `data` to register `rd`:
/// a write to `r0` is discarded, any other write replaces that one register.
pub open spec fn rf_write(regs: Seq<u16>, data: u16, rd: u8) -> Seq<u16> {
    if rd == 0 {
        regs
    } else {
        regs.update(rd as int, data)
    }
}

/// A single-write, dual-read register file for `r0`-`r7`.
///
/// `r0` always reads as 0 and can never be overwritten.
pub struct RegFile {
    regs: Vec<u16>,
}

impl View for RegFile {
    type V = Seq<u16>;

    closed spec fn view(&self) -> Seq<u16> {
        self.regs@
    }
}

impl RegFile {
    /// Well-formedness: exactly eight registers, with `r0` reading as zero.
    pub open spec fn wf(&self) -> bool {
        &&& self@.len() == 8
        &&& self@[0] == 0u16
    }

    /// Creates a new `RegFile` with every register zeroed.
    pub fn new() -> (r: RegFile)
        ensures
            r.wf(),
            forall|i: int| 0 <= i < 8 ==> r@[i] == 0u16,
    {
        let mut regs: Vec<u16> = Vec::new();
        let mut i: usize = 0;
        while i < 8
            invariant
                i <= 8,
                regs@.len() == i,
                forall|j: int| 0 <= j < i ==> regs@[j] == 0u16,
            decreases 8 - i,
        {
            regs.push(0x0000);
            i = i + 1;
        }
        RegFile { regs }
    }

    /// Reads two registers at once, selected by `rs1` and `rs2`.
    pub fn read(&self, rs1: u8, rs2: u8) -> (r: (u16, u16))
        requires
            self.wf(),
            rs1 < 8,
            rs2 < 8,
        ensures
            r.0 == self@[rs1 as int],
            r.1 == self@[rs2 as int],
            rs1 == 0 ==> r.0 == 0u16,
            rs2 == 0 ==> r.1 == 0u16,
    {
        (self.regs[rs1 as usize], self.regs[rs2 as usize])
    }

    /// Writes `data` into register `rd`; writes to `r0` are no-ops.
    pub fn write(&mut self, data: u16, rd: u8)
        requires
            old(self).wf(),
            rd < 8,
        ensures
            final(self).wf(),
            final(self)@ == rf_write(old(self)@, data, rd),
    {
        if rd != 0 {
            self.regs[rd as usize] = data;
        }
    }
}

/// Register `r0` is hard-wired to zero: a write to it changes nothing, and
/// it always reads as 0.
pub proof fn lemma_r0_hard_wired(rf: RegFile, data: u16)
    requires
        rf.wf(),
    ensures
        rf_write(rf@, data, 0) == rf@,
        rf@[0] == 0u16,
{
}

/// A write to one register leaves every other register untouched, and (for
/// `rd != 0`) lands exactly in `rd`: reads of distinct registers are
/// independent.
pub proof fn lemma_write_independent(regs: Seq<u16>, data: u16, rd: u8, rs: u8)
    requires
        regs.len() == 8,
        rd < 8,
        rs < 8,
        rs != rd,
    ensures
        rf_write(regs, data, rd)[rs as int] == regs[rs as int],
        rd != 0 ==> rf_write(regs, data, rd)[rd as int] == data,
{
}

} // verus!
