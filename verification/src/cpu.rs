//! CPU state: program counter, the 32-entry register file with x0 hard-wired
//! to zero, the eight modeled CSRs, and the pending-interrupt query.

use vstd::prelude::*;

use crate::exceptions::{Exception, Interrupt};

verus! {

/// The eight control and status registers the core models.
#[derive(Debug, Clone, Copy, PartialEq, Eq, Structural)]
#[allow(non_camel_case_types)]
pub enum CSRs {
    mstatus,
    mip,
    mie,
    mcause,
    mtvec,
    mtval,
    mepc,
    mscratch,
}

impl CSRs {
    /// The 12-bit architectural address of the CSR.
    pub open spec fn spec_addr(self) -> u32 {
        match self {
            CSRs::mstatus => 0x300,
            CSRs::mip => 0x344,
            CSRs::mie => 0x304,
            CSRs::mcause => 0x342,
            CSRs::mtvec => 0x305,
            CSRs::mtval => 0x343,
            CSRs::mepc => 0x341,
            CSRs::mscratch => 0x340,
        }
    }

    /// Returns the 12-bit architectural address of the CSR.
    pub fn addr(self) -> (r: u32)
        ensures
            r == self.spec_addr(),
    {
        match self {
            CSRs::mstatus => 0x300,
            CSRs::mip => 0x344,
            CSRs::mie => 0x304,
            CSRs::mcause => 0x342,
            CSRs::mtvec => 0x305,
            CSRs::mtval => 0x343,
            CSRs::mepc => 0x341,
            CSRs::mscratch => 0x340,
        }
    }
}

/// The index a CSR address maps to in the backing store, or nothing for the
/// addresses the core does not implement.
pub open spec fn spec_csr_index(addr: u32) -> Option<int> {
    if addr == 0x300 {
        Some(0)
    } else if addr == 0x344 {
        Some(1)
    } else if addr == 0x304 {
        Some(2)
    } else if addr == 0x342 {
        Some(3)
    } else if addr == 0x305 {
        Some(4)
    } else if addr == 0x343 {
        Some(5)
    } else if addr == 0x341 {
        Some(6)
    } else if addr == 0x340 {
        Some(7)
    } else {
        None
    }
}

/// The hart state.
pub struct CPU {
    /// Program counter.
    pub pc: u32,
    /// The register file; entry 0 stays zero.
    pub x: Vec<u32>,
    /// Set by WFI, cleared when an interrupt is taken.
    pub wfi: bool,
    /// Backing store of the eight CSRs, indexed by `spec_csr_index`.
    pub csr: Vec<u32>,
}

impl CPU {
    /// 32 registers, 8 CSRs, and x0 pinned to zero.
    pub open spec fn wf(self) -> bool {
        self.x@.len() == 32 && self.csr@.len() == 8 && self.x@[0] == 0
    }

    /// The register file as a sequence.
    pub open spec fn regs(self) -> Seq<u32> {
        self.x@
    }

    /// The CSR backing store as a sequence.
    pub open spec fn csrs(self) -> Seq<u32> {
        self.csr@
    }

    /// The value of a modeled CSR.
    pub open spec fn csr_value(self, c: CSRs) -> u32 {
        self.csrs()[spec_csr_index(c.spec_addr()).unwrap()]
    }

    /// A fresh hart: pc 0, all registers and CSRs 0, not waiting.
    pub fn new() -> (r: CPU)
        ensures
            r.wf(),
            r.pc == 0,
            !r.wfi,
            r.regs() == Seq::<u32>::new(32, |i: int| 0u32),
            r.csrs() == Seq::<u32>::new(8, |i: int| 0u32),
    {
        let mut x: Vec<u32> = Vec::new();
        let mut i: usize = 0;
        while i < 32
            invariant
                i <= 32,
                x@.len() == i,
                forall|j: int| 0 <= j < i ==> x@[j] == 0u32,
            decreases 32 - i,
        {
            x.push(0);
            i = i + 1;
        }
        let mut csr: Vec<u32> = Vec::new();
        let mut i: usize = 0;
        while i < 8
            invariant
                i <= 8,
                csr@.len() == i,
                forall|j: int| 0 <= j < i ==> csr@[j] == 0u32,
            decreases 8 - i,
        {
            csr.push(0);
            i = i + 1;
        }
        let r = CPU { pc: 0, x, wfi: false, csr };
        proof {
            assert(r.regs() =~= Seq::<u32>::new(32, |i: int| 0u32));
            assert(r.csrs() =~= Seq::<u32>::new(8, |i: int| 0u32));
        }
        r
    }

    /// Reads a CSR; unmapped addresses raise Illegal Instruction.
    pub fn get_csr(&self, addr: u32) -> (r: Result<u32, Exception>)
        requires
            self.wf(),
        ensures
            match spec_csr_index(addr) {
                Some(i) => r == Ok::<u32, Exception>(self.csrs()[i]),
                None => r == Err::<u32, Exception>(Exception::IllegalInstruction),
            },
    {
        match Self::csr_idx_map(addr) {
            Ok(idx) => Ok(self.csr[idx]),
            Err(e) => Err(e),
        }
    }

    /// Writes a CSR; unmapped addresses raise Illegal Instruction and change
    /// nothing.
    pub fn set_csr(&mut self, addr: u32, v: u32) -> (r: Result<(), Exception>)
        requires
            old(self).wf(),
        ensures
            final(self).wf(),
            final(self).pc == old(self).pc,
            final(self).wfi == old(self).wfi,
            final(self).regs() == old(self).regs(),
            match spec_csr_index(addr) {
                Some(i) => r == Ok::<(), Exception>(())
                    && final(self).csrs() == old(self).csrs().update(i, v),
                None => r == Err::<(), Exception>(Exception::IllegalInstruction)
                    && final(self).csrs() == old(self).csrs(),
            },
    {
        match Self::csr_idx_map(addr) {
            Ok(idx) => {
                self.csr[idx] = v;
                Ok(())
            },
            Err(e) => Err(e),
        }
    }

    /// Maps a CSR address to its index in the backing store.
    fn csr_idx_map(v: u32) -> (r: Result<usize, Exception>)
        ensures
            match spec_csr_index(v) {
                Some(i) => r == Ok::<usize, Exception>(i as usize),
                None => r == Err::<usize, Exception>(Exception::IllegalInstruction),
            },
    {
        let m: usize = if v == 0x300 {
            0
        } else if v == 0x344 {
            1
        } else if v == 0x304 {
            2
        } else if v == 0x342 {
            3
        } else if v == 0x305 {
            4
        } else if v == 0x343 {
            5
        } else if v == 0x341 {
            6
        } else if v == 0x340 {
            7
        } else {
            return Err(Exception::IllegalInstruction);
        };
        Ok(m)
    }

    /// Reads register `idx`; x0 always reads 0.
    pub fn get_x(&self, idx: u32) -> (r: u32)
        requires
            self.wf(),
            idx < 32,
        ensures
            r == self.regs()[idx as int],
            idx == 0 ==> r == 0,
    {
        self.x[idx as usize]
    }

    /// Writes register `idx`; writes to x0 are discarded.
    pub fn set_x(&mut self, idx: u32, val: u32)
        requires
            old(self).wf(),
            idx < 32,
        ensures
            final(self).wf(),
            final(self).pc == old(self).pc,
            final(self).wfi == old(self).wfi,
            final(self).csrs() == old(self).csrs(),
            final(self).regs() == if idx == 0 {
                old(self).regs()
            } else {
                old(self).regs().update(idx as int, val)
            },
    {
        if idx > 0 {
            self.x.set(idx as usize, val);
        }
    }

    /// The register file round trip: after a write to a register other than
    /// x0, a read of it returns the value written; x0 always reads 0, and a
    /// write to it changes nothing. `c1` is the state `set_x` leaves and the
    /// reads are what `get_x` returns there.
    pub proof fn lemma_register_roundtrip(c0: CPU, c1: CPU, idx: u32, val: u32)
        requires
            c0.wf(),
            idx < 32,
            c1.wf(),
            c1.regs() == (if idx == 0 {
                c0.regs()
            } else {
                c0.regs().update(idx as int, val)
            }),
        ensures
            idx != 0 ==> c1.regs()[idx as int] == val,
            c1.regs()[0] == 0,
            idx == 0 ==> c1.regs() == c0.regs(),
    {
    }

    /// The highest-priority enabled pending machine-mode interrupt, judged
    /// from mie AND mip: software, then timer, then external. A returned
    /// software interrupt clears its mip bit (it is edge-triggered); the
    /// other bits stay set and are cleared elsewhere in the trap path.
    pub fn get_interrupt(&mut self) -> (r: Option<Interrupt>)
        requires
            old(self).wf(),
        ensures
            final(self).wf(),
            final(self).pc == old(self).pc,
            final(self).wfi == old(self).wfi,
            final(self).regs() == old(self).regs(),
            ({
                let mie = old(self).csr_value(CSRs::mie);
                let mip = old(self).csr_value(CSRs::mip);
                if mie & 0x8 != 0 && mip & 0x8 != 0 {
                    r == Some(Interrupt::MSoftInterrupt)
                        && final(self).csrs() == old(self).csrs().update(1, mip & !0x8u32)
                } else if mie & 0x80 != 0 && mip & 0x80 != 0 {
                    r == Some(Interrupt::MTimerInterrupt) && final(self).csrs() == old(self).csrs()
                } else if mie & 0x800 != 0 && mip & 0x800 != 0 {
                    r == Some(Interrupt::MExternalInterrupt)
                        && final(self).csrs() == old(self).csrs()
                } else {
                    r == None::<Interrupt> && final(self).csrs() == old(self).csrs()
                }
            }),
    {
        let mie = match self.get_csr(0x304) {
            Ok(v) => v,
            Err(_) => 0,
        };
        let mip = match self.get_csr(0x344) {
            Ok(v) => v,
            Err(_) => 0,
        };
        let mie_msi = (mie & 0x8) != 0;
        let mie_mti = (mie & 0x80) != 0;
        let mie_mei = (mie & 0x800) != 0;
        let mip_msi = (mip & 0x8) != 0;
        let mip_mti = (mip & 0x80) != 0;
        let mip_mei = (mip & 0x800) != 0;

        if mie_msi && mip_msi {
            let _ = self.set_csr(0x344, mip & !0x8u32);
            Some(Interrupt::MSoftInterrupt)
        } else if mie_mti && mip_mti {
            Some(Interrupt::MTimerInterrupt)
        } else if mie_mei && mip_mei {
            Some(Interrupt::MExternalInterrupt)
        } else {
            None
        }
    }
}

} // verus!
