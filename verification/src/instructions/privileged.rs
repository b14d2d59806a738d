//! The machine-mode privileged subset: MRET and WFI.
//!
//! MRET returns from a trap handler: pc comes back from mepc, mstatus.MIE is
//! restored from MPIE and MPIE is set, and the interrupt controller is reset
//! to drain pending interrupts that belonged to the handler.

use vstd::prelude::*;

use crate::exceptions::ExceptionInterrupt;
use crate::format::RFormat;
use crate::instructions::{cpu_regs_frame, exec_frame, wadd};
use crate::mcu::MCU;
use crate::peripherals::Peripheral;

verus! {

/// Return from a machine-mode trap handler.
#[derive(Debug, Clone, Copy, PartialEq, Eq, Structural)]
pub struct MRET;

/// Wait for interrupt: stalls the hart until an interrupt is delivered.
#[derive(Debug, Clone, Copy, PartialEq, Eq, Structural)]
pub struct WFI;

/// The privileged instructions, in R format under opcode 0b1110011, each a
/// single fixed bit pattern.
#[derive(Debug, Clone, Copy, PartialEq, Eq, Structural)]
pub enum RVPrivileged {
    MRET(MRET),
    WFI(WFI),
}

/// The mstatus value after MRET: MIE restored from MPIE, MPIE set to 1.
pub open spec fn spec_mret_mstatus(m: u32) -> u32 {
    ((m & !0x8u32) | ((m >> 4) & 0x8)) | 0x80
}

/// After MRET, mstatus.MIE equals the MPIE bit before, and mstatus.MPIE is
/// set.
pub proof fn lemma_mret_restores_mie(m: u32)
    ensures
        spec_mret_mstatus(m) & 0x8 != 0 <==> m & 0x80 != 0,
        spec_mret_mstatus(m) & 0x80 == 0x80,
{
    assert((((m & !0x8u32) | ((m >> 4) & 0x8)) | 0x80) & 0x8 != 0 <==> m & 0x80 != 0)
        by (bit_vector);
    assert((((m & !0x8u32) | ((m >> 4) & 0x8)) | 0x80) & 0x80 == 0x80) by (bit_vector);
}

impl MRET {
    pub open spec fn spec_to_format(self) -> RFormat {
        RFormat { op: 0b1110011, rd: 0, funct3: 0, rs1: 0, rs2: 0b10, funct7: 0b0011000 }
    }

    pub open spec fn spec_encode(self) -> u32 {
        self.spec_to_format().spec_encode()
    }

    /// Encodes back to a 32-bit word.
    pub fn encode(self) -> (r: u32)
        ensures
            r == self.spec_encode(),
    {
        RFormat { op: 0b1110011, rd: 0, funct3: 0, rs1: 0, rs2: 0b10, funct7: 0b0011000 }.encode()
    }

    /// Returns from the handler: pc is restored from mepc, mstatus.MIE from
    /// MPIE with MPIE set back to 1, and the interrupt controller is reset:
    /// accumulated interrupts are dropped, mip is zeroed, and the PLIC
    /// pending mask is cleared. Costs one cycle.
    pub fn execute(&self, mcu: &mut MCU) -> (r: Result<u32, ExceptionInterrupt>)
        requires
            old(mcu).wf(),
        ensures
            final(mcu).wf(),
            r == Ok::<u32, ExceptionInterrupt>(1),
            final(mcu).mmu == old(mcu).mmu,
            final(mcu).cpu.regs() == old(mcu).cpu.regs(),
            final(mcu).cpu.wfi == old(mcu).cpu.wfi,
            final(mcu).cpu.pc == old(mcu).cpu.csrs()[6],
            final(mcu).cpu.csrs() == old(mcu).cpu.csrs().update(1, 0u32).update(
                0,
                spec_mret_mstatus(old(mcu).cpu.csrs()[0]),
            ),
            final(mcu).int_ctrl.interrupts@ == Seq::<crate::exceptions::Interrupt>::empty(),
            final(mcu).int_ctrl.requests@ == Seq::<(crate::exceptions::Interrupt, u32)>::empty(),
            old(mcu).same_device_map_shape(*final(mcu)),
            forall|k: int|
                0 <= k < old(mcu).devices@.len() && !((#[trigger] old(mcu).devices@[k]).1 is PLIC)
                    ==> final(mcu).devices@[k] == old(mcu).devices@[k],
            forall|k: int|
                0 <= k < old(mcu).devices@.len() ==> ((#[trigger] old(mcu).devices@[k]).1
                    matches Peripheral::PLIC(p0) ==> (final(mcu).devices@[k].1
                    matches Peripheral::PLIC(p1) && p1.pending == 0 && p1.source_priority@
                    == p0.source_priority@ && p1.h0mie == p0.h0mie && p1.h0mpt == p0.h0mpt)),
    {
        let mepc = match mcu.cpu.get_csr(0x341) {
            Ok(v) => v,
            Err(_) => 0,
        };
        mcu.cpu.pc = mepc;
        let mstatus = match mcu.cpu.get_csr(0x300) {
            Ok(v) => v,
            Err(_) => 0,
        };
        let mstatus = (mstatus & !0x8u32) | ((mstatus >> 4) & 0x8);
        let mstatus = mstatus | 0x80;

        mcu.int_ctrl.reset(&mut mcu.cpu);
        proof {
            MCU::lemma_wf_same_devices(*old(mcu), *mcu);
        }
        mcu.clear_plic_pending();

        let _ = mcu.cpu.set_csr(0x300, mstatus);
        Ok(1)
    }

    /// MRET sets pc itself; the advance step leaves it alone.
    pub fn update_pc(&self, mcu: &mut MCU)
        ensures
            *final(mcu) == *old(mcu),
    {
    }
}

impl WFI {
    pub open spec fn spec_to_format(self) -> RFormat {
        RFormat { op: 0b1110011, rd: 0, funct3: 0, rs1: 0, rs2: 0b101, funct7: 0b0001000 }
    }

    pub open spec fn spec_encode(self) -> u32 {
        self.spec_to_format().spec_encode()
    }

    /// Encodes back to a 32-bit word.
    pub fn encode(self) -> (r: u32)
        ensures
            r == self.spec_encode(),
    {
        RFormat { op: 0b1110011, rd: 0, funct3: 0, rs1: 0, rs2: 0b101, funct7: 0b0001000 }.encode()
    }

    /// Stalls the hart: sets the WFI flag. Costs one cycle.
    pub fn execute(&self, mcu: &mut MCU) -> (r: Result<u32, ExceptionInterrupt>)
        requires
            old(mcu).wf(),
        ensures
            final(mcu).wf(),
            exec_frame(*old(mcu), *final(mcu)),
            r == Ok::<u32, ExceptionInterrupt>(1),
            final(mcu).cpu.pc == old(mcu).cpu.pc,
            final(mcu).cpu.regs() == old(mcu).cpu.regs(),
            final(mcu).cpu.csrs() == old(mcu).cpu.csrs(),
            final(mcu).cpu.wfi,
    {
        mcu.cpu.wfi = true;
        proof {
            MCU::lemma_wf_same_devices(*old(mcu), *mcu);
        }
        Ok(1)
    }

    /// WFI is not control flow: the advance step moves pc past it.
    pub fn update_pc(&self, mcu: &mut MCU)
        requires
            old(mcu).wf(),
        ensures
            final(mcu).wf(),
            exec_frame(*old(mcu), *final(mcu)),
            cpu_regs_frame(*old(mcu), *final(mcu)),
            final(mcu).cpu.pc == wadd(old(mcu).cpu.pc, 4),
    {
        mcu.cpu.pc = mcu.cpu.pc.wrapping_add(4);
        proof {
            MCU::lemma_wf_same_devices(*old(mcu), *mcu);
        }
    }
}

impl RVPrivileged {
    /// Which privileged instruction, if any, the word decodes to: every
    /// field must match its fixed value, so a word decodes here for exactly
    /// one bit pattern per instruction.
    pub open spec fn spec_decode(w: u32) -> Option<RVPrivileged> {
        let f = RFormat::spec_decode(w);
        if f.op == 0b1110011 && f.rd == 0 && f.funct3 == 0 && f.rs1 == 0 && f.funct7 == 0b0011000
            && f.rs2 == 0b10 {
            Some(RVPrivileged::MRET(MRET))
        } else if f.op == 0b1110011 && f.rd == 0 && f.funct3 == 0 && f.rs1 == 0 && f.funct7
            == 0b0001000 && f.rs2 == 0b101 {
            Some(RVPrivileged::WFI(WFI))
        } else {
            None
        }
    }

    /// Decodes a 32-bit word as a privileged instruction.
    pub fn decode(w: u32) -> (r: Option<RVPrivileged>)
        ensures
            r == RVPrivileged::spec_decode(w),
    {
        let f = RFormat::decode(w);
        if f.op == 0b1110011 && f.rd == 0 && f.funct3 == 0 && f.rs1 == 0 && f.funct7 == 0b0011000
            && f.rs2 == 0b10 {
            Some(RVPrivileged::MRET(MRET))
        } else if f.op == 0b1110011 && f.rd == 0 && f.funct3 == 0 && f.rs1 == 0 && f.funct7
            == 0b0001000 && f.rs2 == 0b101 {
            Some(RVPrivileged::WFI(WFI))
        } else {
            None
        }
    }

    pub open spec fn spec_encode(self) -> u32 {
        match self {
            RVPrivileged::MRET(m) => m.spec_encode(),
            RVPrivileged::WFI(v) => v.spec_encode(),
        }
    }

    /// Encodes the privileged instruction back to a 32-bit word.
    pub fn encode(self) -> (r: u32)
        ensures
            r == self.spec_encode(),
    {
        match self {
            RVPrivileged::MRET(m) => m.encode(),
            RVPrivileged::WFI(v) => v.encode(),
        }
    }

    /// How executing the privileged instruction relates the machine states:
    /// WFI only raises the stall flag; MRET restores pc and mstatus, drops
    /// the accumulated interrupts, zeroes mip, and clears every PLIC's
    /// pending mask.
    pub open spec fn exec_rel(pre: MCU, i: RVPrivileged, post: MCU, r: Result<
        u32,
        ExceptionInterrupt,
    >) -> bool {
        match i {
            RVPrivileged::WFI(_) => exec_frame(pre, post) && r == Ok::<u32, ExceptionInterrupt>(1)
                && post.cpu.pc == pre.cpu.pc && post.cpu.regs() == pre.cpu.regs()
                && post.cpu.csrs() == pre.cpu.csrs() && post.cpu.wfi,
            RVPrivileged::MRET(_) => r == Ok::<u32, ExceptionInterrupt>(1) && post.mmu == pre.mmu
                && post.cpu.regs() == pre.cpu.regs() && post.cpu.wfi == pre.cpu.wfi && post.cpu.pc
                == pre.cpu.csrs()[6] && post.cpu.csrs() == pre.cpu.csrs().update(1, 0u32).update(
                0,
                spec_mret_mstatus(pre.cpu.csrs()[0]),
            ) && post.int_ctrl.interrupts@ == Seq::<crate::exceptions::Interrupt>::empty()
                && post.int_ctrl.requests@ == Seq::<(crate::exceptions::Interrupt, u32)>::empty()
                && pre.same_device_map_shape(post) && (forall|k: int|
                0 <= k < pre.devices@.len() && !((#[trigger] pre.devices@[k]).1 is PLIC)
                    ==> post.devices@[k] == pre.devices@[k]) && (forall|k: int|
                0 <= k < pre.devices@.len() ==> ((#[trigger] pre.devices@[k]).1
                    matches Peripheral::PLIC(p0) ==> (post.devices@[k].1 matches Peripheral::PLIC(
                    p1,
                ) && p1.pending == 0 && p1.source_priority@ == p0.source_priority@ && p1.h0mie
                    == p0.h0mie && p1.h0mpt == p0.h0mpt))),
        }
    }

    /// Executes the privileged instruction.
    pub fn execute(&self, mcu: &mut MCU) -> (r: Result<u32, ExceptionInterrupt>)
        requires
            old(mcu).wf(),
        ensures
            final(mcu).wf(),
            RVPrivileged::exec_rel(*old(mcu), *self, *final(mcu), r),
    {
        match self {
            RVPrivileged::MRET(m) => m.execute(mcu),
            RVPrivileged::WFI(v) => v.execute(mcu),
        }
    }

    /// The advance step: WFI moves pc past itself; MRET set pc already.
    pub fn update_pc(&self, mcu: &mut MCU)
        requires
            old(mcu).wf(),
        ensures
            final(mcu).wf(),
            self is MRET ==> *final(mcu) == *old(mcu),
            self is WFI ==> exec_frame(*old(mcu), *final(mcu)) && cpu_regs_frame(
                *old(mcu),
                *final(mcu),
            ) && final(mcu).cpu.pc == wadd(old(mcu).cpu.pc, 4),
    {
        match self {
            RVPrivileged::MRET(m) => m.update_pc(mcu),
            RVPrivileged::WFI(v) => v.update_pc(mcu),
        }
    }
}

/// Round trip: a word that decodes to a privileged instruction is
/// reproduced exactly by encoding it, since the decoder checks every field.
pub proof fn lemma_privileged_decode_encode(w: u32)
    ensures
        RVPrivileged::spec_decode(w) matches Some(v) ==> v.spec_encode() == w,
{
    if RVPrivileged::spec_decode(w) is Some {
        let v = RVPrivileged::spec_decode(w)->Some_0;
        let f = RFormat::spec_decode(w);
        match v {
            RVPrivileged::MRET(m) => {
                assert(m.spec_to_format() == f);
            },
            RVPrivileged::WFI(i) => {
                assert(i.spec_to_format() == f);
            },
        }
        crate::format::lemma_r_decode_encode(w);
    }
}

/// A word decodes to at most one variant across the privileged and RV32I
/// sets: whenever the privileged decoder accepts a word, the RV32I decoder
/// rejects it, so the two dispatch attempts can never disagree.
pub proof fn lemma_decode_unique(w: u32)
    ensures
        !(RVPrivileged::spec_decode(w) is Some
            && crate::instructions::rv32i::RV32i::spec_decode(w) is Some),
{
    if RVPrivileged::spec_decode(w) is Some {
        let f = RFormat::spec_decode(w);
        // The privileged encodings sit in the SYSTEM opcode with funct3 0,
        // where RV32I accepts only the immediate values 0 (ECALL) and 1
        // (EBREAK); the privileged immediates are 0x302 and 0x105.
        assert((w >> 25) & 0x7f == 0b0011000 && (w >> 20) & 0x1f == 0b10 ==> (w >> 20) & 0xfff
            == 0x302) by (bit_vector);
        assert((w >> 25) & 0x7f == 0b0001000 && (w >> 20) & 0x1f == 0b101 ==> (w >> 20) & 0xfff
            == 0x105) by (bit_vector);
    }
}

} // verus!
