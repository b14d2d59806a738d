//! The RV32I base integer instruction set: the upper-immediate and jump
//! instructions, the family sub-sets, decode from and encode to 32-bit
//! words, and the dispatch of execution.
//!
//! Decode picks the family by opcode, then the exact variant by funct3 and
//! funct7. A decoded variant re-encodes to the word it came from on every
//! bit the variant owns, which `lemma_rv32i_decode_encode` states.

use vstd::prelude::*;

use crate::exceptions::ExceptionInterrupt;
use crate::format::{BFormat, IFormat, JFormat, RFormat, SFormat, UFormat};
use crate::instructions::branch::Branch;
use crate::instructions::immediate::Immediate;
use crate::instructions::load::Load;
use crate::instructions::miscmem::MiscMem;
use crate::instructions::op::Op;
use crate::instructions::store::Store;
use crate::instructions::system::System;
use crate::instructions::{
    cpu_regs_frame, exec_frame, j_offset, lemma_b_offset_split, lemma_j_offset_split,
    lemma_offset_slice_ranges, lemma_s_offset_split, reg_update, spec_j_offset, wadd,
};
use crate::mcu::MCU;
use crate::utils::{sext, sext_bits};

verus! {

/// Load upper immediate: writes the 20-bit immediate shifted left by 12 to
/// rd.
#[derive(Debug, Clone, Copy, PartialEq, Eq, Structural)]
pub struct LUI {
    pub rd: u32,
    pub imm: u32,
}

/// Add upper immediate to pc: writes pc plus the shifted immediate to rd.
#[derive(Debug, Clone, Copy, PartialEq, Eq, Structural)]
pub struct AUIPC {
    pub rd: u32,
    pub imm: u32,
}

/// Jump and link: writes pc+4 to rd, then adds the sign-extended offset to
/// pc.
#[derive(Debug, Clone, Copy, PartialEq, Eq, Structural)]
pub struct JAL {
    pub rd: u32,
    pub offset: u32,
}

/// Jump and link register: writes pc+4 to rd, then sets pc to rs1 plus the
/// sign-extended immediate with the lowest bit cleared.
#[derive(Debug, Clone, Copy, PartialEq, Eq, Structural)]
pub struct JALR {
    pub rd: u32,
    pub rs1: u32,
    pub imm: u32,
}

impl LUI {
    pub open spec fn wf(self) -> bool {
        self.rd < 32 && self.imm < 0x10_0000
    }

    pub open spec fn spec_to_format(self) -> UFormat {
        UFormat { op: 0b0110111, rd: self.rd, imm: self.imm }
    }

    pub open spec fn spec_encode(self) -> u32 {
        self.spec_to_format().spec_encode()
    }

    /// Encodes back to a 32-bit word.
    pub fn encode(self) -> (r: u32)
        requires
            self.wf(),
        ensures
            r == self.spec_encode(),
    {
        UFormat { op: 0b0110111, rd: self.rd, imm: self.imm }.encode()
    }

    /// Writes the immediate, shifted left by 12 bits, to rd. Costs one
    /// cycle.
    pub fn execute(&self, mcu: &mut MCU) -> (r: Result<u32, ExceptionInterrupt>)
        requires
            old(mcu).wf(),
            self.rd < 32,
        ensures
            final(mcu).wf(),
            exec_frame(*old(mcu), *final(mcu)),
            final(mcu).cpu.pc == old(mcu).cpu.pc,
            final(mcu).cpu.csrs() == old(mcu).cpu.csrs(),
            final(mcu).cpu.wfi == old(mcu).cpu.wfi,
            r == Ok::<u32, ExceptionInterrupt>(1),
            final(mcu).cpu.regs() == reg_update(old(mcu).cpu.regs(), self.rd, self.imm << 12),
    {
        let value = sext(self.imm << 12, 32, 32);
        mcu.cpu.set_x(self.rd, value);
        proof {
            MCU::lemma_wf_same_devices(*old(mcu), *mcu);
        }
        Ok(1)
    }
}

impl AUIPC {
    pub open spec fn wf(self) -> bool {
        self.rd < 32 && self.imm < 0x10_0000
    }

    pub open spec fn spec_to_format(self) -> UFormat {
        UFormat { op: 0b0010111, rd: self.rd, imm: self.imm }
    }

    pub open spec fn spec_encode(self) -> u32 {
        self.spec_to_format().spec_encode()
    }

    /// Encodes back to a 32-bit word.
    pub fn encode(self) -> (r: u32)
        requires
            self.wf(),
        ensures
            r == self.spec_encode(),
    {
        UFormat { op: 0b0010111, rd: self.rd, imm: self.imm }.encode()
    }

    /// Writes pc plus the shifted immediate to rd. Costs one cycle.
    pub fn execute(&self, mcu: &mut MCU) -> (r: Result<u32, ExceptionInterrupt>)
        requires
            old(mcu).wf(),
            self.rd < 32,
        ensures
            final(mcu).wf(),
            exec_frame(*old(mcu), *final(mcu)),
            final(mcu).cpu.pc == old(mcu).cpu.pc,
            final(mcu).cpu.csrs() == old(mcu).cpu.csrs(),
            final(mcu).cpu.wfi == old(mcu).cpu.wfi,
            r == Ok::<u32, ExceptionInterrupt>(1),
            final(mcu).cpu.regs() == reg_update(
                old(mcu).cpu.regs(),
                self.rd,
                wadd(old(mcu).cpu.pc, self.imm << 12),
            ),
    {
        let value = mcu.cpu.pc.wrapping_add(sext(self.imm << 12, 32, 32));
        mcu.cpu.set_x(self.rd, value);
        proof {
            MCU::lemma_wf_same_devices(*old(mcu), *mcu);
        }
        Ok(1)
    }
}

impl JAL {
    pub open spec fn wf(self) -> bool {
        self.rd < 32 && self.offset < 0x20_0000 && self.offset & 1 == 0
    }

    pub open spec fn spec_to_format(self) -> JFormat {
        JFormat {
            op: 0b1101111,
            rd: self.rd,
            imm0: self.offset >> 12 & 0xff,
            imm1: self.offset >> 11 & 0x1,
            imm2: self.offset >> 1 & 0x3ff,
            imm3: self.offset >> 20 & 0x1,
        }
    }

    pub open spec fn spec_encode(self) -> u32 {
        self.spec_to_format().spec_encode()
    }

    /// Encodes back to a 32-bit word.
    pub fn encode(self) -> (r: u32)
        requires
            self.wf(),
        ensures
            r == self.spec_encode(),
    {
        proof {
            lemma_offset_slice_ranges(self.offset);
        }
        JFormat {
            op: 0b1101111,
            rd: self.rd,
            imm0: self.offset >> 12 & 0xff,
            imm1: self.offset >> 11 & 0x1,
            imm2: self.offset >> 1 & 0x3ff,
            imm3: self.offset >> 20 & 0x1,
        }.encode()
    }

    /// Writes pc+4 to rd and adds the sign-extended offset to pc. Costs one
    /// cycle.
    pub fn execute(&self, mcu: &mut MCU) -> (r: Result<u32, ExceptionInterrupt>)
        requires
            old(mcu).wf(),
            self.rd < 32,
        ensures
            final(mcu).wf(),
            exec_frame(*old(mcu), *final(mcu)),
            final(mcu).cpu.csrs() == old(mcu).cpu.csrs(),
            final(mcu).cpu.wfi == old(mcu).cpu.wfi,
            r == Ok::<u32, ExceptionInterrupt>(1),
            final(mcu).cpu.regs() == reg_update(
                old(mcu).cpu.regs(),
                self.rd,
                wadd(old(mcu).cpu.pc, 4),
            ),
            final(mcu).cpu.pc == wadd(old(mcu).cpu.pc, sext_bits(self.offset, 20)),
    {
        let link = mcu.cpu.pc.wrapping_add(4);
        mcu.cpu.set_x(self.rd, link);
        let off = sext(self.offset, 20, 32);
        mcu.cpu.pc = mcu.cpu.pc.wrapping_add(off);
        proof {
            MCU::lemma_wf_same_devices(*old(mcu), *mcu);
        }
        Ok(1)
    }
}

impl JALR {
    pub open spec fn wf(self) -> bool {
        self.rd < 32 && self.rs1 < 32 && self.imm < 0x1000
    }

    pub open spec fn spec_to_format(self) -> IFormat {
        IFormat { op: 0b1100111, rd: self.rd, funct3: 0, rs1: self.rs1, imm: self.imm }
    }

    pub open spec fn spec_encode(self) -> u32 {
        self.spec_to_format().spec_encode()
    }

    /// Encodes back to a 32-bit word.
    pub fn encode(self) -> (r: u32)
        requires
            self.wf(),
        ensures
            r == self.spec_encode(),
    {
        IFormat { op: 0b1100111, rd: self.rd, funct3: 0, rs1: self.rs1, imm: self.imm }.encode()
    }

    /// Writes pc+4 to rd and jumps to rs1 plus the sign-extended immediate,
    /// low bit cleared. Costs one cycle.
    pub fn execute(&self, mcu: &mut MCU) -> (r: Result<u32, ExceptionInterrupt>)
        requires
            old(mcu).wf(),
            self.rd < 32,
            self.rs1 < 32,
        ensures
            final(mcu).wf(),
            exec_frame(*old(mcu), *final(mcu)),
            final(mcu).cpu.csrs() == old(mcu).cpu.csrs(),
            final(mcu).cpu.wfi == old(mcu).cpu.wfi,
            r == Ok::<u32, ExceptionInterrupt>(1),
            final(mcu).cpu.regs() == reg_update(
                old(mcu).cpu.regs(),
                self.rd,
                wadd(old(mcu).cpu.pc, 4),
            ),
            final(mcu).cpu.pc == wadd(
                old(mcu).cpu.regs()[self.rs1 as int],
                sext_bits(self.imm, 12),
            ) & !1u32,
    {
        let t = mcu.cpu.get_x(self.rs1);
        let link = mcu.cpu.pc.wrapping_add(4);
        mcu.cpu.set_x(self.rd, link);
        mcu.cpu.pc = t.wrapping_add(sext(self.imm, 12, 32)) & !1u32;
        proof {
            MCU::lemma_wf_same_devices(*old(mcu), *mcu);
        }
        Ok(1)
    }
}

/// An RV32I instruction: the stand-alone variants and the families.
#[derive(Debug, Clone, Copy, PartialEq, Eq, Structural)]
pub enum RV32i {
    LUI(LUI),
    AUIPC(AUIPC),
    JAL(JAL),
    JALR(JALR),
    Branch(Branch),
    Load(Load),
    Store(Store),
    Immediate(Immediate),
    Op(Op),
    MiscMem(MiscMem),
    System(System),
}

impl RV32i {
    /// The register fields address the register file.
    pub open spec fn regs_ok(self) -> bool {
        match self {
            RV32i::LUI(v) => v.rd < 32,
            RV32i::AUIPC(v) => v.rd < 32,
            RV32i::JAL(v) => v.rd < 32,
            RV32i::JALR(v) => v.rd < 32 && v.rs1 < 32,
            RV32i::Branch(b) => b.regs_ok(),
            RV32i::Load(l) => l.regs_ok(),
            RV32i::Store(s) => s.regs_ok(),
            RV32i::Immediate(i) => i.regs_ok(),
            RV32i::Op(o) => o.regs_ok(),
            RV32i::MiscMem(_) => true,
            RV32i::System(s) => s.regs_ok(),
        }
    }

    /// Every field fits its slot, as a decoded instruction has it.
    pub open spec fn wf(self) -> bool {
        match self {
            RV32i::LUI(v) => v.wf(),
            RV32i::AUIPC(v) => v.wf(),
            RV32i::JAL(v) => v.wf(),
            RV32i::JALR(v) => v.wf(),
            RV32i::Branch(b) => b.wf(),
            RV32i::Load(l) => l.wf(),
            RV32i::Store(s) => s.wf(),
            RV32i::Immediate(i) => i.wf(),
            RV32i::Op(o) => o.wf(),
            RV32i::MiscMem(m) => m.wf(),
            RV32i::System(s) => s.wf(),
        }
    }

    /// Which instruction, if any, the word decodes to: the opcode selects
    /// the family, funct3 and funct7 the exact variant.
    pub open spec fn spec_decode(w: u32) -> Option<RV32i> {
        let op = w & 0x7f;
        if op == 0b0110111 {
            let f = UFormat::spec_decode(w);
            Some(RV32i::LUI(LUI { rd: f.rd, imm: f.imm }))
        } else if op == 0b0010111 {
            let f = UFormat::spec_decode(w);
            Some(RV32i::AUIPC(AUIPC { rd: f.rd, imm: f.imm }))
        } else if op == 0b1101111 {
            let f = JFormat::spec_decode(w);
            Some(RV32i::JAL(JAL { rd: f.rd, offset: spec_j_offset(f) }))
        } else if op == 0b1100111 {
            let f = IFormat::spec_decode(w);
            Some(RV32i::JALR(JALR { rd: f.rd, rs1: f.rs1, imm: f.imm }))
        } else if op == 0b1100011 {
            match Branch::spec_decode(BFormat::spec_decode(w)) {
                Some(b) => Some(RV32i::Branch(b)),
                None => None,
            }
        } else if op == 0b0000011 {
            match Load::spec_decode(IFormat::spec_decode(w)) {
                Some(l) => Some(RV32i::Load(l)),
                None => None,
            }
        } else if op == 0b0100011 {
            match Store::spec_decode(SFormat::spec_decode(w)) {
                Some(s) => Some(RV32i::Store(s)),
                None => None,
            }
        } else if op == 0b0010011 {
            match Immediate::spec_decode(IFormat::spec_decode(w)) {
                Some(i) => Some(RV32i::Immediate(i)),
                None => None,
            }
        } else if op == 0b0110011 {
            match Op::spec_decode(RFormat::spec_decode(w)) {
                Some(o) => Some(RV32i::Op(o)),
                None => None,
            }
        } else if op == 0b0001111 {
            match MiscMem::spec_decode(IFormat::spec_decode(w)) {
                Some(m) => Some(RV32i::MiscMem(m)),
                None => None,
            }
        } else if op == 0b1110011 {
            match System::spec_decode(IFormat::spec_decode(w)) {
                Some(s) => Some(RV32i::System(s)),
                None => None,
            }
        } else {
            None
        }
    }

    /// Decodes a 32-bit word into an RV32I instruction, or nothing for an
    /// unknown encoding.
    pub fn decode(w: u32) -> (r: Option<RV32i>)
        ensures
            r == RV32i::spec_decode(w),
            r matches Some(v) ==> v.wf(),
    {
        let op = crate::format::opcode(w);
        match op {
            0b0110111 => {
                let f = UFormat::decode(w);
                Some(RV32i::LUI(LUI { rd: f.rd, imm: f.imm }))
            },
            0b0010111 => {
                let f = UFormat::decode(w);
                Some(RV32i::AUIPC(AUIPC { rd: f.rd, imm: f.imm }))
            },
            0b1101111 => {
                let f = JFormat::decode(w);
                proof {
                    lemma_j_offset_split(f.imm0, f.imm1, f.imm2, f.imm3);
                }
                Some(RV32i::JAL(JAL { rd: f.rd, offset: j_offset(f) }))
            },
            0b1100111 => {
                let f = IFormat::decode(w);
                Some(RV32i::JALR(JALR { rd: f.rd, rs1: f.rs1, imm: f.imm }))
            },
            0b1100011 => match Branch::decode(BFormat::decode(w)) {
                Some(b) => Some(RV32i::Branch(b)),
                None => None,
            },
            0b0000011 => match Load::decode(IFormat::decode(w)) {
                Some(l) => Some(RV32i::Load(l)),
                None => None,
            },
            0b0100011 => match Store::decode(SFormat::decode(w)) {
                Some(s) => Some(RV32i::Store(s)),
                None => None,
            },
            0b0010011 => match Immediate::decode(IFormat::decode(w)) {
                Some(i) => Some(RV32i::Immediate(i)),
                None => None,
            },
            0b0110011 => match Op::decode(RFormat::decode(w)) {
                Some(o) => Some(RV32i::Op(o)),
                None => None,
            },
            0b0001111 => match MiscMem::decode(IFormat::decode(w)) {
                Some(m) => Some(RV32i::MiscMem(m)),
                None => None,
            },
            0b1110011 => match System::decode(IFormat::decode(w)) {
                Some(s) => Some(RV32i::System(s)),
                None => None,
            },
            _ => None,
        }
    }

    /// The word the instruction encodes to. Fields the variant does not own
    /// encode to their canonical values.
    pub open spec fn spec_encode(self) -> u32 {
        match self {
            RV32i::LUI(v) => v.spec_encode(),
            RV32i::AUIPC(v) => v.spec_encode(),
            RV32i::JAL(v) => v.spec_encode(),
            RV32i::JALR(v) => v.spec_encode(),
            RV32i::Branch(b) => b.spec_encode(),
            RV32i::Load(l) => l.spec_encode(),
            RV32i::Store(s) => s.spec_encode(),
            RV32i::Immediate(i) => i.spec_encode(),
            RV32i::Op(o) => o.spec_encode(),
            RV32i::MiscMem(m) => m.spec_encode(),
            RV32i::System(s) => s.spec_encode(),
        }
    }

    /// Encodes the instruction back to a 32-bit word.
    pub fn encode(self) -> (r: u32)
        requires
            self.wf(),
        ensures
            r == self.spec_encode(),
    {
        match self {
            RV32i::LUI(v) => v.encode(),
            RV32i::AUIPC(v) => v.encode(),
            RV32i::JAL(v) => v.encode(),
            RV32i::JALR(v) => v.encode(),
            RV32i::Branch(b) => b.encode(),
            RV32i::Load(l) => l.encode(),
            RV32i::Store(s) => s.encode(),
            RV32i::Immediate(i) => i.encode(),
            RV32i::Op(o) => o.encode(),
            RV32i::MiscMem(m) => m.encode(),
            RV32i::System(s) => s.encode(),
        }
    }

    /// How executing the instruction relates the machine states.
    pub open spec fn exec_rel(pre: MCU, i: RV32i, post: MCU, r: Result<
        u32,
        ExceptionInterrupt,
    >) -> bool {
        match i {
            RV32i::LUI(v) => exec_frame(pre, post) && post.cpu.pc == pre.cpu.pc && post.cpu.csrs()
                == pre.cpu.csrs() && post.cpu.wfi == pre.cpu.wfi && r == Ok::<
                u32,
                ExceptionInterrupt,
            >(1) && post.cpu.regs() == reg_update(pre.cpu.regs(), v.rd, v.imm << 12),
            RV32i::AUIPC(v) => exec_frame(pre, post) && post.cpu.pc == pre.cpu.pc && post.cpu.csrs()
                == pre.cpu.csrs() && post.cpu.wfi == pre.cpu.wfi && r == Ok::<
                u32,
                ExceptionInterrupt,
            >(1) && post.cpu.regs() == reg_update(
                pre.cpu.regs(),
                v.rd,
                wadd(pre.cpu.pc, v.imm << 12),
            ),
            RV32i::JAL(v) => exec_frame(pre, post) && post.cpu.csrs() == pre.cpu.csrs()
                && post.cpu.wfi == pre.cpu.wfi && r == Ok::<u32, ExceptionInterrupt>(1)
                && post.cpu.regs() == reg_update(pre.cpu.regs(), v.rd, wadd(pre.cpu.pc, 4))
                && post.cpu.pc == wadd(pre.cpu.pc, sext_bits(v.offset, 20)),
            RV32i::JALR(v) => exec_frame(pre, post) && post.cpu.csrs() == pre.cpu.csrs()
                && post.cpu.wfi == pre.cpu.wfi && r == Ok::<u32, ExceptionInterrupt>(1)
                && post.cpu.regs() == reg_update(pre.cpu.regs(), v.rd, wadd(pre.cpu.pc, 4))
                && post.cpu.pc == wadd(pre.cpu.regs()[v.rs1 as int], sext_bits(v.imm, 12)) & !1u32,
            RV32i::Branch(b) => exec_frame(pre, post) && cpu_regs_frame(pre, post) && r == Ok::<
                u32,
                ExceptionInterrupt,
            >(1) && post.cpu.pc == (if b.spec_taken(pre.cpu.regs()) {
                wadd(pre.cpu.pc, sext_bits(b.spec_offset(), 12))
            } else {
                pre.cpu.pc
            }),
            RV32i::Load(l) => Load::exec_rel(pre, l, post, r),
            RV32i::Store(s) => Store::exec_rel(pre, s, post, r),
            RV32i::Immediate(im) => Immediate::exec_rel(pre, im, post, r),
            RV32i::Op(o) => Op::exec_rel(pre, o, post, r),
            RV32i::MiscMem(m) => MiscMem::exec_rel(pre, m, post, r),
            RV32i::System(s) => System::exec_rel(pre, s, post, r),
        }
    }

    /// Executes the instruction against the MCU, returning its cycle cost or
    /// the trap it raises. The program counter advance for instructions that
    /// do not set it themselves happens in `update_pc`.
    pub fn execute(&self, mcu: &mut MCU) -> (r: Result<u32, ExceptionInterrupt>)
        requires
            old(mcu).wf(),
            self.regs_ok(),
        ensures
            final(mcu).wf(),
            RV32i::exec_rel(*old(mcu), *self, *final(mcu), r),
    {
        match self {
            RV32i::LUI(v) => v.execute(mcu),
            RV32i::AUIPC(v) => v.execute(mcu),
            RV32i::JAL(v) => v.execute(mcu),
            RV32i::JALR(v) => v.execute(mcu),
            RV32i::Branch(b) => b.execute(mcu),
            RV32i::Load(l) => l.execute(mcu),
            RV32i::Store(s) => s.execute(mcu),
            RV32i::Immediate(i) => i.execute(mcu),
            RV32i::Op(o) => o.execute(mcu),
            RV32i::MiscMem(m) => m.execute(mcu),
            RV32i::System(s) => s.execute(mcu),
        }
    }

    /// Whether the instruction is control flow: jumps set pc themselves;
    /// branches set it exactly when taken.
    pub open spec fn spec_update_pc_rel(pre: MCU, i: RV32i, post: MCU) -> bool {
        match i {
            RV32i::JAL(_) => post == pre,
            RV32i::JALR(_) => post == pre,
            RV32i::Branch(b) => exec_frame(pre, post) && cpu_regs_frame(pre, post) && post.cpu.pc
                == (if b.spec_taken(pre.cpu.regs()) {
                pre.cpu.pc
            } else {
                wadd(pre.cpu.pc, 4)
            }),
            _ => exec_frame(pre, post) && cpu_regs_frame(pre, post) && post.cpu.pc == wadd(
                pre.cpu.pc,
                4,
            ),
        }
    }

    /// The advance step after a successful execute: non-control-flow
    /// instructions move pc past the instruction; jumps already set it; a
    /// branch moves it only when it was not taken.
    pub fn update_pc(&self, mcu: &mut MCU)
        requires
            old(mcu).wf(),
            self.regs_ok(),
        ensures
            final(mcu).wf(),
            RV32i::spec_update_pc_rel(*old(mcu), *self, *final(mcu)),
    {
        match self {
            RV32i::JAL(_) => {},
            RV32i::JALR(_) => {},
            RV32i::Branch(b) => b.update_pc(mcu),
            _ => {
                mcu.cpu.pc = mcu.cpu.pc.wrapping_add(4);
                proof {
                    MCU::lemma_wf_same_devices(*old(mcu), *mcu);
                }
            },
        }
    }

    /// The bits of the word a decoded variant reproduces when re-encoded:
    /// all 32 for most variants; the R-format operations selected by funct3
    /// alone do not own funct7, ECALL/EBREAK do not own rs1, and JALR does
    /// not own funct3.
    pub open spec fn owned_mask(self) -> u32 {
        match self {
            RV32i::Op(o) => match o {
                Op::SLL(_) | Op::SLT(_) | Op::SLTU(_) | Op::XOR(_) | Op::OR(_) | Op::AND(
                    _,
                ) => 0x01ff_ffff,
                _ => 0xffff_ffffu32,
            },
            RV32i::System(s) => match s {
                System::ECALL(_) | System::EBREAK(_) => 0xfff0_7fff,
                _ => 0xffff_ffffu32,
            },
            RV32i::JALR(_) => 0xffff_8fff,
            _ => 0xffff_ffffu32,
        }
    }
}

/// Whatever an instruction does, the device map keeps its length, its
/// identifiers and its kinds, and the region table does not move.
pub proof fn lemma_exec_shape(pre: MCU, i: RV32i, post: MCU, r: Result<u32, ExceptionInterrupt>)
    requires
        RV32i::exec_rel(pre, i, post, r),
    ensures
        post.mmu == pre.mmu,
        pre.same_device_map_shape(post),
{
    match i {
        RV32i::Load(l) => {
            match pre.spec_route(l.spec_addr(pre.cpu.regs())) {
                Some(_) => {
                    if l is LB || l is LBU || l is LH || l is LHU {
                        MCU::lemma_shape_refl(pre, post);
                    }
                },
                None => {
                    MCU::lemma_shape_refl(pre, post);
                },
            }
        },
        RV32i::Store(s) => {
            match pre.spec_route(s.spec_addr(pre.cpu.regs())) {
                Some(_) => {},
                None => {
                    MCU::lemma_shape_refl(pre, post);
                },
            }
        },
        _ => {
            MCU::lemma_shape_refl(pre, post);
        },
    }
}

/// Round trip: a word that decodes to a variant is reproduced by encoding
/// the variant on every bit the variant owns; the few unowned fields encode
/// to zero.
pub proof fn lemma_rv32i_decode_encode(w: u32)
    ensures
        RV32i::spec_decode(w) matches Some(v) ==> v.spec_encode() == w & v.owned_mask(),
{
    if RV32i::spec_decode(w) is Some {
        let v = RV32i::spec_decode(w)->Some_0;
        let op = w & 0x7f;
        crate::format::lemma_field_ranges(w);
        if op == 0b0110111 || op == 0b0010111 {
            assert(v.spec_encode() == UFormat::spec_decode(w).spec_encode());
            crate::format::lemma_u_decode_encode(w);
            lemma_mask_full(w);
            assert(v.spec_encode() == w & v.owned_mask());
        } else if op == 0b1101111 {
            let f = JFormat::spec_decode(w);
            lemma_j_offset_split(f.imm0, f.imm1, f.imm2, f.imm3);
            assert((v->JAL_0).spec_to_format() == f);
            crate::format::lemma_j_decode_encode(w);
            lemma_mask_full(w);
            assert(v.spec_encode() == w & v.owned_mask());
        } else if op == 0b1100111 {
            lemma_jalr_encode(w);
            assert(v.spec_encode() == w & v.owned_mask());
        } else if op == 0b1100011 {
            let f = BFormat::spec_decode(w);
            lemma_b_offset_split(f.imm0, f.imm1, f.imm2, f.imm3);
            assert((v->Branch_0).spec_to_format() == f);
            crate::format::lemma_b_decode_encode(w);
            lemma_mask_full(w);
            assert(v.spec_encode() == w & v.owned_mask());
        } else if op == 0b0000011 {
            assert(v.spec_encode() == IFormat::spec_decode(w).spec_encode());
            crate::format::lemma_i_decode_encode(w);
            lemma_mask_full(w);
        } else if op == 0b0100011 {
            let f = SFormat::spec_decode(w);
            lemma_s_offset_split(f.imm0, f.imm1);
            assert((v->Store_0).spec_to_format() == f);
            crate::format::lemma_s_decode_encode(w);
            lemma_mask_full(w);
            assert(v.spec_encode() == w & v.owned_mask());
        } else if op == 0b0010011 {
            assert(v.spec_encode() == IFormat::spec_decode(w).spec_encode());
            crate::format::lemma_i_decode_encode(w);
            lemma_mask_full(w);
        } else if op == 0b0110011 {
            let f = RFormat::spec_decode(w);
            let o = v->Op_0;
            if o is ADD || o is SUB || o is SRL || o is SRA {
                // These four check funct7 exactly, so they own every bit.
                assert(o.spec_to_format() == f);
                crate::format::lemma_r_decode_encode(w);
                lemma_mask_full(w);
            } else {
                lemma_r_partial(w);
                assert((w & 0x01ff_ffff) | (0u32 << 25) == w & 0x01ff_ffff) by (bit_vector);
            }
        } else if op == 0b0001111 {
            assert(v.spec_encode() == IFormat::spec_decode(w).spec_encode());
            crate::format::lemma_i_decode_encode(w);
            lemma_mask_full(w);
        } else {
            let s = v->System_0;
            if s is ECALL || s is EBREAK {
                lemma_system_call_encode(w, s.spec_imm());
            } else {
                assert(s.spec_to_format() == IFormat::spec_decode(w));
                crate::format::lemma_i_decode_encode(w);
                lemma_mask_full(w);
            }
        }
    }
}

/// Masking with all bits set changes nothing.
proof fn lemma_mask_full(w: u32)
    ensures
        w & 0xffff_ffffu32 == w,
{
    assert(w & 0xffff_ffffu32 == w) by (bit_vector);
}

/// The low 25 bits of an R-format word reassemble from its fields.
proof fn lemma_r_partial(w: u32)
    ensures
        (w & 0x7f) | (((w >> 7) & 0x1f) << 7) | (((w >> 12) & 0x7) << 12) | (((w >> 15) & 0x1f)
            << 15) | (((w >> 20) & 0x1f) << 20) == w & 0x01ff_ffff,
{
    assert((w & 0x7f) | (((w >> 7) & 0x1f) << 7) | (((w >> 12) & 0x7) << 12) | (((w >> 15) & 0x1f)
        << 15) | (((w >> 20) & 0x1f) << 20) == w & 0x01ff_ffff) by (bit_vector);
}

/// JALR reassembles the word apart from the funct3 field, which it encodes
/// as zero.
proof fn lemma_jalr_encode(w: u32)
    requires
        w & 0x7f == 0b1100111,
    ensures
        0b1100111u32 | (((w >> 7) & 0x1f) << 7) | (0u32 << 12) | (((w >> 15) & 0x1f) << 15) | (((w
            >> 20) & 0xfff) << 20) == w & 0xffff_8fff,
{
    assert(w & 0x7f == 0b1100111 ==> (0b1100111u32 | (((w >> 7) & 0x1f) << 7) | (0u32 << 12) | (((w
        >> 15) & 0x1f) << 15) | (((w >> 20) & 0xfff) << 20)) == w & 0xffff_8fff) by (bit_vector);
}

/// ECALL and EBREAK reassemble the word apart from the rs1 field, which
/// they encode as zero.
proof fn lemma_system_call_encode(w: u32, imm: u32)
    requires
        w & 0x7f == 0b1110011,
        (w >> 12) & 0x7 == 0,
        (w >> 20) & 0xfff == imm,
    ensures
        0b1110011u32 | (((w >> 7) & 0x1f) << 7) | (0u32 << 12) | (0u32 << 15) | (imm << 20) == w
            & 0xfff0_7fff,
{
    assert(w & 0x7f == 0b1110011 && (w >> 12) & 0x7 == 0 && (w >> 20) & 0xfff == imm ==> (
    0b1110011u32 | (((w >> 7) & 0x1f) << 7) | (0u32 << 12) | (0u32 << 15) | (imm << 20)) == w
        & 0xfff0_7fff) by (bit_vector);
}

} // verus!
