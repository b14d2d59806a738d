//! The branch family: BEQ, BNE, BLT, BGE, BLTU, BGEU.
//!
//! A taken branch adds the sign-extended 12-bit offset to the program
//! counter; a branch that is not taken leaves the program counter for the
//! advance step, which then moves it past the instruction.

use vstd::prelude::*;

use crate::exceptions::ExceptionInterrupt;
use crate::format::BFormat;
use crate::instructions::{
    b_offset, cpu_regs_frame, exec_frame, lemma_b_offset_split, lemma_offset_slice_ranges,
    spec_b_offset, wadd,
};
use crate::mcu::MCU;
use crate::utils::{sext, sext_bits};

verus! {

/// Branch if equal.
#[derive(Debug, Clone, Copy, PartialEq, Eq, Structural)]
pub struct BEQ {
    pub rs1: u32,
    pub rs2: u32,
    pub offset: u32,
}

/// Branch if not equal.
#[derive(Debug, Clone, Copy, PartialEq, Eq, Structural)]
pub struct BNE {
    pub rs1: u32,
    pub rs2: u32,
    pub offset: u32,
}

/// Branch if less than, two's-complement comparison.
#[derive(Debug, Clone, Copy, PartialEq, Eq, Structural)]
pub struct BLT {
    pub rs1: u32,
    pub rs2: u32,
    pub offset: u32,
}

/// Branch if greater than or equal, two's-complement comparison.
#[derive(Debug, Clone, Copy, PartialEq, Eq, Structural)]
pub struct BGE {
    pub rs1: u32,
    pub rs2: u32,
    pub offset: u32,
}

/// Branch if less than, unsigned comparison.
#[derive(Debug, Clone, Copy, PartialEq, Eq, Structural)]
pub struct BLTU {
    pub rs1: u32,
    pub rs2: u32,
    pub offset: u32,
}

/// Branch if greater than or equal, unsigned comparison.
#[derive(Debug, Clone, Copy, PartialEq, Eq, Structural)]
pub struct BGEU {
    pub rs1: u32,
    pub rs2: u32,
    pub offset: u32,
}

/// The branch operations, all in B format under opcode 0b1100011.
#[derive(Debug, Clone, Copy, PartialEq, Eq, Structural)]
pub enum Branch {
    BEQ(BEQ),
    BGE(BGE),
    BGEU(BGEU),
    BLT(BLT),
    BLTU(BLTU),
    BNE(BNE),
}

impl Branch {
    /// The first source register of the branch.
    pub open spec fn spec_rs1(self) -> u32 {
        match self {
            Branch::BEQ(b) => b.rs1,
            Branch::BGE(b) => b.rs1,
            Branch::BGEU(b) => b.rs1,
            Branch::BLT(b) => b.rs1,
            Branch::BLTU(b) => b.rs1,
            Branch::BNE(b) => b.rs1,
        }
    }

    /// The second source register of the branch.
    pub open spec fn spec_rs2(self) -> u32 {
        match self {
            Branch::BEQ(b) => b.rs2,
            Branch::BGE(b) => b.rs2,
            Branch::BGEU(b) => b.rs2,
            Branch::BLT(b) => b.rs2,
            Branch::BLTU(b) => b.rs2,
            Branch::BNE(b) => b.rs2,
        }
    }

    /// The branch offset.
    pub open spec fn spec_offset(self) -> u32 {
        match self {
            Branch::BEQ(b) => b.offset,
            Branch::BGE(b) => b.offset,
            Branch::BGEU(b) => b.offset,
            Branch::BLT(b) => b.offset,
            Branch::BLTU(b) => b.offset,
            Branch::BNE(b) => b.offset,
        }
    }

    /// Whether the branch condition holds on the given register file.
    pub open spec fn spec_taken(self, regs: Seq<u32>) -> bool {
        let a = regs[self.spec_rs1() as int];
        let b = regs[self.spec_rs2() as int];
        match self {
            Branch::BEQ(_) => a == b,
            Branch::BGE(_) => (a as i32) >= (b as i32),
            Branch::BGEU(_) => a >= b,
            Branch::BLT(_) => (a as i32) < (b as i32),
            Branch::BLTU(_) => a < b,
            Branch::BNE(_) => a != b,
        }
    }

    /// The register fields address the register file.
    pub open spec fn regs_ok(self) -> bool {
        self.spec_rs1() < 32 && self.spec_rs2() < 32
    }

    /// The fields fit their slots: a decoded branch always satisfies this.
    pub open spec fn wf(self) -> bool {
        self.regs_ok() && self.spec_offset() < 0x2000 && self.spec_offset() & 1 == 0
    }

    /// Which variant the funct3 field selects.
    pub open spec fn spec_decode(f: BFormat) -> Option<Branch> {
        let rs1 = f.rs1;
        let rs2 = f.rs2;
        let offset = spec_b_offset(f);
        if f.funct3 == 0b000 {
            Some(Branch::BEQ(BEQ { rs1, rs2, offset }))
        } else if f.funct3 == 0b101 {
            Some(Branch::BGE(BGE { rs1, rs2, offset }))
        } else if f.funct3 == 0b111 {
            Some(Branch::BGEU(BGEU { rs1, rs2, offset }))
        } else if f.funct3 == 0b100 {
            Some(Branch::BLT(BLT { rs1, rs2, offset }))
        } else if f.funct3 == 0b110 {
            Some(Branch::BLTU(BLTU { rs1, rs2, offset }))
        } else if f.funct3 == 0b001 {
            Some(Branch::BNE(BNE { rs1, rs2, offset }))
        } else {
            None
        }
    }

    /// Selects the branch variant from the B-format fields; unknown funct3
    /// values decode to nothing.
    pub fn decode(f: BFormat) -> (r: Option<Branch>)
        ensures
            r == Branch::spec_decode(f),
            f.wf() ==> (r matches Some(b) ==> b.wf()),
    {
        proof {
            if f.wf() {
                lemma_b_offset_split(f.imm0, f.imm1, f.imm2, f.imm3);
            }
        }
        let rs1 = f.rs1;
        let rs2 = f.rs2;
        let offset = b_offset(f);
        match f.funct3 {
            0b000 => Some(Branch::BEQ(BEQ { rs1, rs2, offset })),
            0b101 => Some(Branch::BGE(BGE { rs1, rs2, offset })),
            0b111 => Some(Branch::BGEU(BGEU { rs1, rs2, offset })),
            0b100 => Some(Branch::BLT(BLT { rs1, rs2, offset })),
            0b110 => Some(Branch::BLTU(BLTU { rs1, rs2, offset })),
            0b001 => Some(Branch::BNE(BNE { rs1, rs2, offset })),
            _ => None,
        }
    }

    /// The funct3 value of the variant.
    pub open spec fn spec_funct3(self) -> u32 {
        match self {
            Branch::BEQ(_) => 0b000,
            Branch::BGE(_) => 0b101,
            Branch::BGEU(_) => 0b111,
            Branch::BLT(_) => 0b100,
            Branch::BLTU(_) => 0b110,
            Branch::BNE(_) => 0b001,
        }
    }

    /// The B-format fields the branch encodes to.
    pub open spec fn spec_to_format(self) -> BFormat {
        BFormat {
            op: 0b1100011,
            imm0: self.spec_offset() >> 11 & 0x1,
            imm1: self.spec_offset() >> 1 & 0xf,
            funct3: self.spec_funct3(),
            rs1: self.spec_rs1(),
            rs2: self.spec_rs2(),
            imm2: self.spec_offset() >> 5 & 0x3f,
            imm3: self.spec_offset() >> 12 & 0x1,
        }
    }

    /// The word the branch encodes to.
    pub open spec fn spec_encode(self) -> u32 {
        self.spec_to_format().spec_encode()
    }

    /// Encodes the branch back to a 32-bit word.
    pub fn encode(self) -> (r: u32)
        requires
            self.wf(),
        ensures
            r == self.spec_encode(),
    {
        let (rs1, rs2, offset, funct3) = match self {
            Branch::BEQ(b) => (b.rs1, b.rs2, b.offset, 0b000),
            Branch::BGE(b) => (b.rs1, b.rs2, b.offset, 0b101),
            Branch::BGEU(b) => (b.rs1, b.rs2, b.offset, 0b111),
            Branch::BLT(b) => (b.rs1, b.rs2, b.offset, 0b100),
            Branch::BLTU(b) => (b.rs1, b.rs2, b.offset, 0b110),
            Branch::BNE(b) => (b.rs1, b.rs2, b.offset, 0b001),
        };
        proof {
            lemma_offset_slice_ranges(offset);
        }
        let f = BFormat {
            op: 0b1100011,
            imm0: offset >> 11 & 0x1,
            imm1: offset >> 1 & 0xf,
            funct3,
            rs1,
            rs2,
            imm2: offset >> 5 & 0x3f,
            imm3: offset >> 12 & 0x1,
        };
        f.encode()
    }

    /// Evaluates the branch condition against the register file.
    fn taken(&self, mcu: &MCU) -> (r: bool)
        requires
            mcu.wf(),
            self.regs_ok(),
        ensures
            r == self.spec_taken(mcu.cpu.regs()),
    {
        match self {
            Branch::BEQ(b) => mcu.cpu.get_x(b.rs1) == mcu.cpu.get_x(b.rs2),
            Branch::BGE(b) => {
                let a = #[verifier::truncate] (mcu.cpu.get_x(b.rs1) as i32);
                let c = #[verifier::truncate] (mcu.cpu.get_x(b.rs2) as i32);
                a >= c
            },
            Branch::BGEU(b) => mcu.cpu.get_x(b.rs1) >= mcu.cpu.get_x(b.rs2),
            Branch::BLT(b) => {
                let a = #[verifier::truncate] (mcu.cpu.get_x(b.rs1) as i32);
                let c = #[verifier::truncate] (mcu.cpu.get_x(b.rs2) as i32);
                a < c
            },
            Branch::BLTU(b) => mcu.cpu.get_x(b.rs1) < mcu.cpu.get_x(b.rs2),
            Branch::BNE(b) => mcu.cpu.get_x(b.rs1) != mcu.cpu.get_x(b.rs2),
        }
    }

    /// When the condition holds, sets pc to pc plus the sign-extended
    /// offset; otherwise leaves pc for the advance step. Costs one cycle.
    pub fn execute(&self, mcu: &mut MCU) -> (r: Result<u32, ExceptionInterrupt>)
        requires
            old(mcu).wf(),
            self.regs_ok(),
        ensures
            final(mcu).wf(),
            exec_frame(*old(mcu), *final(mcu)),
            cpu_regs_frame(*old(mcu), *final(mcu)),
            r == Ok::<u32, ExceptionInterrupt>(1),
            final(mcu).cpu.pc == (if self.spec_taken(old(mcu).cpu.regs()) {
                wadd(old(mcu).cpu.pc, sext_bits(self.spec_offset(), 12))
            } else {
                old(mcu).cpu.pc
            }),
    {
        if self.taken(mcu) {
            let offset = match self {
                Branch::BEQ(b) => b.offset,
                Branch::BGE(b) => b.offset,
                Branch::BGEU(b) => b.offset,
                Branch::BLT(b) => b.offset,
                Branch::BLTU(b) => b.offset,
                Branch::BNE(b) => b.offset,
            };
            let off = sext(offset, 12, 32);
            mcu.cpu.pc = mcu.cpu.pc.wrapping_add(off);
        }
        Ok(1)
    }

    /// The advance step of a branch: a branch that was not taken moves past
    /// the instruction.
    pub fn update_pc(&self, mcu: &mut MCU)
        requires
            old(mcu).wf(),
            self.regs_ok(),
        ensures
            final(mcu).wf(),
            exec_frame(*old(mcu), *final(mcu)),
            cpu_regs_frame(*old(mcu), *final(mcu)),
            final(mcu).cpu.pc == (if self.spec_taken(old(mcu).cpu.regs()) {
                old(mcu).cpu.pc
            } else {
                wadd(old(mcu).cpu.pc, 4)
            }),
    {
        let t = self.taken(mcu);
        if !t {
            mcu.cpu.pc = mcu.cpu.pc.wrapping_add(4);
        }
        proof {
            MCU::lemma_wf_same_devices(*old(mcu), *mcu);
        }
    }
}

} // verus!
