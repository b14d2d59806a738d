//! The register-immediate operations: ADDI, SLTI, SLTIU, XORI, ORI, ANDI,
//! SLLI, SRLI, SRAI. The 12-bit immediate is sign-extended; shifts take the
//! low five immediate bits, and SRAI demands upper immediate bits of
//! 0b010_0000 or zero on pain of Illegal Instruction.

use vstd::prelude::*;

use crate::exceptions::{Exception, ExceptionInterrupt};
use crate::format::IFormat;
use crate::instructions::{exec_frame, lemma_shamt_range, reg_update, wadd};
use crate::mcu::MCU;
use crate::utils::sext_bits;

verus! {

#[derive(Debug, Clone, Copy, PartialEq, Eq, Structural)]
pub struct ADDI {
    pub rd: u32,
    pub rs1: u32,
    pub imm: u32,
}

#[derive(Debug, Clone, Copy, PartialEq, Eq, Structural)]
pub struct SLTI {
    pub rd: u32,
    pub rs1: u32,
    pub imm: u32,
}

#[derive(Debug, Clone, Copy, PartialEq, Eq, Structural)]
pub struct SLTIU {
    pub rd: u32,
    pub rs1: u32,
    pub imm: u32,
}

#[derive(Debug, Clone, Copy, PartialEq, Eq, Structural)]
pub struct XORI {
    pub rd: u32,
    pub rs1: u32,
    pub imm: u32,
}

#[derive(Debug, Clone, Copy, PartialEq, Eq, Structural)]
pub struct ORI {
    pub rd: u32,
    pub rs1: u32,
    pub imm: u32,
}

#[derive(Debug, Clone, Copy, PartialEq, Eq, Structural)]
pub struct ANDI {
    pub rd: u32,
    pub rs1: u32,
    pub imm: u32,
}

#[derive(Debug, Clone, Copy, PartialEq, Eq, Structural)]
pub struct SLLI {
    pub rd: u32,
    pub rs1: u32,
    pub imm: u32,
}

#[derive(Debug, Clone, Copy, PartialEq, Eq, Structural)]
pub struct SRLI {
    pub rd: u32,
    pub rs1: u32,
    pub imm: u32,
}

#[derive(Debug, Clone, Copy, PartialEq, Eq, Structural)]
pub struct SRAI {
    pub rd: u32,
    pub rs1: u32,
    pub imm: u32,
}

/// The register-immediate operations, all in I format under opcode
/// 0b0010011.
#[derive(Debug, Clone, Copy, PartialEq, Eq, Structural)]
pub enum Immediate {
    ADDI(ADDI),
    SLTI(SLTI),
    SLTIU(SLTIU),
    XORI(XORI),
    ORI(ORI),
    ANDI(ANDI),
    SLLI(SLLI),
    SRLI(SRLI),
    SRAI(SRAI),
}

impl Immediate {
    pub open spec fn spec_rd(self) -> u32 {
        match self {
            Immediate::ADDI(v) => v.rd,
            Immediate::SLTI(v) => v.rd,
            Immediate::SLTIU(v) => v.rd,
            Immediate::XORI(v) => v.rd,
            Immediate::ORI(v) => v.rd,
            Immediate::ANDI(v) => v.rd,
            Immediate::SLLI(v) => v.rd,
            Immediate::SRLI(v) => v.rd,
            Immediate::SRAI(v) => v.rd,
        }
    }

    pub open spec fn spec_rs1(self) -> u32 {
        match self {
            Immediate::ADDI(v) => v.rs1,
            Immediate::SLTI(v) => v.rs1,
            Immediate::SLTIU(v) => v.rs1,
            Immediate::XORI(v) => v.rs1,
            Immediate::ORI(v) => v.rs1,
            Immediate::ANDI(v) => v.rs1,
            Immediate::SLLI(v) => v.rs1,
            Immediate::SRLI(v) => v.rs1,
            Immediate::SRAI(v) => v.rs1,
        }
    }

    pub open spec fn spec_imm(self) -> u32 {
        match self {
            Immediate::ADDI(v) => v.imm,
            Immediate::SLTI(v) => v.imm,
            Immediate::SLTIU(v) => v.imm,
            Immediate::XORI(v) => v.imm,
            Immediate::ORI(v) => v.imm,
            Immediate::ANDI(v) => v.imm,
            Immediate::SLLI(v) => v.imm,
            Immediate::SRLI(v) => v.imm,
            Immediate::SRAI(v) => v.imm,
        }
    }

    pub open spec fn regs_ok(self) -> bool {
        self.spec_rd() < 32 && self.spec_rs1() < 32
    }

    pub open spec fn wf(self) -> bool {
        self.regs_ok() && self.spec_imm() < 0x1000
    }

    /// The value written to rd, or nothing when the instruction raises
    /// Illegal Instruction (SRAI with upper immediate bits other than
    /// 0b010_0000 or zero).
    pub open spec fn spec_value(self, regs: Seq<u32>) -> Option<u32> {
        let a = regs[self.spec_rs1() as int];
        let imm = self.spec_imm();
        match self {
            Immediate::ADDI(_) => Some(wadd(a, sext_bits(imm, 12))),
            Immediate::SLTI(_) => Some(
                if (a as i32) < (sext_bits(imm, 12) as i32) {
                    1u32
                } else {
                    0u32
                },
            ),
            Immediate::SLTIU(_) => Some(
                if a < sext_bits(imm, 12) {
                    1u32
                } else {
                    0u32
                },
            ),
            Immediate::XORI(_) => Some(a ^ sext_bits(imm, 12)),
            Immediate::ORI(_) => Some(a | sext_bits(imm, 12)),
            Immediate::ANDI(_) => Some(a & sext_bits(imm, 12)),
            Immediate::SLLI(_) => Some(a << (imm & 0x1f)),
            Immediate::SRLI(_) => Some(a >> (imm & 0x1f)),
            Immediate::SRAI(_) => if imm >> 5 == 0b010_0000 || imm >> 5 == 0 {
                Some((((a as i32) >> (imm & 0x1f)) as u32))
            } else {
                None
            },
        }
    }

    /// Which variant funct3 selects; for funct3 0b101 the upper immediate
    /// bits split logical from arithmetic shifts.
    pub open spec fn spec_decode(f: IFormat) -> Option<Immediate> {
        let rd = f.rd;
        let rs1 = f.rs1;
        let imm = f.imm;
        if f.funct3 == 0b000 {
            Some(Immediate::ADDI(ADDI { rd, rs1, imm }))
        } else if f.funct3 == 0b010 {
            Some(Immediate::SLTI(SLTI { rd, rs1, imm }))
        } else if f.funct3 == 0b011 {
            Some(Immediate::SLTIU(SLTIU { rd, rs1, imm }))
        } else if f.funct3 == 0b100 {
            Some(Immediate::XORI(XORI { rd, rs1, imm }))
        } else if f.funct3 == 0b110 {
            Some(Immediate::ORI(ORI { rd, rs1, imm }))
        } else if f.funct3 == 0b111 {
            Some(Immediate::ANDI(ANDI { rd, rs1, imm }))
        } else if f.funct3 == 0b001 {
            Some(Immediate::SLLI(SLLI { rd, rs1, imm }))
        } else if f.funct3 == 0b101 && f.imm >> 5 == 0 {
            Some(Immediate::SRLI(SRLI { rd, rs1, imm }))
        } else if f.funct3 == 0b101 {
            Some(Immediate::SRAI(SRAI { rd, rs1, imm }))
        } else {
            None
        }
    }

    /// Selects the operation from the I-format fields.
    pub fn decode(f: IFormat) -> (r: Option<Immediate>)
        ensures
            r == Immediate::spec_decode(f),
            f.wf() ==> (r matches Some(v) ==> v.wf()),
    {
        let rd = f.rd;
        let rs1 = f.rs1;
        let imm = f.imm;
        match f.funct3 {
            0b000 => Some(Immediate::ADDI(ADDI { rd, rs1, imm })),
            0b010 => Some(Immediate::SLTI(SLTI { rd, rs1, imm })),
            0b011 => Some(Immediate::SLTIU(SLTIU { rd, rs1, imm })),
            0b100 => Some(Immediate::XORI(XORI { rd, rs1, imm })),
            0b110 => Some(Immediate::ORI(ORI { rd, rs1, imm })),
            0b111 => Some(Immediate::ANDI(ANDI { rd, rs1, imm })),
            0b001 => Some(Immediate::SLLI(SLLI { rd, rs1, imm })),
            0b101 => if imm >> 5 == 0 {
                Some(Immediate::SRLI(SRLI { rd, rs1, imm }))
            } else {
                Some(Immediate::SRAI(SRAI { rd, rs1, imm }))
            },
            _ => None,
        }
    }

    pub open spec fn spec_funct3(self) -> u32 {
        match self {
            Immediate::ADDI(_) => 0b000,
            Immediate::SLTI(_) => 0b010,
            Immediate::SLTIU(_) => 0b011,
            Immediate::XORI(_) => 0b100,
            Immediate::ORI(_) => 0b110,
            Immediate::ANDI(_) => 0b111,
            Immediate::SLLI(_) => 0b001,
            Immediate::SRLI(_) => 0b101,
            Immediate::SRAI(_) => 0b101,
        }
    }

    pub open spec fn spec_to_format(self) -> IFormat {
        IFormat {
            op: 0b0010011,
            rd: self.spec_rd(),
            funct3: self.spec_funct3(),
            rs1: self.spec_rs1(),
            imm: self.spec_imm(),
        }
    }

    pub open spec fn spec_encode(self) -> u32 {
        self.spec_to_format().spec_encode()
    }

    /// Encodes the operation back to a 32-bit word.
    pub fn encode(self) -> (r: u32)
        requires
            self.wf(),
        ensures
            r == self.spec_encode(),
    {
        let (rd, rs1, imm, funct3) = match self {
            Immediate::ADDI(v) => (v.rd, v.rs1, v.imm, 0b000),
            Immediate::SLTI(v) => (v.rd, v.rs1, v.imm, 0b010),
            Immediate::SLTIU(v) => (v.rd, v.rs1, v.imm, 0b011),
            Immediate::XORI(v) => (v.rd, v.rs1, v.imm, 0b100),
            Immediate::ORI(v) => (v.rd, v.rs1, v.imm, 0b110),
            Immediate::ANDI(v) => (v.rd, v.rs1, v.imm, 0b111),
            Immediate::SLLI(v) => (v.rd, v.rs1, v.imm, 0b001),
            Immediate::SRLI(v) => (v.rd, v.rs1, v.imm, 0b101),
            Immediate::SRAI(v) => (v.rd, v.rs1, v.imm, 0b101),
        };
        let f = IFormat { op: 0b0010011, rd, funct3, rs1, imm };
        f.encode()
    }

    /// How executing the operation relates the machine states: rd takes the
    /// computed value at a cost of one cycle, or the instruction raises
    /// Illegal Instruction and changes nothing.
    pub open spec fn exec_rel(pre: MCU, i: Immediate, post: MCU, r: Result<
        u32,
        ExceptionInterrupt,
    >) -> bool {
        exec_frame(pre, post) && post.cpu.pc == pre.cpu.pc && post.cpu.csrs() == pre.cpu.csrs()
            && post.cpu.wfi == pre.cpu.wfi && (match i.spec_value(pre.cpu.regs()) {
            Some(v) => r == Ok::<u32, ExceptionInterrupt>(1) && post.cpu.regs() == reg_update(
                pre.cpu.regs(),
                i.spec_rd(),
                v,
            ),
            None => r == Err::<u32, ExceptionInterrupt>(
                ExceptionInterrupt::Exception(Exception::IllegalInstruction),
            ) && post.cpu.regs() == pre.cpu.regs(),
        })
    }

    /// Computes the value into rd, or raises Illegal Instruction. Costs one
    /// cycle.
    pub fn execute(&self, mcu: &mut MCU) -> (r: Result<u32, ExceptionInterrupt>)
        requires
            old(mcu).wf(),
            self.regs_ok(),
        ensures
            final(mcu).wf(),
            Immediate::exec_rel(*old(mcu), *self, *final(mcu), r),
    {
        let (rd, rs1, imm) = match self {
            Immediate::ADDI(v) => (v.rd, v.rs1, v.imm),
            Immediate::SLTI(v) => (v.rd, v.rs1, v.imm),
            Immediate::SLTIU(v) => (v.rd, v.rs1, v.imm),
            Immediate::XORI(v) => (v.rd, v.rs1, v.imm),
            Immediate::ORI(v) => (v.rd, v.rs1, v.imm),
            Immediate::ANDI(v) => (v.rd, v.rs1, v.imm),
            Immediate::SLLI(v) => (v.rd, v.rs1, v.imm),
            Immediate::SRLI(v) => (v.rd, v.rs1, v.imm),
            Immediate::SRAI(v) => (v.rd, v.rs1, v.imm),
        };
        let a = mcu.cpu.get_x(rs1);
        let sx = crate::utils::sext(imm, 12, 32);
        proof {
            lemma_shamt_range(imm);
        }
        let value = match self {
            Immediate::ADDI(_) => a.wrapping_add(sx),
            Immediate::SLTI(_) => {
                let sa = #[verifier::truncate] (a as i32);
                let sb = #[verifier::truncate] (sx as i32);
                if sa < sb {
                    1
                } else {
                    0
                }
            },
            Immediate::SLTIU(_) => if a < sx {
                1
            } else {
                0
            },
            Immediate::XORI(_) => a ^ sx,
            Immediate::ORI(_) => a | sx,
            Immediate::ANDI(_) => a & sx,
            Immediate::SLLI(_) => a << (imm & 0x1f),
            Immediate::SRLI(_) => a >> (imm & 0x1f),
            Immediate::SRAI(_) => {
                if imm >> 5 != 0b010_0000 && imm >> 5 != 0 {
                    return Err(ExceptionInterrupt::Exception(Exception::IllegalInstruction));
                }
                let sa = #[verifier::truncate] (a as i32);
                #[verifier::truncate] ((sa >> (imm & 0x1f)) as u32)
            },
        };
        mcu.cpu.set_x(rd, value);
        proof {
            MCU::lemma_wf_same_devices(*old(mcu), *mcu);
        }
        Ok(1)
    }
}

} // verus!
