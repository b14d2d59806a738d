//! The register-register operations: ADD, SUB, SLL, SLT, SLTU, XOR, SRL,
//! SRA, OR, AND. Arithmetic wraps on 32-bit overflow; shifts use the low
//! five bits of the second operand; signed comparisons reinterpret as two's
//! complement.

use vstd::prelude::*;

use crate::exceptions::ExceptionInterrupt;
use crate::format::RFormat;
use crate::instructions::{exec_frame, lemma_shamt_range, reg_update, wadd, wsub};
use crate::mcu::MCU;

verus! {

#[derive(Debug, Clone, Copy, PartialEq, Eq, Structural)]
pub struct ADD {
    pub rd: u32,
    pub rs1: u32,
    pub rs2: u32,
}

#[derive(Debug, Clone, Copy, PartialEq, Eq, Structural)]
pub struct SUB {
    pub rd: u32,
    pub rs1: u32,
    pub rs2: u32,
}

#[derive(Debug, Clone, Copy, PartialEq, Eq, Structural)]
pub struct SLL {
    pub rd: u32,
    pub rs1: u32,
    pub rs2: u32,
}

#[derive(Debug, Clone, Copy, PartialEq, Eq, Structural)]
pub struct SLT {
    pub rd: u32,
    pub rs1: u32,
    pub rs2: u32,
}

#[derive(Debug, Clone, Copy, PartialEq, Eq, Structural)]
pub struct SLTU {
    pub rd: u32,
    pub rs1: u32,
    pub rs2: u32,
}

#[derive(Debug, Clone, Copy, PartialEq, Eq, Structural)]
pub struct XOR {
    pub rd: u32,
    pub rs1: u32,
    pub rs2: u32,
}

#[derive(Debug, Clone, Copy, PartialEq, Eq, Structural)]
pub struct SRL {
    pub rd: u32,
    pub rs1: u32,
    pub rs2: u32,
}

#[derive(Debug, Clone, Copy, PartialEq, Eq, Structural)]
pub struct SRA {
    pub rd: u32,
    pub rs1: u32,
    pub rs2: u32,
}

#[derive(Debug, Clone, Copy, PartialEq, Eq, Structural)]
pub struct OR {
    pub rd: u32,
    pub rs1: u32,
    pub rs2: u32,
}

#[derive(Debug, Clone, Copy, PartialEq, Eq, Structural)]
pub struct AND {
    pub rd: u32,
    pub rs1: u32,
    pub rs2: u32,
}

/// The register-register operations, all in R format under opcode 0b0110011.
#[derive(Debug, Clone, Copy, PartialEq, Eq, Structural)]
pub enum Op {
    AND(AND),
    OR(OR),
    SRL(SRL),
    SRA(SRA),
    XOR(XOR),
    SLTU(SLTU),
    SLT(SLT),
    SLL(SLL),
    ADD(ADD),
    SUB(SUB),
}

impl Op {
    pub open spec fn spec_rd(self) -> u32 {
        match self {
            Op::AND(v) => v.rd,
            Op::OR(v) => v.rd,
            Op::SRL(v) => v.rd,
            Op::SRA(v) => v.rd,
            Op::XOR(v) => v.rd,
            Op::SLTU(v) => v.rd,
            Op::SLT(v) => v.rd,
            Op::SLL(v) => v.rd,
            Op::ADD(v) => v.rd,
            Op::SUB(v) => v.rd,
        }
    }

    pub open spec fn spec_rs1(self) -> u32 {
        match self {
            Op::AND(v) => v.rs1,
            Op::OR(v) => v.rs1,
            Op::SRL(v) => v.rs1,
            Op::SRA(v) => v.rs1,
            Op::XOR(v) => v.rs1,
            Op::SLTU(v) => v.rs1,
            Op::SLT(v) => v.rs1,
            Op::SLL(v) => v.rs1,
            Op::ADD(v) => v.rs1,
            Op::SUB(v) => v.rs1,
        }
    }

    pub open spec fn spec_rs2(self) -> u32 {
        match self {
            Op::AND(v) => v.rs2,
            Op::OR(v) => v.rs2,
            Op::SRL(v) => v.rs2,
            Op::SRA(v) => v.rs2,
            Op::XOR(v) => v.rs2,
            Op::SLTU(v) => v.rs2,
            Op::SLT(v) => v.rs2,
            Op::SLL(v) => v.rs2,
            Op::ADD(v) => v.rs2,
            Op::SUB(v) => v.rs2,
        }
    }

    pub open spec fn regs_ok(self) -> bool {
        self.spec_rd() < 32 && self.spec_rs1() < 32 && self.spec_rs2() < 32
    }

    pub open spec fn wf(self) -> bool {
        self.regs_ok()
    }

    /// The value written to rd, as a function of the two source registers.
    pub open spec fn spec_value(self, regs: Seq<u32>) -> u32 {
        let a = regs[self.spec_rs1() as int];
        let b = regs[self.spec_rs2() as int];
        match self {
            Op::AND(_) => a & b,
            Op::OR(_) => a | b,
            Op::SRL(_) => a >> (b & 0x1f),
            Op::SRA(_) => (((a as i32) >> (b & 0x1f)) as u32),
            Op::XOR(_) => a ^ b,
            Op::SLTU(_) => if a < b {
                1u32
            } else {
                0u32
            },
            Op::SLT(_) => if (a as i32) < (b as i32) {
                1u32
            } else {
                0u32
            },
            Op::SLL(_) => a << (b & 0x1f),
            Op::ADD(_) => wadd(a, b),
            Op::SUB(_) => wsub(a, b),
        }
    }

    /// Which variant funct3 and funct7 select; the funct3 rows shared by
    /// two variants demand an exact funct7 and reject anything else.
    pub open spec fn spec_decode(f: RFormat) -> Option<Op> {
        let rd = f.rd;
        let rs1 = f.rs1;
        let rs2 = f.rs2;
        if f.funct3 == 0b000 && f.funct7 == 0 {
            Some(Op::ADD(ADD { rd, rs1, rs2 }))
        } else if f.funct3 == 0b000 && f.funct7 == 0b0100000 {
            Some(Op::SUB(SUB { rd, rs1, rs2 }))
        } else if f.funct3 == 0b000 {
            None
        } else if f.funct3 == 0b001 {
            Some(Op::SLL(SLL { rd, rs1, rs2 }))
        } else if f.funct3 == 0b010 {
            Some(Op::SLT(SLT { rd, rs1, rs2 }))
        } else if f.funct3 == 0b011 {
            Some(Op::SLTU(SLTU { rd, rs1, rs2 }))
        } else if f.funct3 == 0b100 {
            Some(Op::XOR(XOR { rd, rs1, rs2 }))
        } else if f.funct3 == 0b101 && f.funct7 == 0 {
            Some(Op::SRL(SRL { rd, rs1, rs2 }))
        } else if f.funct3 == 0b101 && f.funct7 == 0b0100000 {
            Some(Op::SRA(SRA { rd, rs1, rs2 }))
        } else if f.funct3 == 0b101 {
            None
        } else if f.funct3 == 0b110 {
            Some(Op::OR(OR { rd, rs1, rs2 }))
        } else {
            Some(Op::AND(AND { rd, rs1, rs2 }))
        }
    }

    /// Selects the operation from the R-format fields.
    pub fn decode(f: RFormat) -> (r: Option<Op>)
        ensures
            r == Op::spec_decode(f),
            f.wf() ==> (r matches Some(v) ==> v.wf()),
    {
        let rd = f.rd;
        let rs1 = f.rs1;
        let rs2 = f.rs2;
        match f.funct3 {
            0b000 => if f.funct7 == 0 {
                Some(Op::ADD(ADD { rd, rs1, rs2 }))
            } else if f.funct7 == 0b0100000 {
                Some(Op::SUB(SUB { rd, rs1, rs2 }))
            } else {
                None
            },
            0b001 => Some(Op::SLL(SLL { rd, rs1, rs2 })),
            0b010 => Some(Op::SLT(SLT { rd, rs1, rs2 })),
            0b011 => Some(Op::SLTU(SLTU { rd, rs1, rs2 })),
            0b100 => Some(Op::XOR(XOR { rd, rs1, rs2 })),
            0b101 => if f.funct7 == 0 {
                Some(Op::SRL(SRL { rd, rs1, rs2 }))
            } else if f.funct7 == 0b0100000 {
                Some(Op::SRA(SRA { rd, rs1, rs2 }))
            } else {
                None
            },
            0b110 => Some(Op::OR(OR { rd, rs1, rs2 })),
            _ => Some(Op::AND(AND { rd, rs1, rs2 })),
        }
    }

    /// The funct3 value of the variant.
    pub open spec fn spec_funct3(self) -> u32 {
        match self {
            Op::AND(_) => 0b111,
            Op::OR(_) => 0b110,
            Op::SRL(_) => 0b101,
            Op::SRA(_) => 0b101,
            Op::XOR(_) => 0b100,
            Op::SLTU(_) => 0b011,
            Op::SLT(_) => 0b010,
            Op::SLL(_) => 0b001,
            Op::ADD(_) => 0b000,
            Op::SUB(_) => 0b000,
        }
    }

    /// The funct7 value the variant encodes with.
    pub open spec fn spec_funct7(self) -> u32 {
        match self {
            Op::SRA(_) => 0b0100000,
            Op::SUB(_) => 0b0100000,
            _ => 0,
        }
    }

    pub open spec fn spec_to_format(self) -> RFormat {
        RFormat {
            op: 0b0110011,
            rd: self.spec_rd(),
            funct3: self.spec_funct3(),
            rs1: self.spec_rs1(),
            rs2: self.spec_rs2(),
            funct7: self.spec_funct7(),
        }
    }

    pub open spec fn spec_encode(self) -> u32 {
        self.spec_to_format().spec_encode()
    }

    /// Encodes the operation back to a 32-bit word.
    pub fn encode(self) -> (r: u32)
        requires
            self.wf(),
        ensures
            r == self.spec_encode(),
    {
        let (rd, rs1, rs2, funct3, funct7) = match self {
            Op::AND(v) => (v.rd, v.rs1, v.rs2, 0b111, 0),
            Op::OR(v) => (v.rd, v.rs1, v.rs2, 0b110, 0),
            Op::SRL(v) => (v.rd, v.rs1, v.rs2, 0b101, 0),
            Op::SRA(v) => (v.rd, v.rs1, v.rs2, 0b101, 0b0100000),
            Op::XOR(v) => (v.rd, v.rs1, v.rs2, 0b100, 0),
            Op::SLTU(v) => (v.rd, v.rs1, v.rs2, 0b011, 0),
            Op::SLT(v) => (v.rd, v.rs1, v.rs2, 0b010, 0),
            Op::SLL(v) => (v.rd, v.rs1, v.rs2, 0b001, 0),
            Op::ADD(v) => (v.rd, v.rs1, v.rs2, 0b000, 0),
            Op::SUB(v) => (v.rd, v.rs1, v.rs2, 0b000, 0b0100000),
        };
        let f = RFormat { op: 0b0110011, rd, funct3, rs1, rs2, funct7 };
        f.encode()
    }

    /// How executing the operation relates the machine states: rd takes the
    /// computed value, everything else stays, at a cost of one cycle.
    pub open spec fn exec_rel(pre: MCU, i: Op, post: MCU, r: Result<u32, ExceptionInterrupt>) -> bool {
        exec_frame(pre, post) && post.cpu.pc == pre.cpu.pc && post.cpu.csrs() == pre.cpu.csrs()
            && post.cpu.wfi == pre.cpu.wfi && r == Ok::<u32, ExceptionInterrupt>(1)
            && post.cpu.regs() == reg_update(pre.cpu.regs(), i.spec_rd(), i.spec_value(pre.cpu.regs()))
    }

    /// Computes the value into rd. Costs one cycle.
    pub fn execute(&self, mcu: &mut MCU) -> (r: Result<u32, ExceptionInterrupt>)
        requires
            old(mcu).wf(),
            self.regs_ok(),
        ensures
            final(mcu).wf(),
            Op::exec_rel(*old(mcu), *self, *final(mcu), r),
    {
        let (rd, a, b) = match self {
            Op::AND(v) => (v.rd, mcu.cpu.get_x(v.rs1), mcu.cpu.get_x(v.rs2)),
            Op::OR(v) => (v.rd, mcu.cpu.get_x(v.rs1), mcu.cpu.get_x(v.rs2)),
            Op::SRL(v) => (v.rd, mcu.cpu.get_x(v.rs1), mcu.cpu.get_x(v.rs2)),
            Op::SRA(v) => (v.rd, mcu.cpu.get_x(v.rs1), mcu.cpu.get_x(v.rs2)),
            Op::XOR(v) => (v.rd, mcu.cpu.get_x(v.rs1), mcu.cpu.get_x(v.rs2)),
            Op::SLTU(v) => (v.rd, mcu.cpu.get_x(v.rs1), mcu.cpu.get_x(v.rs2)),
            Op::SLT(v) => (v.rd, mcu.cpu.get_x(v.rs1), mcu.cpu.get_x(v.rs2)),
            Op::SLL(v) => (v.rd, mcu.cpu.get_x(v.rs1), mcu.cpu.get_x(v.rs2)),
            Op::ADD(v) => (v.rd, mcu.cpu.get_x(v.rs1), mcu.cpu.get_x(v.rs2)),
            Op::SUB(v) => (v.rd, mcu.cpu.get_x(v.rs1), mcu.cpu.get_x(v.rs2)),
        };
        proof {
            lemma_shamt_range(b);
        }
        let value = match self {
            Op::AND(_) => a & b,
            Op::OR(_) => a | b,
            Op::SRL(_) => a >> (b & 0x1f),
            Op::SRA(_) => {
                let sa = #[verifier::truncate] (a as i32);
                #[verifier::truncate] ((sa >> (b & 0x1f)) as u32)
            },
            Op::XOR(_) => a ^ b,
            Op::SLTU(_) => if a < b {
                1
            } else {
                0
            },
            Op::SLT(_) => {
                let sa = #[verifier::truncate] (a as i32);
                let sb = #[verifier::truncate] (b as i32);
                if sa < sb {
                    1
                } else {
                    0
                }
            },
            Op::SLL(_) => a << (b & 0x1f),
            Op::ADD(_) => a.wrapping_add(b),
            Op::SUB(_) => a.wrapping_sub(b),
        };
        mcu.cpu.set_x(rd, value);
        proof {
            MCU::lemma_wf_same_devices(*old(mcu), *mcu);
        }
        Ok(1)
    }
}

} // verus!
