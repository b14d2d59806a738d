//! The system operations: the CSR read-modify-write family, plus ECALL and
//! EBREAK which raise their exceptions.
//!
//! A CSR instruction reads the old value, writes the combined value, and
//! hands the old value to rd; an unmapped CSR address raises Illegal
//! Instruction and changes nothing. The immediate variants use the 5-bit
//! rs1 field itself as a zero-extended operand.

use vstd::prelude::*;

use crate::cpu::spec_csr_index;
use crate::exceptions::{Exception, ExceptionInterrupt};
use crate::format::IFormat;
use crate::instructions::{exec_frame, reg_update};
use crate::mcu::MCU;

verus! {

#[derive(Debug, Clone, Copy, PartialEq, Eq, Structural)]
pub struct CSRRW {
    pub rd: u32,
    pub rs1: u32,
    pub imm: u32,
}

#[derive(Debug, Clone, Copy, PartialEq, Eq, Structural)]
pub struct CSRRS {
    pub rd: u32,
    pub rs1: u32,
    pub imm: u32,
}

#[derive(Debug, Clone, Copy, PartialEq, Eq, Structural)]
pub struct CSRRC {
    pub rd: u32,
    pub rs1: u32,
    pub imm: u32,
}

#[derive(Debug, Clone, Copy, PartialEq, Eq, Structural)]
pub struct CSRRWI {
    pub rd: u32,
    pub rs1: u32,
    pub imm: u32,
}

#[derive(Debug, Clone, Copy, PartialEq, Eq, Structural)]
pub struct CSRRSI {
    pub rd: u32,
    pub rs1: u32,
    pub imm: u32,
}

#[derive(Debug, Clone, Copy, PartialEq, Eq, Structural)]
pub struct CSRRCI {
    pub rd: u32,
    pub rs1: u32,
    pub imm: u32,
}

/// Environment call: raises Machine Environment Call.
#[derive(Debug, Clone, Copy, PartialEq, Eq, Structural)]
pub struct ECALL {
    pub rd: u32,
}

/// Breakpoint: raises Breakpoint.
#[derive(Debug, Clone, Copy, PartialEq, Eq, Structural)]
pub struct EBREAK {
    pub rd: u32,
}

/// The system operations, all in I format under opcode 0b1110011.
#[derive(Debug, Clone, Copy, PartialEq, Eq, Structural)]
pub enum System {
    ECALL(ECALL),
    EBREAK(EBREAK),
    CSRRW(CSRRW),
    CSRRS(CSRRS),
    CSRRC(CSRRC),
    CSRRWI(CSRRWI),
    CSRRSI(CSRRSI),
    CSRRCI(CSRRCI),
}

impl System {
    pub open spec fn spec_rd(self) -> u32 {
        match self {
            System::ECALL(v) => v.rd,
            System::EBREAK(v) => v.rd,
            System::CSRRW(v) => v.rd,
            System::CSRRS(v) => v.rd,
            System::CSRRC(v) => v.rd,
            System::CSRRWI(v) => v.rd,
            System::CSRRSI(v) => v.rd,
            System::CSRRCI(v) => v.rd,
        }
    }

    pub open spec fn spec_rs1(self) -> u32 {
        match self {
            System::ECALL(_) => 0,
            System::EBREAK(_) => 0,
            System::CSRRW(v) => v.rs1,
            System::CSRRS(v) => v.rs1,
            System::CSRRC(v) => v.rs1,
            System::CSRRWI(v) => v.rs1,
            System::CSRRSI(v) => v.rs1,
            System::CSRRCI(v) => v.rs1,
        }
    }

    pub open spec fn spec_imm(self) -> u32 {
        match self {
            System::ECALL(_) => 0,
            System::EBREAK(_) => 1,
            System::CSRRW(v) => v.imm,
            System::CSRRS(v) => v.imm,
            System::CSRRC(v) => v.imm,
            System::CSRRWI(v) => v.imm,
            System::CSRRSI(v) => v.imm,
            System::CSRRCI(v) => v.imm,
        }
    }

    pub open spec fn regs_ok(self) -> bool {
        self.spec_rd() < 32 && self.spec_rs1() < 32
    }

    pub open spec fn wf(self) -> bool {
        self.regs_ok() && self.spec_imm() < 0x1000
    }

    /// The value a CSR instruction writes back, given the old CSR value and
    /// the register file.
    pub open spec fn spec_new_csr(self, t: u32, regs: Seq<u32>) -> u32 {
        match self {
            System::CSRRW(v) => regs[v.rs1 as int],
            System::CSRRS(v) => regs[v.rs1 as int] | t,
            System::CSRRC(v) => t & !regs[v.rs1 as int],
            System::CSRRWI(v) => v.rs1,
            System::CSRRSI(v) => t | v.rs1,
            System::CSRRCI(v) => t & !v.rs1,
            _ => t,
        }
    }

    /// Which variant funct3 (and for funct3 0 the immediate) selects.
    pub open spec fn spec_decode(f: IFormat) -> Option<System> {
        let rd = f.rd;
        let rs1 = f.rs1;
        let imm = f.imm;
        if f.funct3 == 0b000 && f.imm == 0 {
            Some(System::ECALL(ECALL { rd }))
        } else if f.funct3 == 0b000 && f.imm == 1 {
            Some(System::EBREAK(EBREAK { rd }))
        } else if f.funct3 == 0b001 {
            Some(System::CSRRW(CSRRW { rd, rs1, imm }))
        } else if f.funct3 == 0b010 {
            Some(System::CSRRS(CSRRS { rd, rs1, imm }))
        } else if f.funct3 == 0b011 {
            Some(System::CSRRC(CSRRC { rd, rs1, imm }))
        } else if f.funct3 == 0b101 {
            Some(System::CSRRWI(CSRRWI { rd, rs1, imm }))
        } else if f.funct3 == 0b110 {
            Some(System::CSRRSI(CSRRSI { rd, rs1, imm }))
        } else if f.funct3 == 0b111 {
            Some(System::CSRRCI(CSRRCI { rd, rs1, imm }))
        } else {
            None
        }
    }

    /// Selects the system operation from the I-format fields.
    pub fn decode(f: IFormat) -> (r: Option<System>)
        ensures
            r == System::spec_decode(f),
            f.wf() ==> (r matches Some(v) ==> v.wf()),
    {
        let rd = f.rd;
        let rs1 = f.rs1;
        let imm = f.imm;
        match f.funct3 {
            0b000 => if imm == 0 {
                Some(System::ECALL(ECALL { rd }))
            } else if imm == 1 {
                Some(System::EBREAK(EBREAK { rd }))
            } else {
                None
            },
            0b001 => Some(System::CSRRW(CSRRW { rd, rs1, imm })),
            0b010 => Some(System::CSRRS(CSRRS { rd, rs1, imm })),
            0b011 => Some(System::CSRRC(CSRRC { rd, rs1, imm })),
            0b101 => Some(System::CSRRWI(CSRRWI { rd, rs1, imm })),
            0b110 => Some(System::CSRRSI(CSRRSI { rd, rs1, imm })),
            0b111 => Some(System::CSRRCI(CSRRCI { rd, rs1, imm })),
            _ => None,
        }
    }

    pub open spec fn spec_funct3(self) -> u32 {
        match self {
            System::ECALL(_) => 0b000,
            System::EBREAK(_) => 0b000,
            System::CSRRW(_) => 0b001,
            System::CSRRS(_) => 0b010,
            System::CSRRC(_) => 0b011,
            System::CSRRWI(_) => 0b101,
            System::CSRRSI(_) => 0b110,
            System::CSRRCI(_) => 0b111,
        }
    }

    pub open spec fn spec_to_format(self) -> IFormat {
        IFormat {
            op: 0b1110011,
            rd: self.spec_rd(),
            funct3: self.spec_funct3(),
            rs1: self.spec_rs1(),
            imm: self.spec_imm(),
        }
    }

    pub open spec fn spec_encode(self) -> u32 {
        self.spec_to_format().spec_encode()
    }

    /// Encodes the system operation back to a 32-bit word. ECALL and EBREAK
    /// do not own the rs1 field and encode it as zero.
    pub fn encode(self) -> (r: u32)
        requires
            self.wf(),
        ensures
            r == self.spec_encode(),
    {
        let (rd, rs1, imm, funct3) = match self {
            System::ECALL(v) => (v.rd, 0, 0, 0b000),
            System::EBREAK(v) => (v.rd, 0, 1, 0b000),
            System::CSRRW(v) => (v.rd, v.rs1, v.imm, 0b001),
            System::CSRRS(v) => (v.rd, v.rs1, v.imm, 0b010),
            System::CSRRC(v) => (v.rd, v.rs1, v.imm, 0b011),
            System::CSRRWI(v) => (v.rd, v.rs1, v.imm, 0b101),
            System::CSRRSI(v) => (v.rd, v.rs1, v.imm, 0b110),
            System::CSRRCI(v) => (v.rd, v.rs1, v.imm, 0b111),
        };
        let f = IFormat { op: 0b1110011, rd, funct3, rs1, imm };
        f.encode()
    }

    /// How executing the system operation relates the machine states. ECALL
    /// and EBREAK raise their exceptions without touching anything; a CSR
    /// instruction on a mapped address writes the combined value to the CSR
    /// and the old value to rd; on an unmapped address it raises Illegal
    /// Instruction and changes nothing.
    pub open spec fn exec_rel(pre: MCU, i: System, post: MCU, r: Result<
        u32,
        ExceptionInterrupt,
    >) -> bool {
        match i {
            System::ECALL(_) => post == pre && r == Err::<u32, ExceptionInterrupt>(
                ExceptionInterrupt::Exception(Exception::MEnvironmentCall),
            ),
            System::EBREAK(_) => post == pre && r == Err::<u32, ExceptionInterrupt>(
                ExceptionInterrupt::Exception(Exception::Breakpoint),
            ),
            _ => exec_frame(pre, post) && post.cpu.pc == pre.cpu.pc && post.cpu.wfi
                == pre.cpu.wfi && (match spec_csr_index(i.spec_imm()) {
                Some(ci) => {
                    let t = pre.cpu.csrs()[ci];
                    r == Ok::<u32, ExceptionInterrupt>(1) && post.cpu.csrs()
                        == pre.cpu.csrs().update(ci, i.spec_new_csr(t, pre.cpu.regs()))
                        && post.cpu.regs() == reg_update(pre.cpu.regs(), i.spec_rd(), t)
                },
                None => r == Err::<u32, ExceptionInterrupt>(
                    ExceptionInterrupt::Exception(Exception::IllegalInstruction),
                ) && post.cpu.csrs() == pre.cpu.csrs() && post.cpu.regs() == pre.cpu.regs(),
            }),
        }
    }

    /// Performs the system operation. CSR instructions cost one cycle.
    pub fn execute(&self, mcu: &mut MCU) -> (r: Result<u32, ExceptionInterrupt>)
        requires
            old(mcu).wf(),
            self.regs_ok(),
        ensures
            final(mcu).wf(),
            System::exec_rel(*old(mcu), *self, *final(mcu), r),
    {
        let (rd, rs1, imm) = match self {
            System::ECALL(_) => {
                return Err(ExceptionInterrupt::Exception(Exception::MEnvironmentCall));
            },
            System::EBREAK(_) => {
                return Err(ExceptionInterrupt::Exception(Exception::Breakpoint));
            },
            System::CSRRW(v) => (v.rd, v.rs1, v.imm),
            System::CSRRS(v) => (v.rd, v.rs1, v.imm),
            System::CSRRC(v) => (v.rd, v.rs1, v.imm),
            System::CSRRWI(v) => (v.rd, v.rs1, v.imm),
            System::CSRRSI(v) => (v.rd, v.rs1, v.imm),
            System::CSRRCI(v) => (v.rd, v.rs1, v.imm),
        };
        let t = match mcu.cpu.get_csr(imm) {
            Ok(v) => v,
            Err(e) => {
                return Err(ExceptionInterrupt::Exception(e));
            },
        };
        let a = mcu.cpu.get_x(rs1);
        let new_value = match self {
            System::CSRRW(_) => a,
            System::CSRRS(_) => a | t,
            System::CSRRC(_) => t & !a,
            System::CSRRWI(_) => rs1,
            System::CSRRSI(_) => t | rs1,
            System::CSRRCI(_) => t & !rs1,
            _ => t,
        };
        let _ = mcu.cpu.set_csr(imm, new_value);
        mcu.cpu.set_x(rd, t);
        proof {
            MCU::lemma_wf_same_devices(*old(mcu), *mcu);
        }
        Ok(1)
    }
}

} // verus!
