//! The load family: LB, LBU, LH, LHU, LW, LWU. The address is rs1 plus the
//! sign-extended 12-bit immediate; a bus fault becomes Load Access Fault.

use vstd::prelude::*;

use crate::exceptions::{Exception, ExceptionInterrupt};
use crate::format::IFormat;
use crate::instructions::{reg_update, wadd};
use crate::mcu::MCU;
use crate::memory::MemoryError;
use crate::peripherals::Peripheral;
use crate::utils::{sext, sext_bits};

verus! {

#[derive(Debug, Clone, Copy, PartialEq, Eq, Structural)]
pub struct LB {
    pub rd: u32,
    pub rs1: u32,
    pub imm: u32,
}

#[derive(Debug, Clone, Copy, PartialEq, Eq, Structural)]
pub struct LBU {
    pub rd: u32,
    pub rs1: u32,
    pub imm: u32,
}

#[derive(Debug, Clone, Copy, PartialEq, Eq, Structural)]
pub struct LH {
    pub rd: u32,
    pub rs1: u32,
    pub imm: u32,
}

#[derive(Debug, Clone, Copy, PartialEq, Eq, Structural)]
pub struct LHU {
    pub rd: u32,
    pub rs1: u32,
    pub imm: u32,
}

#[derive(Debug, Clone, Copy, PartialEq, Eq, Structural)]
pub struct LW {
    pub rd: u32,
    pub rs1: u32,
    pub imm: u32,
}

#[derive(Debug, Clone, Copy, PartialEq, Eq, Structural)]
pub struct LWU {
    pub rd: u32,
    pub rs1: u32,
    pub imm: u32,
}

/// The load operations, all in I format under opcode 0b0000011.
#[derive(Debug, Clone, Copy, PartialEq, Eq, Structural)]
pub enum Load {
    LB(LB),
    LBU(LBU),
    LH(LH),
    LHU(LHU),
    LW(LW),
    LWU(LWU),
}

impl Load {
    pub open spec fn spec_rd(self) -> u32 {
        match self {
            Load::LB(v) => v.rd,
            Load::LBU(v) => v.rd,
            Load::LH(v) => v.rd,
            Load::LHU(v) => v.rd,
            Load::LW(v) => v.rd,
            Load::LWU(v) => v.rd,
        }
    }

    pub open spec fn spec_rs1(self) -> u32 {
        match self {
            Load::LB(v) => v.rs1,
            Load::LBU(v) => v.rs1,
            Load::LH(v) => v.rs1,
            Load::LHU(v) => v.rs1,
            Load::LW(v) => v.rs1,
            Load::LWU(v) => v.rs1,
        }
    }

    pub open spec fn spec_imm(self) -> u32 {
        match self {
            Load::LB(v) => v.imm,
            Load::LBU(v) => v.imm,
            Load::LH(v) => v.imm,
            Load::LHU(v) => v.imm,
            Load::LW(v) => v.imm,
            Load::LWU(v) => v.imm,
        }
    }

    pub open spec fn regs_ok(self) -> bool {
        self.spec_rd() < 32 && self.spec_rs1() < 32
    }

    pub open spec fn wf(self) -> bool {
        self.regs_ok() && self.spec_imm() < 0x1000
    }

    /// The effective address: rs1 plus the sign-extended immediate, wrapping.
    pub open spec fn spec_addr(self, regs: Seq<u32>) -> u32 {
        wadd(regs[self.spec_rs1() as int], sext_bits(self.spec_imm(), 12))
    }

    pub open spec fn spec_decode(f: IFormat) -> Option<Load> {
        let rd = f.rd;
        let rs1 = f.rs1;
        let imm = f.imm;
        if f.funct3 == 0b000 {
            Some(Load::LB(LB { rd, rs1, imm }))
        } else if f.funct3 == 0b100 {
            Some(Load::LBU(LBU { rd, rs1, imm }))
        } else if f.funct3 == 0b001 {
            Some(Load::LH(LH { rd, rs1, imm }))
        } else if f.funct3 == 0b101 {
            Some(Load::LHU(LHU { rd, rs1, imm }))
        } else if f.funct3 == 0b010 {
            Some(Load::LW(LW { rd, rs1, imm }))
        } else if f.funct3 == 0b110 {
            Some(Load::LWU(LWU { rd, rs1, imm }))
        } else {
            None
        }
    }

    /// Selects the load variant from the I-format fields.
    pub fn decode(f: IFormat) -> (r: Option<Load>)
        ensures
            r == Load::spec_decode(f),
            f.wf() ==> (r matches Some(v) ==> v.wf()),
    {
        let rd = f.rd;
        let rs1 = f.rs1;
        let imm = f.imm;
        match f.funct3 {
            0b000 => Some(Load::LB(LB { rd, rs1, imm })),
            0b100 => Some(Load::LBU(LBU { rd, rs1, imm })),
            0b001 => Some(Load::LH(LH { rd, rs1, imm })),
            0b101 => Some(Load::LHU(LHU { rd, rs1, imm })),
            0b010 => Some(Load::LW(LW { rd, rs1, imm })),
            0b110 => Some(Load::LWU(LWU { rd, rs1, imm })),
            _ => None,
        }
    }

    pub open spec fn spec_funct3(self) -> u32 {
        match self {
            Load::LB(_) => 0b000,
            Load::LBU(_) => 0b100,
            Load::LH(_) => 0b001,
            Load::LHU(_) => 0b101,
            Load::LW(_) => 0b010,
            Load::LWU(_) => 0b110,
        }
    }

    pub open spec fn spec_to_format(self) -> IFormat {
        IFormat {
            op: 0b0000011,
            rd: self.spec_rd(),
            funct3: self.spec_funct3(),
            rs1: self.spec_rs1(),
            imm: self.spec_imm(),
        }
    }

    pub open spec fn spec_encode(self) -> u32 {
        self.spec_to_format().spec_encode()
    }

    /// Encodes the load back to a 32-bit word.
    pub fn encode(self) -> (r: u32)
        requires
            self.wf(),
        ensures
            r == self.spec_encode(),
    {
        let (rd, rs1, imm, funct3) = match self {
            Load::LB(v) => (v.rd, v.rs1, v.imm, 0b000),
            Load::LBU(v) => (v.rd, v.rs1, v.imm, 0b100),
            Load::LH(v) => (v.rd, v.rs1, v.imm, 0b001),
            Load::LHU(v) => (v.rd, v.rs1, v.imm, 0b101),
            Load::LW(v) => (v.rd, v.rs1, v.imm, 0b010),
            Load::LWU(v) => (v.rd, v.rs1, v.imm, 0b110),
        };
        let f = IFormat { op: 0b0000011, rd, funct3, rs1, imm };
        f.encode()
    }

    /// How the loaded value, as handed back by the bus, extends into rd.
    pub open spec fn spec_extend(self, b: u32, hw: u32, w: u32) -> u32 {
        match self {
            Load::LB(_) => sext_bits(b, 8),
            Load::LBU(_) => b,
            Load::LH(_) => sext_bits(hw, 16),
            Load::LHU(_) => hw,
            Load::LW(_) => w,
            Load::LWU(_) => w,
        }
    }

    /// How executing the load relates the machine states. Byte and halfword
    /// loads have no device side effects; a word load can claim a PLIC
    /// source or pop a UART byte on the way. A bus fault becomes Load
    /// Access Fault and leaves the CPU alone.
    pub open spec fn exec_rel(pre: MCU, i: Load, post: MCU, r: Result<
        u32,
        ExceptionInterrupt,
    >) -> bool {
        let addr = i.spec_addr(pre.cpu.regs());
        post.cpu.pc == pre.cpu.pc && post.cpu.csrs() == pre.cpu.csrs() && post.cpu.wfi
            == pre.cpu.wfi && post.int_ctrl == pre.int_ctrl && post.mmu == pre.mmu && (match i {
            Load::LB(_) | Load::LBU(_) => post.devices@ == pre.devices@ && (match pre.spec_bus_rb(
                addr,
            ) {
                Ok(b) => r == Ok::<u32, ExceptionInterrupt>(1) && post.cpu.regs() == reg_update(
                    pre.cpu.regs(),
                    i.spec_rd(),
                    i.spec_extend(b as u32, 0, 0),
                ),
                Err(_) => r == Err::<u32, ExceptionInterrupt>(
                    ExceptionInterrupt::Exception(Exception::LoadAccessFault),
                ) && post.cpu.regs() == pre.cpu.regs(),
            }),
            Load::LH(_) | Load::LHU(_) => post.devices@ == pre.devices@ && (match pre.spec_bus_rhw(
                addr,
            ) {
                Ok(hw) => r == Ok::<u32, ExceptionInterrupt>(1) && post.cpu.regs() == reg_update(
                    pre.cpu.regs(),
                    i.spec_rd(),
                    i.spec_extend(0, hw as u32, 0),
                ),
                Err(_) => r == Err::<u32, ExceptionInterrupt>(
                    ExceptionInterrupt::Exception(Exception::LoadAccessFault),
                ) && post.cpu.regs() == pre.cpu.regs(),
            }),
            Load::LW(_) | Load::LWU(_) => (match pre.spec_route(addr) {
                None => r == Err::<u32, ExceptionInterrupt>(
                    ExceptionInterrupt::Exception(Exception::LoadAccessFault),
                ) && post.devices@ == pre.devices@ && post.cpu.regs() == pre.cpu.regs(),
                Some(m) => MCU::routed_access(pre, post, m) && pre.same_device_map_shape(post) && (
                exists|inner: Result<u32, MemoryError>|
                    #[trigger] Peripheral::rw_rel(
                        pre.devices@[pre.device_index_of(m.identifier)].1,
                        post.devices@[pre.device_index_of(m.identifier)].1,
                        (addr - m.mem_start) as u32,
                        inner,
                    ) && (match inner {
                        Ok(w) => r == Ok::<u32, ExceptionInterrupt>(1) && post.cpu.regs()
                            == reg_update(pre.cpu.regs(), i.spec_rd(), w),
                        Err(_) => r == Err::<u32, ExceptionInterrupt>(
                            ExceptionInterrupt::Exception(Exception::LoadAccessFault),
                        ) && post.cpu.regs() == pre.cpu.regs(),
                    })),
            }),
        })
    }

    /// Reads from the bus into rd, sign- or zero-extending as the variant
    /// asks. Costs one cycle.
    pub fn execute(&self, mcu: &mut MCU) -> (r: Result<u32, ExceptionInterrupt>)
        requires
            old(mcu).wf(),
            self.regs_ok(),
        ensures
            final(mcu).wf(),
            Load::exec_rel(*old(mcu), *self, *final(mcu), r),
    {
        let (rd, rs1, imm) = match self {
            Load::LB(v) => (v.rd, v.rs1, v.imm),
            Load::LBU(v) => (v.rd, v.rs1, v.imm),
            Load::LH(v) => (v.rd, v.rs1, v.imm),
            Load::LHU(v) => (v.rd, v.rs1, v.imm),
            Load::LW(v) => (v.rd, v.rs1, v.imm),
            Load::LWU(v) => (v.rd, v.rs1, v.imm),
        };
        let off = sext(imm, 12, 32);
        let addr = mcu.cpu.get_x(rs1).wrapping_add(off);
        let value = match self {
            Load::LB(_) => {
                match mcu.rb(addr) {
                    Ok(b) => sext(b as u32, 8, 32),
                    Err(_) => {
                        return Err(ExceptionInterrupt::Exception(Exception::LoadAccessFault));
                    },
                }
            },
            Load::LBU(_) => {
                match mcu.rb(addr) {
                    Ok(b) => b as u32,
                    Err(_) => {
                        return Err(ExceptionInterrupt::Exception(Exception::LoadAccessFault));
                    },
                }
            },
            Load::LH(_) => {
                match mcu.rhw(addr) {
                    Ok(hw) => sext(hw as u32, 16, 32),
                    Err(_) => {
                        return Err(ExceptionInterrupt::Exception(Exception::LoadAccessFault));
                    },
                }
            },
            Load::LHU(_) => {
                match mcu.rhw(addr) {
                    Ok(hw) => hw as u32,
                    Err(_) => {
                        return Err(ExceptionInterrupt::Exception(Exception::LoadAccessFault));
                    },
                }
            },
            Load::LW(_) | Load::LWU(_) => {
                let res = mcu.rw(addr);
                match res {
                    Ok(w) => w,
                    Err(_) => {
                        return Err(ExceptionInterrupt::Exception(Exception::LoadAccessFault));
                    },
                }
            },
        };
        let ghost mid = *mcu;
        mcu.cpu.set_x(rd, value);
        proof {
            MCU::lemma_wf_same_devices(mid, *mcu);
        }
        Ok(1)
    }
}

} // verus!
