//! The store family: SB, SH, SW. The address is rs1 plus the sign-extended
//! 12-bit offset; a bus fault becomes Store Access Fault.

use vstd::prelude::*;

use crate::exceptions::{Exception, ExceptionInterrupt};
use crate::format::SFormat;
use crate::instructions::{
    lemma_offset_slice_ranges, lemma_s_offset_split, s_offset, spec_s_offset, wadd,
};
use crate::mcu::MCU;
use crate::memory::MemoryError;
use crate::peripherals::Peripheral;
use crate::utils::{sext, sext_bits};

verus! {

#[derive(Debug, Clone, Copy, PartialEq, Eq, Structural)]
pub struct SB {
    pub rs1: u32,
    pub rs2: u32,
    pub offset: u32,
}

#[derive(Debug, Clone, Copy, PartialEq, Eq, Structural)]
pub struct SH {
    pub rs1: u32,
    pub rs2: u32,
    pub offset: u32,
}

#[derive(Debug, Clone, Copy, PartialEq, Eq, Structural)]
pub struct SW {
    pub rs1: u32,
    pub rs2: u32,
    pub offset: u32,
}

/// The store operations, all in S format under opcode 0b0100011.
#[derive(Debug, Clone, Copy, PartialEq, Eq, Structural)]
pub enum Store {
    SB(SB),
    SH(SH),
    SW(SW),
}

impl Store {
    pub open spec fn spec_rs1(self) -> u32 {
        match self {
            Store::SB(v) => v.rs1,
            Store::SH(v) => v.rs1,
            Store::SW(v) => v.rs1,
        }
    }

    pub open spec fn spec_rs2(self) -> u32 {
        match self {
            Store::SB(v) => v.rs2,
            Store::SH(v) => v.rs2,
            Store::SW(v) => v.rs2,
        }
    }

    pub open spec fn spec_offset(self) -> u32 {
        match self {
            Store::SB(v) => v.offset,
            Store::SH(v) => v.offset,
            Store::SW(v) => v.offset,
        }
    }

    pub open spec fn regs_ok(self) -> bool {
        self.spec_rs1() < 32 && self.spec_rs2() < 32
    }

    pub open spec fn wf(self) -> bool {
        self.regs_ok() && self.spec_offset() < 0x1000
    }

    /// The effective address: rs1 plus the sign-extended offset, wrapping.
    pub open spec fn spec_addr(self, regs: Seq<u32>) -> u32 {
        wadd(regs[self.spec_rs1() as int], sext_bits(self.spec_offset(), 12))
    }

    pub open spec fn spec_decode(f: SFormat) -> Option<Store> {
        let rs1 = f.rs1;
        let rs2 = f.rs2;
        let offset = spec_s_offset(f);
        if f.funct3 == 0b000 {
            Some(Store::SB(SB { rs1, rs2, offset }))
        } else if f.funct3 == 0b001 {
            Some(Store::SH(SH { rs1, rs2, offset }))
        } else if f.funct3 == 0b010 {
            Some(Store::SW(SW { rs1, rs2, offset }))
        } else {
            None
        }
    }

    /// Selects the store variant from the S-format fields.
    pub fn decode(f: SFormat) -> (r: Option<Store>)
        ensures
            r == Store::spec_decode(f),
            f.wf() ==> (r matches Some(v) ==> v.wf()),
    {
        proof {
            if f.wf() {
                lemma_s_offset_split(f.imm0, f.imm1);
            }
        }
        let rs1 = f.rs1;
        let rs2 = f.rs2;
        let offset = s_offset(f);
        match f.funct3 {
            0b000 => Some(Store::SB(SB { rs1, rs2, offset })),
            0b001 => Some(Store::SH(SH { rs1, rs2, offset })),
            0b010 => Some(Store::SW(SW { rs1, rs2, offset })),
            _ => None,
        }
    }

    pub open spec fn spec_funct3(self) -> u32 {
        match self {
            Store::SB(_) => 0b000,
            Store::SH(_) => 0b001,
            Store::SW(_) => 0b010,
        }
    }

    pub open spec fn spec_to_format(self) -> SFormat {
        SFormat {
            op: 0b0100011,
            imm0: self.spec_offset() & 0x1f,
            funct3: self.spec_funct3(),
            rs1: self.spec_rs1(),
            rs2: self.spec_rs2(),
            imm1: self.spec_offset() >> 5 & 0x7f,
        }
    }

    pub open spec fn spec_encode(self) -> u32 {
        self.spec_to_format().spec_encode()
    }

    /// Encodes the store back to a 32-bit word.
    pub fn encode(self) -> (r: u32)
        requires
            self.wf(),
        ensures
            r == self.spec_encode(),
    {
        let (rs1, rs2, offset, funct3) = match self {
            Store::SB(v) => (v.rs1, v.rs2, v.offset, 0b000),
            Store::SH(v) => (v.rs1, v.rs2, v.offset, 0b001),
            Store::SW(v) => (v.rs1, v.rs2, v.offset, 0b010),
        };
        proof {
            lemma_offset_slice_ranges(offset);
        }
        let f = SFormat {
            op: 0b0100011,
            imm0: offset & 0x1f,
            funct3,
            rs1,
            rs2,
            imm1: offset >> 5 & 0x7f,
        };
        f.encode()
    }

    /// How executing the store relates the machine states: the low byte,
    /// halfword or word of rs2 goes to the bus; a fault becomes Store
    /// Access Fault. The CPU registers never change.
    pub open spec fn exec_rel(pre: MCU, i: Store, post: MCU, r: Result<
        u32,
        ExceptionInterrupt,
    >) -> bool {
        let addr = i.spec_addr(pre.cpu.regs());
        let value = pre.cpu.regs()[i.spec_rs2() as int];
        post.cpu == pre.cpu && post.int_ctrl == pre.int_ctrl && post.mmu == pre.mmu && (
        match pre.spec_route(addr) {
            None => r == Err::<u32, ExceptionInterrupt>(
                ExceptionInterrupt::Exception(Exception::StoreAccessFault),
            ) && post.devices@ == pre.devices@,
            Some(m) => MCU::routed_access(pre, post, m) && pre.same_device_map_shape(post) && (
            match i {
                Store::SB(_) => exists|inner: Result<(), MemoryError>|
                    #[trigger] Peripheral::wb_rel(
                        pre.devices@[pre.device_index_of(m.identifier)].1,
                        post.devices@[pre.device_index_of(m.identifier)].1,
                        (addr - m.mem_start) as u32,
                        value as u8,
                        inner,
                    ) && (inner is Ok ==> r == Ok::<u32, ExceptionInterrupt>(1)) && (inner is Err
                        ==> r == Err::<u32, ExceptionInterrupt>(
                        ExceptionInterrupt::Exception(Exception::StoreAccessFault),
                    )),
                Store::SH(_) => exists|inner: Result<(), MemoryError>|
                    #[trigger] Peripheral::whw_rel(
                        pre.devices@[pre.device_index_of(m.identifier)].1,
                        post.devices@[pre.device_index_of(m.identifier)].1,
                        (addr - m.mem_start) as u32,
                        value as u16,
                        inner,
                    ) && (inner is Ok ==> r == Ok::<u32, ExceptionInterrupt>(1)) && (inner is Err
                        ==> r == Err::<u32, ExceptionInterrupt>(
                        ExceptionInterrupt::Exception(Exception::StoreAccessFault),
                    )),
                Store::SW(_) => exists|inner: Result<(), MemoryError>|
                    #[trigger] Peripheral::ww_rel(
                        pre.devices@[pre.device_index_of(m.identifier)].1,
                        post.devices@[pre.device_index_of(m.identifier)].1,
                        (addr - m.mem_start) as u32,
                        value,
                        inner,
                    ) && (inner is Ok ==> r == Ok::<u32, ExceptionInterrupt>(1)) && (inner is Err
                        ==> r == Err::<u32, ExceptionInterrupt>(
                        ExceptionInterrupt::Exception(Exception::StoreAccessFault),
                    )),
            }),
        })
    }

    /// Writes rs2 to the bus at the effective address. Costs one cycle.
    pub fn execute(&self, mcu: &mut MCU) -> (r: Result<u32, ExceptionInterrupt>)
        requires
            old(mcu).wf(),
            self.regs_ok(),
        ensures
            final(mcu).wf(),
            Store::exec_rel(*old(mcu), *self, *final(mcu), r),
    {
        let (rs1, rs2, offset) = match self {
            Store::SB(v) => (v.rs1, v.rs2, v.offset),
            Store::SH(v) => (v.rs1, v.rs2, v.offset),
            Store::SW(v) => (v.rs1, v.rs2, v.offset),
        };
        let off = sext(offset, 12, 32);
        let addr = mcu.cpu.get_x(rs1).wrapping_add(off);
        let value = mcu.cpu.get_x(rs2);
        let res = match self {
            Store::SB(_) => mcu.wb(addr, #[verifier::truncate] (value as u8)),
            Store::SH(_) => mcu.whw(addr, #[verifier::truncate] (value as u16)),
            Store::SW(_) => mcu.ww(addr, value),
        };
        match res {
            Ok(_) => Ok(1),
            Err(_) => Err(ExceptionInterrupt::Exception(Exception::StoreAccessFault)),
        }
    }
}

} // verus!
