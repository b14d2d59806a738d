//! The memory-ordering hints FENCE and FENCE.I: no-ops with zero cost in
//! this single-hart model.

use vstd::prelude::*;

use crate::exceptions::ExceptionInterrupt;
use crate::format::IFormat;
use crate::mcu::MCU;

verus! {

#[derive(Debug, Clone, Copy, PartialEq, Eq, Structural)]
pub struct FENCE {
    pub rd: u32,
    pub rs1: u32,
    pub imm: u32,
}

#[derive(Debug, Clone, Copy, PartialEq, Eq, Structural)]
pub struct FENCEI {
    pub rd: u32,
    pub rs1: u32,
    pub imm: u32,
}

/// The fence operations, in I format under opcode 0b0001111.
#[derive(Debug, Clone, Copy, PartialEq, Eq, Structural)]
pub enum MiscMem {
    FENCE(FENCE),
    FENCEI(FENCEI),
}

impl MiscMem {
    pub open spec fn spec_rd(self) -> u32 {
        match self {
            MiscMem::FENCE(v) => v.rd,
            MiscMem::FENCEI(v) => v.rd,
        }
    }

    pub open spec fn spec_rs1(self) -> u32 {
        match self {
            MiscMem::FENCE(v) => v.rs1,
            MiscMem::FENCEI(v) => v.rs1,
        }
    }

    pub open spec fn spec_imm(self) -> u32 {
        match self {
            MiscMem::FENCE(v) => v.imm,
            MiscMem::FENCEI(v) => v.imm,
        }
    }

    pub open spec fn wf(self) -> bool {
        self.spec_rd() < 32 && self.spec_rs1() < 32 && self.spec_imm() < 0x1000
    }

    pub open spec fn spec_decode(f: IFormat) -> Option<MiscMem> {
        let rd = f.rd;
        let rs1 = f.rs1;
        let imm = f.imm;
        if f.funct3 == 0 {
            Some(MiscMem::FENCE(FENCE { rd, rs1, imm }))
        } else if f.funct3 == 1 {
            Some(MiscMem::FENCEI(FENCEI { rd, rs1, imm }))
        } else {
            None
        }
    }

    /// Selects the fence variant from the I-format fields.
    pub fn decode(f: IFormat) -> (r: Option<MiscMem>)
        ensures
            r == MiscMem::spec_decode(f),
            f.wf() ==> (r matches Some(v) ==> v.wf()),
    {
        let rd = f.rd;
        let rs1 = f.rs1;
        let imm = f.imm;
        match f.funct3 {
            0 => Some(MiscMem::FENCE(FENCE { rd, rs1, imm })),
            1 => Some(MiscMem::FENCEI(FENCEI { rd, rs1, imm })),
            _ => None,
        }
    }

    pub open spec fn spec_funct3(self) -> u32 {
        match self {
            MiscMem::FENCE(_) => 0,
            MiscMem::FENCEI(_) => 1,
        }
    }

    pub open spec fn spec_to_format(self) -> IFormat {
        IFormat {
            op: 0b0001111,
            rd: self.spec_rd(),
            funct3: self.spec_funct3(),
            rs1: self.spec_rs1(),
            imm: self.spec_imm(),
        }
    }

    pub open spec fn spec_encode(self) -> u32 {
        self.spec_to_format().spec_encode()
    }

    /// Encodes the fence back to a 32-bit word.
    pub fn encode(self) -> (r: u32)
        requires
            self.wf(),
        ensures
            r == self.spec_encode(),
    {
        let (rd, rs1, imm, funct3) = match self {
            MiscMem::FENCE(v) => (v.rd, v.rs1, v.imm, 0),
            MiscMem::FENCEI(v) => (v.rd, v.rs1, v.imm, 1),
        };
        let f = IFormat { op: 0b0001111, rd, funct3, rs1, imm };
        f.encode()
    }

    /// Fences change nothing and cost nothing.
    pub open spec fn exec_rel(pre: MCU, i: MiscMem, post: MCU, r: Result<
        u32,
        ExceptionInterrupt,
    >) -> bool {
        post == pre && r == Ok::<u32, ExceptionInterrupt>(0)
    }

    /// A no-op with zero cost.
    pub fn execute(&self, mcu: &mut MCU) -> (r: Result<u32, ExceptionInterrupt>)
        requires
            old(mcu).wf(),
        ensures
            final(mcu).wf(),
            MiscMem::exec_rel(*old(mcu), *self, *final(mcu), r),
    {
        Ok(0)
    }
}

} // verus!
