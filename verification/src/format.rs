//! The six RV32I instruction formats (R, I, S, B, U, J): bit-field
//! decompositions of a 32-bit word.
//!
//! Every format decodes from a word by fixed masks and shifts, never fails,
//! and encodes back to the word it came from: decode and encode are exact
//! inverses over the whole 32-bit space, which the lemmas at the end state.

use vstd::prelude::*;

verus! {

/// The opcode: the low 7 bits of an instruction word.
pub open spec fn spec_opcode(v: u32) -> u32 {
    v & 0x7f
}

/// Extracts the opcode field (bits 0..=6) of an instruction word.
pub fn opcode(v: u32) -> (r: u32)
    ensures
        r == spec_opcode(v),
{
    v & 0x7f
}

/// Register-register format: rd, rs1, rs2, funct3, funct7.
#[derive(Debug, Clone, Copy, PartialEq, Eq, Structural)]
pub struct RFormat {
    pub op: u32,
    pub rd: u32,
    pub funct3: u32,
    pub rs1: u32,
    pub rs2: u32,
    pub funct7: u32,
}

impl RFormat {
    /// Every field holds no more bits than its slot in the word.
    pub open spec fn wf(self) -> bool {
        self.op < 0x80 && self.rd < 0x20 && self.funct3 < 0x8 && self.rs1 < 0x20
            && self.rs2 < 0x20 && self.funct7 < 0x80
    }

    pub open spec fn spec_decode(v: u32) -> RFormat {
        RFormat {
            op: v & 0x7f,
            rd: (v >> 7) & 0x1f,
            funct3: (v >> 12) & 0x7,
            rs1: (v >> 15) & 0x1f,
            rs2: (v >> 20) & 0x1f,
            funct7: (v >> 25) & 0x7f,
        }
    }

    pub open spec fn spec_encode(self) -> u32 {
        self.op | (self.rd << 7) | (self.funct3 << 12) | (self.rs1 << 15) | (self.rs2 << 20)
            | (self.funct7 << 25)
    }

    /// Splits a word into the R-format fields.
    pub fn decode(v: u32) -> (r: RFormat)
        ensures
            r == RFormat::spec_decode(v),
            r.wf(),
    {
        proof {
            lemma_field_ranges(v);
        }
        RFormat {
            op: v & 0x7f,
            rd: (v >> 7) & 0x1f,
            funct3: (v >> 12) & 0x7,
            rs1: (v >> 15) & 0x1f,
            rs2: (v >> 20) & 0x1f,
            funct7: (v >> 25) & 0x7f,
        }
    }

    /// Reassembles the word from the fields.
    pub fn encode(self) -> (r: u32)
        requires
            self.wf(),
        ensures
            r == self.spec_encode(),
    {
        self.op | (self.rd << 7) | (self.funct3 << 12) | (self.rs1 << 15) | (self.rs2 << 20)
            | (self.funct7 << 25)
    }
}

/// Register-immediate format: rd, rs1 and a 12-bit immediate.
#[derive(Debug, Clone, Copy, PartialEq, Eq, Structural)]
pub struct IFormat {
    pub op: u32,
    pub rd: u32,
    pub funct3: u32,
    pub rs1: u32,
    pub imm: u32,
}

impl IFormat {
    pub open spec fn wf(self) -> bool {
        self.op < 0x80 && self.rd < 0x20 && self.funct3 < 0x8 && self.rs1 < 0x20
            && self.imm < 0x1000
    }

    pub open spec fn spec_decode(v: u32) -> IFormat {
        IFormat {
            op: v & 0x7f,
            rd: (v >> 7) & 0x1f,
            funct3: (v >> 12) & 0x7,
            rs1: (v >> 15) & 0x1f,
            imm: (v >> 20) & 0xfff,
        }
    }

    pub open spec fn spec_encode(self) -> u32 {
        self.op | (self.rd << 7) | (self.funct3 << 12) | (self.rs1 << 15) | (self.imm << 20)
    }

    pub fn decode(v: u32) -> (r: IFormat)
        ensures
            r == IFormat::spec_decode(v),
            r.wf(),
    {
        proof {
            lemma_field_ranges(v);
        }
        IFormat {
            op: v & 0x7f,
            rd: (v >> 7) & 0x1f,
            funct3: (v >> 12) & 0x7,
            rs1: (v >> 15) & 0x1f,
            imm: (v >> 20) & 0xfff,
        }
    }

    pub fn encode(self) -> (r: u32)
        requires
            self.wf(),
        ensures
            r == self.spec_encode(),
    {
        self.op | (self.rd << 7) | (self.funct3 << 12) | (self.rs1 << 15) | (self.imm << 20)
    }
}

/// Store format: rs1, rs2 and an immediate split in two slices.
#[derive(Debug, Clone, Copy, PartialEq, Eq, Structural)]
pub struct SFormat {
    pub op: u32,
    pub imm0: u32,
    pub funct3: u32,
    pub rs1: u32,
    pub rs2: u32,
    pub imm1: u32,
}

impl SFormat {
    pub open spec fn wf(self) -> bool {
        self.op < 0x80 && self.imm0 < 0x20 && self.funct3 < 0x8 && self.rs1 < 0x20
            && self.rs2 < 0x20 && self.imm1 < 0x80
    }

    pub open spec fn spec_decode(v: u32) -> SFormat {
        SFormat {
            op: v & 0x7f,
            imm0: (v >> 7) & 0x1f,
            funct3: (v >> 12) & 0x7,
            rs1: (v >> 15) & 0x1f,
            rs2: (v >> 20) & 0x1f,
            imm1: (v >> 25) & 0x7f,
        }
    }

    pub open spec fn spec_encode(self) -> u32 {
        self.op | (self.imm0 << 7) | (self.funct3 << 12) | (self.rs1 << 15) | (self.rs2 << 20)
            | (self.imm1 << 25)
    }

    pub fn decode(v: u32) -> (r: SFormat)
        ensures
            r == SFormat::spec_decode(v),
            r.wf(),
    {
        proof {
            lemma_field_ranges(v);
        }
        SFormat {
            op: v & 0x7f,
            imm0: (v >> 7) & 0x1f,
            funct3: (v >> 12) & 0x7,
            rs1: (v >> 15) & 0x1f,
            rs2: (v >> 20) & 0x1f,
            imm1: (v >> 25) & 0x7f,
        }
    }

    pub fn encode(self) -> (r: u32)
        requires
            self.wf(),
        ensures
            r == self.spec_encode(),
    {
        self.op | (self.imm0 << 7) | (self.funct3 << 12) | (self.rs1 << 15) | (self.rs2 << 20)
            | (self.imm1 << 25)
    }
}

/// Branch format: rs1, rs2 and an immediate split in four slices.
#[derive(Debug, Clone, Copy, PartialEq, Eq, Structural)]
pub struct BFormat {
    pub op: u32,
    pub imm0: u32,
    pub imm1: u32,
    pub funct3: u32,
    pub rs1: u32,
    pub rs2: u32,
    pub imm2: u32,
    pub imm3: u32,
}

impl BFormat {
    pub open spec fn wf(self) -> bool {
        self.op < 0x80 && self.imm0 < 0x2 && self.imm1 < 0x10 && self.funct3 < 0x8
            && self.rs1 < 0x20 && self.rs2 < 0x20 && self.imm2 < 0x40 && self.imm3 < 0x2
    }

    pub open spec fn spec_decode(v: u32) -> BFormat {
        BFormat {
            op: v & 0x7f,
            imm0: (v >> 7) & 0x1,
            imm1: (v >> 8) & 0xf,
            funct3: (v >> 12) & 0x7,
            rs1: (v >> 15) & 0x1f,
            rs2: (v >> 20) & 0x1f,
            imm2: (v >> 25) & 0x3f,
            imm3: (v >> 31) & 0x1,
        }
    }

    pub open spec fn spec_encode(self) -> u32 {
        self.op | (self.imm0 << 7) | (self.imm1 << 8) | (self.funct3 << 12) | (self.rs1 << 15)
            | (self.rs2 << 20) | (self.imm2 << 25) | (self.imm3 << 31)
    }

    pub fn decode(v: u32) -> (r: BFormat)
        ensures
            r == BFormat::spec_decode(v),
            r.wf(),
    {
        proof {
            lemma_field_ranges(v);
        }
        BFormat {
            op: v & 0x7f,
            imm0: (v >> 7) & 0x1,
            imm1: (v >> 8) & 0xf,
            funct3: (v >> 12) & 0x7,
            rs1: (v >> 15) & 0x1f,
            rs2: (v >> 20) & 0x1f,
            imm2: (v >> 25) & 0x3f,
            imm3: (v >> 31) & 0x1,
        }
    }

    pub fn encode(self) -> (r: u32)
        requires
            self.wf(),
        ensures
            r == self.spec_encode(),
    {
        self.op | (self.imm0 << 7) | (self.imm1 << 8) | (self.funct3 << 12) | (self.rs1 << 15)
            | (self.rs2 << 20) | (self.imm2 << 25) | (self.imm3 << 31)
    }
}

/// Upper-immediate format: rd and a 20-bit immediate.
#[derive(Debug, Clone, Copy, PartialEq, Eq, Structural)]
pub struct UFormat {
    pub op: u32,
    pub rd: u32,
    pub imm: u32,
}

impl UFormat {
    pub open spec fn wf(self) -> bool {
        self.op < 0x80 && self.rd < 0x20 && self.imm < 0x10_0000
    }

    pub open spec fn spec_decode(v: u32) -> UFormat {
        UFormat { op: v & 0x7f, rd: (v >> 7) & 0x1f, imm: (v >> 12) & 0xf_ffff }
    }

    pub open spec fn spec_encode(self) -> u32 {
        self.op | (self.rd << 7) | (self.imm << 12)
    }

    pub fn decode(v: u32) -> (r: UFormat)
        ensures
            r == UFormat::spec_decode(v),
            r.wf(),
    {
        proof {
            lemma_field_ranges(v);
        }
        UFormat { op: v & 0x7f, rd: (v >> 7) & 0x1f, imm: (v >> 12) & 0xf_ffff }
    }

    pub fn encode(self) -> (r: u32)
        requires
            self.wf(),
        ensures
            r == self.spec_encode(),
    {
        self.op | (self.rd << 7) | (self.imm << 12)
    }
}

/// Jump format: rd and an immediate split in four slices.
#[derive(Debug, Clone, Copy, PartialEq, Eq, Structural)]
pub struct JFormat {
    pub op: u32,
    pub rd: u32,
    pub imm0: u32,
    pub imm1: u32,
    pub imm2: u32,
    pub imm3: u32,
}

impl JFormat {
    pub open spec fn wf(self) -> bool {
        self.op < 0x80 && self.rd < 0x20 && self.imm0 < 0x100 && self.imm1 < 0x2
            && self.imm2 < 0x400 && self.imm3 < 0x2
    }

    pub open spec fn spec_decode(v: u32) -> JFormat {
        JFormat {
            op: v & 0x7f,
            rd: (v >> 7) & 0x1f,
            imm0: (v >> 12) & 0xff,
            imm1: (v >> 20) & 0x1,
            imm2: (v >> 21) & 0x3ff,
            imm3: (v >> 31) & 0x1,
        }
    }

    pub open spec fn spec_encode(self) -> u32 {
        self.op | (self.rd << 7) | (self.imm0 << 12) | (self.imm1 << 20) | (self.imm2 << 21)
            | (self.imm3 << 31)
    }

    pub fn decode(v: u32) -> (r: JFormat)
        ensures
            r == JFormat::spec_decode(v),
            r.wf(),
    {
        proof {
            lemma_field_ranges(v);
        }
        JFormat {
            op: v & 0x7f,
            rd: (v >> 7) & 0x1f,
            imm0: (v >> 12) & 0xff,
            imm1: (v >> 20) & 0x1,
            imm2: (v >> 21) & 0x3ff,
            imm3: (v >> 31) & 0x1,
        }
    }

    pub fn encode(self) -> (r: u32)
        requires
            self.wf(),
        ensures
            r == self.spec_encode(),
    {
        self.op | (self.rd << 7) | (self.imm0 << 12) | (self.imm1 << 20) | (self.imm2 << 21)
            | (self.imm3 << 31)
    }
}

/// Every field a format extracts from a word is below the bound of its slot.
pub proof fn lemma_field_ranges(v: u32)
    ensures
        v & 0x7f < 0x80,
        (v >> 7) & 0x1f < 0x20,
        (v >> 7) & 0x1 < 0x2,
        (v >> 8) & 0xf < 0x10,
        (v >> 12) & 0x7 < 0x8,
        (v >> 12) & 0xff < 0x100,
        (v >> 12) & 0xf_ffff < 0x10_0000,
        (v >> 15) & 0x1f < 0x20,
        (v >> 20) & 0x1f < 0x20,
        (v >> 20) & 0xfff < 0x1000,
        (v >> 20) & 0x1 < 0x2,
        (v >> 21) & 0x3ff < 0x400,
        (v >> 25) & 0x7f < 0x80,
        (v >> 25) & 0x3f < 0x40,
        (v >> 31) & 0x1 < 0x2,
{
    assert(v & 0x7f < 0x80 && (v >> 7) & 0x1f < 0x20 && (v >> 7) & 0x1 < 0x2 && (v >> 8) & 0xf
        < 0x10 && (v >> 12) & 0x7 < 0x8 && (v >> 12) & 0xff < 0x100 && (v >> 12) & 0xf_ffff
        < 0x10_0000 && (v >> 15) & 0x1f < 0x20 && (v >> 20) & 0x1f < 0x20 && (v >> 20) & 0xfff
        < 0x1000 && (v >> 20) & 0x1 < 0x2 && (v >> 21) & 0x3ff < 0x400 && (v >> 25) & 0x7f < 0x80
        && (v >> 25) & 0x3f < 0x40 && (v >> 31) & 0x1 < 0x2) by (bit_vector);
}

/// Decoding a word into R-format fields and encoding them again gives the
/// word back: the format owns all 32 bits.
pub proof fn lemma_r_decode_encode(v: u32)
    ensures
        RFormat::spec_decode(v).spec_encode() == v,
{
    assert((v & 0x7f) | (((v >> 7) & 0x1f) << 7) | (((v >> 12) & 0x7) << 12) | (((v >> 15) & 0x1f)
        << 15) | (((v >> 20) & 0x1f) << 20) | (((v >> 25) & 0x7f) << 25) == v) by (bit_vector);
}

/// Decode then encode is the identity for the I format.
pub proof fn lemma_i_decode_encode(v: u32)
    ensures
        IFormat::spec_decode(v).spec_encode() == v,
{
    assert((v & 0x7f) | (((v >> 7) & 0x1f) << 7) | (((v >> 12) & 0x7) << 12) | (((v >> 15) & 0x1f)
        << 15) | (((v >> 20) & 0xfff) << 20) == v) by (bit_vector);
}

/// Decode then encode is the identity for the S format.
pub proof fn lemma_s_decode_encode(v: u32)
    ensures
        SFormat::spec_decode(v).spec_encode() == v,
{
    assert((v & 0x7f) | (((v >> 7) & 0x1f) << 7) | (((v >> 12) & 0x7) << 12) | (((v >> 15) & 0x1f)
        << 15) | (((v >> 20) & 0x1f) << 20) | (((v >> 25) & 0x7f) << 25) == v) by (bit_vector);
}

/// Decode then encode is the identity for the B format.
pub proof fn lemma_b_decode_encode(v: u32)
    ensures
        BFormat::spec_decode(v).spec_encode() == v,
{
    assert((v & 0x7f) | (((v >> 7) & 0x1) << 7) | (((v >> 8) & 0xf) << 8) | (((v >> 12) & 0x7)
        << 12) | (((v >> 15) & 0x1f) << 15) | (((v >> 20) & 0x1f) << 20) | (((v >> 25) & 0x3f)
        << 25) | (((v >> 31) & 0x1) << 31) == v) by (bit_vector);
}

/// Decode then encode is the identity for the U format.
pub proof fn lemma_u_decode_encode(v: u32)
    ensures
        UFormat::spec_decode(v).spec_encode() == v,
{
    assert((v & 0x7f) | (((v >> 7) & 0x1f) << 7) | (((v >> 12) & 0xf_ffff) << 12) == v)
        by (bit_vector);
}

/// Decode then encode is the identity for the J format.
pub proof fn lemma_j_decode_encode(v: u32)
    ensures
        JFormat::spec_decode(v).spec_encode() == v,
{
    assert((v & 0x7f) | (((v >> 7) & 0x1f) << 7) | (((v >> 12) & 0xff) << 12) | (((v >> 20) & 0x1)
        << 20) | (((v >> 21) & 0x3ff) << 21) | (((v >> 31) & 0x1) << 31) == v) by (bit_vector);
}

} // verus!
