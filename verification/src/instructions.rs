//! The typed instruction variants: one value type per mnemonic, each with a
//! bit-exact decode check against its format, an encode back to a 32-bit
//! word, and its execution semantics against the MCU.

pub mod branch;
pub mod immediate;
pub mod load;
pub mod miscmem;
pub mod op;
pub mod privileged;
pub mod rv32i;
pub mod store;
pub mod system;

use vstd::prelude::*;

use crate::format::{BFormat, JFormat, SFormat};

verus! {

/// Wrap-around 32-bit addition.
pub open spec fn wadd(a: u32, b: u32) -> u32 {
    if a + b > u32::MAX {
        (a + b - 0x1_0000_0000) as u32
    } else {
        (a + b) as u32
    }
}

/// Wrap-around 32-bit subtraction.
pub open spec fn wsub(a: u32, b: u32) -> u32 {
    if a - b < 0 {
        (a - b + 0x1_0000_0000) as u32
    } else {
        (a - b) as u32
    }
}

/// The register file after writing `v` to register `rd`: writes to x0 are
/// discarded.
pub open spec fn reg_update(regs: Seq<u32>, rd: u32, v: u32) -> Seq<u32> {
    if rd == 0 {
        regs
    } else {
        regs.update(rd as int, v)
    }
}

/// The branch immediate assembled from the four B-format slices: bit 11 from
/// imm0, bits 1..=4 from imm1, bits 5..=10 from imm2, bit 12 from imm3.
pub open spec fn spec_b_offset(f: BFormat) -> u32 {
    (f.imm0 << 11) | (f.imm1 << 1) | (f.imm2 << 5) | (f.imm3 << 12)
}

/// Assembles the branch immediate from the B-format slices.
pub fn b_offset(f: BFormat) -> (r: u32)
    ensures
        r == spec_b_offset(f),
{
    (f.imm0 << 11) | (f.imm1 << 1) | (f.imm2 << 5) | (f.imm3 << 12)
}

/// Splitting the assembled branch immediate recovers the B-format slices.
pub proof fn lemma_b_offset_split(imm0: u32, imm1: u32, imm2: u32, imm3: u32)
    requires
        imm0 < 0x2,
        imm1 < 0x10,
        imm2 < 0x40,
        imm3 < 0x2,
    ensures
        ((imm0 << 11) | (imm1 << 1) | (imm2 << 5) | (imm3 << 12)) >> 11 & 0x1 == imm0,
        ((imm0 << 11) | (imm1 << 1) | (imm2 << 5) | (imm3 << 12)) >> 1 & 0xf == imm1,
        ((imm0 << 11) | (imm1 << 1) | (imm2 << 5) | (imm3 << 12)) >> 5 & 0x3f == imm2,
        ((imm0 << 11) | (imm1 << 1) | (imm2 << 5) | (imm3 << 12)) >> 12 & 0x1 == imm3,
        ((imm0 << 11) | (imm1 << 1) | (imm2 << 5) | (imm3 << 12)) < 0x2000,
        ((imm0 << 11) | (imm1 << 1) | (imm2 << 5) | (imm3 << 12)) & 1 == 0,
{
    assert(imm0 < 0x2 && imm1 < 0x10 && imm2 < 0x40 && imm3 < 0x2 ==> ((imm0 << 11) | (imm1 << 1)
        | (imm2 << 5) | (imm3 << 12)) >> 11 & 0x1 == imm0 && ((imm0 << 11) | (imm1 << 1) | (imm2
        << 5) | (imm3 << 12)) >> 1 & 0xf == imm1 && ((imm0 << 11) | (imm1 << 1) | (imm2 << 5) | (
    imm3 << 12)) >> 5 & 0x3f == imm2 && ((imm0 << 11) | (imm1 << 1) | (imm2 << 5) | (imm3 << 12))
        >> 12 & 0x1 == imm3 && ((imm0 << 11) | (imm1 << 1) | (imm2 << 5) | (imm3 << 12)) < 0x2000
        && ((imm0 << 11) | (imm1 << 1) | (imm2 << 5) | (imm3 << 12)) & 1 == 0) by (bit_vector);
}

/// The jump immediate assembled from the four J-format slices: bits 12..=19
/// from imm0, bit 11 from imm1, bits 1..=10 from imm2, bit 20 from imm3.
pub open spec fn spec_j_offset(f: JFormat) -> u32 {
    (f.imm0 << 12) | (f.imm1 << 11) | (f.imm2 << 1) | (f.imm3 << 20)
}

/// Assembles the jump immediate from the J-format slices.
pub fn j_offset(f: JFormat) -> (r: u32)
    ensures
        r == spec_j_offset(f),
{
    (f.imm0 << 12) | (f.imm1 << 11) | (f.imm2 << 1) | (f.imm3 << 20)
}

/// Splitting the assembled jump immediate recovers the J-format slices.
pub proof fn lemma_j_offset_split(imm0: u32, imm1: u32, imm2: u32, imm3: u32)
    requires
        imm0 < 0x100,
        imm1 < 0x2,
        imm2 < 0x400,
        imm3 < 0x2,
    ensures
        ((imm0 << 12) | (imm1 << 11) | (imm2 << 1) | (imm3 << 20)) >> 12 & 0xff == imm0,
        ((imm0 << 12) | (imm1 << 11) | (imm2 << 1) | (imm3 << 20)) >> 11 & 0x1 == imm1,
        ((imm0 << 12) | (imm1 << 11) | (imm2 << 1) | (imm3 << 20)) >> 1 & 0x3ff == imm2,
        ((imm0 << 12) | (imm1 << 11) | (imm2 << 1) | (imm3 << 20)) >> 20 & 0x1 == imm3,
        ((imm0 << 12) | (imm1 << 11) | (imm2 << 1) | (imm3 << 20)) < 0x20_0000,
        ((imm0 << 12) | (imm1 << 11) | (imm2 << 1) | (imm3 << 20)) & 1 == 0,
{
    assert(imm0 < 0x100 && imm1 < 0x2 && imm2 < 0x400 && imm3 < 0x2 ==> ((imm0 << 12) | (imm1
        << 11) | (imm2 << 1) | (imm3 << 20)) >> 12 & 0xff == imm0 && ((imm0 << 12) | (imm1 << 11)
        | (imm2 << 1) | (imm3 << 20)) >> 11 & 0x1 == imm1 && ((imm0 << 12) | (imm1 << 11) | (imm2
        << 1) | (imm3 << 20)) >> 1 & 0x3ff == imm2 && ((imm0 << 12) | (imm1 << 11) | (imm2 << 1)
        | (imm3 << 20)) >> 20 & 0x1 == imm3 && ((imm0 << 12) | (imm1 << 11) | (imm2 << 1) | (imm3
        << 20)) < 0x20_0000 && ((imm0 << 12) | (imm1 << 11) | (imm2 << 1) | (imm3 << 20)) & 1 == 0)
        by (bit_vector);
}

/// The store immediate assembled from the two S-format slices: bits 0..=4
/// from imm0, bits 5..=11 from imm1.
pub open spec fn spec_s_offset(f: SFormat) -> u32 {
    f.imm0 | (f.imm1 << 5)
}

/// Assembles the store immediate from the S-format slices.
pub fn s_offset(f: SFormat) -> (r: u32)
    ensures
        r == spec_s_offset(f),
{
    f.imm0 | (f.imm1 << 5)
}

/// Splitting the assembled store immediate recovers the S-format slices.
pub proof fn lemma_s_offset_split(imm0: u32, imm1: u32)
    requires
        imm0 < 0x20,
        imm1 < 0x80,
    ensures
        (imm0 | (imm1 << 5)) & 0x1f == imm0,
        (imm0 | (imm1 << 5)) >> 5 & 0x7f == imm1,
        (imm0 | (imm1 << 5)) < 0x1000,
{
    assert(imm0 < 0x20 && imm1 < 0x80 ==> (imm0 | (imm1 << 5)) & 0x1f == imm0 && (imm0 | (imm1
        << 5)) >> 5 & 0x7f == imm1 && (imm0 | (imm1 << 5)) < 0x1000) by (bit_vector);
}

/// A value masked to the low five bits is a legal shift amount.
pub proof fn lemma_shamt_range(x: u32)
    ensures
        x & 0x1f < 32,
{
    assert(x & 0x1f < 32) by (bit_vector);
}

/// Each slice cut out of an assembled immediate fits its format slot.
pub proof fn lemma_offset_slice_ranges(v: u32)
    ensures
        v >> 11 & 0x1 < 0x2,
        v >> 1 & 0xf < 0x10,
        v >> 5 & 0x3f < 0x40,
        v >> 12 & 0x1 < 0x2,
        v >> 12 & 0xff < 0x100,
        v >> 1 & 0x3ff < 0x400,
        v >> 20 & 0x1 < 0x2,
        v & 0x1f < 0x20,
        v >> 5 & 0x7f < 0x80,
{
    assert(v >> 11 & 0x1 < 0x2 && v >> 1 & 0xf < 0x10 && v >> 5 & 0x3f < 0x40 && v >> 12 & 0x1
        < 0x2 && v >> 12 & 0xff < 0x100 && v >> 1 & 0x3ff < 0x400 && v >> 20 & 0x1 < 0x2 && v & 0x1f
        < 0x20 && v >> 5 & 0x7f < 0x80) by (bit_vector);
}

/// An instruction that does not touch the bus leaves everything but the CPU
/// alone.
pub open spec fn exec_frame(pre: crate::mcu::MCU, post: crate::mcu::MCU) -> bool {
    post.int_ctrl == pre.int_ctrl && post.mmu == pre.mmu && post.devices@ == pre.devices@
}

/// The CPU state an instruction that only moves the program counter leaves
/// alone.
pub open spec fn cpu_regs_frame(pre: crate::mcu::MCU, post: crate::mcu::MCU) -> bool {
    post.cpu.regs() == pre.cpu.regs() && post.cpu.csrs() == pre.cpu.csrs() && post.cpu.wfi
        == pre.cpu.wfi
}

} // verus!
