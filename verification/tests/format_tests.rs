//! Bit-field decomposition of instruction words into the six formats, and
//! the round trip back to the word.

use riscv_emu::format::{opcode, BFormat, IFormat, JFormat, RFormat, SFormat, UFormat};

#[test]
fn format_parse_r_type() {
    // add x1, x2, x3
    // 0000000_00011_00010_000_00001_0110011
    let inst = 0x0031_00b3;

    let parsed = RFormat::decode(inst);

    assert_eq!(opcode(inst), 0b0110011, "opcode");
    assert_eq!(parsed.rd, 1, "rd");
    assert_eq!(parsed.rs1, 2, "rs1");
    assert_eq!(parsed.rs2, 3, "rs2");
    assert_eq!(inst, parsed.encode());
}

#[test]
fn format_parse_i_type() {
    // add x1, x2, 0x80
    // 000010000000_00010_000_00001_0010011
    let inst = 0x0801_0093;

    let parsed = IFormat::decode(inst);

    assert_eq!(opcode(inst), 0b0010011, "opcode");
    assert_eq!(parsed.rd, 1, "rd");
    assert_eq!(parsed.rs1, 2, "rs1");
    assert_eq!(parsed.imm, 0x80, "imm");
    assert_eq!(inst, parsed.encode());
}

#[test]
fn format_parse_s_type() {
    // sb x1, 0x7(x2)
    // 000100010000001110100011
    let inst = 0x0011_03a3;

    let parsed = SFormat::decode(inst);

    assert_eq!(opcode(inst), 0b0100011, "opcode");
    assert_eq!(parsed.rs1, 2, "rs1");
    assert_eq!(parsed.rs2, 1, "rs2");
    assert_eq!(parsed.imm0, 0x7, "offset");
    assert_eq!(parsed.imm1, 0, "imm");
    assert_eq!(inst, parsed.encode());
}

#[test]
fn format_parse_b_type() {
    // beq x5, x7, _start
    // 0111_00101_000_0000_0_1100011
    let inst = 0x0072_8063;

    let parsed = BFormat::decode(inst);

    assert_eq!(opcode(inst), 0b1100011, "opcode");
    assert_eq!(parsed.imm0, 0, "imm0");
    assert_eq!(parsed.imm1, 0, "imm1");
    assert_eq!(parsed.imm2, 0, "imm2");
    assert_eq!(parsed.imm3, 0, "imm3");
    assert_eq!(parsed.rs1, 5, "rs1");
    assert_eq!(parsed.rs2, 7, "rs2");
    assert_eq!(inst, parsed.encode());
}

#[test]
fn format_parse_u_type() {
    // lui x1, 0x90
    // 10010000_00001_0110111
    let inst = 0x0009_00b7;

    let parsed = UFormat::decode(inst);

    assert_eq!(opcode(inst), 0b0110111, "opcode");
    assert_eq!(parsed.rd, 1, "rd");
    assert_eq!(parsed.imm, 0x90, "imm");
    assert_eq!(inst, parsed.encode());
}

#[test]
fn format_parse_j_type() {
    // jal x1, _start
    // 11101111
    let inst = 0x0000_00ef;

    let parsed = JFormat::decode(inst);

    assert_eq!(opcode(inst), 0b1101111, "opcode");
    assert_eq!(parsed.rd, 1, "rd");
    assert_eq!(parsed.imm0, 0, "imm0");
    assert_eq!(parsed.imm1, 0, "imm1");
    assert_eq!(parsed.imm2, 0, "imm2");
    assert_eq!(parsed.imm3, 0, "imm3");
    assert_eq!(inst, parsed.encode());
}
