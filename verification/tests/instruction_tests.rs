//! Execution semantics of single instructions against a machine with one
//! RAM region, and the small bit-manipulation helpers.

use riscv_emu::instructions::branch::{Branch, BEQ, BGE, BLT, BNE};
use riscv_emu::instructions::rv32i::{RV32i, AUIPC, JAL, JALR, LUI};
use riscv_emu::mcu::{DeviceDef, MCU};
use riscv_emu::memory::GenericMemory;
use riscv_emu::peripherals::Peripheral;
use riscv_emu::utils::{mask, msb, sext};

fn mcu_with_ram() -> MCU {
    let mut mcu = MCU::new();
    let size = 1024 * 100;
    let r = mcu.add_device(DeviceDef {
        identifier: 0,
        memory_start: 0,
        memory_end: size - 1,
        device: Peripheral::FLASH(GenericMemory::new(size)),
    });
    assert!(r.is_ok());
    mcu
}

#[test]
fn test_lui() {
    let mut mcu = mcu_with_ram();
    // lui x1, 0x23
    let lui = LUI { rd: 1, imm: 23 };
    lui.execute(&mut mcu).unwrap();
    assert_eq!(mcu.cpu.get_x(1), 23 << 12);
}

#[test]
fn test_auipc() {
    let mut mcu = mcu_with_ram();
    mcu.cpu.pc = 10;
    let inst = AUIPC { rd: 1, imm: 23 };
    inst.execute(&mut mcu).unwrap();
    assert_eq!(mcu.cpu.get_x(1), (23 << 12) + 10);
}

#[test]
fn test_jal() {
    let mut mcu = mcu_with_ram();
    mcu.cpu.pc = 10;
    let inst = JAL { rd: 1, offset: 23 };

    inst.execute(&mut mcu).unwrap();
    assert_eq!(mcu.cpu.get_x(1), 10 + 4);
    assert_eq!(mcu.cpu.pc, 10 + 23);
}

#[test]
fn test_jalr() {
    let mut mcu = mcu_with_ram();
    mcu.cpu.pc = 10;
    mcu.cpu.set_x(2, 3);
    let inst = JALR { rd: 1, rs1: 2, imm: 23 };

    inst.execute(&mut mcu).unwrap();

    assert_eq!(mcu.cpu.get_x(1), 10 + 4);
    assert_eq!(mcu.cpu.pc, 3 + 23);
}

#[test]
fn test_beq0() {
    let mut mcu = mcu_with_ram();
    mcu.cpu.pc = 10;
    mcu.cpu.set_x(1, 1);
    mcu.cpu.set_x(2, 1);
    let inst = Branch::BEQ(BEQ { rs1: 1, rs2: 2, offset: 15 });

    inst.execute(&mut mcu).unwrap();

    assert_eq!(mcu.cpu.pc, 10 + 15);
}

#[test]
fn test_beq1() {
    let mut mcu = mcu_with_ram();
    mcu.cpu.pc = 10;
    mcu.cpu.set_x(1, 1);
    mcu.cpu.set_x(2, 2);
    let inst = Branch::BEQ(BEQ { rs1: 1, rs2: 2, offset: 15 });

    inst.execute(&mut mcu).unwrap();

    assert_eq!(mcu.cpu.pc, 10);
}

#[test]
fn test_bne0() {
    let mut mcu = mcu_with_ram();
    mcu.cpu.pc = 10;
    mcu.cpu.set_x(1, 1);
    mcu.cpu.set_x(2, 1);
    let inst = Branch::BNE(BNE { rs1: 1, rs2: 2, offset: 15 });

    inst.execute(&mut mcu).unwrap();

    assert_eq!(mcu.cpu.pc, 10);
}

#[test]
fn test_bne1() {
    let mut mcu = mcu_with_ram();
    mcu.cpu.pc = 10;
    mcu.cpu.set_x(1, 1);
    mcu.cpu.set_x(2, 2);
    let inst = Branch::BNE(BNE { rs1: 1, rs2: 2, offset: 15 });

    inst.execute(&mut mcu).unwrap();

    assert_eq!(mcu.cpu.pc, 10 + 15);
}

#[test]
fn test_blt0() {
    let mut mcu = mcu_with_ram();
    mcu.cpu.pc = 10;
    mcu.cpu.set_x(1, 1);
    mcu.cpu.set_x(2, 1);
    let inst = Branch::BLT(BLT { rs1: 1, rs2: 2, offset: 15 });

    inst.execute(&mut mcu).unwrap();

    assert_eq!(mcu.cpu.pc, 10);
}

#[test]
fn test_blt1() {
    let mut mcu = mcu_with_ram();
    mcu.cpu.pc = 10;
    mcu.cpu.set_x(1, 1);
    mcu.cpu.set_x(2, 2);
    let inst = Branch::BLT(BLT { rs1: 1, rs2: 2, offset: 15 });

    inst.execute(&mut mcu).unwrap();

    assert_eq!(mcu.cpu.pc, 10 + 15);
}

#[test]
fn test_bge0() {
    let mut mcu = mcu_with_ram();
    mcu.cpu.pc = 10;
    mcu.cpu.set_x(1, 0);
    mcu.cpu.set_x(2, 1);
    let inst = Branch::BGE(BGE { rs1: 1, rs2: 2, offset: 15 });

    inst.execute(&mut mcu).unwrap();

    assert_eq!(mcu.cpu.pc, 10);
}

#[test]
fn test_bge1() {
    let mut mcu = mcu_with_ram();
    mcu.cpu.pc = 10;
    mcu.cpu.set_x(1, 1);
    mcu.cpu.set_x(2, 1);
    let inst = Branch::BGE(BGE { rs1: 1, rs2: 2, offset: 15 });

    inst.execute(&mut mcu).unwrap();

    assert_eq!(mcu.cpu.pc, 10 + 15);
}

#[test]
fn test_bge2() {
    let mut mcu = mcu_with_ram();
    mcu.cpu.pc = 10;
    mcu.cpu.set_x(1, 2);
    mcu.cpu.set_x(2, 1);
    let inst = Branch::BGE(BGE { rs1: 1, rs2: 2, offset: 15 });

    inst.execute(&mut mcu).unwrap();

    assert_eq!(mcu.cpu.pc, 10 + 15);
}

#[test]
fn lui_writes_register() {
    let mut mcu = mcu_with_ram();
    // lui x1, 0x22
    let word = 0x0002_20b7;
    let inst = RV32i::decode(word).unwrap();
    inst.execute(&mut mcu).unwrap();
    assert_eq!(mcu.cpu.get_x(1), 0x22 << 12);
}

#[test]
fn mask_macro_works() {
    let m = mask(3);
    assert_eq!(m, 0b111);
}

#[test]
fn sext_pos() {
    let n = 0b01010;
    let expected: u32 = 0b1111_1111_1111_1111_1111_1111_1111_1010;
    let s = sext(n, 4, 32);
    assert_eq!(s, expected)
}

#[test]
fn msb_test() {
    let n = 0b10100;
    let s = msb(n);
    assert_eq!(s, 2_u32.pow(4));
}
