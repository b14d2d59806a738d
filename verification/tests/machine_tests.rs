//! Whole-machine scenarios: the default memory map, the fetch/execute tick,
//! trap entry and return, interrupts, the halt and dump sentinels, and the
//! bus boundary behavior.

use riscv_emu::clint::CLINT;
use riscv_emu::emulator::{Emulator, EmulatorOpts, StepAction};
use riscv_emu::exceptions::{Exception, ExceptionInterrupt, Interrupt};
use riscv_emu::instructions::branch::{Branch, BEQ};
use riscv_emu::instructions::immediate::{Immediate, SRAI};
use riscv_emu::instructions::load::{Load, LB};
use riscv_emu::instructions::privileged::{RVPrivileged, MRET};
use riscv_emu::instructions::rv32i::RV32i;
use riscv_emu::instructions::store::{Store, SB};
use riscv_emu::instructions::system::{System, CSRRW};
use riscv_emu::mcu::{DeviceDef, TickResult, MCU};
use riscv_emu::memory::GenericMemory;
use riscv_emu::mmu::{DeviceMeta, MMU};
use riscv_emu::peripherals::Peripheral;
use riscv_emu::plic::PLIC;
use riscv_emu::uart::UART;

/// The default memory map: flash at 0, CLINT, PLIC and UART0 at their
/// architectural bases; devices tick in identifier order, CLINT first.
fn default_machine() -> MCU {
    let mut mcu = MCU::new();
    assert!(mcu
        .add_device(DeviceDef {
            identifier: 0,
            memory_start: 0x0200_0000,
            memory_end: 0x0200_FFFF,
            device: Peripheral::CLINT(CLINT::new()),
        })
        .is_ok());
    assert!(mcu
        .add_device(DeviceDef {
            identifier: 1,
            memory_start: 0x0000_0000,
            memory_end: 0x0003_1FFF,
            device: Peripheral::FLASH(GenericMemory::new(0x3_2000)),
        })
        .is_ok());
    assert!(mcu
        .add_device(DeviceDef {
            identifier: 2,
            memory_start: 0x0C00_0000,
            memory_end: 0x0FFF_FFFF,
            device: Peripheral::PLIC(PLIC::new()),
        })
        .is_ok());
    let mut uart = UART::new();
    uart.set_interrupt_id(0b10000);
    assert!(mcu
        .add_device(DeviceDef {
            identifier: 3,
            memory_start: 0x1001_3000,
            memory_end: 0x1001_3FFF,
            device: Peripheral::UART(uart),
        })
        .is_ok());
    mcu
}

#[test]
fn lui_one_tick() {
    let mut mcu = default_machine();
    // LUI x1, 0x17
    assert!(mcu.ww(0, 0x0001_70B7).is_ok());
    let r = mcu.tick();
    assert!(matches!(r, TickResult::Cycles(1)));
    assert_eq!(mcu.cpu.get_x(1), 0x17_000);
    assert_eq!(mcu.cpu.pc, 4);
}

#[test]
fn auipc_one_tick() {
    let mut mcu = default_machine();
    // AUIPC x1, 0x17 at address 10
    assert!(mcu.ww(10, 0x0001_7097).is_ok());
    mcu.cpu.pc = 10;
    let r = mcu.tick();
    assert!(matches!(r, TickResult::Cycles(1)));
    assert_eq!(mcu.cpu.get_x(1), 10 + 0x17_000);
    assert_eq!(mcu.cpu.pc, 14);
}

#[test]
fn beq_taken_one_tick() {
    let mut mcu = default_machine();
    let word = Branch::BEQ(BEQ { rs1: 1, rs2: 2, offset: 16 }).encode();
    assert!(mcu.ww(10, word).is_ok());
    mcu.cpu.pc = 10;
    mcu.cpu.set_x(1, 1);
    mcu.cpu.set_x(2, 1);
    let r = mcu.tick();
    assert!(matches!(r, TickResult::Cycles(1)));
    assert_eq!(mcu.cpu.pc, 26);
}

#[test]
fn beq_not_taken_one_tick() {
    let mut mcu = default_machine();
    let word = Branch::BEQ(BEQ { rs1: 1, rs2: 2, offset: 16 }).encode();
    assert!(mcu.ww(10, word).is_ok());
    mcu.cpu.pc = 10;
    mcu.cpu.set_x(1, 1);
    mcu.cpu.set_x(2, 2);
    let r = mcu.tick();
    assert!(matches!(r, TickResult::Cycles(1)));
    assert_eq!(mcu.cpu.pc, 14);
}

#[test]
fn timer_interrupt_traps() {
    let mut mcu = default_machine();
    // A harmless instruction at the reset vector: ADDI x0, x0, 0.
    assert!(mcu.ww(0, 0x0000_0013).is_ok());
    // Arm the timer: mtimecmp low half = 1.
    assert!(mcu.ww(0x0200_4000, 1).is_ok());
    // mstatus.MIE, mie.MTIE, mtvec.
    assert!(mcu.cpu.set_csr(0x300, 0x8).is_ok());
    assert!(mcu.cpu.set_csr(0x304, 0x80).is_ok());
    assert!(mcu.cpu.set_csr(0x305, 0x100).is_ok());

    let mut trapped = false;
    for _ in 0..4 {
        mcu.tick();
        if mcu.cpu.get_csr(0x342).unwrap() != 0 {
            trapped = true;
            break;
        }
    }
    assert!(trapped);
    assert_eq!(mcu.cpu.get_csr(0x342).unwrap(), (1 << 31) | (1 << 7));
    assert_eq!(mcu.cpu.pc, 0x100);
    assert_eq!(mcu.cpu.get_csr(0x300).unwrap() & 0x8, 0);
}

#[test]
fn halt_sentinel() {
    let mut mcu = default_machine();
    // ECALL with a0 = 255 is the halt sentinel.
    assert!(mcu.ww(0, 0x0000_0073).is_ok());
    mcu.cpu.set_x(10, 255);
    let r = mcu.tick();
    assert!(matches!(r, TickResult::HALT));
}

#[test]
fn halt_sentinel_stops_emulator() {
    let mut emu = Emulator::new(EmulatorOpts { speed: 1 });
    assert!(emu
        .mcu
        .add_device(DeviceDef {
            identifier: 1,
            memory_start: 0x0000_0000,
            memory_end: 0x0003_1FFF,
            device: Peripheral::FLASH(GenericMemory::new(0x3_2000)),
        })
        .is_ok());
    assert!(emu.mcu.ww(0, 0x0000_0073).is_ok());
    emu.mcu.cpu.set_x(10, 255);
    let mut halted = false;
    for _ in 0..8 {
        match emu.step() {
            StepAction::Halted => {
                halted = true;
                break;
            }
            _ => {}
        }
    }
    assert!(halted);
}

#[test]
fn dump_sentinel() {
    let mut mcu = default_machine();
    assert!(mcu.ww(0, 0x0000_0073).is_ok());
    mcu.cpu.set_x(10, 254);
    mcu.cpu.set_x(11, 2);
    mcu.cpu.set_x(12, 5);
    let r = mcu.tick();
    assert!(matches!(r, TickResult::Dump(2, 5)));
}

#[test]
fn dump_range_reads_bus_bytes() {
    let mut emu = Emulator::new(EmulatorOpts { speed: 1 });
    assert!(emu
        .mcu
        .add_device(DeviceDef {
            identifier: 1,
            memory_start: 0,
            memory_end: 0xFFF,
            device: Peripheral::FLASH(GenericMemory::new(0x1000)),
        })
        .is_ok());
    assert!(emu.mcu.wb(2, 0xAA).is_ok());
    assert!(emu.mcu.wb(3, 0xBB).is_ok());
    let bytes = emu.dump_range(2, 4).unwrap();
    assert_eq!(bytes, vec![0xAA, 0xBB, 0x00]);
    assert!(emu.dump_range(0xFFE, 0x1001).is_err());
}

#[test]
fn srai_bad_upper_bits_raise_illegal() {
    let mut mcu = default_machine();
    // funct3 101 with upper immediate bits 0x10: neither SRLI nor SRAI form.
    let word = 0x13 | (1 << 7) | (0b101 << 12) | (1 << 15) | (0x201 << 20);
    let inst = RV32i::decode(word).unwrap();
    assert!(matches!(
        inst,
        RV32i::Immediate(Immediate::SRAI(SRAI { .. }))
    ));
    let r = inst.execute(&mut mcu);
    assert_eq!(
        r,
        Err(ExceptionInterrupt::Exception(Exception::IllegalInstruction))
    );
}

#[test]
fn srai_shifts_arithmetically() {
    let mut mcu = default_machine();
    mcu.cpu.set_x(1, 0x8000_0000);
    let inst = Immediate::SRAI(SRAI { rd: 2, rs1: 1, imm: (0x20 << 5) | 4 });
    inst.execute(&mut mcu).unwrap();
    assert_eq!(mcu.cpu.get_x(2), 0xF800_0000);
}

#[test]
fn unmapped_load_and_store_fault() {
    let mut mcu = default_machine();
    mcu.cpu.set_x(1, 0x9000_0000);
    let lb = Load::LB(LB { rd: 2, rs1: 1, imm: 0 });
    assert_eq!(
        lb.execute(&mut mcu),
        Err(ExceptionInterrupt::Exception(Exception::LoadAccessFault))
    );
    let sb = Store::SB(SB { rs1: 1, rs2: 2, offset: 0 });
    assert_eq!(
        sb.execute(&mut mcu),
        Err(ExceptionInterrupt::Exception(Exception::StoreAccessFault))
    );
}

#[test]
fn out_of_range_flash_read_faults_and_traps() {
    let mut mcu = default_machine();
    // A byte past the end of the flash buffer faults at the device.
    assert!(mcu.rb(0x0003_2000).is_err());
    // Fetch from an unmapped address traps with Instruction Access Fault.
    mcu.cpu.pc = 0x9000_0000;
    assert!(mcu.cpu.set_csr(0x305, 0x80).is_ok());
    let r = mcu.tick();
    assert!(matches!(r, TickResult::Cycles(4)));
    assert_eq!(mcu.cpu.get_csr(0x342).unwrap(), 1);
    assert_eq!(mcu.cpu.pc, 0x80);
}

#[test]
fn zero_word_is_illegal_instruction() {
    let mut mcu = default_machine();
    assert!(mcu.cpu.set_csr(0x305, 0x40).is_ok());
    let r = mcu.tick();
    assert!(matches!(r, TickResult::Cycles(4)));
    assert_eq!(mcu.cpu.get_csr(0x342).unwrap(), 2);
    assert_eq!(mcu.cpu.pc, 0x40);
}

#[test]
fn overlapping_regions_are_refused() {
    let mut mmu = MMU::new();
    assert!(mmu.insert_device(DeviceMeta::new(0, 0, 100)).is_ok());
    assert!(mmu.insert_device(DeviceMeta::new(1, 50, 150)).is_err());
    assert!(mmu.insert_device(DeviceMeta::new(1, 100, 100)).is_err());
    assert!(mmu.insert_device(DeviceMeta::new(1, 101, 200)).is_ok());
    assert!(mmu.find_device_index(100).is_some());
    assert!(mmu.find_device_index(201).is_none());
}

#[test]
fn duplicate_identifier_is_refused() {
    let mut mcu = MCU::new();
    assert!(mcu
        .add_device(DeviceDef {
            identifier: 7,
            memory_start: 0,
            memory_end: 10,
            device: Peripheral::CLINT(CLINT::new()),
        })
        .is_ok());
    assert!(mcu
        .add_device(DeviceDef {
            identifier: 7,
            memory_start: 20,
            memory_end: 30,
            device: Peripheral::CLINT(CLINT::new()),
        })
        .is_err());
}

#[test]
fn mret_restores_interrupt_state() {
    let mut mcu = default_machine();
    // As after a trap: MIE clear, MPIE set, mepc holding the return point.
    assert!(mcu.cpu.set_csr(0x300, 0x80).is_ok());
    assert!(mcu.cpu.set_csr(0x341, 0x40).is_ok());
    let r = RVPrivileged::MRET(MRET).execute(&mut mcu);
    assert_eq!(r, Ok(1));
    assert_eq!(mcu.cpu.pc, 0x40);
    let mstatus = mcu.cpu.get_csr(0x300).unwrap();
    assert_ne!(mstatus & 0x8, 0, "MIE restored from MPIE");
    assert_ne!(mstatus & 0x80, 0, "MPIE set");
    assert_eq!(mcu.cpu.get_csr(0x344).unwrap(), 0, "mip cleared");
}

#[test]
fn csr_instructions_read_then_write() {
    let mut mcu = default_machine();
    mcu.cpu.set_x(1, 0xABCD);
    assert!(mcu.cpu.set_csr(0x340, 0x111).is_ok());
    // CSRRW x2, mscratch, x1
    let inst = System::CSRRW(CSRRW { rd: 2, rs1: 1, imm: 0x340 });
    inst.execute(&mut mcu).unwrap();
    assert_eq!(mcu.cpu.get_x(2), 0x111);
    assert_eq!(mcu.cpu.get_csr(0x340).unwrap(), 0xABCD);
    // An unmapped CSR raises Illegal Instruction and changes nothing.
    let bad = System::CSRRW(CSRRW { rd: 2, rs1: 1, imm: 0x301 });
    assert_eq!(
        bad.execute(&mut mcu),
        Err(ExceptionInterrupt::Exception(Exception::IllegalInstruction))
    );
    assert_eq!(mcu.cpu.get_x(2), 0x111);
}

#[test]
fn software_interrupt_is_edge_triggered() {
    let mut mcu = default_machine();
    assert!(mcu.cpu.set_csr(0x304, 0x8).is_ok());
    assert!(mcu.cpu.set_csr(0x344, 0x8).is_ok());
    let got = mcu.cpu.get_interrupt();
    assert_eq!(got, Some(Interrupt::MSoftInterrupt));
    // The mip bit is cleared on delivery.
    assert_eq!(mcu.cpu.get_csr(0x344).unwrap() & 0x8, 0);
}

#[test]
fn external_interrupt_reaches_plic_and_mip() {
    let mut mcu = default_machine();
    mcu.interrupt(Interrupt::MExternalInterrupt, 0b10000);
    assert_eq!(mcu.cpu.get_csr(0x344).unwrap(), 1 << 11);
    // The source bits were stashed on the PLIC pending mask.
    assert_eq!(mcu.rw(0x0C00_1000).unwrap(), 0b10000);
}

#[test]
fn plic_claim_returns_highest_priority_source() {
    let mut plic = PLIC::new();
    // Sources 1 and 4 pending and enabled, with source 4 at higher priority.
    assert!(plic.ww(0x4 + 4 * 1, 1).is_ok());
    assert!(plic.ww(0x4 + 4 * 4, 7).is_ok());
    assert!(plic.ww(0x2000, 0b10010).is_ok());
    plic.pending = 0b10010;
    let claimed = plic.claim_interrupt();
    assert_eq!(claimed, 4);
    assert_eq!(plic.pending, 0b00010);
    // The next claim hands out the remaining source.
    assert_eq!(plic.claim_interrupt(), 1);
    // With nothing claimable the claim register reads 0.
    assert_eq!(plic.rw(0x20_0004).unwrap(), 0);
}

#[test]
fn clint_word_registers() {
    let mut clint = CLINT::new();
    assert!(clint.ww(0x4000, 0x55).is_ok());
    assert!(clint.ww(0x4004, 0x1).is_ok());
    assert_eq!(clint.mtimecmp, 0x1_0000_0055);
    assert_eq!(clint.rw(0x4000).unwrap(), 0x55);
    assert_eq!(clint.rw(0x4004).unwrap(), 0x1);
    // mtime ignores writes.
    assert!(clint.ww(0xbff8, 99).is_ok());
    assert_eq!(clint.rw(0xbff8).unwrap(), 0);
    // Byte-sized offsets fault.
    assert!(clint.rw(0x2).is_err());
}

#[test]
fn uart_round_trip_through_host() {
    let mut mcu = default_machine();
    // Enable rx and tx.
    assert!(mcu.ww(0x1001_3008, 1).is_ok());
    assert!(mcu.ww(0x1001_300C, 1).is_ok());
    // The guest sends a byte: it reaches the host queue after one tick.
    assert!(mcu.ww(0x1001_3000, 0x41).is_ok());
    mcu.tick();
    assert_eq!(mcu.uart_output(), Some(0x41));
    // The host sends a byte: the guest reads it after one tick.
    mcu.uart_input(0x42);
    mcu.tick();
    assert_eq!(mcu.rw(0x1001_3004).unwrap(), 0x42);
    // An empty rx FIFO reads as bit 31.
    assert_eq!(mcu.rw(0x1001_3004).unwrap(), 0x8000_0000);
}

#[test]
fn wrapping_arithmetic() {
    let mut mcu = default_machine();
    mcu.cpu.set_x(1, 0xFFFF_FFFF);
    mcu.cpu.set_x(2, 1);
    // ADD x3, x1, x2
    let word = 0x002081B3;
    let inst = RV32i::decode(word).unwrap();
    inst.execute(&mut mcu).unwrap();
    assert_eq!(mcu.cpu.get_x(3), 0);
}

#[test]
fn decode_encode_round_trip_samples() {
    let words = [
        0x0031_00b3u32, // add
        0x0801_0093,    // addi
        0x0011_03a3,    // sb
        0x0072_8063,    // beq
        0x0009_00b7,    // lui
        0x0000_00ef,    // jal
        0xFFC1_8E93,    // addi with negative immediate
        0x4029_5913,    // srai
        0x0030_A023,    // sw
        0x0000_0073,    // ecall
        0x3020_0073,    // mret (privileged set)
        0x1050_0073,    // wfi
    ];
    for w in words {
        match RVPrivileged::decode(w) {
            Some(p) => assert_eq!(p.encode(), w),
            None => {
                let v = RV32i::decode(w).unwrap();
                assert_eq!(v.encode(), w);
            }
        }
    }
}

#[test]
fn flash_loads_image_at_address_zero() {
    let mut mcu = default_machine();
    mcu.flash(vec![0xB7, 0x70, 0x01, 0x00]);
    assert_eq!(mcu.rw(0).unwrap(), 0x0001_70B7);
    assert_eq!(mcu.rb(3).unwrap(), 0x00);
}

#[test]
fn wfi_stalls_until_interrupt() {
    let mut mcu = default_machine();
    // WFI at the reset vector.
    assert!(mcu.ww(0, 0x1050_0073).is_ok());
    let r = mcu.tick();
    assert!(matches!(r, TickResult::Cycles(1)));
    assert_eq!(mcu.cpu.pc, 4);
    // With no interrupt pending, the next tick reports the stall.
    let r = mcu.tick();
    assert!(matches!(r, TickResult::WFI));
}

#[test]
fn small_program_runs_to_halt() {
    let mut emu = Emulator::new(EmulatorOpts { speed: 1 });
    assert!(emu
        .mcu
        .add_device(DeviceDef {
            identifier: 1,
            memory_start: 0x0000_0000,
            memory_end: 0x0003_1FFF,
            device: Peripheral::FLASH(GenericMemory::new(0x3_2000)),
        })
        .is_ok());
    // addi x1, x0, 3; addi x10, x0, 255; ecall
    emu.flash(vec![
        0x93, 0x00, 0x30, 0x00, //
        0x13, 0x05, 0xF0, 0x0F, //
        0x73, 0x00, 0x00, 0x00,
    ]);
    let mut halted = false;
    for _ in 0..100 {
        match emu.step() {
            StepAction::Halted => {
                halted = true;
                break;
            }
            _ => {}
        }
    }
    assert!(halted);
    assert_eq!(emu.mcu.cpu.get_x(1), 3);
    assert_eq!(emu.mcu.cpu.get_x(10), 255);
}

#[test]
fn jal_offset_sign_extends_from_bit_19() {
    let mut mcu = default_machine();
    mcu.cpu.pc = 10;
    // The jump offset is sign-extended from 20 bits, so bit 19 carries the
    // sign and the pc wraps backwards.
    let inst = riscv_emu::instructions::rv32i::JAL { rd: 1, offset: 0x8_0000 };
    inst.execute(&mut mcu).unwrap();
    assert_eq!(mcu.cpu.get_x(1), 14);
    assert_eq!(mcu.cpu.pc, 0xFFF8_000Au32);
}

#[test]
fn csr_immediate_variants_use_the_field() {
    let mut mcu = default_machine();
    // The register the rs1 field names is loaded with a different value:
    // the immediate variants must ignore it and use the field itself.
    mcu.cpu.set_x(5, 0xFF);
    let inst = System::CSRRSI(riscv_emu::instructions::system::CSRRSI {
        rd: 0,
        rs1: 5,
        imm: 0x340,
    });
    inst.execute(&mut mcu).unwrap();
    assert_eq!(mcu.cpu.get_csr(0x340).unwrap(), 5);
    let inst = System::CSRRCI(riscv_emu::instructions::system::CSRRCI {
        rd: 0,
        rs1: 4,
        imm: 0x340,
    });
    inst.execute(&mut mcu).unwrap();
    assert_eq!(mcu.cpu.get_csr(0x340).unwrap(), 1);
}

#[test]
fn csr_word_for_unmapped_csr_is_not_mret() {
    // SYSTEM opcode with funct3 1: a CSRRW naming CSR 0x302. The privileged
    // decoder must reject it (it shares funct7/rs2 bits with MRET), and the
    // CSR instruction then raises Illegal Instruction for the unmapped CSR.
    let word = 0x3020_1073;
    assert!(RVPrivileged::decode(word).is_none());
    let inst = RV32i::decode(word).unwrap();
    assert!(matches!(inst, RV32i::System(System::CSRRW(CSRRW { .. }))));
    let mut mcu = default_machine();
    assert_eq!(
        inst.execute(&mut mcu),
        Err(ExceptionInterrupt::Exception(Exception::IllegalInstruction))
    );
    // The same holds for the WFI bit pattern with a nonzero funct3.
    assert!(RVPrivileged::decode(0x1050_1073).is_none());
}

#[test]
fn invalid_r_type_funct7_is_illegal() {
    // funct3 000 with funct7 neither 0 nor 0b0100000 is no instruction.
    let word = 0x0200_0033;
    assert!(RV32i::decode(word).is_none());
    // Executed through a tick it raises Illegal Instruction.
    let mut mcu = default_machine();
    assert!(mcu.ww(0, word).is_ok());
    assert!(mcu.cpu.set_csr(0x305, 0x80).is_ok());
    let r = mcu.tick();
    assert!(matches!(r, TickResult::Cycles(4)));
    assert_eq!(mcu.cpu.get_csr(0x342).unwrap(), 2);
    assert_eq!(mcu.cpu.pc, 0x80);
    // The same for funct3 101.
    assert!(RV32i::decode(0x0400_5033 | (1 << 25)).is_none());
}

#[test]
fn empty_claim_leaves_pending_alone() {
    let mut plic = PLIC::new();
    // A pending source that is not enabled is not claimable; the claim
    // returns 0 and must not clear anything.
    plic.pending = 0b1;
    assert_eq!(plic.claim_interrupt(), 0);
    assert_eq!(plic.pending, 0b1);
}

#[test]
fn srai_zero_upper_bits_shift_arithmetically() {
    let mut mcu = default_machine();
    mcu.cpu.set_x(1, 0x8000_0000);
    let inst = Immediate::SRAI(SRAI { rd: 2, rs1: 1, imm: 4 });
    inst.execute(&mut mcu).unwrap();
    assert_eq!(mcu.cpu.get_x(2), 0xF800_0000);
}
