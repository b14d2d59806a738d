//! Register-file behavior, memory devices, and interrupt plumbing.

use riscv_emu::cpu::CPU;
use riscv_emu::exceptions::{Exception, ExceptionInterrupt};
use riscv_emu::flash::Flash;
use riscv_emu::instructions::immediate::{Immediate, SLTI, SLTIU};
use riscv_emu::instructions::load::{Load, LB, LW};
use riscv_emu::instructions::rv32i::RV32i;
use riscv_emu::instructions::store::{Store, SB, SW};
use riscv_emu::mcu::{DeviceDef, TickResult, MCU};
use riscv_emu::memory::GenericMemory;
use riscv_emu::peripherals::Peripheral;
use riscv_emu::rom::ROM;

fn mcu_with_ram() -> MCU {
    let mut mcu = MCU::new();
    let size = 1024 * 100;
    let r = mcu.add_device(DeviceDef {
        identifier: 0,
        memory_start: 0,
        memory_end: size - 1,
        device: Peripheral::FLASH(GenericMemory::new(size)),
    });
    assert!(r.is_ok());
    mcu
}

#[test]
fn register_file_roundtrip() {
    let mut cpu = CPU::new();
    for x in 1..32u32 {
        cpu.set_x(x, x * 3 + 1);
        assert_eq!(cpu.get_x(x), x * 3 + 1);
    }
    // x0 reads 0 and discards writes.
    assert_eq!(cpu.get_x(0), 0);
    cpu.set_x(0, 0xDEAD);
    assert_eq!(cpu.get_x(0), 0);
}

#[test]
fn unmapped_csr_is_illegal() {
    let mut cpu = CPU::new();
    assert_eq!(cpu.get_csr(0x301), Err(Exception::IllegalInstruction));
    assert_eq!(cpu.set_csr(0x7C0, 1), Err(Exception::IllegalInstruction));
    assert!(cpu.set_csr(0x305, 0x40).is_ok());
    assert_eq!(cpu.get_csr(0x305), Ok(0x40));
}

#[test]
fn ebreak_raises_breakpoint() {
    let mut mcu = mcu_with_ram();
    // EBREAK
    let word = 0x0010_0073;
    let inst = RV32i::decode(word).unwrap();
    assert_eq!(
        inst.execute(&mut mcu),
        Err(ExceptionInterrupt::Exception(Exception::Breakpoint))
    );
}

#[test]
fn flash_is_writable_and_rom_is_not() {
    let mut flash = Flash::new(16);
    assert!(flash.ww(0, 0x1122_3344).is_ok());
    assert_eq!(flash.rw(0), Ok(0x1122_3344));
    assert_eq!(flash.rb(0), Ok(0x44));
    assert_eq!(flash.rhw(2), Ok(0x1122));
    assert!(flash.wb(16, 1).is_err());

    let mut rom = ROM::from_vec(vec![1, 2, 3, 4]);
    assert_eq!(rom.size(), 4);
    assert_eq!(rom.rw(0), Ok(0x0403_0201));
    assert!(rom.wb(0, 9).is_err());
    assert!(rom.whw(0, 9).is_err());
    assert!(rom.ww(0, 9).is_err());
    assert_eq!(rom.rb(0), Ok(1));
}

#[test]
fn software_interrupt_traps() {
    let mut mcu = MCU::new();
    assert!(mcu
        .add_device(DeviceDef {
            identifier: 0,
            memory_start: 0x0200_0000,
            memory_end: 0x0200_FFFF,
            device: Peripheral::CLINT(riscv_emu::clint::CLINT::new()),
        })
        .is_ok());
    assert!(mcu
        .add_device(DeviceDef {
            identifier: 1,
            memory_start: 0,
            memory_end: 0xFFF,
            device: Peripheral::FLASH(GenericMemory::new(0x1000)),
        })
        .is_ok());
    // Latch a software interrupt, enable it, and let a tick deliver it.
    assert!(mcu.ww(0x0200_0000, 1).is_ok());
    assert!(mcu.ww(0, 0x0000_0013).is_ok());
    assert!(mcu.cpu.set_csr(0x300, 0x8).is_ok());
    assert!(mcu.cpu.set_csr(0x304, 0x8).is_ok());
    assert!(mcu.cpu.set_csr(0x305, 0x200).is_ok());
    let r = mcu.tick();
    assert!(matches!(r, TickResult::Cycles(4)));
    assert_eq!(mcu.cpu.get_csr(0x342).unwrap(), (1 << 31) | (1 << 3));
    assert_eq!(mcu.cpu.pc, 0x200);
    assert_eq!(mcu.cpu.get_csr(0x341).unwrap(), 0, "mepc holds the pc before the trap");
}

#[test]
fn software_beats_timer_in_mip() {
    let mut mcu = MCU::new();
    assert!(mcu
        .add_device(DeviceDef {
            identifier: 0,
            memory_start: 0x0200_0000,
            memory_end: 0x0200_FFFF,
            device: Peripheral::CLINT(riscv_emu::clint::CLINT::new()),
        })
        .is_ok());
    // Arm the timer and the software latch; with interrupts globally
    // disabled the tick only accumulates into mip.
    assert!(mcu.ww(0x0200_4000, 1).is_ok());
    assert!(mcu.ww(0x0200_0000, 1).is_ok());
    mcu.tick();
    // Only the highest-priority interrupt of the round lands in mip:
    // machine software beats machine timer.
    assert_eq!(mcu.cpu.get_csr(0x344).unwrap(), 1 << 3);
}

#[test]
fn load_store_roundtrip() {
    let mut mcu = mcu_with_ram();
    mcu.cpu.set_x(1, 0x100);
    mcu.cpu.set_x(2, 0xCAFE_BABE);
    Store::SW(SW { rs1: 1, rs2: 2, offset: 8 }).execute(&mut mcu).unwrap();
    Load::LW(LW { rd: 3, rs1: 1, imm: 8 }).execute(&mut mcu).unwrap();
    assert_eq!(mcu.cpu.get_x(3), 0xCAFE_BABE);
    // A byte load sign-extends.
    mcu.cpu.set_x(4, 0x80);
    Store::SB(SB { rs1: 1, rs2: 4, offset: 0 }).execute(&mut mcu).unwrap();
    Load::LB(LB { rd: 5, rs1: 1, imm: 0 }).execute(&mut mcu).unwrap();
    assert_eq!(mcu.cpu.get_x(5), 0xFFFF_FF80);
}

#[test]
fn signed_and_unsigned_compares() {
    let mut mcu = mcu_with_ram();
    // -1 is less than 1 signed, but not unsigned.
    mcu.cpu.set_x(1, 0xFFFF_FFFF);
    Immediate::SLTI(SLTI { rd: 2, rs1: 1, imm: 1 }).execute(&mut mcu).unwrap();
    assert_eq!(mcu.cpu.get_x(2), 1);
    Immediate::SLTIU(SLTIU { rd: 3, rs1: 1, imm: 1 }).execute(&mut mcu).unwrap();
    assert_eq!(mcu.cpu.get_x(3), 0);
    // The immediate is sign-extended before an unsigned compare: 2 < -1.
    mcu.cpu.set_x(4, 2);
    Immediate::SLTIU(SLTIU { rd: 5, rs1: 4, imm: 0xFFF }).execute(&mut mcu).unwrap();
    assert_eq!(mcu.cpu.get_x(5), 1);
}

#[test]
fn deferred_interrupt_changes_nothing() {
    let mut mcu = mcu_with_ram();
    assert!(mcu.ww(0, 0x0000_0013).is_ok());
    // Pending and enabled in mie, but mstatus.MIE clear: the instruction
    // runs instead of the trap.
    assert!(mcu.cpu.set_csr(0x344, 0x80).is_ok());
    assert!(mcu.cpu.set_csr(0x304, 0x80).is_ok());
    let r = mcu.tick();
    assert!(matches!(r, TickResult::Cycles(1)));
    assert_eq!(mcu.cpu.get_csr(0x342).unwrap(), 0);
    assert_eq!(mcu.cpu.pc, 4);
}

#[test]
fn uart_watermark_interrupt_reaches_mip() {
    let mut mcu = MCU::new();
    assert!(mcu
        .add_device(DeviceDef {
            identifier: 0,
            memory_start: 0x0C00_0000,
            memory_end: 0x0FFF_FFFF,
            device: Peripheral::PLIC(riscv_emu::plic::PLIC::new()),
        })
        .is_ok());
    let mut uart = riscv_emu::uart::UART::new();
    uart.set_interrupt_id(0b10000);
    assert!(mcu
        .add_device(DeviceDef {
            identifier: 1,
            memory_start: 0x1001_3000,
            memory_end: 0x1001_3FFF,
            device: Peripheral::UART(uart),
        })
        .is_ok());
    // Enable the UART source on the PLIC and the rx watermark interrupt.
    assert!(mcu.ww(0x0C00_2000, 0b10000).is_ok());
    assert!(mcu.ww(0x1001_300C, 1).is_ok());
    assert!(mcu.ww(0x1001_3010, 0b10).is_ok());
    // A host byte arrives; the next tick moves it into the rx FIFO, sets
    // the watermark bit, and the raised interrupt lands in mip with the
    // source stashed on the PLIC pending mask.
    mcu.uart_input(0x5A);
    mcu.tick();
    assert_eq!(mcu.cpu.get_csr(0x344).unwrap(), 1 << 11);
    assert_eq!(mcu.rw(0x0C00_1000).unwrap(), 0b10000);
    // The handler claims the source.
    assert_eq!(mcu.rw(0x0C00_0000 + 0x20_0004).unwrap(), 4);
    assert_eq!(mcu.rw(0x0C00_1000).unwrap(), 0);
}
