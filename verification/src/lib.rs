//! A cycle-paced, memory-mapped emulator core for a 32-bit RISC-V
//! micro-controller running the RV32I base integer instruction set plus the
//! machine-mode privileged subset (MRET, WFI) and the standard CSR
//! instructions.
//!
//! The crate models the instruction decoder and executor, the CPU state
//! (program counter, register file, CSRs), the memory bus with its
//! memory-mapped peripherals (CLINT, PLIC, UART, flash), the interrupt
//! controller, and the machine-control tick. Pacing, host terminal I/O and
//! file dumps are left to the embedding program.

pub mod clint;
pub mod cpu;
pub mod emulator;
pub mod exceptions;
pub mod flash;
pub mod format;
pub mod instructions;
pub mod interrupt_controller;
pub mod mcu;
pub mod memory;
pub mod mmu;
pub mod peripherals;
pub mod plic;
pub mod rom;
pub mod uart;
pub mod utils;
