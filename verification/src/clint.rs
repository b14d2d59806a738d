//! Core-local interruptor: the machine timer (mtime/mtimecmp) and the
//! software-interrupt latch (msip0).

use vstd::prelude::*;

use crate::exceptions::Interrupt;
use crate::interrupt_controller::InterruptController;
use crate::memory::MemoryError;

verus! {

/// CLINT state. Only word accesses are supported on its registers.
pub struct CLINT {
    /// Software-interrupt latch: any non-zero value is pending.
    pub msip0: u32,
    /// Timer compare value; 0 disarms the timer.
    pub mtimecmp: u64,
    /// Free-running counter, one step per tick.
    pub mtime: u64,
}

impl CLINT {
    /// A fresh CLINT with all registers zero.
    pub fn new() -> (r: CLINT)
        ensures
            r.msip0 == 0,
            r.mtimecmp == 0,
            r.mtime == 0,
    {
        CLINT { msip0: 0, mtimecmp: 0, mtime: 0 }
    }

    /// One clock step: mtime advances by 1; then a timer interrupt is raised
    /// if the timer is armed and expired, and a software interrupt if msip0
    /// is set.
    pub fn tick(&mut self, int_ctrl: &mut InterruptController)
        ensures
            final(self).msip0 == old(self).msip0,
            final(self).mtimecmp == old(self).mtimecmp,
            final(self).mtime == (old(self).mtime + 1) % 0x1_0000_0000_0000_0000,
            final(int_ctrl).interrupts@ == old(int_ctrl).interrupts@,
            final(int_ctrl).requests@ == ({
                let t = final(self).mtime;
                let after_timer: Seq<(Interrupt, u32)> = if old(self).mtimecmp != 0 && t >= old(self).mtimecmp {
                    old(int_ctrl).requests@.push((Interrupt::MTimerInterrupt, 0u32))
                } else {
                    old(int_ctrl).requests@
                };
                if old(self).msip0 > 0 {
                    after_timer.push((Interrupt::MSoftInterrupt, old(self).msip0))
                } else {
                    after_timer
                }
            }),
    {
        self.mtime = self.mtime.wrapping_add(1);

        if self.mtimecmp != 0 && self.mtime >= self.mtimecmp {
            int_ctrl.interrupt(Interrupt::MTimerInterrupt, 0);
        }
        if self.msip0 > 0 {
            int_ctrl.interrupt(Interrupt::MSoftInterrupt, self.msip0);
        }
    }

    /// Reads a CLINT register.
    pub fn rw(&self, addr: u32) -> (r: Result<u32, MemoryError>)
        ensures
            addr == 0 ==> r == Ok::<u32, MemoryError>(self.msip0),
            addr == 0x4000 ==> r == Ok::<u32, MemoryError>(self.mtimecmp as u32),
            addr == 0x4004 ==> r == Ok::<u32, MemoryError>((self.mtimecmp >> 32) as u32),
            addr == 0xbff8 ==> r == Ok::<u32, MemoryError>(self.mtime as u32),
            addr == 0xbffc ==> r == Ok::<u32, MemoryError>((self.mtime >> 32) as u32),
            addr != 0 && addr != 0x4000 && addr != 0x4004 && addr != 0xbff8 && addr != 0xbffc ==> r
                == Err::<u32, MemoryError>(MemoryError::AccessFault),
    {
        if addr == 0 {
            Ok(self.msip0)
        } else if addr == 0x4000 {
            Ok(#[verifier::truncate] (self.mtimecmp as u32))
        } else if addr == 0x4004 {
            Ok(#[verifier::truncate] ((self.mtimecmp >> 32) as u32))
        } else if addr == 0xbff8 {
            Ok(#[verifier::truncate] (self.mtime as u32))
        } else if addr == 0xbffc {
            Ok(#[verifier::truncate] ((self.mtime >> 32) as u32))
        } else {
            Err(MemoryError::AccessFault)
        }
    }

    /// Writes a CLINT register: msip0, the two mtimecmp halves; writes to
    /// mtime are ignored.
    pub fn ww(&mut self, addr: u32, value: u32) -> (r: Result<(), MemoryError>)
        ensures
            final(self).mtime == old(self).mtime,
            addr == 0 ==> r == Ok::<(), MemoryError>(()) && final(self).msip0 == value && final(self).mtimecmp == old(self).mtimecmp,
            addr == 0x4000 ==> r == Ok::<(), MemoryError>(()) && final(self).msip0 == old(self).msip0 && final(self).mtimecmp == ((old(self).mtimecmp & !0xffff_ffffu64) | (
            value as u64)),
            addr == 0x4004 ==> r == Ok::<(), MemoryError>(()) && final(self).msip0 == old(self).msip0 && final(self).mtimecmp == ((old(self).mtimecmp & 0xffff_ffffu64) | ((
            value as u64) << 32)),
            addr == 0xbff8 || addr == 0xbffc ==> r == Ok::<(), MemoryError>(()) && final(self).msip0
                == old(self).msip0 && final(self).mtimecmp == old(self).mtimecmp,
            addr != 0 && addr != 0x4000 && addr != 0x4004 && addr != 0xbff8 && addr != 0xbffc ==> r
                == Err::<(), MemoryError>(MemoryError::AccessFault) && final(self).msip0 == old(self).msip0 && final(self).mtimecmp == old(self).mtimecmp,
    {
        if addr == 0 {
            self.msip0 = value;
            Ok(())
        } else if addr == 0x4000 {
            self.mtimecmp = (self.mtimecmp & !0xffff_ffffu64) | (value as u64);
            Ok(())
        } else if addr == 0x4004 {
            self.mtimecmp = (self.mtimecmp & 0xffff_ffffu64) | ((value as u64) << 32);
            Ok(())
        } else if addr == 0xbff8 || addr == 0xbffc {
            Ok(())
        } else {
            Err(MemoryError::AccessFault)
        }
    }
}

} // verus!
