//! The closed set of memory-mapped devices a bus region can own, with the
//! dispatch of bus accesses and clock ticks to the matched device.
//!
//! Each access is described by a relation between the device state before
//! and after the access; the MCU bus quotes these relations in its own
//! contracts.

use vstd::prelude::*;

use crate::clint::CLINT;
use crate::interrupt_controller::InterruptController;
use crate::memory::{GenericMemory, MemoryError, spec_halfword_at, spec_word_at};
use crate::plic::PLIC;
use crate::uart::UART;

verus! {

/// A device that can be mapped on the bus.
pub enum Peripheral {
    FLASH(GenericMemory),
    CLINT(CLINT),
    PLIC(PLIC),
    UART(UART),
}

impl Peripheral {
    /// The payload of the device is well-formed.
    pub open spec fn wf(self) -> bool {
        match self {
            Peripheral::FLASH(m) => m.wf(),
            Peripheral::CLINT(_) => true,
            Peripheral::PLIC(p) => p.wf(),
            Peripheral::UART(_) => true,
        }
    }

    /// The device keeps its kind across an access.
    pub open spec fn same_kind(self, other: Peripheral) -> bool {
        match (self, other) {
            (Peripheral::FLASH(_), Peripheral::FLASH(_)) => true,
            (Peripheral::CLINT(_), Peripheral::CLINT(_)) => true,
            (Peripheral::PLIC(_), Peripheral::PLIC(_)) => true,
            (Peripheral::UART(_), Peripheral::UART(_)) => true,
            _ => false,
        }
    }

    /// What a byte read returns: only the flash buffer supports them.
    pub open spec fn spec_rb(self, addr: u32) -> Result<u8, MemoryError> {
        match self {
            Peripheral::FLASH(m) => if m.in_bounds(addr, 1) {
                Ok(m.bytes()[addr as int])
            } else {
                Err(MemoryError::AccessFault)
            },
            _ => Err(MemoryError::AccessFault),
        }
    }

    /// What a halfword read returns: only the flash buffer supports them.
    pub open spec fn spec_rhw(self, addr: u32) -> Result<u16, MemoryError> {
        match self {
            Peripheral::FLASH(m) => if m.in_bounds(addr, 2) {
                Ok(spec_halfword_at(m.bytes(), addr as int))
            } else {
                Err(MemoryError::AccessFault)
            },
            _ => Err(MemoryError::AccessFault),
        }
    }

    /// Reads a byte from the device.
    pub fn rb(&self, addr: u32) -> (r: Result<u8, MemoryError>)
        requires
            self.wf(),
        ensures
            r == self.spec_rb(addr),
    {
        match self {
            Peripheral::FLASH(m) => m.rb(addr),
            _ => Err(MemoryError::AccessFault),
        }
    }

    /// Reads a halfword from the device.
    pub fn rhw(&self, addr: u32) -> (r: Result<u16, MemoryError>)
        requires
            self.wf(),
        ensures
            r == self.spec_rhw(addr),
    {
        match self {
            Peripheral::FLASH(m) => m.rhw(addr),
            _ => Err(MemoryError::AccessFault),
        }
    }

    /// How a word read changes the device and what it returns.
    pub open spec fn rw_rel(pre: Peripheral, post: Peripheral, addr: u32, r: Result<
        u32,
        MemoryError,
    >) -> bool {
        match (pre, post) {
            (Peripheral::FLASH(m0), Peripheral::FLASH(m1)) => m1 == m0 && r == (if m0.in_bounds(
                addr,
                4,
            ) {
                Ok::<u32, MemoryError>(spec_word_at(m0.bytes(), addr as int))
            } else {
                Err::<u32, MemoryError>(MemoryError::AccessFault)
            }),
            (Peripheral::CLINT(c0), Peripheral::CLINT(c1)) => c1 == c0 && r == (if addr == 0 {
                Ok::<u32, MemoryError>(c0.msip0)
            } else if addr == 0x4000 {
                Ok::<u32, MemoryError>(c0.mtimecmp as u32)
            } else if addr == 0x4004 {
                Ok::<u32, MemoryError>((c0.mtimecmp >> 32) as u32)
            } else if addr == 0xbff8 {
                Ok::<u32, MemoryError>(c0.mtime as u32)
            } else if addr == 0xbffc {
                Ok::<u32, MemoryError>((c0.mtime >> 32) as u32)
            } else {
                Err::<u32, MemoryError>(MemoryError::AccessFault)
            }),
            (Peripheral::PLIC(p0), Peripheral::PLIC(p1)) => p1.source_priority@
                == p0.source_priority@ && p1.h0mie == p0.h0mie && p1.h0mpt == p0.h0mpt && (addr
                != 0x20_0004 ==> p1.pending == p0.pending) && (0x4 <= addr < 0xd4 ==> r == Ok::<
                u32,
                MemoryError,
            >(p0.source_priority@[((addr - 4) / 4) as int])) && (addr == 0x1000 ==> r == Ok::<
                u32,
                MemoryError,
            >(p0.pending as u32)) && (addr == 0x1004 ==> r == Ok::<u32, MemoryError>(
                (p0.pending >> 32) as u32,
            )) && (addr == 0x2000 ==> r == Ok::<u32, MemoryError>(p0.h0mie as u32)) && (addr
                == 0x2004 ==> r == Ok::<u32, MemoryError>((p0.h0mie >> 32) as u32)) && (addr
                == 0x20_0000 ==> r == Ok::<u32, MemoryError>(p0.h0mpt)) && (addr == 0x20_0004 ==> (
            r matches Ok(c) && ((exists|i: int| p0.spec_eligible(i)) ==> p0.spec_eligible(c as int)
                && (forall|j: int|
                p0.spec_eligible(j) && j != c ==> p0.spec_claim_before(j, c as int)) && p1.pending
                == p0.pending & !(1u64 << (c as u64))) && (!(exists|i: int| p0.spec_eligible(i))
                ==> c == 0 && p1.pending == p0.pending))) && (!(0x4 <= addr < 0xd4) && addr != 0x1000 && addr != 0x1004 && addr
                != 0x2000 && addr != 0x2004 && addr != 0x20_0000 && addr != 0x20_0004 ==> r == Err::<
                u32,
                MemoryError,
            >(MemoryError::AccessFault)),
            (Peripheral::UART(u0), Peripheral::UART(u1)) => u1.t_fifo@ == u0.t_fifo@ && u1.rxctrl
                == u0.rxctrl && u1.txctrl == u0.txctrl && u1.ie == u0.ie && u1.ip == u0.ip && u1.div
                == u0.div && u1.interrupt_id == u0.interrupt_id && u1.host_in@ == u0.host_in@
                && u1.host_out@ == u0.host_out@ && (addr != 0x04 ==> u1.r_fifo@ == u0.r_fifo@) && (
            addr == 0x00 ==> r == Ok::<u32, MemoryError>(
                if u0.t_fifo@.len() < 8 {
                    0u32
                } else {
                    0x8000_0000u32
                },
            )) && (addr == 0x04 && u0.r_fifo@.len() > 0 ==> r == Ok::<u32, MemoryError>(
                u0.r_fifo@[0] as u32,
            ) && u1.r_fifo@ == u0.r_fifo@.drop_first()) && (addr == 0x04 && u0.r_fifo@.len() == 0
                ==> r == Ok::<u32, MemoryError>(0x8000_0000u32) && u1.r_fifo@ == u0.r_fifo@) && (
            addr == 0x08 ==> r == Ok::<u32, MemoryError>(u0.txctrl)) && (addr == 0x0C ==> r == Ok::<
                u32,
                MemoryError,
            >(u0.rxctrl)) && (addr == 0x10 ==> r == Ok::<u32, MemoryError>(u0.ie)) && (addr == 0x14
                ==> r == Ok::<u32, MemoryError>(u0.ip)) && (addr == 0x18 ==> r == Ok::<
                u32,
                MemoryError,
            >(u0.div)) && (addr != 0x00 && addr != 0x04 && addr != 0x08 && addr != 0x0C && addr
                != 0x10 && addr != 0x14 && addr != 0x18 ==> r == Err::<u32, MemoryError>(
                MemoryError::AccessFault,
            )),
            _ => false,
        }
    }

    /// Reads a word from the device; PLIC and UART reads can have side
    /// effects (claim, rx pop).
    pub fn rw(&mut self, addr: u32) -> (r: Result<u32, MemoryError>)
        requires
            old(self).wf(),
        ensures
            final(self).wf(),
            Peripheral::rw_rel(*old(self), *final(self), addr, r),
    {
        match self {
            Peripheral::FLASH(m) => m.rw(addr),
            Peripheral::CLINT(c) => c.rw(addr),
            Peripheral::PLIC(p) => p.rw(addr),
            Peripheral::UART(u) => u.rw(addr),
        }
    }

    /// How a byte write changes the device: only the flash buffer accepts
    /// them.
    pub open spec fn wb_rel(pre: Peripheral, post: Peripheral, addr: u32, value: u8, r: Result<
        (),
        MemoryError,
    >) -> bool {
        match (pre, post) {
            (Peripheral::FLASH(m0), Peripheral::FLASH(m1)) => m1.spec_read_only()
                == m0.spec_read_only() && (m0.spec_read_only() || !m0.in_bounds(addr, 1) ==> r
                == Err::<(), MemoryError>(MemoryError::AccessFault) && m1.bytes() == m0.bytes()) && (
            !m0.spec_read_only() && m0.in_bounds(addr, 1) ==> r == Ok::<(), MemoryError>(())
                && m1.bytes() == m0.bytes().update(addr as int, value)),
            (p0, p1) => p1 == p0 && r == Err::<(), MemoryError>(MemoryError::AccessFault),
        }
    }

    /// Writes a byte to the device.
    pub fn wb(&mut self, addr: u32, value: u8) -> (r: Result<(), MemoryError>)
        requires
            old(self).wf(),
        ensures
            final(self).wf(),
            Peripheral::wb_rel(*old(self), *final(self), addr, value, r),
    {
        match self {
            Peripheral::FLASH(m) => m.wb(addr, value),
            _ => Err(MemoryError::AccessFault),
        }
    }

    /// How a halfword write changes the device: flash only.
    pub open spec fn whw_rel(pre: Peripheral, post: Peripheral, addr: u32, value: u16, r: Result<
        (),
        MemoryError,
    >) -> bool {
        match (pre, post) {
            (Peripheral::FLASH(m0), Peripheral::FLASH(m1)) => m1.spec_read_only()
                == m0.spec_read_only() && (m0.spec_read_only() || !m0.in_bounds(addr, 2) ==> r
                == Err::<(), MemoryError>(MemoryError::AccessFault) && m1.bytes() == m0.bytes()) && (
            !m0.spec_read_only() && m0.in_bounds(addr, 2) ==> r == Ok::<(), MemoryError>(())
                && m1.bytes() == m0.bytes().update(addr as int, value as u8).update(
                addr + 1,
                (value >> 8) as u8,
            )),
            (p0, p1) => p1 == p0 && r == Err::<(), MemoryError>(MemoryError::AccessFault),
        }
    }

    /// Writes a halfword to the device.
    pub fn whw(&mut self, addr: u32, value: u16) -> (r: Result<(), MemoryError>)
        requires
            old(self).wf(),
        ensures
            final(self).wf(),
            Peripheral::whw_rel(*old(self), *final(self), addr, value, r),
    {
        match self {
            Peripheral::FLASH(m) => m.whw(addr, value),
            _ => Err(MemoryError::AccessFault),
        }
    }

    /// How a word write changes the device.
    pub open spec fn ww_rel(pre: Peripheral, post: Peripheral, addr: u32, value: u32, r: Result<
        (),
        MemoryError,
    >) -> bool {
        match (pre, post) {
            (Peripheral::FLASH(m0), Peripheral::FLASH(m1)) => m1.spec_read_only()
                == m0.spec_read_only() && (m0.spec_read_only() || !m0.in_bounds(addr, 4) ==> r
                == Err::<(), MemoryError>(MemoryError::AccessFault) && m1.bytes() == m0.bytes()) && (
            !m0.spec_read_only() && m0.in_bounds(addr, 4) ==> r == Ok::<(), MemoryError>(())
                && m1.bytes() == m0.bytes().update(addr as int, value as u8).update(
                addr + 1,
                (value >> 8) as u8,
            ).update(addr + 2, (value >> 16) as u8).update(addr + 3, (value >> 24) as u8)),
            (Peripheral::CLINT(c0), Peripheral::CLINT(c1)) => c1.mtime == c0.mtime && (addr == 0
                ==> r == Ok::<(), MemoryError>(()) && c1.msip0 == value && c1.mtimecmp
                == c0.mtimecmp) && (addr == 0x4000 ==> r == Ok::<(), MemoryError>(()) && c1.msip0
                == c0.msip0 && c1.mtimecmp == ((c0.mtimecmp & !0xffff_ffffu64) | (value as u64))) && (
            addr == 0x4004 ==> r == Ok::<(), MemoryError>(()) && c1.msip0 == c0.msip0 && c1.mtimecmp
                == ((c0.mtimecmp & 0xffff_ffffu64) | ((value as u64) << 32))) && (addr == 0xbff8
                || addr == 0xbffc ==> r == Ok::<(), MemoryError>(()) && c1.msip0 == c0.msip0
                && c1.mtimecmp == c0.mtimecmp) && (addr != 0 && addr != 0x4000 && addr != 0x4004
                && addr != 0xbff8 && addr != 0xbffc ==> r == Err::<(), MemoryError>(
                MemoryError::AccessFault,
            ) && c1.msip0 == c0.msip0 && c1.mtimecmp == c0.mtimecmp),
            (Peripheral::PLIC(p0), Peripheral::PLIC(p1)) => p1.pending == p0.pending && (0x4 <= addr
                < 0xd4 ==> r == Ok::<(), MemoryError>(()) && p1.source_priority@
                == p0.source_priority@.update(((addr - 4) / 4) as int, value) && p1.h0mie
                == p0.h0mie && p1.h0mpt == p0.h0mpt) && (addr == 0x1000 || addr == 0x1004 || addr
                == 0x20_0004 ==> r == Ok::<(), MemoryError>(()) && p1.source_priority@
                == p0.source_priority@ && p1.h0mie == p0.h0mie && p1.h0mpt == p0.h0mpt) && (addr
                == 0x2000 ==> r == Ok::<(), MemoryError>(()) && p1.h0mie == ((p0.h0mie
                & !0xffff_ffffu64) | (value as u64)) && p1.source_priority@ == p0.source_priority@
                && p1.h0mpt == p0.h0mpt) && (addr == 0x2004 ==> r == Ok::<(), MemoryError>(())
                && p1.h0mie == ((p0.h0mie & 0xffff_ffffu64) | ((value as u64) << 32))
                && p1.source_priority@ == p0.source_priority@ && p1.h0mpt == p0.h0mpt) && (addr
                == 0x20_0000 ==> r == Ok::<(), MemoryError>(()) && p1.h0mpt == value
                && p1.source_priority@ == p0.source_priority@ && p1.h0mie == p0.h0mie) && (!(0x4
                <= addr < 0xd4) && addr != 0x1000 && addr != 0x1004 && addr != 0x2000 && addr
                != 0x2004 && addr != 0x20_0000 && addr != 0x20_0004 ==> r == Err::<(), MemoryError>(
                MemoryError::AccessFault,
            ) && p1.source_priority@ == p0.source_priority@ && p1.h0mie == p0.h0mie && p1.h0mpt
                == p0.h0mpt),
            (Peripheral::UART(u0), Peripheral::UART(u1)) => u1.r_fifo@ == u0.r_fifo@ && u1.ip
                == u0.ip && u1.interrupt_id == u0.interrupt_id && u1.host_in@ == u0.host_in@
                && u1.host_out@ == u0.host_out@ && (addr == 0x00 ==> r == Ok::<(), MemoryError>(())
                && u1.t_fifo@ == u0.t_fifo@.push(value as u8) && u1.rxctrl == u0.rxctrl && u1.txctrl
                == u0.txctrl && u1.ie == u0.ie && u1.div == u0.div) && (addr == 0x04 || addr == 0x14
                ==> r == Ok::<(), MemoryError>(()) && u1.t_fifo@ == u0.t_fifo@ && u1.rxctrl
                == u0.rxctrl && u1.txctrl == u0.txctrl && u1.ie == u0.ie && u1.div == u0.div) && (
            addr == 0x08 ==> r == Ok::<(), MemoryError>(()) && u1.txctrl == value && u1.t_fifo@
                == u0.t_fifo@ && u1.rxctrl == u0.rxctrl && u1.ie == u0.ie && u1.div == u0.div) && (
            addr == 0x0C ==> r == Ok::<(), MemoryError>(()) && u1.rxctrl == value && u1.t_fifo@
                == u0.t_fifo@ && u1.txctrl == u0.txctrl && u1.ie == u0.ie && u1.div == u0.div) && (
            addr == 0x10 ==> r == Ok::<(), MemoryError>(()) && u1.ie == value && u1.t_fifo@
                == u0.t_fifo@ && u1.rxctrl == u0.rxctrl && u1.txctrl == u0.txctrl && u1.div
                == u0.div) && (addr == 0x18 ==> r == Ok::<(), MemoryError>(()) && u1.div == value
                && u1.t_fifo@ == u0.t_fifo@ && u1.rxctrl == u0.rxctrl && u1.txctrl == u0.txctrl
                && u1.ie == u0.ie) && (addr != 0x00 && addr != 0x04 && addr != 0x08 && addr != 0x0C
                && addr != 0x10 && addr != 0x14 && addr != 0x18 ==> r == Err::<(), MemoryError>(
                MemoryError::AccessFault,
            ) && u1.t_fifo@ == u0.t_fifo@ && u1.rxctrl == u0.rxctrl && u1.txctrl == u0.txctrl
                && u1.ie == u0.ie && u1.div == u0.div),
            _ => false,
        }
    }

    /// Writes a word to the device.
    pub fn ww(&mut self, addr: u32, value: u32) -> (r: Result<(), MemoryError>)
        requires
            old(self).wf(),
        ensures
            final(self).wf(),
            Peripheral::ww_rel(*old(self), *final(self), addr, value, r),
    {
        match self {
            Peripheral::FLASH(m) => m.ww(addr, value),
            Peripheral::CLINT(c) => c.ww(addr, value),
            Peripheral::PLIC(p) => p.ww(addr, value),
            Peripheral::UART(u) => u.ww(addr, value),
        }
    }

    /// How one clock step changes the device and what it raises: the flash
    /// and the PLIC are not clocked, the CLINT steps its timer, the UART
    /// moves host bytes and recomputes its watermark bits.
    pub open spec fn tick_rel(
        pre: Peripheral,
        post: Peripheral,
        reqs_pre: Seq<(crate::exceptions::Interrupt, u32)>,
        reqs_post: Seq<(crate::exceptions::Interrupt, u32)>,
    ) -> bool {
        match (pre, post) {
            (Peripheral::FLASH(m0), Peripheral::FLASH(m1)) => m1 == m0 && reqs_post == reqs_pre,
            (Peripheral::PLIC(p0), Peripheral::PLIC(p1)) => p1 == p0 && reqs_post == reqs_pre,
            (Peripheral::CLINT(c0), Peripheral::CLINT(c1)) => c1.msip0 == c0.msip0 && c1.mtimecmp
                == c0.mtimecmp && c1.mtime == (c0.mtime + 1) % 0x1_0000_0000_0000_0000 && reqs_post
                == ({
                let after_timer: Seq<(crate::exceptions::Interrupt, u32)> = if c0.mtimecmp != 0
                    && c1.mtime >= c0.mtimecmp {
                    reqs_pre.push((crate::exceptions::Interrupt::MTimerInterrupt, 0u32))
                } else {
                    reqs_pre
                };
                if c0.msip0 > 0 {
                    after_timer.push((crate::exceptions::Interrupt::MSoftInterrupt, c0.msip0))
                } else {
                    after_timer
                }
            }),
            (Peripheral::UART(u0), Peripheral::UART(u1)) => u1.rxctrl == u0.rxctrl && u1.txctrl
                == u0.txctrl && u1.ie == u0.ie && u1.div == u0.div && u1.interrupt_id
                == u0.interrupt_id && ({
                let rx_taken = u0.rxctrl & 0x1 != 0 && u0.host_in@.len() > 0;
                let tx_sent = u0.txctrl & 0x1 != 0 && u0.t_fifo@.len() > 0;
                u1.r_fifo@ == (if rx_taken {
                    u0.r_fifo@.push(u0.host_in@[0])
                } else {
                    u0.r_fifo@
                }) && u1.host_in@ == (if rx_taken {
                    u0.host_in@.drop_first()
                } else {
                    u0.host_in@
                }) && u1.t_fifo@ == (if tx_sent {
                    u0.t_fifo@.drop_first()
                } else {
                    u0.t_fifo@
                }) && u1.host_out@ == (if tx_sent {
                    u0.host_out@.push(u0.t_fifo@[0])
                } else {
                    u0.host_out@
                }) && u1.ip == u0.spec_ip_after(u1.r_fifo@.len() as int, u1.t_fifo@.len() as int)
                    && reqs_post == (if u1.ip & u0.ie != 0 {
                    reqs_pre.push((crate::exceptions::Interrupt::MExternalInterrupt, u0.interrupt_id))
                } else {
                    reqs_pre
                })
            }),
            _ => false,
        }
    }

    /// Every device keeps its own kind.
    pub proof fn lemma_same_kind_refl(d: Peripheral)
        ensures
            d.same_kind(d),
    {
    }

    /// Whether a tick of the device in this state raises the given
    /// interrupt: the CLINT raises the timer interrupt when armed and
    /// expired and the software interrupt when its latch is set; the UART
    /// raises an external interrupt when an enabled watermark bit is
    /// pending after the tick.
    pub open spec fn spec_device_raises(d: Peripheral, i: crate::exceptions::Interrupt) -> bool {
        match d {
            Peripheral::CLINT(c) => (i == crate::exceptions::Interrupt::MTimerInterrupt
                && c.mtimecmp != 0 && ((c.mtime + 1) % 0x1_0000_0000_0000_0000) >= c.mtimecmp) || (
            i == crate::exceptions::Interrupt::MSoftInterrupt && c.msip0 > 0),
            Peripheral::UART(u) => ({
                let rx_taken = u.rxctrl & 0x1 != 0 && u.host_in@.len() > 0;
                let tx_sent = u.txctrl & 0x1 != 0 && u.t_fifo@.len() > 0;
                let rlen: int = if rx_taken {
                    u.r_fifo@.len() + 1int
                } else {
                    u.r_fifo@.len() as int
                };
                let tlen: int = if tx_sent {
                    u.t_fifo@.len() - 1int
                } else {
                    u.t_fifo@.len() as int
                };
                i == crate::exceptions::Interrupt::MExternalInterrupt && (u.spec_ip_after(
                    rlen,
                    tlen,
                ) & u.ie != 0)
            }),
            _ => false,
        }
    }

    /// Whatever a tick appends to the request list was raised by the ticked
    /// device, and the requests already there stay in place.
    pub proof fn lemma_tick_raises(
        pre: Peripheral,
        post: Peripheral,
        reqs_pre: Seq<(crate::exceptions::Interrupt, u32)>,
        reqs_post: Seq<(crate::exceptions::Interrupt, u32)>,
    )
        requires
            Peripheral::tick_rel(pre, post, reqs_pre, reqs_post),
        ensures
            reqs_post.len() >= reqs_pre.len(),
            forall|j: int| 0 <= j < reqs_pre.len() ==> #[trigger] reqs_post[j] == reqs_pre[j],
            forall|j: int|
                reqs_pre.len() <= j < reqs_post.len() ==> Peripheral::spec_device_raises(
                    pre,
                    (#[trigger] reqs_post[j]).0,
                ),
    {
        match (pre, post) {
            (Peripheral::CLINT(c0), Peripheral::CLINT(c1)) => {},
            (Peripheral::UART(u0), Peripheral::UART(u1)) => {},
            _ => {},
        }
    }

    /// The device states are related by one clock step, whatever requests it
    /// raised.
    pub open spec fn spec_ticked(pre: Peripheral, post: Peripheral) -> bool {
        exists|ra: Seq<(crate::exceptions::Interrupt, u32)>, rb: Seq<(crate::exceptions::Interrupt, u32)>|
            #[trigger] Peripheral::tick_rel(pre, post, ra, rb)
    }

    /// One clock step of the device; interrupts it raises go to the
    /// controller as requests.
    pub fn tick(&mut self, int_ctrl: &mut InterruptController)
        requires
            old(self).wf(),
        ensures
            final(self).wf(),
            final(int_ctrl).interrupts@ == old(int_ctrl).interrupts@,
            Peripheral::tick_rel(
                *old(self),
                *final(self),
                old(int_ctrl).requests@,
                final(int_ctrl).requests@,
            ),
    {
        match self {
            Peripheral::FLASH(_) => {},
            Peripheral::PLIC(_) => {},
            Peripheral::CLINT(c) => c.tick(int_ctrl),
            Peripheral::UART(u) => u.tick(int_ctrl),
        }
    }
}

} // verus!
