//! UART: receive and transmit FIFOs, control registers, watermark interrupt
//! bits, and the interface to the host terminal.
//!
//! The host side is modeled as two byte queues owned by the device: the
//! embedding program feeds incoming terminal bytes into one and drains
//! outgoing bytes from the other between ticks, so the core itself never
//! touches host I/O.

use vstd::prelude::*;

use crate::exceptions::Interrupt;
use crate::interrupt_controller::InterruptController;
use crate::memory::MemoryError;

verus! {

/// UART state. Only word accesses are supported on its registers.
pub struct UART {
    /// Receive FIFO, oldest byte first.
    pub r_fifo: Vec<u8>,
    /// Transmit FIFO, oldest byte first.
    pub t_fifo: Vec<u8>,
    /// Receive control: bit 0 enables rx, bits 16..=17 are the watermark.
    pub rxctrl: u32,
    /// Transmit control: bit 0 enables tx, bits 16..=17 are the watermark.
    pub txctrl: u32,
    /// Interrupt enable.
    pub ie: u32,
    /// Interrupt pending (read-only through the bus).
    pub ip: u32,
    /// Baud rate divider.
    pub div: u32,
    /// The source bitmask this UART raises on the PLIC.
    pub interrupt_id: u32,
    /// Bytes from the host terminal not yet drained into the rx FIFO.
    pub host_in: Vec<u8>,
    /// Bytes sent to the host terminal not yet collected by the host.
    pub host_out: Vec<u8>,
}

impl UART {
    /// A fresh UART: empty FIFOs, zero registers, no source id assigned.
    pub fn new() -> (r: UART)
        ensures
            r.r_fifo@ == Seq::<u8>::empty(),
            r.t_fifo@ == Seq::<u8>::empty(),
            r.rxctrl == 0,
            r.txctrl == 0,
            r.ie == 0,
            r.ip == 0,
            r.div == 0,
            r.interrupt_id == 0,
            r.host_in@ == Seq::<u8>::empty(),
            r.host_out@ == Seq::<u8>::empty(),
    {
        let r = UART {
            r_fifo: Vec::new(),
            t_fifo: Vec::new(),
            rxctrl: 0,
            txctrl: 0,
            ie: 0,
            ip: 0,
            div: 0,
            interrupt_id: 0,
            host_in: Vec::new(),
            host_out: Vec::new(),
        };
        proof {
            assert(r.r_fifo@ =~= Seq::<u8>::empty());
            assert(r.t_fifo@ =~= Seq::<u8>::empty());
            assert(r.host_in@ =~= Seq::<u8>::empty());
            assert(r.host_out@ =~= Seq::<u8>::empty());
        }
        r
    }

    /// The register and FIFO state that the host-facing operations leave
    /// alone.
    pub open spec fn same_device_state(self, other: UART) -> bool {
        self.r_fifo@ == other.r_fifo@ && self.t_fifo@ == other.t_fifo@ && self.rxctrl
            == other.rxctrl && self.txctrl == other.txctrl && self.ie == other.ie && self.ip
            == other.ip && self.div == other.div
    }

    /// Assigns the PLIC source bitmask this UART raises.
    pub fn set_interrupt_id(&mut self, id: u32)
        ensures
            final(self).same_device_state(*old(self)),
            final(self).host_in@ == old(self).host_in@,
            final(self).host_out@ == old(self).host_out@,
            final(self).interrupt_id == id,
    {
        self.interrupt_id = id;
    }

    /// Queues a byte arriving from the host terminal.
    pub fn host_input(&mut self, byte: u8)
        ensures
            final(self).same_device_state(*old(self)),
            final(self).interrupt_id == old(self).interrupt_id,
            final(self).host_out@ == old(self).host_out@,
            final(self).host_in@ == old(self).host_in@.push(byte),
    {
        self.host_in.push(byte);
    }

    /// Takes the oldest byte the UART has sent to the host terminal, if any.
    pub fn host_output(&mut self) -> (r: Option<u8>)
        ensures
            final(self).same_device_state(*old(self)),
            final(self).interrupt_id == old(self).interrupt_id,
            final(self).host_in@ == old(self).host_in@,
            old(self).host_out@.len() == 0 ==> r == None::<u8> && final(self).host_out@ == old(self).host_out@,
            old(self).host_out@.len() > 0 ==> r == Some(old(self).host_out@[0]) && final(self).host_out@ == old(self).host_out@.drop_first(),
    {
        if self.host_out.len() > 0 {
            Some(self.host_out.remove(0))
        } else {
            None
        }
    }

    /// Pops the oldest received byte, or returns bit 31 set when the
    /// receive FIFO is empty.
    pub fn read(&mut self) -> (r: u32)
        ensures
            final(self).t_fifo@ == old(self).t_fifo@,
            final(self).rxctrl == old(self).rxctrl,
            final(self).txctrl == old(self).txctrl,
            final(self).ie == old(self).ie,
            final(self).ip == old(self).ip,
            final(self).div == old(self).div,
            final(self).interrupt_id == old(self).interrupt_id,
            final(self).host_in@ == old(self).host_in@,
            final(self).host_out@ == old(self).host_out@,
            old(self).r_fifo@.len() > 0 ==> r == old(self).r_fifo@[0] as u32 && final(self).r_fifo@ == old(self).r_fifo@.drop_first(),
            old(self).r_fifo@.len() == 0 ==> r == 0x8000_0000u32 && final(self).r_fifo@ == old(self).r_fifo@,
    {
        if self.r_fifo.len() > 0 {
            let b = self.r_fifo.remove(0);
            b as u32
        } else {
            0x8000_0000
        }
    }

    /// Enqueues a byte for transmission.
    pub fn write(&mut self, v: u8)
        ensures
            final(self).r_fifo@ == old(self).r_fifo@,
            final(self).rxctrl == old(self).rxctrl,
            final(self).txctrl == old(self).txctrl,
            final(self).ie == old(self).ie,
            final(self).ip == old(self).ip,
            final(self).div == old(self).div,
            final(self).interrupt_id == old(self).interrupt_id,
            final(self).host_in@ == old(self).host_in@,
            final(self).host_out@ == old(self).host_out@,
            final(self).t_fifo@ == old(self).t_fifo@.push(v),
    {
        self.t_fifo.push(v);
    }

    /// The interrupt-pending register.
    pub fn get_ip(&self) -> (r: u32)
        ensures
            r == self.ip,
    {
        self.ip
    }

    /// The ip register recomputed from the FIFO fill levels: bit 1 (rxwm)
    /// when the rx FIFO holds more than the rx watermark, bit 0 (txwm) when
    /// the tx FIFO holds fewer than the tx watermark.
    pub open spec fn spec_ip_after(self, rx_len: int, tx_len: int) -> u32 {
        let rxcnt = (self.rxctrl & 0x30000) >> 16;
        let txcnt = (self.txctrl & 0x30000) >> 16;
        let ip_rx = if rx_len > rxcnt { self.ip | 0x2u32 } else { self.ip & !0x2u32 };
        if tx_len < txcnt {
            ip_rx | 0x1u32
        } else {
            ip_rx & !0x1u32
        }
    }

    /// One clock step: when rx is enabled, one host byte moves into the rx
    /// FIFO; when tx is enabled, one byte leaves the tx FIFO for the host;
    /// the watermark bits are recomputed; and when any enabled interrupt is
    /// pending the UART raises an external interrupt with its source id.
    pub fn tick(&mut self, int_ctrl: &mut InterruptController)
        ensures
            final(self).rxctrl == old(self).rxctrl,
            final(self).txctrl == old(self).txctrl,
            final(self).ie == old(self).ie,
            final(self).div == old(self).div,
            final(self).interrupt_id == old(self).interrupt_id,
            ({
                let rx_taken = old(self).rxctrl & 0x1 != 0 && old(self).host_in@.len() > 0;
                let tx_sent = old(self).txctrl & 0x1 != 0 && old(self).t_fifo@.len() > 0;
                final(self).r_fifo@ == (if rx_taken {
                    old(self).r_fifo@.push(old(self).host_in@[0])
                } else {
                    old(self).r_fifo@
                }) && final(self).host_in@ == (if rx_taken {
                    old(self).host_in@.drop_first()
                } else {
                    old(self).host_in@
                }) && final(self).t_fifo@ == (if tx_sent {
                    old(self).t_fifo@.drop_first()
                } else {
                    old(self).t_fifo@
                }) && final(self).host_out@ == (if tx_sent {
                    old(self).host_out@.push(old(self).t_fifo@[0])
                } else {
                    old(self).host_out@
                }) && final(self).ip == old(self).spec_ip_after(
                    final(self).r_fifo@.len() as int,
                    final(self).t_fifo@.len() as int,
                ) && final(int_ctrl).interrupts@ == old(int_ctrl).interrupts@ && final(int_ctrl).requests@ == (if final(self).ip & old(self).ie != 0 {
                    old(int_ctrl).requests@.push(
                        (Interrupt::MExternalInterrupt, old(self).interrupt_id),
                    )
                } else {
                    old(int_ctrl).requests@
                })
            }),
    {
        if self.rxctrl & 0x1 != 0 && self.host_in.len() > 0 {
            let b = self.host_in.remove(0);
            self.r_fifo.push(b);
        }
        if self.txctrl & 0x1 != 0 && self.t_fifo.len() > 0 {
            let b = self.t_fifo.remove(0);
            self.host_out.push(b);
        }

        let rxcnt = (self.rxctrl & 0x30000) >> 16;
        if self.r_fifo.len() as u64 > rxcnt as u64 {
            self.ip = self.ip | 0x2;
        } else {
            self.ip = self.ip & !0x2u32;
        }
        let txcnt = (self.txctrl & 0x30000) >> 16;
        if (self.t_fifo.len() as u64) < txcnt as u64 {
            self.ip = self.ip | 0x1;
        } else {
            self.ip = self.ip & !0x1u32;
        }

        if self.ip & self.ie != 0 {
            int_ctrl.interrupt(Interrupt::MExternalInterrupt, self.interrupt_id);
        }
    }

    /// Reads a UART register. Reading rxdata pops the oldest received byte
    /// or returns bit 31 set when the FIFO is empty; reading txdata returns
    /// bit 31 set when the transmit FIFO is full.
    pub fn rw(&mut self, addr: u32) -> (r: Result<u32, MemoryError>)
        ensures
            final(self).t_fifo@ == old(self).t_fifo@,
            final(self).rxctrl == old(self).rxctrl,
            final(self).txctrl == old(self).txctrl,
            final(self).ie == old(self).ie,
            final(self).ip == old(self).ip,
            final(self).div == old(self).div,
            final(self).interrupt_id == old(self).interrupt_id,
            final(self).host_in@ == old(self).host_in@,
            final(self).host_out@ == old(self).host_out@,
            addr != 0x04 ==> final(self).r_fifo@ == old(self).r_fifo@,
            addr == 0x00 ==> r == Ok::<u32, MemoryError>(
                if old(self).t_fifo@.len() < 8 {
                    0u32
                } else {
                    0x8000_0000u32
                },
            ),
            addr == 0x04 && old(self).r_fifo@.len() > 0 ==> r == Ok::<u32, MemoryError>(
                old(self).r_fifo@[0] as u32,
            ) && final(self).r_fifo@ == old(self).r_fifo@.drop_first(),
            addr == 0x04 && old(self).r_fifo@.len() == 0 ==> r == Ok::<u32, MemoryError>(
                0x8000_0000u32,
            ) && final(self).r_fifo@ == old(self).r_fifo@,
            addr == 0x08 ==> r == Ok::<u32, MemoryError>(old(self).txctrl),
            addr == 0x0C ==> r == Ok::<u32, MemoryError>(old(self).rxctrl),
            addr == 0x10 ==> r == Ok::<u32, MemoryError>(old(self).ie),
            addr == 0x14 ==> r == Ok::<u32, MemoryError>(old(self).ip),
            addr == 0x18 ==> r == Ok::<u32, MemoryError>(old(self).div),
            addr != 0x00 && addr != 0x04 && addr != 0x08 && addr != 0x0C && addr != 0x10 && addr
                != 0x14 && addr != 0x18 ==> r == Err::<u32, MemoryError>(MemoryError::AccessFault),
    {
        if addr == 0x00 {
            Ok(if self.t_fifo.len() < 8 {
                0
            } else {
                0x8000_0000
            })
        } else if addr == 0x04 {
            Ok(self.read())
        } else if addr == 0x08 {
            Ok(self.txctrl)
        } else if addr == 0x0C {
            Ok(self.rxctrl)
        } else if addr == 0x10 {
            Ok(self.ie)
        } else if addr == 0x18 {
            Ok(self.div)
        } else if addr == 0x14 {
            Ok(self.ip)
        } else {
            Err(MemoryError::AccessFault)
        }
    }

    /// Writes a UART register. Writing txdata enqueues the low byte for
    /// transmission; writes to rxdata and ip are ignored.
    pub fn ww(&mut self, addr: u32, value: u32) -> (r: Result<(), MemoryError>)
        ensures
            final(self).r_fifo@ == old(self).r_fifo@,
            final(self).ip == old(self).ip,
            final(self).interrupt_id == old(self).interrupt_id,
            final(self).host_in@ == old(self).host_in@,
            final(self).host_out@ == old(self).host_out@,
            addr == 0x00 ==> r == Ok::<(), MemoryError>(()) && final(self).t_fifo@ == old(self).t_fifo@.push(value as u8) && final(self).rxctrl == old(self).rxctrl && final(self).txctrl == old(self).txctrl && final(self).ie == old(self).ie && final(self).div
                == old(self).div,
            addr == 0x04 || addr == 0x14 ==> r == Ok::<(), MemoryError>(()) && final(self).t_fifo@
                == old(self).t_fifo@ && final(self).rxctrl == old(self).rxctrl && final(self).txctrl
                == old(self).txctrl && final(self).ie == old(self).ie && final(self).div == old(self).div,
            addr == 0x08 ==> r == Ok::<(), MemoryError>(()) && final(self).txctrl == value && final(self).t_fifo@ == old(self).t_fifo@ && final(self).rxctrl == old(self).rxctrl && final(self).ie == old(self).ie && final(self).div == old(self).div,
            addr == 0x0C ==> r == Ok::<(), MemoryError>(()) && final(self).rxctrl == value && final(self).t_fifo@ == old(self).t_fifo@ && final(self).txctrl == old(self).txctrl && final(self).ie == old(self).ie && final(self).div == old(self).div,
            addr == 0x10 ==> r == Ok::<(), MemoryError>(()) && final(self).ie == value && final(self).t_fifo@ == old(self).t_fifo@ && final(self).rxctrl == old(self).rxctrl && final(self).txctrl == old(self).txctrl && final(self).div == old(self).div,
            addr == 0x18 ==> r == Ok::<(), MemoryError>(()) && final(self).div == value && final(self).t_fifo@ == old(self).t_fifo@ && final(self).rxctrl == old(self).rxctrl && final(self).txctrl == old(self).txctrl && final(self).ie == old(self).ie,
            addr != 0x00 && addr != 0x04 && addr != 0x08 && addr != 0x0C && addr != 0x10 && addr
                != 0x14 && addr != 0x18 ==> r == Err::<(), MemoryError>(MemoryError::AccessFault)
                && final(self).t_fifo@ == old(self).t_fifo@ && final(self).rxctrl == old(self).rxctrl && final(self).txctrl == old(self).txctrl && final(self).ie == old(self).ie
                && final(self).div == old(self).div,
    {
        if addr == 0x00 {
            self.write(#[verifier::truncate] (value as u8));
            Ok(())
        } else if addr == 0x04 {
            Ok(())
        } else if addr == 0x08 {
            self.txctrl = value;
            Ok(())
        } else if addr == 0x0C {
            self.rxctrl = value;
            Ok(())
        } else if addr == 0x10 {
            self.ie = value;
            Ok(())
        } else if addr == 0x14 {
            Ok(())
        } else if addr == 0x18 {
            self.div = value;
            Ok(())
        } else {
            Err(MemoryError::AccessFault)
        }
    }
}

} // verus!
