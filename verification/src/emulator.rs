//! The pacing wrapper around the MCU: one `step` either consumes one unit
//! of pending work (the host sleeps a clock period for it) or advances the
//! machine one tick and interprets the result.
//!
//! The loop that actually sleeps, writes dump files and bridges the host
//! terminal lives in the embedding program; the core itself never blocks.

use vstd::prelude::*;

use crate::exceptions::Interrupt;
use crate::instructions::wadd;
use crate::mcu::{DeviceDef, MCU, TickResult};
use crate::memory::MemoryError;

verus! {

/// Options for the emulator: the simulated clock rate in hertz. Where the
/// dump files go and how the host terminal is bridged is the embedding
/// program's business.
#[derive(Debug, Clone, Copy, PartialEq, Eq, Structural)]
pub struct EmulatorOpts {
    pub speed: u32,
}

/// What the host should do after one emulator step.
#[derive(Debug, Clone, Copy, PartialEq, Eq, Structural)]
pub enum StepAction {
    /// Sleep one clock period, then step again.
    Sleep,
    /// The guest executed the halt sentinel: stop with success.
    Halted,
    /// Serialize the inclusive byte range, then step again.
    DumpRange(u32, u32),
    /// Step again without sleeping.
    Continue,
}

/// The pacing wrapper: the MCU, the clock rate, and the work not yet slept
/// off.
pub struct Emulator {
    pub mcu: MCU,
    pub speed: u32,
    pub pending_work: u32,
    pub cycles: u32,
}

impl Emulator {
    /// The machine is well-formed and no raised interrupts are waiting
    /// between ticks.
    pub open spec fn wf(self) -> bool {
        self.mcu.wf() && self.mcu.int_ctrl.requests@ == Seq::<(Interrupt, u32)>::empty()
    }

    /// A fresh emulator around a fresh MCU.
    pub fn new(opts: EmulatorOpts) -> (r: Emulator)
        ensures
            r.wf(),
            r.spec_speed() == opts.speed,
            r.spec_cycles() == 0,
            r.mcu.devices@ == Seq::<(u32, crate::peripherals::Peripheral)>::empty(),
    {
        Emulator { mcu: MCU::new(), speed: opts.speed, pending_work: 0, cycles: 0 }
    }

    /// The simulated clock rate in hertz.
    pub open spec fn spec_speed(self) -> u32 {
        self.speed
    }

    /// The cycle counter, which names dump artifacts.
    pub open spec fn spec_cycles(self) -> u32 {
        self.cycles
    }

    /// Returns the simulated clock rate in hertz.
    pub fn get_speed(&self) -> (r: u32)
        ensures
            r == self.speed,
    {
        self.speed
    }

    /// Returns the consumed cycle count, which names dump artifacts.
    pub fn get_cycles(&self) -> (r: u32)
        ensures
            r == self.cycles,
    {
        self.cycles
    }

    /// Returns the work units not yet slept off.
    pub fn get_pending_work(&self) -> (r: u32)
        ensures
            r == self.pending_work,
    {
        self.pending_work
    }

    /// Registers the given devices in order, each against the machine the
    /// previous ones left; the first region that overlaps a registered one
    /// or reuses an identifier stops the walk with failure, leaving the
    /// devices before it in place.
    pub fn setup_devices(&mut self, devices: Vec<DeviceDef>) -> (r: Result<(), ()>)
        requires
            old(self).wf(),
            forall|i: int|
                0 <= i < devices@.len() ==> (#[trigger] devices@[i]).memory_start
                    <= devices@[i].memory_end && devices@[i].device.wf(),
        ensures
            final(self).wf(),
            final(self).spec_speed() == old(self).spec_speed(),
            final(self).spec_cycles() == old(self).spec_cycles(),
            final(self).spec_pending() == old(self).spec_pending(),
            MCU::spec_setup(old(self).mcu, devices@, final(self).mcu, r),
    {
        self.mcu.add_devices(devices)
    }

    /// Copies a raw binary image into the flash region at address 0: the
    /// flash device's leading bytes take the image and nothing else moves.
    pub fn flash(&mut self, mem: Vec<u8>)
        requires
            old(self).wf(),
            mem@.len() <= 0x1_0000_0000,
            mem@.len() > 0 ==> (old(self).mcu.spec_route(0) matches Some(m) && m.mem_start == 0
                && mem@.len() - 1 <= m.mem_end && (old(self).mcu.devices@[old(self).mcu.device_index_of(m.identifier)].1 matches crate::peripherals::Peripheral::FLASH(g)
                && !g.spec_read_only() && mem@.len() <= g.bytes().len())),
        ensures
            final(self).wf(),
            final(self).spec_speed() == old(self).spec_speed(),
            final(self).spec_cycles() == old(self).spec_cycles(),
            final(self).spec_pending() == old(self).spec_pending(),
            MCU::flash_rel(old(self).mcu, final(self).mcu, mem@),
    {
        self.mcu.flash(mem);
    }

    /// One pacing step: pending work is slept off one unit at a time;
    /// otherwise the MCU ticks and its result decides what the host does
    /// next. A dump request clears x10 to acknowledge it, as the guest
    /// convention asks.
    pub fn step(&mut self) -> (r: StepAction)
        requires
            old(self).wf(),
        ensures
            final(self).wf(),
            final(self).spec_speed() == old(self).spec_speed(),
            old(self).spec_pending() > 0 ==> r == StepAction::Sleep && final(self).mcu == old(self).mcu && final(self).spec_pending() == old(self).spec_pending() - 1 && final(self).spec_cycles() == old(self).spec_cycles(),
            r == StepAction::Halted ==> final(self).mcu.cpu.regs()[10] == 255,
            r matches StepAction::DumpRange(start, end) ==> final(self).mcu.cpu.regs()[10] == 0,
            old(self).spec_pending() == 0 ==> exists|t: TickResult, m1: MCU|
                #[trigger] MCU::tick_rel(old(self).mcu, m1, t) && (t matches TickResult::Cycles(v)
                    ==> r == StepAction::Continue && final(self).mcu == m1 && final(self).spec_pending() == v && final(self).spec_cycles() == wadd(
                    old(self).spec_cycles(),
                    v,
                )) && (t == TickResult::WFI ==> r == StepAction::Continue && final(self).mcu == m1
                    && final(self).spec_pending() == 1 && final(self).spec_cycles() == old(self).spec_cycles()) && (t == TickResult::HALT ==> r == StepAction::Halted && final(self).mcu == m1 && final(self).spec_pending() == old(self).spec_pending() && final(self).spec_cycles() == old(self).spec_cycles()) && (t matches TickResult::Dump(ds, de)
                    ==> r == StepAction::DumpRange(ds, de) && final(self).spec_pending() == old(self).spec_pending() && final(self).spec_cycles() == old(self).spec_cycles() && final(self).mcu.cpu.regs() == m1.cpu.regs().update(10, 0u32) && final(self).mcu.cpu.pc
                    == m1.cpu.pc && final(self).mcu.cpu.wfi == m1.cpu.wfi && final(self).mcu.cpu.csrs() == m1.cpu.csrs() && final(self).mcu.int_ctrl == m1.int_ctrl
                    && final(self).mcu.mmu == m1.mmu && final(self).mcu.devices@ == m1.devices@),
    {
        if self.pending_work > 0 {
            self.pending_work = self.pending_work - 1;
            return StepAction::Sleep;
        }
        let t = self.mcu.tick();
        let ghost m1 = self.mcu;
        match t {
            TickResult::Cycles(v) => {
                self.cycles = self.cycles.wrapping_add(v);
                self.pending_work = v;
                StepAction::Continue
            },
            TickResult::WFI => {
                self.pending_work = 1;
                StepAction::Continue
            },
            TickResult::HALT => StepAction::Halted,
            TickResult::Dump(start, end) => {
                self.mcu.cpu.set_x(10, 0);
                proof {
                    crate::mcu::MCU::lemma_wf_same_devices(m1, self.mcu);
                }
                StepAction::DumpRange(start, end)
            },
        }
    }

    /// The work units not yet slept off.
    pub open spec fn spec_pending(self) -> u32 {
        self.pending_work
    }

    /// Reads the inclusive byte range from the bus, for the host to write
    /// into a dump artifact. Fails if any byte of the range is unmapped.
    pub fn dump_range(&self, start: u32, end: u32) -> (r: Result<Vec<u8>, MemoryError>)
        requires
            self.wf(),
            start <= end,
        ensures
            r matches Ok(v) ==> v@.len() == end - start + 1 && (forall|i: int|
                0 <= i <= end - start ==> self.mcu.spec_bus_rb((start + i) as u32) == Ok::<
                    u8,
                    MemoryError,
                >(#[trigger] v@[i])),
            r is Err <==> (exists|i: int|
                0 <= i <= end - start && (#[trigger] self.mcu.spec_bus_rb((start + i) as u32))
                    is Err),
    {
        let mut out: Vec<u8> = Vec::new();
        let n: u64 = end as u64 - start as u64 + 1;
        let mut i: u64 = 0;
        while i < n
            invariant
                self.wf(),
                start <= end,
                n == end - start + 1,
                i <= n,
                out@.len() == i,
                forall|j: int|
                    0 <= j < i ==> self.mcu.spec_bus_rb((start + j) as u32) == Ok::<
                        u8,
                        MemoryError,
                    >(#[trigger] out@[j]),
            decreases n - i,
        {
            let addr = (start as u64 + i) as u32;
            match self.mcu.rb(addr) {
                Ok(b) => out.push(b),
                Err(e) => {
                    proof {
                        assert(self.mcu.spec_bus_rb((start + i as int) as u32) is Err);
                    }
                    return Err(e);
                },
            }
            i = i + 1;
        }
        proof {
            assert forall|i2: int| 0 <= i2 <= end - start implies !((
            #[trigger] self.mcu.spec_bus_rb((start + i2) as u32)) is Err) by {
                assert(self.mcu.spec_bus_rb((start + i2) as u32) == Ok::<u8, MemoryError>(
                    out@[i2],
                ));
            }
        }
        Ok(out)
    }
}

} // verus!
