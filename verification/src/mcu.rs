//! The micro-controller unit: CPU, interrupt controller, region table, and
//! the device map, with the bus that routes byte, halfword and word accesses
//! to the owning device.

use vstd::prelude::*;

use crate::cpu::CPU;
use crate::exceptions::{Exception, ExceptionInterrupt, Interrupt};
use crate::interrupt_controller::InterruptController;
use crate::memory::MemoryError;
use crate::mmu::{DeviceMeta, MMU};
use crate::peripherals::Peripheral;
use crate::plic::PLIC;

verus! {

/// A device and the bus region it should own, as handed to `add_device`.
pub struct DeviceDef {
    /// The identifier of the device; devices tick in identifier order.
    pub identifier: u32,
    /// First bus address of the region.
    pub memory_start: u32,
    /// Last bus address of the region (inclusive).
    pub memory_end: u32,
    /// The device itself.
    pub device: Peripheral,
}

/// The micro-controller unit.
pub struct MCU {
    pub cpu: CPU,
    pub int_ctrl: InterruptController,
    pub mmu: MMU,
    /// The registered devices, keyed and sorted by identifier.
    pub devices: Vec<(u32, Peripheral)>,
}

impl MCU {
    /// CPU and region table well-formed, devices well-formed and strictly
    /// sorted by identifier, and every registered region owned by a present
    /// device.
    pub open spec fn wf(self) -> bool {
        self.cpu.wf() && self.mmu.wf() && (forall|k: int|
            0 <= k < self.devices@.len() ==> (#[trigger] self.devices@[k]).1.wf()) && (forall|
            k1: int,
            k2: int,
        |
            0 <= k1 < k2 < self.devices@.len() ==> (#[trigger] self.devices@[k1]).0 < (
            #[trigger] self.devices@[k2]).0) && (forall|i: int|
            0 <= i < self.mmu.device_idx@.len() ==> self.has_device(
                (#[trigger] self.mmu.device_idx@[i]).identifier,
            ))
    }

    /// A device with this identifier is registered.
    pub open spec fn has_device(self, id: u32) -> bool {
        exists|k: int| 0 <= k < self.devices@.len() && (#[trigger] self.devices@[k]).0 == id
    }

    /// The index of the device with this identifier.
    pub open spec fn device_index_of(self, id: u32) -> int {
        choose|k: int| 0 <= k < self.devices@.len() && (#[trigger] self.devices@[k]).0 == id
    }

    /// The region holding `addr`, when one is registered. Disjointness makes
    /// it unique.
    pub open spec fn spec_route(self, addr: u32) -> Option<DeviceMeta> {
        if exists|i: int|
            0 <= i < self.mmu.device_idx@.len() && (#[trigger] self.mmu.device_idx@[i]).contains_addr(
                addr,
            ) {
            Some(
                self.mmu.device_idx@[choose|i: int|
                    0 <= i < self.mmu.device_idx@.len() && (
                    #[trigger] self.mmu.device_idx@[i]).contains_addr(addr)],
            )
        } else {
            None
        }
    }

    /// Two regions holding the same address are the same table entry.
    pub proof fn lemma_route_unique(self, addr: u32, i: int, j: int)
        requires
            self.wf(),
            0 <= i < self.mmu.device_idx@.len(),
            0 <= j < self.mmu.device_idx@.len(),
            self.mmu.device_idx@[i].contains_addr(addr),
            self.mmu.device_idx@[j].contains_addr(addr),
        ensures
            i == j,
    {
        if i < j {
            assert(self.mmu.device_idx@[i].mem_end < self.mmu.device_idx@[j].mem_start);
        }
        if j < i {
            assert(self.mmu.device_idx@[j].mem_end < self.mmu.device_idx@[i].mem_start);
        }
    }

    /// A fresh MCU with no devices.
    pub fn new() -> (r: MCU)
        ensures
            r.wf(),
            r.cpu.pc == 0,
            !r.cpu.wfi,
            r.cpu.regs() == Seq::<u32>::new(32, |i: int| 0u32),
            r.cpu.csrs() == Seq::<u32>::new(8, |i: int| 0u32),
            r.int_ctrl.interrupts@ == Seq::<crate::exceptions::Interrupt>::empty(),
            r.int_ctrl.requests@ == Seq::<(crate::exceptions::Interrupt, u32)>::empty(),
            r.mmu.device_idx@ == Seq::<DeviceMeta>::empty(),
            r.devices@ == Seq::<(u32, Peripheral)>::empty(),
    {
        let r = MCU {
            cpu: CPU::new(),
            int_ctrl: InterruptController::new(),
            mmu: MMU::new(),
            devices: Vec::new(),
        };
        proof {
            assert(r.devices@ =~= Seq::<(u32, Peripheral)>::empty());
        }
        r
    }

    /// Finds the index of the device with the given identifier.
    fn find_device(&self, id: u32) -> (r: Option<usize>)
        requires
            self.wf(),
        ensures
            r matches Some(k) ==> 0 <= k < self.devices@.len() && self.devices@[k as int].0 == id
                && k as int == self.device_index_of(id),
            r is None ==> !self.has_device(id),
    {
        let mut k: usize = 0;
        while k < self.devices.len()
            invariant
                self.wf(),
                k <= self.devices@.len(),
                forall|k0: int| 0 <= k0 < k ==> (#[trigger] self.devices@[k0]).0 != id,
            decreases self.devices@.len() - k,
        {
            if self.devices[k].0 == id {
                proof {
                    let kc = self.device_index_of(id);
                    assert(self.has_device(id));
                    if kc != k {
                        assert(self.devices@[kc].0 == id);
                        assert(false);
                    }
                }
                return Some(k);
            }
            k = k + 1;
        }
        None
    }

    /// How registering a device relates the machine states: it fails,
    /// changing nothing, exactly when the region overlaps a registered one
    /// or the identifier is taken; on success the region table and the
    /// device map each gain the definition at their sorted positions.
    pub open spec fn add_device_rel(pre: MCU, device: DeviceDef, post: MCU, r: Result<
        (),
        (),
    >) -> bool {
        post.cpu == pre.cpu && post.int_ctrl == pre.int_ctrl && ((r is Err) <==> ((exists|j: int|
            0 <= j < pre.mmu.device_idx@.len() && (#[trigger] pre.mmu.device_idx@[j]).overlaps(
                DeviceMeta {
                    identifier: device.identifier,
                    mem_start: device.memory_start,
                    mem_end: device.memory_end,
                },
            )) || pre.has_device(device.identifier))) && (r is Err ==> post.mmu.device_idx@
            == pre.mmu.device_idx@ && post.devices@ == pre.devices@) && (r is Ok ==> (exists|k: int|
            0 <= k <= pre.mmu.device_idx@.len() && post.mmu.device_idx@
                == pre.mmu.device_idx@.insert(
                k,
                DeviceMeta {
                    identifier: device.identifier,
                    mem_start: device.memory_start,
                    mem_end: device.memory_end,
                },
            )) && (exists|k: int|
            0 <= k <= pre.devices@.len() && post.devices@ == pre.devices@.insert(
                k,
                (device.identifier, device.device),
            )))
    }

    /// Registering every definition of a list in order: it succeeds when
    /// each one registered against the machine the previous ones left; the
    /// first refusal stops the walk with the prefix registered.
    pub open spec fn spec_setup(pre: MCU, defs: Seq<DeviceDef>, post: MCU, r: Result<
        (),
        (),
    >) -> bool
        decreases defs.len(),
    {
        if defs.len() == 0 {
            MCU::same_machine(pre, post) && r is Ok
        } else {
            exists|mid: MCU, r0: Result<(), ()>|
                #[trigger] MCU::add_device_rel(pre, defs[0], mid, r0) && mid.wf() && (r0 is Err
                    ==> r is Err && MCU::same_machine(mid, post)) && (r0 is Ok ==> MCU::spec_setup(
                    mid,
                    defs.drop_first(),
                    post,
                    r,
                ))
        }
    }

    /// Registers a device: its region goes into the region table and the
    /// device into the map. Fails, changing nothing, exactly when the region
    /// overlaps a registered one or the identifier is taken.
    pub fn add_device(&mut self, device: DeviceDef) -> (r: Result<(), ()>)
        requires
            old(self).wf(),
            device.memory_start <= device.memory_end,
            device.device.wf(),
        ensures
            final(self).wf(),
            MCU::add_device_rel(*old(self), device, *final(self), r),
    {
        let DeviceDef { identifier, memory_start, memory_end, device } = device;
        if self.find_device(identifier).is_some() {
            return Err(());
        }
        let meta = DeviceMeta::new(identifier, memory_start, memory_end);
        let ghost metas0 = self.mmu.device_idx@;
        match self.mmu.insert_device(meta) {
            Err(()) => Err(()),
            Ok(()) => {
                proof {
                    assert(forall|j: int|
                        0 <= j < self.mmu.device_idx@.len() ==> ((
                        #[trigger] self.mmu.device_idx@[j]) == meta || metas0.contains(
                            self.mmu.device_idx@[j],
                        )));
                }
                let ghost metas1 = self.mmu.device_idx@;
                // Insert the device keeping the map sorted by identifier.
                let ghost prev = self.devices@;
                let mut k: usize = 0;
                while k < self.devices.len() && self.devices[k].0 < identifier
                    invariant
                        k <= self.devices@.len(),
                        self.devices@ == prev,
                        forall|k0: int| 0 <= k0 < k ==> (#[trigger] self.devices@[k0]).0 < identifier,
                    decreases self.devices@.len() - k,
                {
                    k = k + 1;
                }
                let ghost kk = k as int;
                self.devices.insert(k, (identifier, device));
                proof {
                    let cur = self.devices@;
                    assert(cur == prev.insert(kk, (identifier, device)));
                    // The identifier was absent, so the element the scan
                    // stopped on is strictly greater.
                    assert forall|k0: int| kk <= k0 < prev.len() implies identifier < (
                    #[trigger] prev[k0]).0 by {
                        assert(old(self).devices@[k0].0 != identifier);
                        if k0 > kk {
                            assert(prev[kk].0 < prev[k0].0);
                        }
                    }
                    assert forall|k1: int, k2: int| 0 <= k1 < k2 < cur.len() implies (
                    #[trigger] cur[k1]).0 < (#[trigger] cur[k2]).0 by {
                        if k1 < kk {
                            assert(cur[k1] == prev[k1]);
                        } else if k1 > kk {
                            assert(cur[k1] == prev[k1 - 1]);
                        }
                        if k2 < kk {
                            assert(cur[k2] == prev[k2]);
                        } else if k2 > kk {
                            assert(cur[k2] == prev[k2 - 1]);
                        }
                    }
                    assert forall|k0: int| 0 <= k0 < cur.len() implies (
                    #[trigger] cur[k0]).1.wf() by {
                        if k0 < kk {
                            assert(cur[k0] == prev[k0]);
                        } else if k0 > kk {
                            assert(cur[k0] == prev[k0 - 1]);
                        }
                    }
                    // Every region in the new table is owned: the old ones by
                    // the old devices (still present), the new one by the new
                    // device.
                    assert(cur[kk] == (identifier, device));
                    assert(self.mmu.device_idx@ == metas1);
                    assert forall|i: int| 0 <= i < self.mmu.device_idx@.len() implies
                        self.has_device((#[trigger] self.mmu.device_idx@[i]).identifier) by {
                        let m = metas1[i];
                        if m == meta {
                            assert(self.devices@[kk].0 == m.identifier);
                        } else {
                            assert(metas0.contains(m));
                            let iold = choose|k0: int|
                                0 <= k0 < metas0.len() && metas0[k0] == m;
                            assert(old(self).has_device(m.identifier));
                            let kd = choose|k0: int|
                                0 <= k0 < prev.len() && (#[trigger] prev[k0]).0 == m.identifier;
                            if kd < kk {
                                assert(cur[kd] == prev[kd]);
                                assert(self.devices@[kd].0 == m.identifier);
                            } else {
                                assert(cur[kd + 1] == prev[kd]);
                                assert(self.devices@[kd + 1].0 == m.identifier);
                            }
                        }
                    }
                }
                Ok(())
            },
        }
    }
}

impl MCU {
    /// Registers the given device definitions in order; the first refusal
    /// stops the walk and reports failure, leaving the ones before it
    /// registered.
    pub fn add_devices(&mut self, devices: Vec<DeviceDef>) -> (r: Result<(), ()>)
        requires
            old(self).wf(),
            forall|i: int|
                0 <= i < devices@.len() ==> (#[trigger] devices@[i]).memory_start
                    <= devices@[i].memory_end && devices@[i].device.wf(),
        ensures
            final(self).wf(),
            final(self).cpu == old(self).cpu,
            final(self).int_ctrl == old(self).int_ctrl,
            MCU::spec_setup(*old(self), devices@, *final(self), r),
        decreases devices@.len(),
    {
        let mut devices = devices;
        if devices.len() == 0 {
            return Ok(());
        }
        let ghost defs = devices@;
        let device = devices.remove(0);
        let r0 = self.add_device(device);
        let ghost mid = *self;
        match r0 {
            Err(()) => {
                proof {
                    assert(MCU::add_device_rel(*old(self), defs[0], mid, r0));
                }
                Err(())
            },
            Ok(()) => {
                let r = self.add_devices(devices);
                proof {
                    assert(MCU::add_device_rel(*old(self), defs[0], mid, r0));
                    assert(MCU::spec_setup(mid, defs.drop_first(), *self, r));
                }
                r
            },
        }
    }

    /// The device map keeps its length, its identifiers and its kinds across
    /// a bus access.
    pub open spec fn same_device_map_shape(self, other: MCU) -> bool {
        self.devices@.len() == other.devices@.len() && (forall|k: int|
            0 <= k < self.devices@.len() ==> (#[trigger] self.devices@[k]).0 == other.devices@[k].0
                && self.devices@[k].1.same_kind(other.devices@[k].1))
    }

    /// What a byte read at `addr` returns, as a function of the routed
    /// device; byte reads have no side effects.
    pub open spec fn spec_bus_rb(self, addr: u32) -> Result<u8, MemoryError> {
        match self.spec_route(addr) {
            Some(m) => self.devices@[self.device_index_of(m.identifier)].1.spec_rb(
                (addr - m.mem_start) as u32,
            ),
            None => Err(MemoryError::AccessFault),
        }
    }

    /// What a halfword read at `addr` returns.
    pub open spec fn spec_bus_rhw(self, addr: u32) -> Result<u16, MemoryError> {
        match self.spec_route(addr) {
            Some(m) => self.devices@[self.device_index_of(m.identifier)].1.spec_rhw(
                (addr - m.mem_start) as u32,
            ),
            None => Err(MemoryError::AccessFault),
        }
    }

    /// Establishes that `spec_route(addr)` is the region at table index `i`.
    proof fn lemma_route_at(self, addr: u32, i: int)
        requires
            self.wf(),
            0 <= i < self.mmu.device_idx@.len(),
            self.mmu.device_idx@[i].contains_addr(addr),
        ensures
            self.spec_route(addr) == Some(self.mmu.device_idx@[i]),
    {
        let ic = choose|i0: int|
            0 <= i0 < self.mmu.device_idx@.len() && (
            #[trigger] self.mmu.device_idx@[i0]).contains_addr(addr);
        self.lemma_route_unique(addr, i, ic);
    }

    /// Clears the pending mask of every registered PLIC; without a PLIC
    /// nothing happens.
    pub fn clear_plic_pending(&mut self)
        requires
            old(self).wf(),
        ensures
            final(self).wf(),
            MCU::bus_access_frame(*old(self), *final(self)),
            forall|k: int|
                0 <= k < old(self).devices@.len() && !((#[trigger] old(self).devices@[k]).1
                    is PLIC) ==> final(self).devices@[k] == old(self).devices@[k],
            forall|k: int|
                0 <= k < old(self).devices@.len() ==> ((#[trigger] old(self).devices@[k]).1
                    matches Peripheral::PLIC(p0) ==> (final(self).devices@[k].1
                    matches Peripheral::PLIC(p1) && p1.pending == 0 && p1.source_priority@
                    == p0.source_priority@ && p1.h0mie == p0.h0mie && p1.h0mpt == p0.h0mpt)),
    {
        let mut k: usize = 0;
        while k < self.devices.len()
            invariant
                old(self).wf(),
                self.cpu == old(self).cpu,
                self.int_ctrl == old(self).int_ctrl,
                self.mmu == old(self).mmu,
                self.devices@.len() == old(self).devices@.len(),
                k <= self.devices@.len(),
                forall|k0: int|
                    k <= k0 < old(self).devices@.len() ==> #[trigger] self.devices@[k0] == old(self).devices@[k0],
                forall|k0: int|
                    0 <= k0 < k && !((#[trigger] old(self).devices@[k0]).1 is PLIC) ==> self.devices@[k0]
                        == old(self).devices@[k0],
                forall|k0: int|
                    0 <= k0 < k ==> ((#[trigger] old(self).devices@[k0]).1
                        matches Peripheral::PLIC(p0) ==> (self.devices@[k0].1
                        matches Peripheral::PLIC(p1) && p1.pending == 0 && p1.source_priority@
                        == p0.source_priority@ && p1.h0mie == p0.h0mie && p1.h0mpt == p0.h0mpt)),
                forall|k0: int|
                    0 <= k0 < self.devices@.len() ==> (#[trigger] self.devices@[k0]).0 == old(self).devices@[k0].0 && self.devices@[k0].1.wf() && old(self).devices@[k0].1.same_kind(self.devices@[k0].1),
            decreases self.devices@.len() - k,
        {
            let is_plic = matches!(&self.devices[k].1, Peripheral::PLIC(_));
            if is_plic {
                let ghost prev = self.devices@;
                let entry = self.devices.remove(k);
                let ghost mid = self.devices@;
                let (id, dev) = entry;
                let dev = match dev {
                    Peripheral::PLIC(p) => Peripheral::PLIC(
                        PLIC {
                            source_priority: p.source_priority,
                            pending: 0,
                            h0mie: p.h0mie,
                            h0mpt: p.h0mpt,
                        },
                    ),
                    other => other,
                };
                self.devices.insert(k, (id, dev));
                proof {
                    lemma_splice(prev, mid, self.devices@, k as int, (id, dev));
                }
            }
            k = k + 1;
        }
        proof {
            MCU::lemma_wf_same_shape(*old(self), *self);
        }
    }

    /// A well-formed device map of the same shape keeps the MCU well-formed.
    proof fn lemma_wf_same_shape(pre: MCU, post: MCU)
        requires
            pre.wf(),
            post.cpu.wf(),
            post.mmu == pre.mmu,
            post.devices@.len() == pre.devices@.len(),
            forall|k: int|
                0 <= k < post.devices@.len() ==> (#[trigger] post.devices@[k]).0
                    == pre.devices@[k].0 && post.devices@[k].1.wf(),
        ensures
            post.wf(),
            (post.cpu == pre.cpu && post.int_ctrl == pre.int_ctrl && (forall|k: int|
                0 <= k < post.devices@.len() ==> pre.devices@[k].1.same_kind(
                    (#[trigger] post.devices@[k]).1,
                ))) ==> MCU::bus_access_frame(pre, post),
    {
        assert forall|i: int| 0 <= i < post.mmu.device_idx@.len() implies post.has_device(
            (#[trigger] post.mmu.device_idx@[i]).identifier,
        ) by {
            assert(pre.has_device(pre.mmu.device_idx@[i].identifier));
            let kk = choose|k0: int|
                0 <= k0 < pre.devices@.len() && (#[trigger] pre.devices@[k0]).0
                    == pre.mmu.device_idx@[i].identifier;
            assert((post.devices@[kk]).0 == post.mmu.device_idx@[i].identifier);
        }
    }

    /// The index of the first registered PLIC device, if any.
    fn find_first_plic(&self) -> (r: Option<usize>)
        ensures
            r matches Some(k) ==> 0 <= k < self.devices@.len() && self.devices@[k as int].1
                is PLIC && (forall|k0: int|
                0 <= k0 < k ==> !((#[trigger] self.devices@[k0]).1 is PLIC)),
            r is None ==> forall|k0: int|
                0 <= k0 < self.devices@.len() ==> !((#[trigger] self.devices@[k0]).1 is PLIC),
    {
        let mut k: usize = 0;
        while k < self.devices.len()
            invariant
                k <= self.devices@.len(),
                forall|k0: int| 0 <= k0 < k ==> !((#[trigger] self.devices@[k0]).1 is PLIC),
            decreases self.devices@.len() - k,
        {
            let is_plic = matches!(&self.devices[k].1, Peripheral::PLIC(_));
            if is_plic {
                return Some(k);
            }
            k = k + 1;
        }
        None
    }

    /// Equal device maps have the same shape.
    pub proof fn lemma_shape_refl(a: MCU, b: MCU)
        requires
            b.devices@ == a.devices@,
        ensures
            a.same_device_map_shape(b),
    {
        assert forall|k: int| 0 <= k < a.devices@.len() implies (#[trigger] a.devices@[k]).0
            == b.devices@[k].0 && a.devices@[k].1.same_kind(b.devices@[k].1) by {
            Peripheral::lemma_same_kind_refl(a.devices@[k].1);
        }
    }

    /// The device-map shape relation is transitive.
    pub proof fn lemma_shape_trans(a: MCU, b: MCU, c: MCU)
        requires
            a.same_device_map_shape(b),
            b.same_device_map_shape(c),
        ensures
            a.same_device_map_shape(c),
    {
        assert forall|k: int| 0 <= k < a.devices@.len() implies (#[trigger] a.devices@[k]).0
            == c.devices@[k].0 && a.devices@[k].1.same_kind(c.devices@[k].1) by {
            assert(a.devices@[k].1.same_kind(b.devices@[k].1));
            assert(b.devices@[k].1.same_kind(c.devices@[k].1));
        }
    }

    /// A step that only touches the CPU keeps the MCU well-formed.
    pub proof fn lemma_wf_same_devices(pre: MCU, post: MCU)
        requires
            pre.wf(),
            post.mmu == pre.mmu,
            post.devices@ == pre.devices@,
            post.cpu.wf(),
        ensures
            post.wf(),
    {
        assert forall|i: int| 0 <= i < post.mmu.device_idx@.len() implies post.has_device(
            (#[trigger] post.mmu.device_idx@[i]).identifier,
        ) by {
            assert(pre.has_device(pre.mmu.device_idx@[i].identifier));
            let k = choose|k: int|
                0 <= k < pre.devices@.len() && (#[trigger] pre.devices@[k]).0
                    == pre.mmu.device_idx@[i].identifier;
            assert((post.devices@[k]).0 == post.mmu.device_idx@[i].identifier);
        }
    }

    /// Reads a byte through the bus: unmapped addresses fault, mapped ones
    /// go to the owning device at the translated offset.
    pub fn rb(&self, addr: u32) -> (r: Result<u8, MemoryError>)
        requires
            self.wf(),
        ensures
            self.spec_route(addr) matches Some(m) ==> r == self.devices@[self.device_index_of(
                m.identifier,
            )].1.spec_rb((addr - m.mem_start) as u32),
            self.spec_route(addr) is None ==> r == Err::<u8, MemoryError>(MemoryError::AccessFault),
            r == self.spec_bus_rb(addr),
    {
        match self.mmu.find_device_index(addr) {
            Some(i) => {
                let meta = self.mmu.device_idx[i];
                proof {
                    self.lemma_route_at(addr, i as int);
                }
                match self.find_device(meta.identifier) {
                    Some(k) => self.devices[k].1.rb(addr - meta.mem_start),
                    None => {
                        proof {
                            assert(false);
                        }
                        Err(MemoryError::AccessFault)
                    },
                }
            },
            None => Err(MemoryError::AccessFault),
        }
    }

    /// Reads a halfword through the bus.
    pub fn rhw(&self, addr: u32) -> (r: Result<u16, MemoryError>)
        requires
            self.wf(),
        ensures
            self.spec_route(addr) matches Some(m) ==> r == self.devices@[self.device_index_of(
                m.identifier,
            )].1.spec_rhw((addr - m.mem_start) as u32),
            self.spec_route(addr) is None ==> r == Err::<u16, MemoryError>(
                MemoryError::AccessFault,
            ),
            r == self.spec_bus_rhw(addr),
    {
        match self.mmu.find_device_index(addr) {
            Some(i) => {
                let meta = self.mmu.device_idx[i];
                proof {
                    self.lemma_route_at(addr, i as int);
                }
                match self.find_device(meta.identifier) {
                    Some(k) => self.devices[k].1.rhw(addr - meta.mem_start),
                    None => {
                        proof {
                            assert(false);
                        }
                        Err(MemoryError::AccessFault)
                    },
                }
            },
            None => Err(MemoryError::AccessFault),
        }
    }

    /// What the bus leaves untouched on a device access.
    pub open spec fn bus_access_frame(pre: MCU, post: MCU) -> bool {
        post.cpu == pre.cpu && post.int_ctrl == pre.int_ctrl && post.mmu == pre.mmu
            && pre.same_device_map_shape(post)
    }

    /// A mapped mutating access touches only the owning device; `rel` is the
    /// owning device's access relation.
    pub open spec fn routed_access(pre: MCU, post: MCU, m: DeviceMeta) -> bool {
        let j = pre.device_index_of(m.identifier);
        forall|k: int|
            0 <= k < pre.devices@.len() && k != j ==> #[trigger] post.devices@[k]
                == pre.devices@[k]
    }

    /// After a routed mutating access that changed only device `j`, keeping
    /// its identifier, kind and well-formedness, the MCU is still well-formed
    /// and the bus frame holds.
    proof fn lemma_bus_write_frame(pre: MCU, post: MCU, j: int)
        requires
            pre.wf(),
            0 <= j < pre.devices@.len(),
            post.cpu == pre.cpu,
            post.int_ctrl == pre.int_ctrl,
            post.mmu == pre.mmu,
            post.devices@ == pre.devices@.update(j, post.devices@[j]),
            post.devices@[j].0 == pre.devices@[j].0,
            post.devices@[j].1.wf(),
            pre.devices@[j].1.same_kind(post.devices@[j].1),
        ensures
            post.wf(),
            MCU::bus_access_frame(pre, post),
            forall|k: int|
                0 <= k < pre.devices@.len() && k != j ==> #[trigger] post.devices@[k]
                    == pre.devices@[k],
    {
        assert forall|k: int|
            0 <= k < pre.devices@.len() && k != j implies #[trigger] post.devices@[k]
            == pre.devices@[k] by {}
        assert forall|i0: int| 0 <= i0 < post.mmu.device_idx@.len() implies post.has_device(
            (#[trigger] post.mmu.device_idx@[i0]).identifier,
        ) by {
            assert(pre.has_device(pre.mmu.device_idx@[i0].identifier));
            let kw = choose|k0: int|
                0 <= k0 < pre.devices@.len() && (#[trigger] pre.devices@[k0]).0
                    == pre.mmu.device_idx@[i0].identifier;
            assert(post.devices@[kw].0 == post.mmu.device_idx@[i0].identifier);
        }
    }

    /// Writes a byte through the bus.
    pub fn wb(&mut self, addr: u32, value: u8) -> (r: Result<(), MemoryError>)
        requires
            old(self).wf(),
        ensures
            final(self).wf(),
            MCU::bus_access_frame(*old(self), *final(self)),
            old(self).spec_route(addr) is None ==> r == Err::<(), MemoryError>(
                MemoryError::AccessFault,
            ) && final(self).devices@ == old(self).devices@,
            old(self).spec_route(addr) matches Some(m) ==> MCU::routed_access(
                *old(self),
                *final(self),
                m,
            ) && Peripheral::wb_rel(
                old(self).devices@[old(self).device_index_of(m.identifier)].1,
                final(self).devices@[old(self).device_index_of(m.identifier)].1,
                (addr - m.mem_start) as u32,
                value,
                r,
            ),
    {
        match self.mmu.find_device_index(addr) {
            Some(i) => {
                let meta = self.mmu.device_idx[i];
                proof {
                    self.lemma_route_at(addr, i as int);
                }
                match self.find_device(meta.identifier) {
                    Some(k) => {
                        let d = device_at_mut(&mut self.devices, k);
                        let r = d.1.wb(addr - meta.mem_start, value);
                        proof {
                            assert(old(self).devices@[k as int].1.same_kind(
                                self.devices@[k as int].1,
                            ));
                            MCU::lemma_bus_write_frame(*old(self), *self, k as int);
                        }
                        r
                    },
                    None => {
                        proof {
                            assert(false);
                        }
                        Err(MemoryError::AccessFault)
                    },
                }
            },
            None => Err(MemoryError::AccessFault),
        }
    }

    /// Writes a halfword through the bus.
    pub fn whw(&mut self, addr: u32, value: u16) -> (r: Result<(), MemoryError>)
        requires
            old(self).wf(),
        ensures
            final(self).wf(),
            MCU::bus_access_frame(*old(self), *final(self)),
            old(self).spec_route(addr) is None ==> r == Err::<(), MemoryError>(
                MemoryError::AccessFault,
            ) && final(self).devices@ == old(self).devices@,
            old(self).spec_route(addr) matches Some(m) ==> MCU::routed_access(
                *old(self),
                *final(self),
                m,
            ) && Peripheral::whw_rel(
                old(self).devices@[old(self).device_index_of(m.identifier)].1,
                final(self).devices@[old(self).device_index_of(m.identifier)].1,
                (addr - m.mem_start) as u32,
                value,
                r,
            ),
    {
        match self.mmu.find_device_index(addr) {
            Some(i) => {
                let meta = self.mmu.device_idx[i];
                proof {
                    self.lemma_route_at(addr, i as int);
                }
                match self.find_device(meta.identifier) {
                    Some(k) => {
                        let d = device_at_mut(&mut self.devices, k);
                        let r = d.1.whw(addr - meta.mem_start, value);
                        proof {
                            assert(old(self).devices@[k as int].1.same_kind(
                                self.devices@[k as int].1,
                            ));
                            MCU::lemma_bus_write_frame(*old(self), *self, k as int);
                        }
                        r
                    },
                    None => {
                        proof {
                            assert(false);
                        }
                        Err(MemoryError::AccessFault)
                    },
                }
            },
            None => Err(MemoryError::AccessFault),
        }
    }

    /// Reads a word through the bus; a read can have device side effects
    /// (PLIC claim, UART rx).
    pub fn rw(&mut self, addr: u32) -> (r: Result<u32, MemoryError>)
        requires
            old(self).wf(),
        ensures
            final(self).wf(),
            MCU::bus_access_frame(*old(self), *final(self)),
            old(self).spec_route(addr) is None ==> r == Err::<u32, MemoryError>(
                MemoryError::AccessFault,
            ) && final(self).devices@ == old(self).devices@,
            old(self).spec_route(addr) matches Some(m) ==> MCU::routed_access(
                *old(self),
                *final(self),
                m,
            ) && Peripheral::rw_rel(
                old(self).devices@[old(self).device_index_of(m.identifier)].1,
                final(self).devices@[old(self).device_index_of(m.identifier)].1,
                (addr - m.mem_start) as u32,
                r,
            ),
    {
        match self.mmu.find_device_index(addr) {
            Some(i) => {
                let meta = self.mmu.device_idx[i];
                proof {
                    self.lemma_route_at(addr, i as int);
                }
                match self.find_device(meta.identifier) {
                    Some(k) => {
                        let d = device_at_mut(&mut self.devices, k);
                        let r = d.1.rw(addr - meta.mem_start);
                        proof {
                            assert(old(self).devices@[k as int].1.same_kind(
                                self.devices@[k as int].1,
                            ));
                            MCU::lemma_bus_write_frame(*old(self), *self, k as int);
                        }
                        r
                    },
                    None => {
                        proof {
                            assert(false);
                        }
                        Err(MemoryError::AccessFault)
                    },
                }
            },
            None => Err(MemoryError::AccessFault),
        }
    }

    /// Writes a word through the bus.
    pub fn ww(&mut self, addr: u32, value: u32) -> (r: Result<(), MemoryError>)
        requires
            old(self).wf(),
        ensures
            final(self).wf(),
            MCU::bus_access_frame(*old(self), *final(self)),
            old(self).spec_route(addr) is None ==> r == Err::<(), MemoryError>(
                MemoryError::AccessFault,
            ) && final(self).devices@ == old(self).devices@,
            old(self).spec_route(addr) matches Some(m) ==> MCU::routed_access(
                *old(self),
                *final(self),
                m,
            ) && Peripheral::ww_rel(
                old(self).devices@[old(self).device_index_of(m.identifier)].1,
                final(self).devices@[old(self).device_index_of(m.identifier)].1,
                (addr - m.mem_start) as u32,
                value,
                r,
            ),
    {
        match self.mmu.find_device_index(addr) {
            Some(i) => {
                let meta = self.mmu.device_idx[i];
                proof {
                    self.lemma_route_at(addr, i as int);
                }
                match self.find_device(meta.identifier) {
                    Some(k) => {
                        let d = device_at_mut(&mut self.devices, k);
                        let r = d.1.ww(addr - meta.mem_start, value);
                        proof {
                            assert(old(self).devices@[k as int].1.same_kind(
                                self.devices@[k as int].1,
                            ));
                            MCU::lemma_bus_write_frame(*old(self), *self, k as int);
                        }
                        r
                    },
                    None => {
                        proof {
                            assert(false);
                        }
                        Err(MemoryError::AccessFault)
                    },
                }
            },
            None => Err(MemoryError::AccessFault),
        }
    }
}

/// What one MCU tick came to: a stall, the halt sentinel, a dump request
/// with its inclusive byte range, or a number of consumed cycles.
#[derive(Debug, Clone, Copy, PartialEq, Eq, Structural)]
pub enum TickResult {
    WFI,
    HALT,
    Dump(u32, u32),
    Cycles(u32),
}

/// The mstatus value on trap entry: MIE moves into MPIE and is cleared.
pub open spec fn spec_trap_mstatus(m: u32) -> u32 {
    (m & !0x88u32) | ((m & 0x8) << 4)
}

/// On trap entry, mstatus.MIE is cleared and mstatus.MPIE holds the old MIE
/// bit.
pub proof fn lemma_trap_mstatus(m: u32)
    ensures
        spec_trap_mstatus(m) & 0x8 == 0,
        spec_trap_mstatus(m) & 0x80 != 0 <==> m & 0x8 != 0,
{
    assert(((m & !0x88u32) | ((m & 0x8) << 4)) & 0x8 == 0) by (bit_vector);
    assert((((m & !0x88u32) | ((m & 0x8) << 4)) & 0x80 != 0) <==> (m & 0x8 != 0)) by (bit_vector);
}

impl MCU {
    /// How the trap path relates the machine states. An accepted trap sets
    /// mcause, mepc (and mtval for exceptions), moves mstatus.MIE to MPIE,
    /// and jumps to mtvec; an interrupt that is not both globally and
    /// individually enabled is deferred; the two ECALL sentinels return HALT
    /// and Dump without entering the trap.
    pub open spec fn trap_rel(pre: MCU, exc: ExceptionInterrupt, post: MCU, r: TickResult) -> bool {
        let mstatus = pre.cpu.csrs()[0];
        let mie = pre.cpu.csrs()[2];
        let mtvec = pre.cpu.csrs()[4];
        post.int_ctrl == pre.int_ctrl && post.mmu == pre.mmu && post.devices@ == pre.devices@
            && post.cpu.regs() == pre.cpu.regs() && (match exc {
            ExceptionInterrupt::Interrupt(i) => {
                let cause = 1u32 << i.spec_code();
                !post.cpu.wfi && (if mstatus & 0x8 != 0 && mie & cause != 0 {
                    post.cpu.csrs() == pre.cpu.csrs().update(3, cause | 0x8000_0000).update(
                        0,
                        spec_trap_mstatus(mstatus),
                    ).update(6, pre.cpu.pc) && post.cpu.pc == mtvec && r == TickResult::Cycles(4)
                } else {
                    post.cpu.csrs() == pre.cpu.csrs() && post.cpu.pc == pre.cpu.pc && r
                        == TickResult::Cycles(4)
                })
            },
            ExceptionInterrupt::Exception(e) => {
                post.cpu.wfi == pre.cpu.wfi && (if e == Exception::MEnvironmentCall
                    && pre.cpu.regs()[10] == 255 {
                    post.cpu.csrs() == pre.cpu.csrs() && post.cpu.pc == pre.cpu.pc && r
                        == TickResult::HALT
                } else if e == Exception::MEnvironmentCall && pre.cpu.regs()[10] == 254 {
                    post.cpu.csrs() == pre.cpu.csrs() && post.cpu.pc == pre.cpu.pc && r
                        == TickResult::Dump(pre.cpu.regs()[11], pre.cpu.regs()[12])
                } else {
                    post.cpu.csrs() == pre.cpu.csrs().update(3, e.spec_code()).update(
                        5,
                        pre.cpu.pc,
                    ).update(0, spec_trap_mstatus(mstatus)).update(6, pre.cpu.pc) && post.cpu.pc
                        == mtvec && r == TickResult::Cycles(4)
                })
            },
        })
    }

    /// The shared trap path for exceptions and accepted interrupts.
    fn handle_exception(&mut self, exc: ExceptionInterrupt) -> (r: TickResult)
        requires
            old(self).wf(),
        ensures
            final(self).wf(),
            MCU::trap_rel(*old(self), exc, *final(self), r),
    {
        let mstatus = match self.cpu.get_csr(0x300) {
            Ok(v) => v,
            Err(_) => 0,
        };
        let mstatus_mie = mstatus & 0x8;
        let mie = match self.cpu.get_csr(0x304) {
            Ok(v) => v,
            Err(_) => 0,
        };

        match exc {
            ExceptionInterrupt::Interrupt(i) => {
                self.cpu.wfi = false;
                let code = i.code();
                let cause = 1u32 << code;
                if mstatus_mie != 0 && mie & cause != 0 {
                    let _ = self.cpu.set_csr(0x342, cause | 0x8000_0000);
                } else {
                    proof {
                        MCU::lemma_wf_same_devices(*old(self), *self);
                    }
                    return TickResult::Cycles(4);
                }
            },
            ExceptionInterrupt::Exception(e) => {
                let is_ecall = matches!(e, Exception::MEnvironmentCall);
                if is_ecall && self.cpu.get_x(10) == 255 {
                    return TickResult::HALT;
                }
                if is_ecall && self.cpu.get_x(10) == 254 {
                    let start = self.cpu.get_x(11);
                    let end = self.cpu.get_x(12);
                    return TickResult::Dump(start, end);
                }
                let code = e.code();
                let _ = self.cpu.set_csr(0x342, code);
                let _ = self.cpu.set_csr(0x343, self.cpu.pc);
            },
        }

        let new_mstatus = (mstatus & !0x88u32) | (mstatus_mie << 4);
        let _ = self.cpu.set_csr(0x300, new_mstatus);
        let _ = self.cpu.set_csr(0x341, self.cpu.pc);
        let mtvec = match self.cpu.get_csr(0x305) {
            Ok(v) => v,
            Err(_) => 0,
        };
        self.cpu.pc = mtvec;
        proof {
            MCU::lemma_wf_same_devices(*old(self), *self);
            assert((mstatus & 0x8u32) << 4 == (mstatus & 0x8u32) * 16) by (bit_vector);
        }
        TickResult::Cycles(4)
    }

    /// Raises an interrupt from outside the tick: an external interrupt
    /// stashes its source bits on every registered PLIC, and the matching
    /// mip bit is set.
    pub fn interrupt(&mut self, interrupt: Interrupt, id: u32)
        requires
            old(self).wf(),
        ensures
            final(self).wf(),
            final(self).int_ctrl == old(self).int_ctrl,
            final(self).mmu == old(self).mmu,
            final(self).cpu.pc == old(self).cpu.pc,
            final(self).cpu.wfi == old(self).cpu.wfi,
            final(self).cpu.regs() == old(self).cpu.regs(),
            final(self).cpu.csrs() == old(self).cpu.csrs().update(
                1,
                old(self).cpu.csrs()[1] | (1u32 << interrupt.spec_code()),
            ),
            old(self).same_device_map_shape(*final(self)),
            interrupt != Interrupt::MExternalInterrupt ==> final(self).devices@ == old(self).devices@,
            forall|k: int|
                0 <= k < old(self).devices@.len() && !((#[trigger] old(self).devices@[k]).1
                    is PLIC) ==> final(self).devices@[k] == old(self).devices@[k],
            interrupt == Interrupt::MExternalInterrupt ==> (forall|k: int|
                0 <= k < old(self).devices@.len() ==> ((#[trigger] old(self).devices@[k]).1
                    matches Peripheral::PLIC(p0) ==> (final(self).devices@[k].1
                    matches Peripheral::PLIC(p1) && p1.pending == (p0.pending | (id as u64))
                    && p1.source_priority@ == p0.source_priority@ && p1.h0mie == p0.h0mie
                    && p1.h0mpt == p0.h0mpt))),
    {
        let is_external = matches!(interrupt, Interrupt::MExternalInterrupt);
        if is_external {
            self.or_plic_pending(id);
        }
        let ghost mid = *self;
        let mip = match self.cpu.get_csr(0x344) {
            Ok(v) => v,
            Err(_) => 0,
        };
        let code = interrupt.code();
        let _ = self.cpu.set_csr(0x344, mip | (1u32 << code));
        proof {
            MCU::lemma_wf_same_devices(mid, *self);
        }
    }

    /// Ors the given source bits into the pending mask of every registered
    /// PLIC.
    fn or_plic_pending(&mut self, id: u32)
        requires
            old(self).wf(),
        ensures
            final(self).wf(),
            MCU::bus_access_frame(*old(self), *final(self)),
            forall|k: int|
                0 <= k < old(self).devices@.len() && !((#[trigger] old(self).devices@[k]).1
                    is PLIC) ==> final(self).devices@[k] == old(self).devices@[k],
            forall|k: int|
                0 <= k < old(self).devices@.len() ==> ((#[trigger] old(self).devices@[k]).1
                    matches Peripheral::PLIC(p0) ==> (final(self).devices@[k].1
                    matches Peripheral::PLIC(p1) && p1.pending == (p0.pending | (id as u64))
                    && p1.source_priority@ == p0.source_priority@ && p1.h0mie == p0.h0mie
                    && p1.h0mpt == p0.h0mpt)),
    {
        let mut k: usize = 0;
        while k < self.devices.len()
            invariant
                old(self).wf(),
                self.cpu == old(self).cpu,
                self.int_ctrl == old(self).int_ctrl,
                self.mmu == old(self).mmu,
                self.devices@.len() == old(self).devices@.len(),
                k <= self.devices@.len(),
                forall|k0: int|
                    k <= k0 < old(self).devices@.len() ==> #[trigger] self.devices@[k0] == old(self).devices@[k0],
                forall|k0: int|
                    0 <= k0 < k && !((#[trigger] old(self).devices@[k0]).1 is PLIC)
                        ==> self.devices@[k0] == old(self).devices@[k0],
                forall|k0: int|
                    0 <= k0 < k ==> ((#[trigger] old(self).devices@[k0]).1
                        matches Peripheral::PLIC(p0) ==> (self.devices@[k0].1
                        matches Peripheral::PLIC(p1) && p1.pending == (p0.pending | (id as u64))
                        && p1.source_priority@ == p0.source_priority@ && p1.h0mie == p0.h0mie
                        && p1.h0mpt == p0.h0mpt)),
                forall|k0: int|
                    0 <= k0 < self.devices@.len() ==> (#[trigger] self.devices@[k0]).0 == old(self).devices@[k0].0 && self.devices@[k0].1.wf() && old(self).devices@[k0].1.same_kind(self.devices@[k0].1),
            decreases self.devices@.len() - k,
        {
            let is_plic = matches!(&self.devices[k].1, Peripheral::PLIC(_));
            if is_plic {
                let ghost prev = self.devices@;
                let entry = self.devices.remove(k);
                let ghost mid = self.devices@;
                let (did, dev) = entry;
                let dev = match dev {
                    Peripheral::PLIC(p) => {
                        let pending = p.pending | (id as u64);
                        Peripheral::PLIC(
                            PLIC {
                                source_priority: p.source_priority,
                                pending,
                                h0mie: p.h0mie,
                                h0mpt: p.h0mpt,
                            },
                        )
                    },
                    other => other,
                };
                self.devices.insert(k, (did, dev));
                proof {
                    lemma_splice(prev, mid, self.devices@, k as int, (did, dev));
                }
            }
            k = k + 1;
        }
        proof {
            MCU::lemma_wf_same_shape(*old(self), *self);
        }
    }
}

impl MCU {
    /// The two machines agree on every component.
    pub open spec fn same_machine(a: MCU, b: MCU) -> bool {
        b.cpu == a.cpu && b.int_ctrl == a.int_ctrl && b.mmu == a.mmu && b.devices@ == a.devices@
    }

    /// One round of device clocking, with `reqs` the interrupts it raised in
    /// raise order: they all extend the accumulator and each was raised by a
    /// device of the round; every device other than the first PLIC is
    /// related to its old state by its tick relation (the PLIC's tick is a
    /// no-op), and the first PLIC additionally absorbs the enabled external
    /// source bits of `reqs` onto its pending mask.
    pub open spec fn devices_round_rel(pre: MCU, post: MCU, reqs: Seq<(Interrupt, u32)>) -> bool {
        post.int_ctrl.interrupts@ == pre.int_ctrl.interrupts@ + reqs.map_values(
            (|r: (Interrupt, u32)| r.0),
        ) && (forall|j: int|
            #![trigger reqs[j]]
            0 <= j < reqs.len() ==> exists|d: int|
                0 <= d < pre.devices@.len() && Peripheral::spec_device_raises(
                    (#[trigger] pre.devices@[d]).1,
                    reqs[j].0,
                )) && post.devices@.len() == pre.devices@.len() && (forall|k: int|
            #![trigger pre.devices@[k]]
            0 <= k < pre.devices@.len() && !(pre.devices@[k].1 is PLIC) ==> exists|
                ra: Seq<(Interrupt, u32)>,
                rb: Seq<(Interrupt, u32)>,
            |
                #[trigger] Peripheral::tick_rel(pre.devices@[k].1, post.devices@[k].1, ra, rb)) && (
        forall|k: int|
            #![trigger pre.devices@[k]]
            0 <= k < pre.devices@.len() ==> (pre.devices@[k].1 matches Peripheral::PLIC(p0)
                ==> post.devices@[k].1 matches Peripheral::PLIC(p1) && p1.source_priority@
                == p0.source_priority@ && p1.h0mie == p0.h0mie && p1.h0mpt == p0.h0mpt && ((forall|
                k0: int,
            | 0 <= k0 < k ==> !((#[trigger] pre.devices@[k0]).1 is PLIC)) ==> p1.pending
                == crate::interrupt_controller::spec_pending_after(
                p0.pending,
                p0.h0mie,
                reqs,
            )) && (!(forall|k0: int| 0 <= k0 < k ==> !((#[trigger] pre.devices@[k0]).1 is PLIC))
                ==> p1.pending == p0.pending)))
    }

    /// How the device-clocking and interrupt-delivery phase relates the
    /// machine states: the CPU keeps pc, registers and the WFI flag; the
    /// request list ends empty; mip gains at most the bit of the
    /// highest-priority accumulated interrupt; everything accumulated was
    /// either already there or raised by one of this round's devices; and
    /// the devices change exactly as one clocking round asks
    /// (`devices_round_rel`).
    pub open spec fn devices_notify_rel(pre: MCU, post: MCU) -> bool {
        post.mmu == pre.mmu && pre.same_device_map_shape(post) && post.cpu.pc == pre.cpu.pc
            && post.cpu.wfi == pre.cpu.wfi && post.cpu.regs() == pre.cpu.regs()
            && post.int_ctrl.requests@ == Seq::<(Interrupt, u32)>::empty() && (
        post.int_ctrl.interrupts@.len() == 0 ==> post.cpu.csrs() == pre.cpu.csrs()) && (
        post.int_ctrl.interrupts@.len() > 0 ==> exists|i: Interrupt|
            post.int_ctrl.interrupts@.contains(i) && (forall|k: int|
                0 <= k < post.int_ctrl.interrupts@.len() ==> (
                #[trigger] post.int_ctrl.interrupts@[k]).spec_rank() <= i.spec_rank())
                && post.cpu.csrs() == pre.cpu.csrs().update(
                1,
                pre.cpu.csrs()[1] | (1u32 << i.spec_code()),
            )) && (forall|k: int|
            0 <= k < post.int_ctrl.interrupts@.len() ==> pre.int_ctrl.interrupts@.contains(
                #[trigger] post.int_ctrl.interrupts@[k],
            ) || (exists|d: int|
                0 <= d < pre.devices@.len() && Peripheral::spec_device_raises(
                    (#[trigger] pre.devices@[d]).1,
                    post.int_ctrl.interrupts@[k],
                ))) && (exists|reqs: Seq<(Interrupt, u32)>|
            #[trigger] MCU::devices_round_rel(pre, post, reqs))
    }

    /// How the fetch phase relates the machine states: a word read at pc,
    /// which may have device side effects, or an access fault on an
    /// unmapped pc.
    pub open spec fn fetch_rel(pre: MCU, post: MCU, word: Result<u32, MemoryError>) -> bool {
        post.cpu == pre.cpu && post.int_ctrl == pre.int_ctrl && post.mmu == pre.mmu && (
        match pre.spec_route(pre.cpu.pc) {
            None => post.devices@ == pre.devices@ && word == Err::<u32, MemoryError>(
                MemoryError::AccessFault,
            ),
            Some(m) => MCU::routed_access(pre, post, m) && pre.same_device_map_shape(post)
                && Peripheral::rw_rel(
                pre.devices@[pre.device_index_of(m.identifier)].1,
                post.devices@[pre.device_index_of(m.identifier)].1,
                (pre.cpu.pc - m.mem_start) as u32,
                word,
            ),
        })
    }

    /// How the interrupt check relates the machine states: with mstatus.MIE
    /// set, the highest-priority enabled pending interrupt is taken
    /// (software first, which clears its mip bit); otherwise nothing
    /// happens.
    pub open spec fn int_check_rel(pre: MCU, post: MCU, taken: Option<Interrupt>) -> bool {
        post.int_ctrl == pre.int_ctrl && post.mmu == pre.mmu && post.devices@ == pre.devices@
            && post.cpu.pc == pre.cpu.pc && post.cpu.wfi == pre.cpu.wfi && post.cpu.regs()
            == pre.cpu.regs() && (if pre.cpu.csrs()[0] & 0x8 != 0 {
            let mie = pre.cpu.csrs()[2];
            let mip = pre.cpu.csrs()[1];
            if mie & 0x8 != 0 && mip & 0x8 != 0 {
                taken == Some(Interrupt::MSoftInterrupt) && post.cpu.csrs()
                    == pre.cpu.csrs().update(1, mip & !0x8u32)
            } else if mie & 0x80 != 0 && mip & 0x80 != 0 {
                taken == Some(Interrupt::MTimerInterrupt) && post.cpu.csrs() == pre.cpu.csrs()
            } else if mie & 0x800 != 0 && mip & 0x800 != 0 {
                taken == Some(Interrupt::MExternalInterrupt) && post.cpu.csrs() == pre.cpu.csrs()
            } else {
                taken == None::<Interrupt> && post.cpu.csrs() == pre.cpu.csrs()
            }
        } else {
            taken == None::<Interrupt> && post.cpu.csrs() == pre.cpu.csrs()
        })
    }

    /// The whole tick, phase by phase: devices and interrupt delivery,
    /// fetch, the interrupt check, and then either trap entry, a reported
    /// stall, or decode and execution with the cycle cost, with a raised
    /// trap going through the trap path.
    pub open spec fn tick_phases(
        pre: MCU,
        s1: MCU,
        s2: MCU,
        s3: MCU,
        word: Result<u32, MemoryError>,
        taken: Option<Interrupt>,
        post: MCU,
        r: TickResult,
    ) -> bool {
        MCU::devices_notify_rel(pre, s1) && MCU::fetch_rel(s1, s2, word) && MCU::int_check_rel(
            s2,
            s3,
            taken,
        ) && (match taken {
            Some(i) => MCU::trap_rel(s3, ExceptionInterrupt::Interrupt(i), post, r),
            None => if s3.cpu.wfi {
                MCU::same_machine(s3, post) && r == TickResult::WFI
            } else {
                match word {
                    Err(_) => MCU::trap_rel(
                        s3,
                        ExceptionInterrupt::Exception(Exception::InstructionAccessFault),
                        post,
                        r,
                    ),
                    Ok(w) => if w == 0 {
                        MCU::trap_rel(
                            s3,
                            ExceptionInterrupt::Exception(Exception::IllegalInstruction),
                            post,
                            r,
                        )
                    } else {
                        (exists|c: u32|
                            (#[trigger] MCU::run_instruction_rel(
                                s3,
                                w,
                                post,
                                Ok::<u32, ExceptionInterrupt>(c),
                            )) && r == TickResult::Cycles(c)) || (exists|s4: MCU, e: ExceptionInterrupt|
                            (#[trigger] MCU::run_instruction_rel(
                                s3,
                                w,
                                s4,
                                Err::<u32, ExceptionInterrupt>(e),
                            )) && MCU::trap_rel(s4, e, post, r))
                    },
                }
            },
        })
    }

    /// Clocks every device in identifier order, folds the raised interrupts
    /// through the PLIC, and writes the highest-priority one into mip.
    ///
    /// The accumulated interrupts afterwards hold nothing but what was there
    /// before and what the devices raised this round, so the mip bits set
    /// here reflect only this round's devices once the accumulator was
    /// empty.
    pub fn tick_devices_and_notify(&mut self)
        requires
            old(self).wf(),
            old(self).int_ctrl.requests@ == Seq::<(Interrupt, u32)>::empty(),
        ensures
            final(self).wf(),
            MCU::devices_notify_rel(*old(self), *final(self)),
    {
        let ghost reqs0 = self.int_ctrl.requests@;
        let mut j: usize = 0;
        while j < self.devices.len()
            invariant
                old(self).wf(),
                self.cpu == old(self).cpu,
                self.mmu == old(self).mmu,
                self.int_ctrl.interrupts@ == old(self).int_ctrl.interrupts@,
                self.devices@.len() == old(self).devices@.len(),
                j <= self.devices@.len(),
                forall|k: int|
                    j <= k < old(self).devices@.len() ==> #[trigger] self.devices@[k] == old(self).devices@[k],
                forall|k: int|
                    0 <= k < self.devices@.len() ==> (#[trigger] self.devices@[k]).0 == old(self).devices@[k].0 && self.devices@[k].1.wf() && old(self).devices@[k].1.same_kind(
                        self.devices@[k].1,
                    ),
                reqs0 == old(self).int_ctrl.requests@,
                self.int_ctrl.requests@.len() >= reqs0.len(),
                forall|idx: int|
                    0 <= idx < reqs0.len() ==> #[trigger] self.int_ctrl.requests@[idx]
                        == reqs0[idx],
                forall|idx: int|
                    #![trigger self.int_ctrl.requests@[idx]]
                    reqs0.len() <= idx < self.int_ctrl.requests@.len() ==> exists|d: int|
                        0 <= d < old(self).devices@.len() && Peripheral::spec_device_raises(
                            (#[trigger] old(self).devices@[d]).1,
                            self.int_ctrl.requests@[idx].0,
                        ),
                forall|k: int|
                    #![trigger self.devices@[k]]
                    0 <= k < j ==> Peripheral::spec_ticked(
                        old(self).devices@[k].1,
                        self.devices@[k].1,
                    ),
            decreases self.devices@.len() - j,
        {
            let ghost prev = self.devices@;
            let ghost rq_pre = self.int_ctrl.requests@;
            let d = device_at_mut(&mut self.devices, j);
            let ghost dev_pre = d.1;
            d.1.tick(&mut self.int_ctrl);
            proof {
                Peripheral::lemma_tick_raises(
                    dev_pre,
                    self.devices@[j as int].1,
                    rq_pre,
                    self.int_ctrl.requests@,
                );
                assert(dev_pre == old(self).devices@[j as int].1);
                assert forall|idx: int|
                    #![trigger self.int_ctrl.requests@[idx]]
                    reqs0.len() <= idx < self.int_ctrl.requests@.len() implies exists|d0: int|
                    0 <= d0 < old(self).devices@.len() && Peripheral::spec_device_raises(
                        (#[trigger] old(self).devices@[d0]).1,
                        self.int_ctrl.requests@[idx].0,
                    ) by {
                    if idx < rq_pre.len() {
                        assert(self.int_ctrl.requests@[idx] == rq_pre[idx]);
                    } else {
                        assert(Peripheral::spec_device_raises(
                            old(self).devices@[j as int].1,
                            self.int_ctrl.requests@[idx].0,
                        ));
                    }
                }
                assert forall|k: int|
                    #![trigger self.devices@[k]]
                    0 <= k < j + 1 implies Peripheral::spec_ticked(
                    old(self).devices@[k].1,
                    self.devices@[k].1,
                ) by {
                    if k == j {
                        assert(Peripheral::tick_rel(
                            old(self).devices@[j as int].1,
                            self.devices@[j as int].1,
                            rq_pre,
                            self.int_ctrl.requests@,
                        ));
                    } else {
                        assert(self.devices@[k] == prev[k]);
                    }
                }
            }
            j = j + 1;
        }
        proof {
            MCU::lemma_wf_same_shape(*old(self), *self);
        }
        // Fold the raised interrupts onto the first PLIC's pending mask, or
        // plainly accumulate them when no PLIC is registered.
        let ghost mid1 = *self;
        let plic_at = self.find_first_plic();
        let ghost rq_mid = self.int_ctrl.requests@;
        let ghost ints_mid = self.int_ctrl.interrupts@;
        match plic_at {
            Some(kp) => {
                let ghost prev = self.devices@;
                let entry = self.devices.remove(kp);
                let ghost midseq = self.devices@;
                let (did, dev) = entry;
                let dev = match dev {
                    Peripheral::PLIC(p) => {
                        let mut p = p;
                        self.int_ctrl.apply_requests(&mut p);
                        Peripheral::PLIC(p)
                    },
                    other => {
                        self.int_ctrl.apply_requests_no_plic();
                        other
                    },
                };
                self.devices.insert(kp, (did, dev));
                proof {
                    let cur = self.devices@;
                    lemma_splice(prev, midseq, cur, kp as int, (did, dev));
                    assert forall|k0: int| 0 <= k0 < cur.len() implies (
                    #[trigger] cur[k0]).0 == mid1.devices@[k0].0 && cur[k0].1.wf() by {
                        if k0 != kp {
                            assert(cur[k0] == prev[k0]);
                        }
                    }
                    // The round facts: every device but the first PLIC keeps
                    // its tick relation to its old state; the first PLIC
                    // absorbed the round's requests, the others kept their
                    // pending mask.
                    assert forall|k: int|
                        #![trigger old(self).devices@[k]]
                        0 <= k < old(self).devices@.len() && !(old(self).devices@[k].1 is PLIC)
                            implies Peripheral::spec_ticked(
                        old(self).devices@[k].1,
                        self.devices@[k].1,
                    ) by {
                        assert(old(self).devices@[k].1.same_kind(mid1.devices@[k].1));
                        assert(k != kp);
                        assert(self.devices@[k] == mid1.devices@[k]);
                        assert(Peripheral::spec_ticked(
                            old(self).devices@[k].1,
                            mid1.devices@[k].1,
                        ));
                    }
                    assert forall|k: int|
                        #![trigger old(self).devices@[k]]
                        0 <= k < old(self).devices@.len() implies (old(self).devices@[k].1
                            matches Peripheral::PLIC(p0) ==> self.devices@[k].1
                            matches Peripheral::PLIC(p1) && p1.source_priority@
                            == p0.source_priority@ && p1.h0mie == p0.h0mie && p1.h0mpt == p0.h0mpt
                            && ((forall|k0: int|
                            0 <= k0 < k ==> !((#[trigger] old(self).devices@[k0]).1 is PLIC))
                            ==> p1.pending == crate::interrupt_controller::spec_pending_after(
                            p0.pending,
                            p0.h0mie,
                            rq_mid,
                        )) && (!(forall|k0: int|
                            0 <= k0 < k ==> !((#[trigger] old(self).devices@[k0]).1 is PLIC))
                            ==> p1.pending == p0.pending)) by {
                        if old(self).devices@[k].1 is PLIC {
                            assert(Peripheral::spec_ticked(
                                old(self).devices@[k].1,
                                mid1.devices@[k].1,
                            ));
                            let (ra, rb) = choose|
                                ra: Seq<(Interrupt, u32)>,
                                rb: Seq<(Interrupt, u32)>,
                            |
                                Peripheral::tick_rel(
                                    old(self).devices@[k].1,
                                    mid1.devices@[k].1,
                                    ra,
                                    rb,
                                );
                            assert(Peripheral::tick_rel(
                                old(self).devices@[k].1,
                                mid1.devices@[k].1,
                                ra,
                                rb,
                            ));
                            if k == kp {
                                // The first PLIC: its tick left it alone and
                                // the fold stashed the round's source bits.
                                assert forall|k0: int|
                                    0 <= k0 < k implies !((
                                #[trigger] old(self).devices@[k0]).1 is PLIC) by {
                                    assert(old(self).devices@[k0].1.same_kind(
                                        mid1.devices@[k0].1,
                                    ));
                                    assert(!(mid1.devices@[k0].1 is PLIC));
                                }
                            } else {
                                // A later PLIC keeps its pending mask; the
                                // guard fails on the first PLIC's index.
                                if k < kp {
                                    assert(old(self).devices@[k].1.same_kind(
                                        mid1.devices@[k].1,
                                    ));
                                    assert(!(mid1.devices@[k].1 is PLIC));
                                    assert(false);
                                }
                                assert(old(self).devices@[kp as int].1.same_kind(
                                    mid1.devices@[kp as int].1,
                                ));
                                assert(old(self).devices@[kp as int].1 is PLIC);
                                assert(self.devices@[k] == mid1.devices@[k]);
                            }
                        }
                    }
                }
            },
            None => {
                self.int_ctrl.apply_requests_no_plic();
                proof {
                    assert forall|k: int|
                        #![trigger old(self).devices@[k]]
                        0 <= k < old(self).devices@.len() implies !(old(self).devices@[k].1
                            is PLIC) && Peripheral::spec_ticked(
                        old(self).devices@[k].1,
                        self.devices@[k].1,
                    ) by {
                        assert(old(self).devices@[k].1.same_kind(mid1.devices@[k].1));
                        assert(!(mid1.devices@[k].1 is PLIC));
                        assert(Peripheral::spec_ticked(
                            old(self).devices@[k].1,
                            mid1.devices@[k].1,
                        ));
                    }
                }
            },
        }
        proof {
            assert(self.int_ctrl.interrupts@ == ints_mid + rq_mid.map_values(
                (|r: (Interrupt, u32)| r.0),
            ));
            assert forall|k0: int|
                0 <= k0 < self.int_ctrl.interrupts@.len() implies old(self).int_ctrl.interrupts@.contains(#[trigger] self.int_ctrl.interrupts@[k0]) || (exists|
                d: int,
            |
                0 <= d < old(self).devices@.len() && Peripheral::spec_device_raises(
                    (#[trigger] old(self).devices@[d]).1,
                    self.int_ctrl.interrupts@[k0],
                )) by {
                if k0 < ints_mid.len() {
                    assert(self.int_ctrl.interrupts@[k0] == ints_mid[k0]);
                    assert(old(self).int_ctrl.interrupts@.contains(ints_mid[k0]));
                } else {
                    let idx = k0 - ints_mid.len();
                    assert(self.int_ctrl.interrupts@[k0] == rq_mid.map_values(
                        (|r: (Interrupt, u32)| r.0),
                    )[idx]);
                    assert(rq_mid.map_values((|r: (Interrupt, u32)| r.0))[idx] == rq_mid[idx].0);
                    if idx < reqs0.len() {
                        assert(rq_mid[idx] == reqs0[idx]);
                        assert(false);
                    }
                }
            }
        }
        // Deliver the highest-priority accumulated interrupt into mip.
        let ghost mid2 = *self;
        proof {
            MCU::lemma_wf_same_shape(mid1, mid2);
        }
        self.int_ctrl.notify_cpu(&mut self.cpu);
        proof {
            MCU::lemma_wf_same_devices(mid2, *self);
            assert(MCU::devices_round_rel(*old(self), *self, rq_mid));
        }
    }
}

impl MCU {
    /// How decoding and executing a fetched word relates the machine
    /// states: the privileged set is tried first, then RV32I; a word in
    /// neither raises Illegal Instruction. On success the program counter
    /// advance policy of the instruction is applied.
    pub open spec fn run_instruction_rel(pre: MCU, word: u32, post: MCU, r: Result<
        u32,
        ExceptionInterrupt,
    >) -> bool {
        match crate::instructions::privileged::RVPrivileged::spec_decode(word) {
            Some(p) => (match p {
                crate::instructions::privileged::RVPrivileged::MRET(_) =>
                    crate::instructions::privileged::RVPrivileged::exec_rel(pre, p, post, r),
                crate::instructions::privileged::RVPrivileged::WFI(_) =>
                    crate::instructions::exec_frame(pre, post) && r == Ok::<
                    u32,
                    ExceptionInterrupt,
                >(1) && post.cpu.wfi && post.cpu.pc == crate::instructions::wadd(pre.cpu.pc, 4)
                    && post.cpu.regs() == pre.cpu.regs() && post.cpu.csrs() == pre.cpu.csrs(),
            }),
            None => (match crate::instructions::rv32i::RV32i::spec_decode(word) {
                Some(v) => (match r {
                    Err(_) => crate::instructions::rv32i::RV32i::exec_rel(pre, v, post, r),
                    Ok(_) => exists|mid: MCU|
                        #[trigger] crate::instructions::rv32i::RV32i::exec_rel(pre, v, mid, r)
                            && crate::instructions::rv32i::RV32i::spec_update_pc_rel(mid, v, post),
                }),
                None => post == pre && r == Err::<u32, ExceptionInterrupt>(
                    ExceptionInterrupt::Exception(Exception::IllegalInstruction),
                ),
            }),
        }
    }

    /// Decodes and executes one instruction word: the privileged set is
    /// tried first, then RV32I.
    fn run_instruction(&mut self, word: u32) -> (r: Result<u32, ExceptionInterrupt>)
        requires
            old(self).wf(),
        ensures
            final(self).wf(),
            final(self).mmu == old(self).mmu,
            old(self).same_device_map_shape(*final(self)),
            old(self).int_ctrl.requests@ == Seq::<(Interrupt, u32)>::empty() ==> final(self).int_ctrl.requests@ == Seq::<(Interrupt, u32)>::empty(),
            MCU::run_instruction_rel(*old(self), word, *final(self), r),
    {
        match crate::instructions::privileged::RVPrivileged::decode(word) {
            Some(p) => {
                let cost = match p.execute(self) {
                    Ok(c) => c,
                    Err(e) => {
                        return Err(e);
                    },
                };
                let ghost mid = *self;
                p.update_pc(self);
                proof {
                    if p is WFI {
                        MCU::lemma_shape_refl(*old(self), mid);
                        MCU::lemma_shape_refl(mid, *self);
                        MCU::lemma_shape_trans(*old(self), mid, *self);
                    } else {
                        MCU::lemma_shape_refl(mid, *self);
                        MCU::lemma_shape_trans(*old(self), mid, *self);
                    }
                }
                Ok(cost)
            },
            None => {
                match crate::instructions::rv32i::RV32i::decode(word) {
                    Some(v) => {
                        let res = v.execute(self);
                        let ghost mid = *self;
                        proof {
                            crate::instructions::rv32i::lemma_exec_shape(
                                *old(self),
                                v,
                                mid,
                                res,
                            );
                        }
                        let cost = match res {
                            Ok(c) => c,
                            Err(e) => {
                                return Err(e);
                            },
                        };
                        v.update_pc(self);
                        proof {
                            assert(crate::instructions::rv32i::RV32i::exec_rel(
                                *old(self),
                                v,
                                mid,
                                Ok::<u32, ExceptionInterrupt>(cost),
                            ));
                            MCU::lemma_shape_refl(mid, *self);
                            MCU::lemma_shape_trans(*old(self), mid, *self);
                        }
                        Ok(cost)
                    },
                    None => Err(ExceptionInterrupt::Exception(Exception::IllegalInstruction)),
                }
            },
        }
    }

    /// One machine tick: clock the devices and deliver interrupts, fetch at
    /// pc, take a pending enabled interrupt if mstatus.MIE allows, report a
    /// WFI stall, and otherwise decode, execute and pay the cycle cost;
    /// traps go through the shared trap path. Between ticks the raised
    /// request list is empty, which every tick re-establishes.
    /// Everything one tick guarantees: frames, the sentinel facts, and the
    /// phase decomposition.
    pub open spec fn tick_rel(pre: MCU, post: MCU, r: TickResult) -> bool {
        post.wf() && post.mmu == pre.mmu && pre.same_device_map_shape(post)
            && post.int_ctrl.requests@ == Seq::<(Interrupt, u32)>::empty() && (r is HALT
            ==> post.cpu.regs() == pre.cpu.regs() && post.cpu.regs()[10] == 255) && (r
            matches TickResult::Dump(s, e) ==> post.cpu.regs() == pre.cpu.regs()
            && post.cpu.regs()[10] == 254 && s == post.cpu.regs()[11] && e
            == post.cpu.regs()[12]) && (r is WFI ==> post.cpu.wfi) && (exists|
            s1: MCU,
            s2: MCU,
            s3: MCU,
            word: Result<u32, MemoryError>,
            taken: Option<Interrupt>,
        | #[trigger] MCU::tick_phases(pre, s1, s2, s3, word, taken, post, r))
    }

    pub fn tick(&mut self) -> (r: TickResult)
        requires
            old(self).wf(),
            old(self).int_ctrl.requests@ == Seq::<(Interrupt, u32)>::empty(),
        ensures
            final(self).wf(),
            MCU::tick_rel(*old(self), *final(self), r),
    {
        self.tick_devices_and_notify();
        let ghost s1 = *self;
        let pc = self.cpu.pc;
        let word = self.rw(pc);
        let ghost s2 = *self;
        proof {
            MCU::lemma_shape_trans(*old(self), s1, s2);
        }
        let mstatus = match self.cpu.get_csr(0x300) {
            Ok(v) => v,
            Err(_) => 0,
        };
        let mstatus_mie = mstatus & 0x8 != 0;

        let ghost gword = word;
        let mut interrupt: Option<Interrupt> = None;
        if mstatus_mie {
            interrupt = self.cpu.get_interrupt();
        }
        proof {
            MCU::lemma_wf_same_devices(s2, *self);
        }
        let ghost gtaken = interrupt;
        let ghost s3 = *self;
        proof {
            MCU::lemma_shape_trans(*old(self), s2, s3);
        }

        let r = match interrupt {
            Some(exc) => self.handle_exception(ExceptionInterrupt::Interrupt(exc)),
            None => {
                if self.cpu.wfi {
                    TickResult::WFI
                } else {
                    match word {
                        Ok(w) => {
                            if w == 0 {
                                self.handle_exception(
                                    ExceptionInterrupt::Exception(Exception::IllegalInstruction),
                                )
                            } else {
                                match self.run_instruction(w) {
                                    Ok(v) => TickResult::Cycles(v),
                                    Err(err) => {
                                        let ghost s4 = *self;
                                        proof {
                                            MCU::lemma_shape_trans(*old(self), s3, s4);
                                        }
                                        self.handle_exception(err)
                                    },
                                }
                            }
                        },
                        Err(_) => self.handle_exception(
                            ExceptionInterrupt::Exception(Exception::InstructionAccessFault),
                        ),
                    }
                }
            },
        };
        proof {
            MCU::lemma_shape_trans(*old(self), s3, *self);
            assert(MCU::tick_phases(*old(self), s1, s2, s3, gword, gtaken, *self, r));
        }
        r
    }

    /// How loading an image relates the machine states: the flash device's
    /// leading bytes take the image, the rest of it and every other device
    /// stay, and nothing else moves.
    pub open spec fn flash_rel(pre: MCU, post: MCU, mem: Seq<u8>) -> bool {
        MCU::bus_access_frame(pre, post) && (mem.len() == 0 ==> post.devices@ == pre.devices@) && (
        mem.len() > 0 ==> (pre.spec_route(0) matches Some(m) && ({
            let j = pre.device_index_of(m.identifier);
            (forall|k: int|
                0 <= k < pre.devices@.len() && k != j ==> #[trigger] post.devices@[k]
                    == pre.devices@[k]) && (pre.devices@[j].1 matches Peripheral::FLASH(g0) ==> (
            post.devices@[j].1 matches Peripheral::FLASH(g1) && g1.spec_read_only()
                == g0.spec_read_only() && g1.bytes().len() == g0.bytes().len() && (forall|b: int|
                0 <= b < mem.len() ==> g1.bytes()[b] == mem[b]) && (forall|b: int|
                mem.len() <= b < g0.bytes().len() ==> g1.bytes()[b] == g0.bytes()[b])))
        })))
    }

    /// Copies a raw binary image byte by byte into the region that starts
    /// at address 0: the flash device, which must be writable and at least
    /// as large as the image.
    pub fn flash(&mut self, mem: Vec<u8>)
        requires
            old(self).wf(),
            mem@.len() <= 0x1_0000_0000,
            mem@.len() > 0 ==> (old(self).spec_route(0) matches Some(m) && m.mem_start == 0
                && mem@.len() - 1 <= m.mem_end && (old(self).devices@[old(self).device_index_of(
                m.identifier,
            )].1 matches Peripheral::FLASH(g) && !g.spec_read_only() && mem@.len()
                <= g.bytes().len())),
        ensures
            final(self).wf(),
            MCU::flash_rel(*old(self), *final(self), mem@),
    {
        let ghost route0 = old(self).spec_route(0);
        let mut i: usize = 0;
        while i < mem.len()
            invariant
                old(self).wf(),
                mem@.len() <= 0x1_0000_0000,
                mem@.len() > 0 ==> (route0 matches Some(m) && m.mem_start == 0 && mem@.len() - 1
                    <= m.mem_end && (old(self).devices@[old(self).device_index_of(m.identifier)].1
                    matches Peripheral::FLASH(g) && !g.spec_read_only() && mem@.len()
                    <= g.bytes().len())),
                route0 == old(self).spec_route(0),
                i <= mem@.len(),
                i == 0 ==> self.devices@ == old(self).devices@,
                self.wf(),
                self.cpu == old(self).cpu,
                self.int_ctrl == old(self).int_ctrl,
                self.mmu == old(self).mmu,
                old(self).same_device_map_shape(*self),
                mem@.len() > 0 ==> (route0 matches Some(m) && ({
                    let j = old(self).device_index_of(m.identifier);
                    (forall|k: int|
                        0 <= k < old(self).devices@.len() && k != j ==> #[trigger] self.devices@[k]
                            == old(self).devices@[k]) && (old(self).devices@[j].1
                        matches Peripheral::FLASH(g0) ==> (self.devices@[j].1
                        matches Peripheral::FLASH(g1) && g1.spec_read_only() == g0.spec_read_only()
                        && g1.bytes().len() == g0.bytes().len() && (forall|b: int|
                        0 <= b < i ==> g1.bytes()[b] == mem@[b]) && (forall|b: int|
                        i <= b < g0.bytes().len() ==> g1.bytes()[b] == g0.bytes()[b])))
                })),
            decreases mem@.len() - i,
        {
            proof {
                let m = route0->Some_0;
                let im = choose|i0: int|
                    0 <= i0 < old(self).mmu.device_idx@.len() && (
                    #[trigger] old(self).mmu.device_idx@[i0]).contains_addr(0);
                assert(old(self).mmu.device_idx@[im] == m);
                assert(m.contains_addr(i as u32));
                self.lemma_route_at(i as u32, im);
                assert(self.spec_route(i as u32) == Some(m));
            }
            let b = mem[i];
            let res = self.wb(i as u32, b);
            proof {
                assert(res is Ok);
            }
            i = i + 1;
        }
    }
}

impl MCU {
    /// Hands a byte from the host terminal to the first registered UART;
    /// without a UART the byte is dropped.
    pub fn uart_input(&mut self, byte: u8)
        requires
            old(self).wf(),
        ensures
            final(self).wf(),
            MCU::bus_access_frame(*old(self), *final(self)),
            (forall|k: int|
                0 <= k < old(self).devices@.len() ==> !((#[trigger] old(self).devices@[k]).1
                    is UART)) ==> final(self).devices@ == old(self).devices@,
            (exists|k: int|
                0 <= k < old(self).devices@.len() && (#[trigger] old(self).devices@[k]).1
                    is UART) ==> exists|k: int|
                0 <= k < old(self).devices@.len() && (#[trigger] old(self).devices@[k]).1 is UART
                    && (forall|k0: int|
                    0 <= k0 < old(self).devices@.len() && k0 != k ==> #[trigger] final(self).devices@[k0] == old(self).devices@[k0]) && (old(self).devices@[k].1
                    matches Peripheral::UART(u0) ==> (final(self).devices@[k].1
                    matches Peripheral::UART(u1) && u1.host_in@ == u0.host_in@.push(byte)
                    && u1.host_out@ == u0.host_out@ && u1.same_device_state(u0)
                    && u1.interrupt_id == u0.interrupt_id)),
    {
        let mut k: usize = 0;
        while k < self.devices.len()
            invariant
                old(self).wf(),
                *self == *old(self),
                k <= self.devices@.len(),
                forall|k0: int| 0 <= k0 < k ==> !((#[trigger] self.devices@[k0]).1 is UART),
            decreases self.devices@.len() - k,
        {
            let is_uart = matches!(&self.devices[k].1, Peripheral::UART(_));
            if is_uart {
                let ghost prev = self.devices@;
                let entry = self.devices.remove(k);
                let ghost mid = self.devices@;
                let (did, dev) = entry;
                let dev = match dev {
                    Peripheral::UART(u) => {
                        let mut u = u;
                        u.host_input(byte);
                        Peripheral::UART(u)
                    },
                    other => other,
                };
                self.devices.insert(k, (did, dev));
                proof {
                    let cur = self.devices@;
                    assert(cur == mid.insert(k as int, (did, dev)));
                    lemma_splice(prev, mid, cur, k as int, (did, dev));
                    assert(old(self).devices@[k as int].1.same_kind(self.devices@[k as int].1));
                    MCU::lemma_bus_write_frame(*old(self), *self, k as int);
                }
                return ;
            }
            k = k + 1;
        }
    }

    /// Takes the oldest byte the first registered UART holds for the host
    /// terminal, if any.
    pub fn uart_output(&mut self) -> (r: Option<u8>)
        requires
            old(self).wf(),
        ensures
            final(self).wf(),
            MCU::bus_access_frame(*old(self), *final(self)),
            (forall|k: int|
                0 <= k < old(self).devices@.len() ==> !((#[trigger] old(self).devices@[k]).1
                    is UART)) ==> final(self).devices@ == old(self).devices@ && r == None::<u8>,
            (exists|k: int|
                0 <= k < old(self).devices@.len() && (#[trigger] old(self).devices@[k]).1
                    is UART) ==> exists|k: int|
                0 <= k < old(self).devices@.len() && (#[trigger] old(self).devices@[k]).1 is UART
                    && (forall|k0: int|
                    0 <= k0 < old(self).devices@.len() && k0 != k ==> #[trigger] final(self).devices@[k0] == old(self).devices@[k0]) && (old(self).devices@[k].1
                    matches Peripheral::UART(u0) ==> (final(self).devices@[k].1
                    matches Peripheral::UART(u1) && u1.host_in@ == u0.host_in@
                    && u1.same_device_state(u0) && u1.interrupt_id == u0.interrupt_id && (
                    u0.host_out@.len() == 0 ==> r == None::<u8> && u1.host_out@ == u0.host_out@)
                    && (u0.host_out@.len() > 0 ==> r == Some(u0.host_out@[0]) && u1.host_out@
                    == u0.host_out@.drop_first()))),
    {
        let mut k: usize = 0;
        while k < self.devices.len()
            invariant
                old(self).wf(),
                *self == *old(self),
                k <= self.devices@.len(),
                forall|k0: int| 0 <= k0 < k ==> !((#[trigger] self.devices@[k0]).1 is UART),
            decreases self.devices@.len() - k,
        {
            let is_uart = matches!(&self.devices[k].1, Peripheral::UART(_));
            if is_uart {
                let ghost prev = self.devices@;
                let entry = self.devices.remove(k);
                let ghost mid = self.devices@;
                let (did, dev) = entry;
                let mut out: Option<u8> = None;
                let dev = match dev {
                    Peripheral::UART(u) => {
                        let mut u = u;
                        out = u.host_output();
                        Peripheral::UART(u)
                    },
                    other => other,
                };
                self.devices.insert(k, (did, dev));
                proof {
                    let cur = self.devices@;
                    assert(cur == mid.insert(k as int, (did, dev)));
                    lemma_splice(prev, mid, cur, k as int, (did, dev));
                    assert(old(self).devices@[k as int].1.same_kind(self.devices@[k as int].1));
                    MCU::lemma_bus_write_frame(*old(self), *self, k as int);
                }
                return out;
            }
            k = k + 1;
        }
        None
    }
}

/// When an accepted trap is entered, the program counter lands on mtvec,
/// mepc holds the program counter from before the trap, mstatus.MIE is
/// cleared, and mstatus.MPIE holds the old MIE bit; mcause takes the raw
/// exception code or the interrupt bit with the top bit set, exceptions
/// leave the faulting pc in mtval, and the trap costs four cycles.
pub proof fn lemma_trap_entry(pre: MCU, exc: ExceptionInterrupt, post: MCU, r: TickResult)
    requires
        MCU::trap_rel(pre, exc, post, r),
        pre.cpu.wf(),
        post.cpu.wf(),
        match exc {
            ExceptionInterrupt::Interrupt(i) => pre.cpu.csrs()[0] & 0x8 != 0 && pre.cpu.csrs()[2]
                & (1u32 << i.spec_code()) != 0,
            ExceptionInterrupt::Exception(e) => !(e == Exception::MEnvironmentCall
                && (pre.cpu.regs()[10] == 255 || pre.cpu.regs()[10] == 254)),
        },
    ensures
        post.cpu.pc == pre.cpu.csrs()[4],
        post.cpu.csrs()[6] == pre.cpu.pc,
        post.cpu.csrs()[0] & 0x8 == 0,
        post.cpu.csrs()[0] & 0x80 != 0 <==> pre.cpu.csrs()[0] & 0x8 != 0,
        match exc {
            ExceptionInterrupt::Interrupt(i) => post.cpu.csrs()[3] == ((1u32 << i.spec_code())
                | 0x8000_0000),
            ExceptionInterrupt::Exception(e) => post.cpu.csrs()[3] == e.spec_code()
                && post.cpu.csrs()[5] == pre.cpu.pc,
        },
        r == TickResult::Cycles(4),
{
    lemma_trap_mstatus(pre.cpu.csrs()[0]);
}

/// Removing the element at `k` and inserting `v` back at the same place
/// splices the sequence: the result is the original updated at `k`.
proof fn lemma_splice<T>(prev: Seq<T>, mid: Seq<T>, cur: Seq<T>, k: int, v: T)
    requires
        0 <= k < prev.len(),
        mid == prev.remove(k),
        cur == mid.insert(k, v),
    ensures
        cur == prev.update(k, v),
        cur[k] == v,
{
    assert forall|j: int| 0 <= j < cur.len() implies cur[j] == prev.update(k, v)[j] by {
        if j < k {
            assert(cur[j] == mid[j]);
            assert(mid[j] == prev[j]);
        } else if j > k {
            assert(cur[j] == mid[j - 1]);
            assert(mid[j - 1] == prev[j]);
        }
    }
    assert(cur =~= prev.update(k, v));
}

/// A mutable reference to an element of the device map.
fn device_at_mut(devices: &mut Vec<(u32, Peripheral)>, i: usize) -> (element: &mut (
    u32,
    Peripheral,
))
    requires
        i < old(devices)@.len(),
    ensures
        *element == old(devices)@[i as int],
        final(devices)@ == old(devices)@.update(i as int, *final(element)),
{
    &mut devices[i]
}

} // verus!

