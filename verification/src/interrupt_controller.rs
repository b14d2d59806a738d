//! The interrupt controller: accumulates the interrupts the devices raise
//! during a tick, stashes external source bits on the PLIC pending mask, and
//! at the end of the tick writes the highest-priority entry into the CPU's
//! mip CSR.

use vstd::prelude::*;

use crate::cpu::CPU;
use crate::exceptions::Interrupt;
use crate::plic::PLIC;

verus! {

/// The PLIC pending mask after the external entries of `reqs` whose bits are
/// enabled in `h0mie` have been stashed on it.
pub open spec fn spec_pending_after(pending: u64, h0mie: u64, reqs: Seq<(Interrupt, u32)>) -> u64
    decreases reqs.len(),
{
    if reqs.len() == 0 {
        pending
    } else {
        let stepped = if reqs[0].0 == Interrupt::MExternalInterrupt && h0mie & (reqs[0].1 as u64)
            != 0 {
            pending | (reqs[0].1 as u64)
        } else {
            pending
        };
        spec_pending_after(stepped, h0mie, reqs.drop_first())
    }
}

/// Folding one more request at the end of the sequence is one more step.
proof fn lemma_pending_after_push(pending: u64, h0mie: u64, reqs: Seq<(Interrupt, u32)>, x: (
    Interrupt,
    u32,
))
    ensures
        spec_pending_after(pending, h0mie, reqs.push(x)) == (if x.0
            == Interrupt::MExternalInterrupt && h0mie & (x.1 as u64) != 0 {
            spec_pending_after(pending, h0mie, reqs) | (x.1 as u64)
        } else {
            spec_pending_after(pending, h0mie, reqs)
        }),
    decreases reqs.len(),
{
    let snoc = reqs.push(x);
    if reqs.len() == 0 {
        assert(snoc[0] == x);
        let stepped = if x.0 == Interrupt::MExternalInterrupt && h0mie & (x.1 as u64) != 0 {
            pending | (x.1 as u64)
        } else {
            pending
        };
        assert(snoc.drop_first() =~= Seq::<(Interrupt, u32)>::empty());
        assert(spec_pending_after(pending, h0mie, snoc) == spec_pending_after(
            stepped,
            h0mie,
            snoc.drop_first(),
        ));
        assert(spec_pending_after(stepped, h0mie, snoc.drop_first()) == stepped);
        assert(spec_pending_after(pending, h0mie, reqs) == pending);
    } else {
        assert(snoc[0] == reqs[0]);
        let stepped = if reqs[0].0 == Interrupt::MExternalInterrupt && h0mie & (reqs[0].1 as u64)
            != 0 {
            pending | (reqs[0].1 as u64)
        } else {
            pending
        };
        assert(snoc.drop_first() =~= reqs.drop_first().push(x));
        assert(spec_pending_after(pending, h0mie, snoc) == spec_pending_after(
            stepped,
            h0mie,
            reqs.drop_first().push(x),
        ));
        assert(spec_pending_after(pending, h0mie, reqs) == spec_pending_after(
            stepped,
            h0mie,
            reqs.drop_first(),
        ));
        lemma_pending_after_push(stepped, h0mie, reqs.drop_first(), x);
    }
}

/// Accumulates interrupts raised during a tick and delivers the
/// highest-priority one into the CPU's mip CSR.
pub struct InterruptController {
    /// Interrupts registered this tick, in raise order.
    pub interrupts: Vec<Interrupt>,
    /// Raised interrupts not yet folded onto the PLIC, with their source id
    /// bitmasks.
    pub requests: Vec<(Interrupt, u32)>,
}

impl InterruptController {
    /// A fresh controller with nothing accumulated.
    pub fn new() -> (r: InterruptController)
        ensures
            r.interrupts@ == Seq::<Interrupt>::empty(),
            r.requests@ == Seq::<(Interrupt, u32)>::empty(),
    {
        let r = InterruptController { interrupts: Vec::new(), requests: Vec::new() };
        proof {
            assert(r.interrupts@ =~= Seq::<Interrupt>::empty());
            assert(r.requests@ =~= Seq::<(Interrupt, u32)>::empty());
        }
        r
    }

    /// Registers an interrupt raised by a device. The interrupts accumulate
    /// until the end of the tick and are disposed afterwards. For external
    /// interrupts `id` is the source bitmask to stash on the PLIC.
    pub fn interrupt(&mut self, interrupt: Interrupt, id: u32)
        ensures
            final(self).interrupts@ == old(self).interrupts@,
            final(self).requests@ == old(self).requests@.push((interrupt, id)),
    {
        self.requests.push((interrupt, id));
    }

    /// Folds the raised interrupts into the accumulated list, stashing the
    /// source bits of the enabled external ones on the PLIC pending mask.
    pub fn apply_requests(&mut self, plic: &mut PLIC)
        requires
            old(plic).wf(),
        ensures
            final(self).requests@ == Seq::<(Interrupt, u32)>::empty(),
            final(self).interrupts@ == old(self).interrupts@ + old(self).requests@.map_values(
                (|r: (Interrupt, u32)| r.0),
            ),
            final(plic).wf(),
            final(plic).pending == spec_pending_after(
                old(plic).pending,
                old(plic).h0mie,
                old(self).requests@,
            ),
            final(plic).source_priority@ == old(plic).source_priority@,
            final(plic).h0mie == old(plic).h0mie,
            final(plic).h0mpt == old(plic).h0mpt,
    {
        let ghost reqs = self.requests@;
        let ghost pending0 = plic.pending;
        let mut idx: usize = 0;
        while idx < self.requests.len()
            invariant
                self.requests@ == reqs,
                idx <= reqs.len(),
                plic.wf(),
                old(plic).wf(),
                plic.h0mie == old(plic).h0mie,
                plic.h0mpt == old(plic).h0mpt,
                plic.source_priority@ == old(plic).source_priority@,
                plic.pending == spec_pending_after(pending0, plic.h0mie, reqs.take(idx as int)),
                self.interrupts@ == old(self).interrupts@ + reqs.take(idx as int).map_values(
                    (|r: (Interrupt, u32)| r.0),
                ),
            decreases reqs.len() - idx,
        {
            let (interrupt, id) = self.requests[idx];
            if matches!(interrupt, Interrupt::MExternalInterrupt) && plic.h0mie & (id as u64) != 0 {
                plic.pending = plic.pending | (id as u64);
            }
            self.interrupts.push(interrupt);
            proof {
                assert(reqs.take(idx + 1) =~= reqs.take(idx as int).push(reqs[idx as int]));
                lemma_pending_after_push(
                    pending0,
                    plic.h0mie,
                    reqs.take(idx as int),
                    reqs[idx as int],
                );
                assert(reqs.take(idx + 1).map_values((|r: (Interrupt, u32)| r.0))
                    =~= reqs.take(idx as int).map_values((|r: (Interrupt, u32)| r.0)).push(
                    reqs[idx as int].0,
                ));
            }
            idx = idx + 1;
        }
        proof {
            assert(reqs.take(reqs.len() as int) =~= reqs);
        }
        self.requests = Vec::new();
        proof {
            assert(self.requests@ =~= Seq::<(Interrupt, u32)>::empty());
        }
    }

    /// As `apply_requests`, for a machine without a PLIC: the raised
    /// interrupts are kept, external source bits go nowhere.
    pub fn apply_requests_no_plic(&mut self)
        ensures
            final(self).requests@ == Seq::<(Interrupt, u32)>::empty(),
            final(self).interrupts@ == old(self).interrupts@ + old(self).requests@.map_values(
                (|r: (Interrupt, u32)| r.0),
            ),
    {
        let ghost reqs = self.requests@;
        let mut idx: usize = 0;
        while idx < self.requests.len()
            invariant
                self.requests@ == reqs,
                idx <= reqs.len(),
                self.interrupts@ == old(self).interrupts@ + reqs.take(idx as int).map_values(
                    (|r: (Interrupt, u32)| r.0),
                ),
            decreases reqs.len() - idx,
        {
            let (interrupt, _id) = self.requests[idx];
            self.interrupts.push(interrupt);
            proof {
                assert(reqs.take(idx + 1) =~= reqs.take(idx as int).push(reqs[idx as int]));
                assert(reqs.take(idx + 1).map_values((|r: (Interrupt, u32)| r.0))
                    =~= reqs.take(idx as int).map_values((|r: (Interrupt, u32)| r.0)).push(
                    reqs[idx as int].0,
                ));
            }
            idx = idx + 1;
        }
        proof {
            assert(reqs.take(reqs.len() as int) =~= reqs);
        }
        self.requests = Vec::new();
        proof {
            assert(self.requests@ =~= Seq::<(Interrupt, u32)>::empty());
        }
    }

    /// The highest-priority accumulated interrupt, under the total order
    /// ExternalM > ExternalS > SoftM > SoftS > TimerM > TimerS.
    fn highest_priority_interrupt(&self) -> (r: Option<Interrupt>)
        ensures
            r is None <==> self.interrupts@.len() == 0,
            r matches Some(i) ==> self.interrupts@.contains(i) && (forall|k: int|
                0 <= k < self.interrupts@.len() ==> (#[trigger] self.interrupts@[k]).spec_rank()
                    <= i.spec_rank()),
    {
        let mut highest: Option<Interrupt> = None;
        let mut idx: usize = 0;
        while idx < self.interrupts.len()
            invariant
                idx <= self.interrupts@.len(),
                highest is None <==> idx == 0,
                highest matches Some(i) ==> self.interrupts@.contains(i) && (forall|k: int|
                    0 <= k < idx ==> (#[trigger] self.interrupts@[k]).spec_rank()
                        <= i.spec_rank()),
            decreases self.interrupts@.len() - idx,
        {
            let cur = self.interrupts[idx];
            let take = match highest {
                None => true,
                Some(h) => cur.rank() > h.rank(),
            };
            if take {
                highest = Some(cur);
            }
            idx = idx + 1;
        }
        highest
    }

    /// Writes the highest-priority accumulated interrupt, if any, into the
    /// CPU's mip CSR.
    pub fn notify_cpu(&self, cpu: &mut CPU)
        requires
            old(cpu).wf(),
        ensures
            final(cpu).wf(),
            final(cpu).pc == old(cpu).pc,
            final(cpu).wfi == old(cpu).wfi,
            final(cpu).regs() == old(cpu).regs(),
            self.interrupts@.len() == 0 ==> final(cpu).csrs() == old(cpu).csrs(),
            self.interrupts@.len() > 0 ==> exists|i: Interrupt|
                self.interrupts@.contains(i) && (forall|k: int|
                    0 <= k < self.interrupts@.len() ==> (#[trigger] self.interrupts@[k]).spec_rank()
                        <= i.spec_rank()) && final(cpu).csrs() == old(cpu).csrs().update(
                    1,
                    old(cpu).csrs()[1] | (1u32 << i.spec_code()),
                ),
    {
        match self.highest_priority_interrupt() {
            Some(interrupt) => {
                let mip = match cpu.get_csr(0x344) {
                    Ok(v) => v,
                    Err(_) => 0,
                };
                let code = interrupt.code();
                let _ = cpu.set_csr(0x344, mip | (1u32 << code));
                proof {
                    assert(self.interrupts@.contains(interrupt));
                }
            },
            None => {},
        }
    }

    /// Drops every accumulated interrupt and zeroes the CPU's mip CSR. The
    /// caller clears the PLIC pending mask alongside.
    pub fn reset(&mut self, cpu: &mut CPU)
        requires
            old(cpu).wf(),
        ensures
            final(self).interrupts@ == Seq::<Interrupt>::empty(),
            final(self).requests@ == Seq::<(Interrupt, u32)>::empty(),
            final(cpu).wf(),
            final(cpu).pc == old(cpu).pc,
            final(cpu).wfi == old(cpu).wfi,
            final(cpu).regs() == old(cpu).regs(),
            final(cpu).csrs() == old(cpu).csrs().update(1, 0u32),
    {
        self.interrupts = Vec::new();
        self.requests = Vec::new();
        let _ = cpu.set_csr(0x344, 0);
        proof {
            assert(self.interrupts@ =~= Seq::<Interrupt>::empty());
            assert(self.requests@ =~= Seq::<(Interrupt, u32)>::empty());
        }
    }
}

} // verus!
