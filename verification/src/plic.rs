//! Platform-level interrupt controller: 52 edge sources with per-source
//! priority, a pending bitmask, hart-0 enable mask and priority threshold,
//! and the claim register that hands the highest-priority pending source to
//! the handler.
//!
//! The controller itself is not clocked and polls nothing: devices raise
//! their source bits through the interrupt controller, gated by their own
//! interrupt-enable registers and by h0mie, and a pending bit is cleared
//! only when the handler claims its source.

use vstd::prelude::*;

use crate::memory::MemoryError;

verus! {

/// PLIC state. Only word accesses are supported on its registers.
pub struct PLIC {
    /// Per-source priority, sources 0..52.
    pub source_priority: Vec<u32>,
    /// Pending bitmask, one bit per source.
    pub pending: u64,
    /// Hart-0 machine-mode enable bitmask.
    pub h0mie: u64,
    /// Hart-0 machine-mode priority threshold.
    pub h0mpt: u32,
}

impl PLIC {
    /// 52 priority slots.
    pub open spec fn wf(self) -> bool {
        self.source_priority@.len() == 52
    }

    /// Source `i` is enabled, pending, and at or above the threshold.
    pub open spec fn spec_eligible(self, i: int) -> bool {
        0 <= i < 52 && self.h0mie & (1u64 << i as u64) != 0 && self.pending & (1u64 << i as u64)
            != 0 && self.source_priority@[i] >= self.h0mpt
    }

    /// `a` comes before `b` in claim order: lower priority first, ties by
    /// source index.
    pub open spec fn spec_claim_before(self, a: int, b: int) -> bool {
        self.source_priority@[a] < self.source_priority@[b] || (self.source_priority@[a]
            == self.source_priority@[b] && a < b)
    }

    /// A fresh controller: every priority 0, nothing pending, nothing
    /// enabled, threshold 0.
    pub fn new() -> (r: PLIC)
        ensures
            r.wf(),
            r.source_priority@ == Seq::<u32>::new(52, |i: int| 0u32),
            r.pending == 0,
            r.h0mie == 0,
            r.h0mpt == 0,
    {
        let mut source_priority: Vec<u32> = Vec::new();
        let mut i: usize = 0;
        while i < 52
            invariant
                i <= 52,
                source_priority@.len() == i,
                forall|j: int| 0 <= j < i ==> source_priority@[j] == 0u32,
            decreases 52 - i,
        {
            source_priority.push(0);
            i = i + 1;
        }
        let r = PLIC { source_priority, pending: 0, h0mie: 0, h0mpt: 0 };
        proof {
            assert(r.source_priority@ =~= Seq::<u32>::new(52, |i: int| 0u32));
        }
        r
    }

    /// The enabled and pending sources at or above the threshold, in claim
    /// order: ascending priority, ties by ascending source index.
    pub fn get_interrupts(&self) -> (r: Vec<u32>)
        requires
            self.wf(),
        ensures
            forall|k: int| 0 <= k < r@.len() ==> self.spec_eligible(#[trigger] r@[k] as int),
            forall|i: int| 0 <= i < 52 && self.spec_eligible(i) ==> r@.contains(i as u32),
            forall|k1: int, k2: int|
                0 <= k1 < k2 < r@.len() ==> self.spec_claim_before(r@[k1] as int, r@[k2] as int),
    {
        let mut out: Vec<u32> = Vec::new();
        let mut i: u32 = 0;
        while i < 52
            invariant
                self.wf(),
                i <= 52,
                forall|k: int| 0 <= k < out@.len() ==> self.spec_eligible(#[trigger] out@[k] as int),
                forall|j: int| 0 <= j < i && self.spec_eligible(j) ==> out@.contains(j as u32),
                forall|k1: int, k2: int|
                    0 <= k1 < k2 < out@.len() ==> self.spec_claim_before(
                        out@[k1] as int,
                        out@[k2] as int,
                    ),
                forall|k: int| 0 <= k < out@.len() ==> (#[trigger] out@[k] as int) < i,
            decreases 52 - i,
        {
            let code: u64 = 1u64 << i;
            let priority = self.source_priority[i as usize];
            if self.h0mie & code != 0 && self.pending & code != 0 && priority >= self.h0mpt {
                let ghost prev = out@;
                let mut k: usize = 0;
                while k < out.len() && self.source_priority[out[k] as usize] <= priority
                    invariant
                        self.wf(),
                        i < 52,
                        out@ == prev,
                        k <= out@.len(),
                        forall|k0: int|
                            0 <= k0 < out@.len() ==> self.spec_eligible(#[trigger] out@[k0] as int),
                        forall|k0: int|
                            0 <= k0 < k ==> self.source_priority@[#[trigger] out@[k0] as int]
                                <= priority,
                    decreases out@.len() - k,
                {
                    k = k + 1;
                }
                let ghost kk = k as int;
                out.insert(k, i);
                proof {
                    let cur = out@;
                    assert(cur == prev.insert(kk, i as u32));
                    assert forall|k0: int| 0 <= k0 < cur.len() implies self.spec_eligible(
                        #[trigger] cur[k0] as int,
                    ) && (cur[k0] as int) < i + 1 by {
                        if k0 < kk {
                            assert(cur[k0] == prev[k0]);
                        } else if k0 > kk {
                            assert(cur[k0] == prev[k0 - 1]);
                        }
                    }
                    assert forall|j: int| 0 <= j < i + 1 && self.spec_eligible(j) implies
                        cur.contains(j as u32) by {
                        if j == i {
                            assert(cur[kk] == i as u32);
                        } else {
                            assert(prev.contains(j as u32));
                            let k0 = choose|k0: int|
                                0 <= k0 < prev.len() && prev[k0] == j as u32;
                            if k0 < kk {
                                assert(cur[k0] == j as u32);
                            } else {
                                assert(cur[k0 + 1] == j as u32);
                            }
                        }
                    }
                    assert forall|k1: int, k2: int|
                        0 <= k1 < k2 < cur.len() implies self.spec_claim_before(
                        cur[k1] as int,
                        cur[k2] as int,
                    ) by {
                        if k2 < kk {
                            assert(cur[k1] == prev[k1] && cur[k2] == prev[k2]);
                        } else if k1 > kk {
                            assert(cur[k1] == prev[k1 - 1] && cur[k2] == prev[k2 - 1]);
                        } else if k1 < kk && k2 > kk {
                            assert(cur[k1] == prev[k1] && cur[k2] == prev[k2 - 1]);
                        } else if k1 == kk {
                            // The new element against a later one: the element
                            // the scan stopped on has a strictly greater
                            // priority, and everything after it is no smaller.
                            assert(cur[k2] == prev[k2 - 1]);
                            assert(kk < prev.len());
                            assert(self.source_priority@[prev[kk] as int] > priority);
                            if k2 - 1 > kk {
                                assert(self.spec_claim_before(prev[kk] as int, prev[k2 - 1] as int));
                            }
                        } else {
                            // A kept element against the new one: it had a
                            // priority at most `priority` and an index below
                            // `i`.
                            assert(cur[k1] == prev[k1]);
                            assert(self.source_priority@[prev[k1] as int] <= priority);
                            assert((prev[k1] as int) < i);
                        }
                    }
                }
            }
            i = i + 1;
        }
        out
    }

    /// Claims the highest-priority eligible source: clears its pending bit
    /// and returns its index. With nothing claimable it returns 0 and leaves
    /// the pending mask alone.
    pub fn claim_interrupt(&mut self) -> (r: u32)
        requires
            old(self).wf(),
        ensures
            final(self).wf(),
            final(self).source_priority@ == old(self).source_priority@,
            final(self).h0mie == old(self).h0mie,
            final(self).h0mpt == old(self).h0mpt,
            (exists|i: int| old(self).spec_eligible(i)) ==> old(self).spec_eligible(r as int) && (
            forall|j: int|
                old(self).spec_eligible(j) && j != r ==> old(self).spec_claim_before(j, r as int))
                && final(self).pending == old(self).pending & !(1u64 << r as u64),
            !(exists|i: int| old(self).spec_eligible(i)) ==> r == 0 && final(self).pending == old(
                self,
            ).pending,
    {
        let interrupts = self.get_interrupts();
        proof {
            if exists|i: int| self.spec_eligible(i) {
                let w = choose|i: int| self.spec_eligible(i);
                assert(interrupts@.contains(w as u32));
                assert(interrupts@.len() > 0);
            }
        }
        if interrupts.len() == 0 {
            return 0;
        }
        let interrupt: u32 = interrupts[interrupts.len() - 1];
        proof {
            let last = interrupts@.len() - 1;
            assert(self.spec_eligible(interrupts@[last] as int));
            assert forall|j: int| self.spec_eligible(j) && j != interrupt implies
                self.spec_claim_before(j, interrupt as int) by {
                assert(interrupts@.contains(j as u32));
                let k0 = choose|k0: int|
                    0 <= k0 < interrupts@.len() && interrupts@[k0] == j as u32;
                assert(k0 < last ==> self.spec_claim_before(
                    interrupts@[k0] as int,
                    interrupts@[last] as int,
                ));
            }
        }
        self.pending = self.pending & !(1u64 << interrupt);
        interrupt
    }

    /// Reads a PLIC register; reading the claim register performs a claim.
    pub fn rw(&mut self, addr: u32) -> (r: Result<u32, MemoryError>)
        requires
            old(self).wf(),
        ensures
            final(self).wf(),
            final(self).source_priority@ == old(self).source_priority@,
            final(self).h0mie == old(self).h0mie,
            final(self).h0mpt == old(self).h0mpt,
            addr != 0x20_0004 ==> final(self).pending == old(self).pending,
            0x4 <= addr < 0xd4 ==> r == Ok::<u32, MemoryError>(
                old(self).source_priority@[((addr - 4) / 4) as int],
            ),
            addr == 0x1000 ==> r == Ok::<u32, MemoryError>(old(self).pending as u32),
            addr == 0x1004 ==> r == Ok::<u32, MemoryError>((old(self).pending >> 32) as u32),
            addr == 0x2000 ==> r == Ok::<u32, MemoryError>(old(self).h0mie as u32),
            addr == 0x2004 ==> r == Ok::<u32, MemoryError>((old(self).h0mie >> 32) as u32),
            addr == 0x20_0000 ==> r == Ok::<u32, MemoryError>(old(self).h0mpt),
            addr == 0x20_0004 ==> (r matches Ok(c) && ((exists|i: int| old(self).spec_eligible(i))
                ==> old(self).spec_eligible(c as int) && (forall|j: int|
                old(self).spec_eligible(j) && j != c ==> old(self).spec_claim_before(j, c as int))
                && final(self).pending == old(self).pending & !(1u64 << c as u64)) && (!(exists|
                i: int,
            | old(self).spec_eligible(i)) ==> c == 0 && final(self).pending == old(self).pending)),
            !(0x4 <= addr < 0xd4) && addr != 0x1000 && addr != 0x1004 && addr != 0x2000 && addr
                != 0x2004 && addr != 0x20_0000 && addr != 0x20_0004 ==> r == Err::<u32, MemoryError>(MemoryError::AccessFault),
    {
        if addr >= 0x4 && addr < 0xd4 {
            Ok(self.source_priority[((addr - 4) / 4) as usize])
        } else if addr == 0x1000 {
            Ok(#[verifier::truncate] (self.pending as u32))
        } else if addr == 0x1004 {
            Ok(#[verifier::truncate] ((self.pending >> 32) as u32))
        } else if addr == 0x2000 {
            Ok(#[verifier::truncate] (self.h0mie as u32))
        } else if addr == 0x2004 {
            Ok(#[verifier::truncate] ((self.h0mie >> 32) as u32))
        } else if addr == 0x20_0000 {
            Ok(self.h0mpt)
        } else if addr == 0x20_0004 {
            let interrupt = self.claim_interrupt();
            Ok(interrupt)
        } else {
            Err(MemoryError::AccessFault)
        }
    }

    /// Writes a PLIC register; the pending and claim registers ignore
    /// writes.
    pub fn ww(&mut self, addr: u32, value: u32) -> (r: Result<(), MemoryError>)
        requires
            old(self).wf(),
        ensures
            final(self).wf(),
            final(self).pending == old(self).pending,
            0x4 <= addr < 0xd4 ==> r == Ok::<(), MemoryError>(()) && final(self).source_priority@
                == old(self).source_priority@.update(((addr - 4) / 4) as int, value) && final(self).h0mie == old(self).h0mie && final(self).h0mpt == old(self).h0mpt,
            addr == 0x1000 || addr == 0x1004 || addr == 0x20_0004 ==> r == Ok::<(), MemoryError>(())
                && final(self).source_priority@ == old(self).source_priority@ && final(self).h0mie
                == old(self).h0mie && final(self).h0mpt == old(self).h0mpt,
            addr == 0x2000 ==> r == Ok::<(), MemoryError>(()) && final(self).h0mie == ((old(self).h0mie & !0xffff_ffffu64) | (value as u64)) && final(self).source_priority@ == old(self).source_priority@ && final(self).h0mpt == old(self).h0mpt,
            addr == 0x2004 ==> r == Ok::<(), MemoryError>(()) && final(self).h0mie == ((old(self).h0mie & 0xffff_ffffu64) | ((value as u64) << 32)) && final(self).source_priority@
                == old(self).source_priority@ && final(self).h0mpt == old(self).h0mpt,
            addr == 0x20_0000 ==> r == Ok::<(), MemoryError>(()) && final(self).h0mpt == value
                && final(self).source_priority@ == old(self).source_priority@ && final(self).h0mie
                == old(self).h0mie,
            !(0x4 <= addr < 0xd4) && addr != 0x1000 && addr != 0x1004 && addr != 0x2000 && addr
                != 0x2004 && addr != 0x20_0000 && addr != 0x20_0004 ==> r == Err::<(), MemoryError>(MemoryError::AccessFault) && final(self).source_priority@ == old(self).source_priority@ && final(self).h0mie == old(self).h0mie && final(self).h0mpt == old(self).h0mpt,
    {
        if addr >= 0x4 && addr < 0xd4 {
            self.source_priority.set(((addr - 4) / 4) as usize, value);
            Ok(())
        } else if addr == 0x1000 || addr == 0x1004 {
            Ok(())
        } else if addr == 0x2000 {
            self.h0mie = (self.h0mie & !0xffff_ffffu64) | (value as u64);
            Ok(())
        } else if addr == 0x2004 {
            self.h0mie = (self.h0mie & 0xffff_ffffu64) | ((value as u64) << 32);
            Ok(())
        } else if addr == 0x20_0000 {
            self.h0mpt = value;
            Ok(())
        } else if addr == 0x20_0004 {
            Ok(())
        } else {
            Err(MemoryError::AccessFault)
        }
    }
}

} // verus!
