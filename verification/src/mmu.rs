//! The memory-management unit: an ordered table of non-overlapping device
//! regions, searched by binary search, that routes a bus address to the
//! owning device and the offset inside it.

use vstd::prelude::*;

verus! {

/// One registered device region: an identifier and an inclusive address
/// range.
#[derive(Debug, Clone, Copy, PartialEq, Eq, Structural)]
pub struct DeviceMeta {
    /// The identifier of the device owning the region.
    pub identifier: u32,
    /// First bus address of the region.
    pub mem_start: u32,
    /// Last bus address of the region (inclusive).
    pub mem_end: u32,
}

impl DeviceMeta {
    /// A region never ends before it starts.
    pub open spec fn wf(self) -> bool {
        self.mem_start <= self.mem_end
    }

    /// The region contains the address.
    pub open spec fn contains_addr(self, addr: u32) -> bool {
        self.mem_start <= addr <= self.mem_end
    }

    /// The two regions share at least one address.
    pub open spec fn overlaps(self, other: DeviceMeta) -> bool {
        self.mem_start <= other.mem_end && other.mem_start <= self.mem_end
    }

    /// Builds a region descriptor.
    pub fn new(identifier: u32, mem_start: u32, mem_end: u32) -> (r: DeviceMeta)
        ensures
            r == (DeviceMeta { identifier, mem_start, mem_end }),
    {
        DeviceMeta { identifier, mem_start, mem_end }
    }
}

/// The region table, kept sorted by start address with pairwise-disjoint
/// regions.
pub struct MMU {
    /// The registered regions, ascending and disjoint.
    pub device_idx: Vec<DeviceMeta>,
}

impl MMU {
    /// Every region is well-formed and the table is strictly ordered with no
    /// overlap: each region ends before the next begins.
    pub open spec fn wf(self) -> bool {
        (forall|i: int| 0 <= i < self.device_idx@.len() ==> (#[trigger] self.device_idx@[i]).wf())
            && (forall|i: int, j: int|
            0 <= i < j < self.device_idx@.len() ==> (#[trigger] self.device_idx@[i]).mem_end < (
            #[trigger] self.device_idx@[j]).mem_start)
    }

    /// Consequence of `wf`: the regions are pairwise disjoint.
    pub proof fn lemma_regions_disjoint(self)
        requires
            self.wf(),
        ensures
            forall|i: int, j: int|
                0 <= i < self.device_idx@.len() && 0 <= j < self.device_idx@.len() && i != j
                    ==> !(#[trigger] self.device_idx@[i]).overlaps(#[trigger] self.device_idx@[j]),
    {
    }

    /// An empty region table.
    pub fn new() -> (r: MMU)
        ensures
            r.wf(),
            r.device_idx@ == Seq::<DeviceMeta>::empty(),
    {
        let r = MMU { device_idx: Vec::new() };
        proof {
            assert(r.device_idx@ =~= Seq::<DeviceMeta>::empty());
        }
        r
    }

    /// Binary search for the region holding `addr`.
    pub fn find_device_index(&self, addr: u32) -> (r: Option<usize>)
        requires
            self.wf(),
        ensures
            r matches Some(i) ==> 0 <= i < self.device_idx@.len()
                && self.device_idx@[i as int].contains_addr(addr),
            r is None ==> forall|i: int|
                0 <= i < self.device_idx@.len() ==> !(
                #[trigger] self.device_idx@[i]).contains_addr(addr),
    {
        let mut lo: usize = 0;
        let mut hi: usize = self.device_idx.len();
        while lo < hi
            invariant
                self.wf(),
                lo <= hi <= self.device_idx@.len(),
                forall|i: int| 0 <= i < lo ==> (#[trigger] self.device_idx@[i]).mem_end < addr,
                forall|i: int|
                    hi <= i < self.device_idx@.len() ==> addr < (
                    #[trigger] self.device_idx@[i]).mem_start,
            decreases hi - lo,
        {
            let mid = lo + (hi - lo) / 2;
            let meta = self.device_idx[mid];
            if addr < meta.mem_start {
                hi = mid;
            } else if addr > meta.mem_end {
                lo = mid + 1;
            } else {
                return Some(mid);
            }
        }
        None
    }

    /// The region holding `addr`, if one is registered.
    pub fn find_device_meta(&self, addr: u32) -> (r: Option<DeviceMeta>)
        requires
            self.wf(),
        ensures
            r matches Some(m) ==> self.device_idx@.contains(m) && m.contains_addr(addr),
            r is None ==> forall|i: int|
                0 <= i < self.device_idx@.len() ==> !(
                #[trigger] self.device_idx@[i]).contains_addr(addr),
    {
        match self.find_device_index(addr) {
            Some(idx) => {
                let m = self.device_idx[idx];
                proof {
                    assert(self.device_idx@[idx as int] == m);
                }
                Some(m)
            },
            None => None,
        }
    }

    /// Registers a new region, keeping the table sorted. Fails exactly when
    /// the region overlaps one already registered, and then changes nothing.
    pub fn insert_device(&mut self, meta: DeviceMeta) -> (r: Result<(), ()>)
        requires
            old(self).wf(),
            meta.wf(),
        ensures
            final(self).wf(),
            r is Err <==> exists|j: int|
                0 <= j < old(self).device_idx@.len() && (
                #[trigger] old(self).device_idx@[j]).overlaps(meta),
            r is Err ==> final(self).device_idx@ == old(self).device_idx@,
            r is Ok ==> exists|k: int|
                0 <= k <= old(self).device_idx@.len() && final(self).device_idx@ == old(
                    self,
                ).device_idx@.insert(k, meta),
            r is Ok ==> final(self).device_idx@.len() == old(self).device_idx@.len()
                + 1 && final(self).device_idx@.contains(meta) && (forall|j: int|
                0 <= j < old(self).device_idx@.len() ==> final(self).device_idx@.contains(
                    #[trigger] old(self).device_idx@[j],
                )) && (forall|j: int|
                0 <= j < final(self).device_idx@.len() ==> ((#[trigger] final(self).device_idx@[j])
                    == meta || old(self).device_idx@.contains(final(self).device_idx@[j]))),
    {
        let mut lo: usize = 0;
        let mut hi: usize = self.device_idx.len();
        while lo < hi
            invariant
                self.wf(),
                meta.wf(),
                lo <= hi <= self.device_idx@.len(),
                forall|i: int|
                    0 <= i < lo ==> (#[trigger] self.device_idx@[i]).mem_end < meta.mem_start,
                forall|i: int|
                    hi <= i < self.device_idx@.len() ==> meta.mem_end < (
                    #[trigger] self.device_idx@[i]).mem_start,
            decreases hi - lo,
        {
            let mid = lo + (hi - lo) / 2;
            let m = self.device_idx[mid];
            if meta.mem_start > m.mem_end {
                lo = mid + 1;
            } else if meta.mem_end < m.mem_start {
                hi = mid;
            } else {
                proof {
                    assert(self.device_idx@[mid as int].overlaps(meta));
                }
                return Err(());
            }
        }
        let ghost prev = self.device_idx@;
        let ghost kk = lo as int;
        self.device_idx.insert(lo, meta);
        proof {
            let cur = self.device_idx@;
            assert(cur == prev.insert(kk, meta));
            assert forall|i: int, j: int| 0 <= i < j < cur.len() implies (
            #[trigger] cur[i]).mem_end < (#[trigger] cur[j]).mem_start by {
                if i < kk {
                    assert(cur[i] == prev[i]);
                } else if i > kk {
                    assert(cur[i] == prev[i - 1]);
                }
                if j < kk {
                    assert(cur[j] == prev[j]);
                } else if j > kk {
                    assert(cur[j] == prev[j - 1]);
                }
            }
            assert forall|i: int| 0 <= i < cur.len() implies (#[trigger] cur[i]).wf() by {
                if i < kk {
                    assert(cur[i] == prev[i]);
                } else if i > kk {
                    assert(cur[i] == prev[i - 1]);
                }
            }
            assert forall|j: int| 0 <= j < prev.len() implies !(#[trigger] prev[j]).overlaps(
                meta,
            ) by {}
            assert(cur[kk] == meta);
            assert(cur.contains(meta));
            assert forall|j: int| 0 <= j < prev.len() implies cur.contains(#[trigger] prev[j]) by {
                if j < kk {
                    assert(cur[j] == prev[j]);
                } else {
                    assert(cur[j + 1] == prev[j]);
                }
            }
            assert forall|j: int| 0 <= j < cur.len() implies #[trigger] cur[j] == meta
                || prev.contains(cur[j]) by {
                if j < kk {
                    assert(cur[j] == prev[j]);
                    assert(prev.contains(prev[j]));
                } else if j > kk {
                    assert(cur[j] == prev[j - 1]);
                    assert(prev.contains(prev[j - 1]));
                }
            }
        }
        Ok(())
    }
}

/// Translation inside a region is injective: two addresses of the region
/// with the same offset from its start are the same address.
pub proof fn lemma_translate_injective(meta: DeviceMeta, a: u32, b: u32)
    requires
        meta.wf(),
        meta.contains_addr(a),
        meta.contains_addr(b),
        a - meta.mem_start == b - meta.mem_start,
    ensures
        a == b,
{
}

/// Translation inside a region is onto its offset range: every offset up to
/// the region size is hit by exactly the address `mem_start + off`.
pub proof fn lemma_translate_onto(meta: DeviceMeta, off: u32)
    requires
        meta.wf(),
        off <= meta.mem_end - meta.mem_start,
    ensures
        meta.contains_addr((meta.mem_start + off) as u32),
        (meta.mem_start + off) as u32 - meta.mem_start == off,
{
}

} // verus!
