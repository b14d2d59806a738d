//! Byte-addressed memory: the single bus fault kind and the generic RAM/ROM
//! buffer that backs the flash device.
//!
//! Halfword and word accesses are little-endian over the byte buffer, as the
//! RV32I memory model asks.

use vstd::prelude::*;

verus! {

/// The one fault a bus access can produce: the location is unmapped, out of
/// range, or refuses the access.
#[derive(Debug, Clone, Copy, PartialEq, Eq, Structural)]
pub enum MemoryError {
    AccessFault,
}

/// The little-endian halfword held at `a` in `s`.
pub open spec fn spec_halfword_at(s: Seq<u8>, a: int) -> u16 {
    (s[a] as u16) | ((s[a + 1] as u16) << 8)
}

/// The little-endian word held at `a` in `s`.
pub open spec fn spec_word_at(s: Seq<u8>, a: int) -> u32 {
    (s[a] as u32) | ((s[a + 1] as u32) << 8) | ((s[a + 2] as u32) << 16) | ((s[a + 3] as u32)
        << 24)
}

/// A contiguous byte buffer of fixed size, optionally read-only.
pub struct GenericMemory {
    data: Vec<u8>,
    read_only: bool,
}

impl GenericMemory {
    /// The buffer contents.
    pub closed spec fn bytes(self) -> Seq<u8> {
        self.data@
    }

    /// Whether writes are refused.
    pub closed spec fn spec_read_only(self) -> bool {
        self.read_only
    }

    /// The buffer fits the 32-bit address space.
    pub open spec fn wf(self) -> bool {
        self.bytes().len() <= u32::MAX
    }

    /// A zero-filled writable buffer of `size` bytes.
    pub fn new(size: u32) -> (r: GenericMemory)
        ensures
            r.wf(),
            r.bytes() == Seq::<u8>::new(size as nat, |i: int| 0u8),
            !r.spec_read_only(),
    {
        let mut data: Vec<u8> = Vec::new();
        let mut i: u32 = 0;
        while i < size
            invariant
                i <= size,
                data@.len() == i,
                forall|j: int| 0 <= j < i ==> data@[j] == 0u8,
            decreases size - i,
        {
            data.push(0);
            i = i + 1;
        }
        let r = GenericMemory { data, read_only: false };
        proof {
            assert(r.bytes() =~= Seq::<u8>::new(size as nat, |i: int| 0u8));
        }
        r
    }

    /// A writable buffer owning the given bytes.
    pub fn from_vec(v: Vec<u8>) -> (r: GenericMemory)
        requires
            v@.len() <= u32::MAX,
        ensures
            r.wf(),
            r.bytes() == v@,
            !r.spec_read_only(),
    {
        GenericMemory { data: v, read_only: false }
    }

    /// Marks the buffer read-only (or writable again).
    pub fn set_read_only(&mut self, read_only: bool)
        ensures
            final(self).bytes() == old(self).bytes(),
            final(self).spec_read_only() == read_only,
    {
        self.read_only = read_only;
    }

    /// The buffer size in bytes.
    pub fn size(&self) -> (r: u32)
        requires
            self.wf(),
        ensures
            r == self.bytes().len(),
    {
        self.data.len() as u32
    }

    /// An access of `len` bytes at `addr` stays inside the buffer.
    pub open spec fn in_bounds(self, addr: u32, len: int) -> bool {
        addr + len <= self.bytes().len()
    }

    /// Reads the byte at `addr`.
    pub fn rb(&self, addr: u32) -> (r: Result<u8, MemoryError>)
        requires
            self.wf(),
        ensures
            self.in_bounds(addr, 1) ==> r == Ok::<u8, MemoryError>(self.bytes()[addr as int]),
            !self.in_bounds(addr, 1) ==> r == Err::<u8, MemoryError>(MemoryError::AccessFault),
    {
        if (addr as u64) < self.data.len() as u64 {
            Ok(self.data[addr as usize])
        } else {
            Err(MemoryError::AccessFault)
        }
    }

    /// Reads the little-endian halfword at `addr`.
    pub fn rhw(&self, addr: u32) -> (r: Result<u16, MemoryError>)
        requires
            self.wf(),
        ensures
            self.in_bounds(addr, 2) ==> r == Ok::<u16, MemoryError>(
                spec_halfword_at(self.bytes(), addr as int),
            ),
            !self.in_bounds(addr, 2) ==> r == Err::<u16, MemoryError>(MemoryError::AccessFault),
    {
        if (addr as u64) + 2 <= self.data.len() as u64 {
            let b0 = self.data[addr as usize] as u16;
            let b1 = self.data[addr as usize + 1] as u16;
            Ok(b0 | (b1 << 8))
        } else {
            Err(MemoryError::AccessFault)
        }
    }

    /// Reads the little-endian word at `addr`.
    pub fn rw(&self, addr: u32) -> (r: Result<u32, MemoryError>)
        requires
            self.wf(),
        ensures
            self.in_bounds(addr, 4) ==> r == Ok::<u32, MemoryError>(
                spec_word_at(self.bytes(), addr as int),
            ),
            !self.in_bounds(addr, 4) ==> r == Err::<u32, MemoryError>(MemoryError::AccessFault),
    {
        if (addr as u64) + 4 <= self.data.len() as u64 {
            let b0 = self.data[addr as usize] as u32;
            let b1 = self.data[addr as usize + 1] as u32;
            let b2 = self.data[addr as usize + 2] as u32;
            let b3 = self.data[addr as usize + 3] as u32;
            Ok(b0 | (b1 << 8) | (b2 << 16) | (b3 << 24))
        } else {
            Err(MemoryError::AccessFault)
        }
    }

    /// Writes the byte at `addr`; fails on a read-only buffer.
    pub fn wb(&mut self, addr: u32, value: u8) -> (r: Result<(), MemoryError>)
        requires
            old(self).wf(),
        ensures
            final(self).wf(),
            final(self).spec_read_only() == old(self).spec_read_only(),
            old(self).spec_read_only() || !old(self).in_bounds(addr, 1) ==> r == Err::<(), MemoryError>(MemoryError::AccessFault) && final(self).bytes() == old(self).bytes(),
            !old(self).spec_read_only() && old(self).in_bounds(addr, 1) ==> r == Ok::<(), MemoryError>(()) && final(self).bytes() == old(self).bytes().update(addr as int, value),
    {
        if self.read_only {
            return Err(MemoryError::AccessFault);
        }
        if (addr as u64) < self.data.len() as u64 {
            self.data.set(addr as usize, value);
            Ok(())
        } else {
            Err(MemoryError::AccessFault)
        }
    }

    /// Writes the little-endian halfword at `addr`; fails on a read-only
    /// buffer.
    pub fn whw(&mut self, addr: u32, value: u16) -> (r: Result<(), MemoryError>)
        requires
            old(self).wf(),
        ensures
            final(self).wf(),
            final(self).spec_read_only() == old(self).spec_read_only(),
            old(self).spec_read_only() || !old(self).in_bounds(addr, 2) ==> r == Err::<(), MemoryError>(MemoryError::AccessFault) && final(self).bytes() == old(self).bytes(),
            !old(self).spec_read_only() && old(self).in_bounds(addr, 2) ==> r == Ok::<(), MemoryError>(()) && final(self).bytes() == old(self).bytes().update(
                addr as int,
                value as u8,
            ).update(addr + 1, (value >> 8) as u8),
    {
        if self.read_only {
            return Err(MemoryError::AccessFault);
        }
        if (addr as u64) + 2 <= self.data.len() as u64 {
            self.data.set(addr as usize, #[verifier::truncate] (value as u8));
            self.data.set(addr as usize + 1, #[verifier::truncate] ((value >> 8) as u8));
            Ok(())
        } else {
            Err(MemoryError::AccessFault)
        }
    }

    /// Writes the little-endian word at `addr`; fails on a read-only buffer.
    pub fn ww(&mut self, addr: u32, value: u32) -> (r: Result<(), MemoryError>)
        requires
            old(self).wf(),
        ensures
            final(self).wf(),
            final(self).spec_read_only() == old(self).spec_read_only(),
            old(self).spec_read_only() || !old(self).in_bounds(addr, 4) ==> r == Err::<(), MemoryError>(MemoryError::AccessFault) && final(self).bytes() == old(self).bytes(),
            !old(self).spec_read_only() && old(self).in_bounds(addr, 4) ==> r == Ok::<(), MemoryError>(()) && final(self).bytes() == old(self).bytes().update(
                addr as int,
                value as u8,
            ).update(addr + 1, (value >> 8) as u8).update(addr + 2, (value >> 16) as u8).update(
                addr + 3,
                (value >> 24) as u8,
            ),
    {
        if self.read_only {
            return Err(MemoryError::AccessFault);
        }
        if (addr as u64) + 4 <= self.data.len() as u64 {
            self.data.set(addr as usize, #[verifier::truncate] (value as u8));
            self.data.set(addr as usize + 1, #[verifier::truncate] ((value >> 8) as u8));
            self.data.set(addr as usize + 2, #[verifier::truncate] ((value >> 16) as u8));
            self.data.set(addr as usize + 3, #[verifier::truncate] ((value >> 24) as u8));
            Ok(())
        } else {
            Err(MemoryError::AccessFault)
        }
    }
}

} // verus!
