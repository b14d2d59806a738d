//! The flash device: a writable byte buffer the boot image is copied into.

use vstd::prelude::*;

use crate::memory::{GenericMemory, MemoryError, spec_halfword_at, spec_word_at};

verus! {

/// A flash memory: a generic buffer kept writable so the loader can fill
/// it.
pub struct Flash {
    mem: GenericMemory,
}

impl Flash {
    /// The buffer contents.
    pub closed spec fn bytes(self) -> Seq<u8> {
        self.mem.bytes()
    }

    /// Whether writes are refused.
    pub closed spec fn spec_read_only(self) -> bool {
        self.mem.spec_read_only()
    }

    pub open spec fn wf(self) -> bool {
        self.bytes().len() <= u32::MAX
    }

    /// A zero-filled flash of `size` bytes.
    pub fn new(size: u32) -> (r: Flash)
        ensures
            r.wf(),
            r.bytes() == Seq::<u8>::new(size as nat, |i: int| 0u8),
            !r.spec_read_only(),
    {
        Flash { mem: GenericMemory::new(size) }
    }

    /// A flash owning the given bytes.
    pub fn from_vec(v: Vec<u8>) -> (r: Flash)
        requires
            v@.len() <= u32::MAX,
        ensures
            r.wf(),
            r.bytes() == v@,
            !r.spec_read_only(),
    {
        Flash { mem: GenericMemory::from_vec(v) }
    }

    /// A flash around an existing buffer, made writable.
    pub fn from_memory(mem: GenericMemory) -> (r: Flash)
        requires
            mem.wf(),
        ensures
            r.wf(),
            r.bytes() == mem.bytes(),
            !r.spec_read_only(),
    {
        let mut mem = mem;
        mem.set_read_only(false);
        Flash { mem }
    }

    /// Marks the flash read-only (or writable again).
    pub fn set_read_only(&mut self, read_only: bool)
        ensures
            final(self).bytes() == old(self).bytes(),
            final(self).spec_read_only() == read_only,
    {
        self.mem.set_read_only(read_only);
    }

    /// The flash size in bytes.
    pub fn size(&self) -> (r: u32)
        requires
            self.wf(),
        ensures
            r == self.bytes().len(),
    {
        self.mem.size()
    }

    /// Reads the byte at `addr`.
    pub fn rb(&self, addr: u32) -> (r: Result<u8, MemoryError>)
        requires
            self.wf(),
        ensures
            addr + 1 <= self.bytes().len() ==> r == Ok::<u8, MemoryError>(
                self.bytes()[addr as int],
            ),
            addr + 1 > self.bytes().len() ==> r == Err::<u8, MemoryError>(
                MemoryError::AccessFault,
            ),
    {
        self.mem.rb(addr)
    }

    /// Reads the little-endian halfword at `addr`.
    pub fn rhw(&self, addr: u32) -> (r: Result<u16, MemoryError>)
        requires
            self.wf(),
        ensures
            addr + 2 <= self.bytes().len() ==> r == Ok::<u16, MemoryError>(
                spec_halfword_at(self.bytes(), addr as int),
            ),
            addr + 2 > self.bytes().len() ==> r == Err::<u16, MemoryError>(
                MemoryError::AccessFault,
            ),
    {
        self.mem.rhw(addr)
    }

    /// Reads the little-endian word at `addr`.
    pub fn rw(&self, addr: u32) -> (r: Result<u32, MemoryError>)
        requires
            self.wf(),
        ensures
            addr + 4 <= self.bytes().len() ==> r == Ok::<u32, MemoryError>(
                spec_word_at(self.bytes(), addr as int),
            ),
            addr + 4 > self.bytes().len() ==> r == Err::<u32, MemoryError>(
                MemoryError::AccessFault,
            ),
    {
        self.mem.rw(addr)
    }

    /// Writes the byte at `addr`.
    pub fn wb(&mut self, addr: u32, value: u8) -> (r: Result<(), MemoryError>)
        requires
            old(self).wf(),
        ensures
            final(self).wf(),
            final(self).spec_read_only() == old(self).spec_read_only(),
            old(self).spec_read_only() || addr + 1 > old(self).bytes().len() ==> r == Err::<
                (),
                MemoryError,
            >(MemoryError::AccessFault) && final(self).bytes() == old(self).bytes(),
            !old(self).spec_read_only() && addr + 1 <= old(self).bytes().len() ==> r == Ok::<
                (),
                MemoryError,
            >(()) && final(self).bytes() == old(self).bytes().update(addr as int, value),
    {
        self.mem.wb(addr, value)
    }

    /// Writes the little-endian halfword at `addr`.
    pub fn whw(&mut self, addr: u32, value: u16) -> (r: Result<(), MemoryError>)
        requires
            old(self).wf(),
        ensures
            final(self).wf(),
            final(self).spec_read_only() == old(self).spec_read_only(),
            old(self).spec_read_only() || addr + 2 > old(self).bytes().len() ==> r == Err::<
                (),
                MemoryError,
            >(MemoryError::AccessFault) && final(self).bytes() == old(self).bytes(),
            !old(self).spec_read_only() && addr + 2 <= old(self).bytes().len() ==> r == Ok::<
                (),
                MemoryError,
            >(()) && final(self).bytes() == old(self).bytes().update(
                addr as int,
                value as u8,
            ).update(addr + 1, (value >> 8) as u8),
    {
        self.mem.whw(addr, value)
    }

    /// Writes the little-endian word at `addr`.
    pub fn ww(&mut self, addr: u32, value: u32) -> (r: Result<(), MemoryError>)
        requires
            old(self).wf(),
        ensures
            final(self).wf(),
            final(self).spec_read_only() == old(self).spec_read_only(),
            old(self).spec_read_only() || addr + 4 > old(self).bytes().len() ==> r == Err::<
                (),
                MemoryError,
            >(MemoryError::AccessFault) && final(self).bytes() == old(self).bytes(),
            !old(self).spec_read_only() && addr + 4 <= old(self).bytes().len() ==> r == Ok::<
                (),
                MemoryError,
            >(()) && final(self).bytes() == old(self).bytes().update(
                addr as int,
                value as u8,
            ).update(addr + 1, (value >> 8) as u8).update(addr + 2, (value >> 16) as u8).update(
                addr + 3,
                (value >> 24) as u8,
            ),
    {
        self.mem.ww(addr, value)
    }
}

} // verus!
