//! The memory bus of a hart with virtual memory.

use crate::bytes;
use crate::cpu::types::Trap;
use crate::vm::dram::{self, Dram};
use vstd::prelude::*;

verus! {

/// What answers on the bus: main memory from `base` on.
#[verifier::ext_equal]
pub struct SystemState {
    pub base: u64,
    pub mem: Seq<u8>,
}

/// What a read of `size` bytes at the physical address `pa` gives.
pub open spec fn read_result(s: SystemState, pa: u64, size: u64) -> Result<u64, Trap> {
    if pa < s.base {
        Err(Trap::LoadAccessFault(pa))
    } else {
        match dram::dram_load(s.mem, (pa - s.base) as u64, size) {
            Ok(value) => Ok(value),
            Err(_) => Err(Trap::LoadAccessFault(pa)),
        }
    }
}

/// The bus after a write of the `size` low-order bytes of `value` at `pa`, and what the
/// write gives.
pub open spec fn write_result(s: SystemState, pa: u64, size: u64, value: u64) -> (
    SystemState,
    Result<(), Trap>,
) {
    if pa < s.base {
        (s, Err(Trap::StoreAccessFault(pa)))
    } else {
        let (mem, r) = dram::dram_store(s.mem, (pa - s.base) as u64, size, value);
        match r {
            Ok(_) => (SystemState { mem, ..s }, Ok(())),
            Err(_) => (s, Err(Trap::StoreAccessFault(pa))),
        }
    }
}

/// Main memory at its physical address.
pub struct SystemBus {
    base: u64,
    dram: Dram,
}

impl View for SystemBus {
    type V = SystemState;

    closed spec fn view(&self) -> SystemState {
        SystemState { base: self.base, mem: self.dram@ }
    }
}

impl SystemBus {
    /// A bus with `size` bytes of memory, all zero, from `base` on.
    pub fn new(base: u64, size: usize) -> (bus: Self)
        ensures
            bus@ == (SystemState { base, mem: dram::run_of(0, size as nat) }),
    {
        Self { base, dram: Dram::new(size) }
    }

    /// Whether an access of `size` bytes at `pa` lies in the memory.
    fn covers(&self, pa: u64, size: u64) -> (inside: bool)
        ensures
            inside == (self@.base <= pa && pa - self@.base + size <= self@.mem.len()),
            inside ==> pa - self@.base + size <= u64::MAX,
    {
        let len: u64 = self.dram.len() as u64;
        pa >= self.base && size <= len && pa - self.base <= len - size
    }

    /// Reads `size` bytes.
    pub fn read(&self, pa: u64, size: u64) -> (r: Result<u64, Trap>)
        requires
            size == 1 || size == 2 || size == 4 || size == 8,
        ensures
            r == read_result(self@, pa, size),
    {
        if !self.covers(pa, size) {
            return Err(Trap::LoadAccessFault(pa));
        }
        match self.dram.load(pa - self.base, size) {
            Ok(value) => Ok(value),
            Err(_) => Err(Trap::LoadAccessFault(pa)),
        }
    }

    /// Writes the `size` low-order bytes of `value`.
    pub fn write(&mut self, pa: u64, size: u64, value: u64) -> (r: Result<(), Trap>)
        requires
            size == 1 || size == 2 || size == 4 || size == 8,
        ensures
            (final(self)@, r) == write_result(old(self)@, pa, size, value),
    {
        proof {
            bytes::lemma_le_bytes_len(value as nat, size as nat);
        }
        if !self.covers(pa, size) {
            return Err(Trap::StoreAccessFault(pa));
        }
        match self.dram.store(pa - self.base, size, value) {
            Ok(_) => Ok(()),
            Err(_) => Err(Trap::StoreAccessFault(pa)),
        }
    }

    pub fn read8(&self, pa: u64) -> (r: Result<u8, Trap>)
        ensures
            r == narrow8(read_result(self@, pa, 1)),
    {
        match self.read(pa, 1) {
            Ok(value) => Ok(value as u8),
            Err(trap) => Err(trap),
        }
    }

    pub fn read16(&self, pa: u64) -> (r: Result<u16, Trap>)
        ensures
            r == narrow16(read_result(self@, pa, 2)),
    {
        match self.read(pa, 2) {
            Ok(value) => Ok(value as u16),
            Err(trap) => Err(trap),
        }
    }

    pub fn read32(&self, pa: u64) -> (r: Result<u32, Trap>)
        ensures
            r == narrow32(read_result(self@, pa, 4)),
    {
        match self.read(pa, 4) {
            Ok(value) => Ok(value as u32),
            Err(trap) => Err(trap),
        }
    }

    pub fn read64(&self, pa: u64) -> (r: Result<u64, Trap>)
        ensures
            r == read_result(self@, pa, 8),
    {
        self.read(pa, 8)
    }

    pub fn write8(&mut self, pa: u64, value: u8) -> (r: Result<(), Trap>)
        ensures
            (final(self)@, r) == write_result(old(self)@, pa, 1, value as u64),
    {
        self.write(pa, 1, value as u64)
    }

    pub fn write16(&mut self, pa: u64, value: u16) -> (r: Result<(), Trap>)
        ensures
            (final(self)@, r) == write_result(old(self)@, pa, 2, value as u64),
    {
        self.write(pa, 2, value as u64)
    }

    pub fn write32(&mut self, pa: u64, value: u32) -> (r: Result<(), Trap>)
        ensures
            (final(self)@, r) == write_result(old(self)@, pa, 4, value as u64),
    {
        self.write(pa, 4, value as u64)
    }

    pub fn write64(&mut self, pa: u64, value: u64) -> (r: Result<(), Trap>)
        ensures
            (final(self)@, r) == write_result(old(self)@, pa, 8, value),
    {
        self.write(pa, 8, value)
    }
}

/// A read as one byte.
pub open spec fn narrow8(r: Result<u64, Trap>) -> Result<u8, Trap> {
    match r {
        Ok(value) => Ok(value as u8),
        Err(trap) => Err(trap),
    }
}

/// A read as two bytes.
pub open spec fn narrow16(r: Result<u64, Trap>) -> Result<u16, Trap> {
    match r {
        Ok(value) => Ok(value as u16),
        Err(trap) => Err(trap),
    }
}

/// A read as four bytes.
pub open spec fn narrow32(r: Result<u64, Trap>) -> Result<u32, Trap> {
    match r {
        Ok(value) => Ok(value as u32),
        Err(trap) => Err(trap),
    }
}

} // verus!
