//! Byte-addressed main memory.

use crate::bytes;
use crate::text;
use vstd::prelude::*;
use vstd::string::StringExecFns;

verus! {

/// Why a memory access failed.
#[derive(Debug, Clone, Copy, PartialEq, Eq, Structural)]
pub enum MemoryError {
    /// No device answers for the whole access.
    OutOfBounds(u64),
    /// The access is not of a width that the device takes.
    InvalidAlignment(u64),
}

/// The sentence that `MemoryError::message` gives.
pub open spec fn memory_error_text(e: MemoryError) -> Seq<char> {
    match e {
        MemoryError::OutOfBounds(addr) => "Address out of bounds: "@ + text::hex0x(addr as nat),
        MemoryError::InvalidAlignment(addr) => "Invalid alignment for address: "@ + text::hex0x(
            addr as nat,
        ),
    }
}

impl MemoryError {
    /// The error as a sentence.
    pub fn message(&self) -> (s: String)
        ensures
            s@ == memory_error_text(*self),
    {
        let mut out = String::new();
        match *self {
            MemoryError::OutOfBounds(addr) => {
                out.append("Address out of bounds: ");
                text::push_hex0x(&mut out, addr);
                assert(out@ =~= memory_error_text(*self));
            },
            MemoryError::InvalidAlignment(addr) => {
                out.append("Invalid alignment for address: ");
                text::push_hex0x(&mut out, addr);
                assert(out@ =~= memory_error_text(*self));
            },
        }
        out
    }
}

/// What a load of `size` bytes at `addr` gives: the bytes read little-endian, or
/// an error where they do not all lie in the memory.
pub open spec fn dram_load(mem: Seq<u8>, addr: u64, size: u64) -> Result<u64, MemoryError> {
    if addr + size > mem.len() {
        Err(MemoryError::OutOfBounds(addr))
    } else {
        Ok(bytes::le_u64(mem.subrange(addr as int, addr + size)))
    }
}

/// The memory after writing `part` at `addr`, and what the write gives. The
/// memory stays as it is where the bytes do not all lie in it.
pub open spec fn dram_write(mem: Seq<u8>, addr: u64, part: Seq<u8>) -> (
    Seq<u8>,
    Result<(), MemoryError>,
) {
    if addr + part.len() > mem.len() {
        (mem, Err(MemoryError::OutOfBounds(addr)))
    } else {
        (bytes::splice(mem, addr as int, part), Ok(()))
    }
}

/// The memory after storing the `size` low-order bytes of `value` at `addr`, and
/// what the store gives.
pub open spec fn dram_store(mem: Seq<u8>, addr: u64, size: u64, value: u64) -> (
    Seq<u8>,
    Result<(), MemoryError>,
) {
    dram_write(mem, addr, bytes::le_bytes(value as nat, size as nat))
}

/// A run of `len` bytes that all equal `value`.
pub open spec fn run_of(value: u8, len: nat) -> Seq<u8> {
    Seq::new(len, |i: int| value)
}

/// The memory after filling `len` bytes from `addr` on with `value`. A fill of no
/// bytes succeeds at any address.
pub open spec fn dram_fill(mem: Seq<u8>, addr: u64, len: usize, value: u8) -> (
    Seq<u8>,
    Result<(), MemoryError>,
) {
    if len == 0 {
        (mem, Ok(()))
    } else {
        dram_write(mem, addr, run_of(value, len as nat))
    }
}

/// Main memory, addressed from zero.
pub struct Dram {
    data: Vec<u8>,
}

impl View for Dram {
    type V = Seq<u8>;

    closed spec fn view(&self) -> Seq<u8> {
        self.data@
    }
}

impl Dram {
    /// Memory of `size` bytes, all zero.
    pub fn new(size: usize) -> (dram: Self)
        ensures
            dram@ == run_of(0, size as nat),
    {
        let data: Vec<u8> = vec![0; size];
        assert(data@ =~= run_of(0, size as nat));
        Self { data }
    }

    /// The size of the memory in bytes.
    pub fn len(&self) -> (len: usize)
        ensures
            len == self@.len(),
    {
        self.data.len()
    }

    /// Whether the `size` bytes from `addr` on lie in the memory.
    fn covers(&self, addr: u64, size: u64) -> (inside: bool)
        ensures
            inside == (addr + size <= self@.len()),
            self@.len() <= usize::MAX,
    {
        let len: u64 = self.data.len() as u64;
        size <= len && addr <= len - size
    }

    /// Loads `size` bytes, little-endian.
    pub fn load(&self, addr: u64, size: u64) -> (r: Result<u64, MemoryError>)
        requires
            addr + size <= u64::MAX,
            size <= 8 || addr + size > self@.len(),
        ensures
            r == dram_load(self@, addr, size),
    {
        if !self.covers(addr, size) {
            return Err(MemoryError::OutOfBounds(addr));
        }
        let value: u64 = bytes::read_le(self.data.as_slice(), addr as usize, size as usize);
        Ok(value)
    }

    /// Stores the `size` low-order bytes of `value`, little-endian.
    pub fn store(&mut self, addr: u64, size: u64, value: u64) -> (r: Result<(), MemoryError>)
        requires
            addr + size <= u64::MAX,
            size <= 8 || addr + size > old(self)@.len(),
        ensures
            (final(self)@, r) == dram_store(old(self)@, addr, size, value),
    {
        proof {
            bytes::lemma_le_bytes_len(value as nat, size as nat);
        }
        if !self.covers(addr, size) {
            return Err(MemoryError::OutOfBounds(addr));
        }
        bytes::write_le(&mut self.data, addr as usize, size as usize, value);
        Ok(())
    }

    pub fn load_8(&self, addr: u64) -> (r: Result<u64, MemoryError>)
        requires
            addr + 1 <= u64::MAX,
        ensures
            r == dram_load(self@, addr, 1),
    {
        self.load(addr, 1)
    }

    pub fn load_16(&self, addr: u64) -> (r: Result<u64, MemoryError>)
        requires
            addr + 2 <= u64::MAX,
        ensures
            r == dram_load(self@, addr, 2),
    {
        self.load(addr, 2)
    }

    pub fn load_32(&self, addr: u64) -> (r: Result<u64, MemoryError>)
        requires
            addr + 4 <= u64::MAX,
        ensures
            r == dram_load(self@, addr, 4),
    {
        self.load(addr, 4)
    }

    pub fn load_64(&self, addr: u64) -> (r: Result<u64, MemoryError>)
        requires
            addr + 8 <= u64::MAX,
        ensures
            r == dram_load(self@, addr, 8),
    {
        self.load(addr, 8)
    }

    pub fn store_8(&mut self, addr: u64, value: u64) -> (r: Result<(), MemoryError>)
        requires
            addr + 1 <= u64::MAX,
        ensures
            (final(self)@, r) == dram_store(old(self)@, addr, 1, value),
    {
        self.store(addr, 1, value)
    }

    pub fn store_16(&mut self, addr: u64, value: u64) -> (r: Result<(), MemoryError>)
        requires
            addr + 2 <= u64::MAX,
        ensures
            (final(self)@, r) == dram_store(old(self)@, addr, 2, value),
    {
        self.store(addr, 2, value)
    }

    pub fn store_32(&mut self, addr: u64, value: u64) -> (r: Result<(), MemoryError>)
        requires
            addr + 4 <= u64::MAX,
        ensures
            (final(self)@, r) == dram_store(old(self)@, addr, 4, value),
    {
        self.store(addr, 4, value)
    }

    pub fn store_64(&mut self, addr: u64, value: u64) -> (r: Result<(), MemoryError>)
        requires
            addr + 8 <= u64::MAX,
        ensures
            (final(self)@, r) == dram_store(old(self)@, addr, 8, value),
    {
        self.store(addr, 8, value)
    }

    /// Copies `data` into the memory from `addr` on.
    pub fn write_bytes(&mut self, addr: u64, data: &[u8]) -> (r: Result<(), MemoryError>)
        ensures
            (final(self)@, r) == dram_write(old(self)@, addr, data@),
    {
        if !self.covers(addr, data.len() as u64) {
            return Err(MemoryError::OutOfBounds(addr));
        }
        let start: usize = addr as usize;
        let ghost before = self.data@;
        let mut i: usize = 0;
        assert(before =~= bytes::splice(before, start as int, data@.take(0)));
        while i < data.len()
            invariant
                i <= data.len(),
                start + data.len() <= self.data.len(),
                before.len() == self.data.len(),
                self.data@ == bytes::splice(before, start as int, data@.take(i as int)),
            decreases data.len() - i,
        {
            self.data[start + i] = data[i];
            i = i + 1;
            assert(self.data@ =~= bytes::splice(before, start as int, data@.take(i as int)));
        }
        assert(data@.take(i as int) =~= data@);
        Ok(())
    }

    /// Sets `len` bytes from `addr` on to `value`.
    pub fn fill(&mut self, addr: u64, len: usize, value: u8) -> (r: Result<(), MemoryError>)
        ensures
            (final(self)@, r) == dram_fill(old(self)@, addr, len, value),
    {
        if len == 0 {
            return Ok(());
        }
        if !self.covers(addr, len as u64) {
            return Err(MemoryError::OutOfBounds(addr));
        }
        let start: usize = addr as usize;
        let ghost before = self.data@;
        let mut i: usize = 0;
        assert(before =~= bytes::splice(before, start as int, run_of(value, 0)));
        while i < len
            invariant
                i <= len,
                start + len <= self.data.len(),
                before.len() == self.data.len(),
                self.data@ == bytes::splice(before, start as int, run_of(value, i as nat)),
            decreases len - i,
        {
            self.data[start + i] = value;
            i = i + 1;
            assert(self.data@ =~= bytes::splice(before, start as int, run_of(value, i as nat)));
        }
        Ok(())
    }
}

/// A load gives back what a store of the same width left at the same address: the
/// stored value modulo 256 to the power of the width.
pub proof fn law_load_after_store(mem: Seq<u8>, addr: u64, size: u64, value: u64)
    requires
        size <= 8,
        addr + size <= mem.len(),
    ensures
        dram_load(dram_store(mem, addr, size, value).0, addr, size) == Ok::<u64, MemoryError>(
            (value as nat % bytes::pow256(size as nat)) as u64,
        ),
        size == 8 ==> dram_load(dram_store(mem, addr, size, value).0, addr, size) == Ok::<
            u64,
            MemoryError,
        >(value),
{
    let part = bytes::le_bytes(value as nat, size as nat);
    bytes::lemma_le_bytes_len(value as nat, size as nat);
    bytes::lemma_le_round_trip(value as nat, size as nat);
    assert(bytes::splice(mem, addr as int, part).subrange(addr as int, addr + size) =~= part);
    bytes::lemma_pow256_values();
    bytes::lemma_pow256_monotonic(size as nat, 8);
    assert(value as nat % bytes::pow256(size as nat) <= value) by (nonlinear_arith)
        requires
            bytes::pow256(size as nat) >= 1,
    ;
    if size == 8 {
        vstd::arithmetic::div_mod::lemma_small_mod(value as nat, bytes::pow256(8));
    }
}

/// A store leaves what lies outside its own bytes as it was: a load elsewhere
/// gives the same before and after.
pub proof fn law_store_frames_load(
    mem: Seq<u8>,
    addr: u64,
    size: u64,
    value: u64,
    other: u64,
    other_size: u64,
)
    requires
        other + other_size <= addr || addr + size <= other,
    ensures
        dram_load(dram_store(mem, addr, size, value).0, other, other_size) == dram_load(
            mem,
            other,
            other_size,
        ),
{
    let part = bytes::le_bytes(value as nat, size as nat);
    bytes::lemma_le_bytes_len(value as nat, size as nat);
    if addr + size <= mem.len() {
        let after = bytes::splice(mem, addr as int, part);
        assert(after.len() == mem.len());
        if other + other_size <= mem.len() {
            assert(after.subrange(other as int, other + other_size) =~= mem.subrange(
                other as int,
                other + other_size,
            ));
        }
    }
}

/// Every byte of a run that was copied in is read back by a byte load.
pub proof fn law_load_after_write(mem: Seq<u8>, addr: u64, part: Seq<u8>, i: int)
    requires
        addr + part.len() <= mem.len(),
        mem.len() <= u64::MAX,
        0 <= i < part.len(),
    ensures
        dram_load(dram_write(mem, addr, part).0, (addr + i) as u64, 1) == Ok::<u64, MemoryError>(
            part[i] as u64,
        ),
{
    let after = bytes::splice(mem, addr as int, part);
    let window = after.subrange(addr + i, addr + i + 1);
    assert(window[0] == part[i]);
    assert(window.skip(1) =~= Seq::<u8>::empty());
    assert(bytes::le_value(window.skip(1)) == 0);
    assert(bytes::le_value(window) == part[i]);
}

} // verus!
