//! The address map: which device answers at which address.

use crate::vm::dram;
use crate::vm::dram::{Dram, MemoryError};
use crate::vm::uart::Uart;
use vstd::prelude::*;

verus! {

use crate::bytes;

pub const DRAM_BASE: u64 = 0x8000_0000;

/// 512 MiB.
pub const DRAM_SIZE: u64 = 0x2000_0000;

pub const UART_BASE: u64 = 0x1000_0000;

pub const UART_SIZE: u64 = 0x100;

/// The register through which the machine reports its memory use.
pub const STATS_MMIO_BASE: u64 = 0x2000_0000;

/// The devices and what connects them.
pub struct Bus {
    pub dram: Dram,
    pub uart: Uart,
    pub used_memory: u64,
}

/// What the devices hold.
#[verifier::ext_equal]
pub struct BusState {
    pub dram: Seq<u8>,
    pub input: Seq<u8>,
    pub output: Seq<u8>,
    pub used_memory: u64,
}

impl View for Bus {
    type V = BusState;

    open spec fn view(&self) -> BusState {
        BusState {
            dram: self.dram@,
            input: self.uart.input@,
            output: self.uart.output@,
            used_memory: self.used_memory,
        }
    }
}

/// Whether an access lies in main memory. The end of the access is computed
/// modulo 2^64, as the address lines do.
pub open spec fn in_dram(addr: u64, size: u64) -> bool {
    addr >= DRAM_BASE && addr.wrapping_add(size) <= DRAM_BASE + DRAM_SIZE
}

/// Whether an access lies in the serial port.
pub open spec fn in_uart(addr: u64, size: u64) -> bool {
    addr >= UART_BASE && addr.wrapping_add(size) <= UART_BASE + UART_SIZE
}

/// The accesses that the bus takes: all of at most eight bytes, and wider ones
/// outside main memory that do not run past the end of the address space.
pub open spec fn access_accepted(addr: u64, size: u64) -> bool {
    size <= 8 || (addr + size <= u64::MAX && !in_dram(addr, size))
}

/// The devices after a load, and what the load gives.
pub open spec fn bus_load(s: BusState, addr: u64, size: u64) -> (BusState, Result<u64, MemoryError>) {
    if in_dram(addr, size) {
        (s, dram::dram_load(s.dram, (addr - DRAM_BASE) as u64, size))
    } else if in_uart(addr, size) {
        if size != 1 {
            (s, Err(MemoryError::InvalidAlignment((addr - UART_BASE) as u64)))
        } else if s.input.len() == 0 {
            (s, Ok(0))
        } else {
            (BusState { input: s.input.skip(1), ..s }, Ok(s.input[0] as u64))
        }
    } else if addr == STATS_MMIO_BASE {
        (s, Ok(s.used_memory))
    } else {
        (s, Err(MemoryError::OutOfBounds(addr)))
    }
}

/// The devices after a store, and what the store gives.
pub open spec fn bus_store(s: BusState, addr: u64, size: u64, value: u64) -> (
    BusState,
    Result<(), MemoryError>,
) {
    if addr == STATS_MMIO_BASE {
        let used: u64 = if size >= 8 {
            value
        } else {
            (value % 0x1_0000_0000) as u64
        };
        (BusState { used_memory: used, ..s }, Ok(()))
    } else if in_dram(addr, size) {
        let (mem, r) = dram::dram_store(s.dram, (addr - DRAM_BASE) as u64, size, value);
        (BusState { dram: mem, ..s }, r)
    } else if in_uart(addr, size) {
        if size != 1 {
            (s, Err(MemoryError::InvalidAlignment((addr - UART_BASE) as u64)))
        } else {
            (BusState { output: s.output.push((value % 256) as u8), ..s }, Ok(()))
        }
    } else {
        (s, Err(MemoryError::OutOfBounds(addr)))
    }
}

/// The devices after copying `part` to `addr`, which must name main memory
/// throughout. Copying nothing succeeds at any address.
pub open spec fn bus_write(s: BusState, addr: u64, part: Seq<u8>) -> (
    BusState,
    Result<(), MemoryError>,
) {
    if part.len() == 0 {
        (s, Ok(()))
    } else if addr >= DRAM_BASE && addr + part.len() <= DRAM_BASE + DRAM_SIZE {
        let (mem, r) = dram::dram_write(s.dram, (addr - DRAM_BASE) as u64, part);
        (BusState { dram: mem, ..s }, r)
    } else {
        (s, Err(MemoryError::OutOfBounds(addr)))
    }
}

/// The devices after setting `len` bytes from `addr` on to `value`.
pub open spec fn bus_fill(s: BusState, addr: u64, len: usize, value: u8) -> (
    BusState,
    Result<(), MemoryError>,
) {
    bus_write(s, addr, dram::run_of(value, len as nat))
}

impl Bus {
    /// Zeroed memory and an idle serial port.
    pub fn new() -> (bus: Self)
        ensures
            bus@ == (BusState {
                dram: dram::run_of(0, DRAM_SIZE as nat),
                input: Seq::empty(),
                output: Seq::empty(),
                used_memory: 0,
            }),
    {
        Self { dram: Dram::new(DRAM_SIZE as usize), uart: Uart::new(), used_memory: 0 }
    }

    pub fn load(&mut self, addr: u64, size: u64) -> (r: Result<u64, MemoryError>)
        requires
            access_accepted(addr, size),
        ensures
            (final(self)@, r) == bus_load(old(self)@, addr, size),
    {
        let end: u64 = addr.wrapping_add(size);
        if addr >= DRAM_BASE && end <= DRAM_BASE + DRAM_SIZE {
            return self.dram.load(addr - DRAM_BASE, size);
        }
        if addr >= UART_BASE && end <= UART_BASE + UART_SIZE {
            return self.uart.load(addr - UART_BASE, size);
        }
        if addr == STATS_MMIO_BASE {
            return Ok(self.used_memory);
        }
        Err(MemoryError::OutOfBounds(addr))
    }

    pub fn store(&mut self, addr: u64, size: u64, value: u64) -> (r: Result<(), MemoryError>)
        requires
            addr == STATS_MMIO_BASE || access_accepted(addr, size),
        ensures
            (final(self)@, r) == bus_store(old(self)@, addr, size, value),
    {
        if addr == STATS_MMIO_BASE {
            self.used_memory = if size >= 8 {
                value
            } else {
                value % 0x1_0000_0000
            };
            return Ok(());
        }
        let end: u64 = addr.wrapping_add(size);
        if addr >= DRAM_BASE && end <= DRAM_BASE + DRAM_SIZE {
            return self.dram.store(addr - DRAM_BASE, size, value);
        }
        if addr >= UART_BASE && end <= UART_BASE + UART_SIZE {
            return self.uart.store(addr - UART_BASE, size, value);
        }
        Err(MemoryError::OutOfBounds(addr))
    }

    /// Copies `data` to the start of main memory.
    pub fn initialize_dram(&mut self, data: &[u8]) -> (r: Result<(), MemoryError>)
        ensures
            (final(self)@, r) == bus_write(old(self)@, DRAM_BASE, data@),
    {
        self.write_bytes(DRAM_BASE, data)
    }

    /// Copies `data` into main memory.
    pub fn write_bytes(&mut self, addr: u64, data: &[u8]) -> (r: Result<(), MemoryError>)
        ensures
            (final(self)@, r) == bus_write(old(self)@, addr, data@),
    {
        if data.len() == 0 {
            return Ok(());
        }
        let end: Option<u64> = addr.checked_add(data.len() as u64);
        if addr >= DRAM_BASE && end.is_some() && end.unwrap() <= DRAM_BASE + DRAM_SIZE {
            self.dram.write_bytes(addr - DRAM_BASE, data)
        } else {
            Err(MemoryError::OutOfBounds(addr))
        }
    }

    /// Sets `len` bytes of main memory to `value`.
    pub fn fill_bytes(&mut self, addr: u64, len: usize, value: u8) -> (r: Result<(), MemoryError>)
        ensures
            (final(self)@, r) == bus_fill(old(self)@, addr, len, value),
    {
        if len == 0 {
            return Ok(());
        }
        let end: Option<u64> = addr.checked_add(len as u64);
        if addr >= DRAM_BASE && end.is_some() && end.unwrap() <= DRAM_BASE + DRAM_SIZE {
            self.dram.fill(addr - DRAM_BASE, len, value)
        } else {
            Err(MemoryError::OutOfBounds(addr))
        }
    }
}

/// A load from main memory gives what was last stored there, cut to its width, and the
/// other devices take no part.
pub proof fn law_memory_reads_back(s: BusState, addr: u64, size: u64, value: u64)
    requires
        size <= 8,
        addr >= DRAM_BASE,
        addr - DRAM_BASE + size <= s.dram.len(),
        s.dram.len() <= DRAM_SIZE,
    ensures
        ({
            let (after, stored) = bus_store(s, addr, size, value);
            &&& stored is Ok
            &&& bus_load(after, addr, size) == (
                after,
                Ok::<u64, MemoryError>((value as nat % bytes::pow256(size as nat)) as u64),
            )
            &&& after.input == s.input
            &&& after.output == s.output
            &&& after.used_memory == s.used_memory
        }),
{
    let offset = (addr - DRAM_BASE) as u64;
    bytes::lemma_le_bytes_len(value as nat, size as nat);
    dram::law_load_after_store(s.dram, offset, size, value);
    assert(in_dram(addr, size));
    let (after, stored) = bus_store(s, addr, size, value);
    assert(after.dram == dram::dram_store(s.dram, offset, size, value).0);
    assert(bus_load(after, addr, size).0 == after);
}

/// The bytes given to the serial port come out of it in the order in which they
/// went in: after a byte is queued behind `waiting` others, that many loads take
/// those and the next one gives the byte.
pub proof fn law_uart_input_in_order(s: BusState, byte: u8, waiting: nat)
    requires
        s.input.len() == waiting,
    ensures
        uart_loads(BusState { input: s.input.push(byte), ..s }, waiting).input == seq![byte],
        bus_load(
            uart_loads(BusState { input: s.input.push(byte), ..s }, waiting),
            UART_BASE,
            1,
        ).1 == Ok::<u64, MemoryError>(byte as u64),
    decreases waiting,
{
    let q = BusState { input: s.input.push(byte), ..s };
    if waiting == 0 {
        assert(q.input =~= seq![byte]);
    } else {
        let t = BusState { input: s.input.skip(1), ..s };
        law_uart_input_in_order(t, byte, (waiting - 1) as nat);
        assert(q.input.skip(1) =~= t.input.push(byte));
        assert(bus_load(q, UART_BASE, 1).0 =~= (BusState { input: t.input.push(byte), ..t }));
    }
}

/// What the machine stored in the statistics register is read back from it: all of a wide
/// value, and the low word of a narrow one.
pub proof fn law_statistics_read_back(s: BusState, size: u64, value: u64, read_size: u64)
    requires
        access_accepted(STATS_MMIO_BASE, read_size),
    ensures
        ({
            let (after, stored) = bus_store(s, STATS_MMIO_BASE, size, value);
            let reported = if size >= 8 {
                value
            } else {
                (value % 0x1_0000_0000) as u64
            };
            &&& stored is Ok
            &&& after == (BusState { used_memory: reported, ..s })
            &&& bus_load(after, STATS_MMIO_BASE, read_size) == (
                after,
                Ok::<u64, MemoryError>(reported),
            )
        }),
{
}

/// The devices after the oldest output byte was taken from the serial port.
pub open spec fn output_taken(s: BusState) -> BusState {
    BusState { output: s.output.skip(1), ..s }
}

/// The devices after `n` output bytes were taken from the serial port.
pub open spec fn outputs_taken(s: BusState, n: nat) -> BusState
    decreases n,
{
    if n == 0 {
        s
    } else {
        outputs_taken(output_taken(s), (n - 1) as nat)
    }
}

/// The bytes that the machine writes to the serial port leave it in the order in which they
/// were written: after a byte is written behind `waiting` others, those are taken first and
/// then the byte.
pub proof fn law_uart_output_in_order(s: BusState, value: u64, waiting: nat)
    requires
        s.output.len() == waiting,
    ensures
        ({
            let (after, stored) = bus_store(s, UART_BASE, 1, value);
            &&& stored is Ok
            &&& outputs_taken(after, waiting).output == seq![(value % 256) as u8]
            &&& after.input == s.input
        }),
    decreases waiting,
{
    let after = bus_store(s, UART_BASE, 1, value).0;
    if waiting == 0 {
        assert(after.output =~= seq![(value % 256) as u8]);
    } else {
        let t = output_taken(s);
        law_uart_output_in_order(t, value, (waiting - 1) as nat);
        assert(output_taken(after) =~= bus_store(t, UART_BASE, 1, value).0) by {
            assert(after.output.skip(1) =~= t.output.push((value % 256) as u8));
        }
    }
}

/// The devices after `n` byte loads from the serial port.
pub open spec fn uart_loads(s: BusState, n: nat) -> BusState
    decreases n,
{
    if n == 0 {
        s
    } else {
        uart_loads(bus_load(s, UART_BASE, 1).0, (n - 1) as nat)
    }
}

/// Main memory answers where the whole access lies in it, and the serial port to accesses of
/// one byte; where nothing is, an access is refused with its address and changes nothing.
pub proof fn law_what_answers(s: BusState, addr: u64, size: u64, value: u64)
    requires
        s.dram.len() == 0x2000_0000,
        0 < size <= 8,
    ensures
        0x8000_0000 <= addr && addr + size <= 0xa000_0000 ==> bus_load(s, addr, size).1 is Ok
            && bus_store(s, addr, size, value).1 is Ok,
        0x1000_0000 <= addr && addr + size <= 0x1000_0100 ==> {
            &&& bus_load(s, addr, size).1 is Ok <==> size == 1
            &&& bus_store(s, addr, size, value).1 is Ok <==> size == 1
            &&& size != 1 ==> bus_load(s, addr, size) == (
                s,
                Err::<u64, MemoryError>(MemoryError::InvalidAlignment((addr - 0x1000_0000) as u64)),
            )
        },
        addr == 0x2000_0000 ==> bus_load(s, addr, size) == (s, Ok::<u64, MemoryError>(s.used_memory)),
        addr < 0x1000_0000 || (0x1000_0100 <= addr && addr < 0x8000_0000 && addr != 0x2000_0000)
            || (0xa000_0000 <= addr && addr + size <= u64::MAX) ==> {
            &&& bus_load(s, addr, size) == (
                s,
                Err::<u64, MemoryError>(MemoryError::OutOfBounds(addr)),
            )
            &&& bus_store(s, addr, size, value) == (
                s,
                Err::<(), MemoryError>(MemoryError::OutOfBounds(addr)),
            )
        },
{
    bytes::lemma_le_bytes_len(value as nat, size as nat);
}

} // verus!
