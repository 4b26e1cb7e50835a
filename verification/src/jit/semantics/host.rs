//! The host that compiled code runs on, and the services that it offers.

use vstd::prelude::*;

verus! {

use crate::bus::SystemState;
use crate::bytes;
use crate::cpu::types::Mode;
use crate::jit::encoder::imports;
use crate::jit::helpers::{mmu_read, mmu_write};
use crate::jit::runtime::{read_service, write_service};
use crate::jit::semantics::{below, pushed, replace_top, replace_two, top, trap, Machine};
use crate::mmu::TlbEntry;

/// What the services that code calls work on.
pub struct Host {
    bus: SystemState,
    tlb: Seq<TlbEntry>,
    mode: Mode,
    satp: u64,
    mstatus: u64,
}

impl Host {
    /// Memory.
    pub closed spec fn bus(self) -> SystemState {
        self.bus
    }

    /// The cached translations.
    pub closed spec fn tlb(self) -> Seq<TlbEntry> {
        self.tlb
    }

    pub closed spec fn mode(self) -> Mode {
        self.mode
    }

    pub closed spec fn satp(self) -> u64 {
        self.satp
    }

    pub closed spec fn mstatus(self) -> u64 {
        self.mstatus
    }

    /// A load of `size` bytes: the translations after it, and the value or the code of the
    /// fault.
    pub open spec fn load(self, vaddr: u64, size: u64) -> (Seq<TlbEntry>, (u64, bool)) {
        mmu_read(self.bus(), self.tlb(), self.mode(), self.satp(), self.mstatus(), vaddr, size)
    }

    /// A store of the `size` low-order bytes of `value`: the translations and memory after
    /// it, and zero or the code of the fault.
    pub open spec fn store(self, vaddr: u64, size: u64, value: u64) -> (
        Seq<TlbEntry>,
        SystemState,
        (u32, bool),
    ) {
        mmu_write(
            self.bus(),
            self.tlb(),
            self.mode(),
            self.satp(),
            self.mstatus(),
            vaddr,
            size,
            value,
        )
    }

    /// The same host with other translations and other memory.
    pub closed spec fn with(self, tlb: Seq<TlbEntry>, bus: SystemState) -> Self {
        Host { tlb, bus, ..self }
    }
}

/// A host keeps its mode and control registers, and has what it was given.
pub proof fn lemma_host_with(h: Host, tlb: Seq<TlbEntry>, bus: SystemState)
    ensures
        h.with(tlb, bus).tlb() == tlb,
        h.with(tlb, bus).bus() == bus,
        h.with(tlb, bus).mode() == h.mode(),
        h.with(tlb, bus).satp() == h.satp(),
        h.with(tlb, bus).mstatus() == h.mstatus(),
{
}

/// A call of the service that loads `size` bytes from the address on top of the stack.
pub closed spec fn call_read(m: Machine, size: u64) -> Machine {
    let h = m.host;
    let (tlb, mem, answer) = read_service(
        h.bus,
        h.tlb,
        h.mode,
        h.satp,
        h.mstatus,
        m.mem,
        top(m),
        size,
    );
    Machine { host: h.with(tlb, h.bus), mem, ..replace_top(m, answer) }
}

/// The bytes of a number that a store of `size` bytes takes.
pub open spec fn cut(v: u64, size: u64) -> u64 {
    match size {
        1 => v as u8 as u64,
        2 => v as u16 as u64,
        4 => v as u32 as u64,
        _ => v,
    }
}

/// A call of the service that stores `size` bytes of the number on top of the stack at the
/// address below it.
pub closed spec fn call_write(m: Machine, size: u64) -> Machine {
    let h = m.host;
    let (tlb, bus, mem, answer) = write_service(
        h.bus,
        h.tlb,
        h.mode,
        h.satp,
        h.mstatus,
        m.mem,
        below(m),
        size,
        cut(top(m), size),
    );
    Machine { host: h.with(tlb, bus), mem, ..replace_two(m, answer as u64) }
}

/// A call of a function by its index.
pub closed spec fn call(m: Machine, index: u32) -> Machine {
    match index {
        imports::READ_U64 => call_read(m, 8),
        imports::READ_U32 => call_read(m, 4),
        imports::READ_U16 => call_read(m, 2),
        imports::READ_U8 => call_read(m, 1),
        imports::WRITE_U64 => call_write(m, 8),
        imports::WRITE_U32 => call_write(m, 4),
        imports::WRITE_U16 => call_write(m, 2),
        imports::WRITE_U8 => call_write(m, 1),
        _ => trap(m),
    }
}

/// What the functions do that code can call.
pub proof fn lemma_calls(m: Machine)
    ensures
        call(m, imports::READ_U64) == call_read(m, 8),
        call(m, imports::READ_U32) == call_read(m, 4),
        call(m, imports::READ_U16) == call_read(m, 2),
        call(m, imports::READ_U8) == call_read(m, 1),
        call(m, imports::WRITE_U64) == call_write(m, 8),
        call(m, imports::WRITE_U32) == call_write(m, 4),
        call(m, imports::WRITE_U16) == call_write(m, 2),
        call(m, imports::WRITE_U8) == call_write(m, 1),
{
}

/// The service that a load of `size` bytes calls.
pub open spec fn reader(size: u64) -> u32 {
    match size {
        1 => imports::READ_U8,
        2 => imports::READ_U16,
        4 => imports::READ_U32,
        _ => imports::READ_U64,
    }
}

/// The machine after a service that loads, the answer aside.
pub open spec fn after_load(m: Machine, vaddr: u64, size: u64) -> Machine {
    let (tlb, mem, _) = read_service(
        m.host.bus(),
        m.host.tlb(),
        m.host.mode(),
        m.host.satp(),
        m.host.mstatus(),
        m.mem,
        vaddr,
        size,
    );
    Machine { host: m.host.with(tlb, m.host.bus()), mem, ..m }
}

/// The answer of a service that loads.
pub open spec fn load_answer(m: Machine, vaddr: u64, size: u64) -> u64 {
    read_service(
        m.host.bus(),
        m.host.tlb(),
        m.host.mode(),
        m.host.satp(),
        m.host.mstatus(),
        m.mem,
        vaddr,
        size,
    ).2
}

pub proof fn lemma_read_call(m: Machine, vaddr: u64, size: u64)
    requires
        m.ended is None,
        size == 1 || size == 2 || size == 4 || size == 8,
    ensures
        call(pushed(m, vaddr), reader(size)) == pushed(
            after_load(m, vaddr, size),
            load_answer(m, vaddr, size),
        ),
{
    lemma_calls(pushed(m, vaddr));
    let after = call_read(pushed(m, vaddr), size);
    assert(after.stack =~= m.stack.push(load_answer(m, vaddr, size)));
    assert(after == pushed(after_load(m, vaddr, size), load_answer(m, vaddr, size)));
}

/// The service that a store of `size` bytes calls.
pub open spec fn writer(size: u64) -> u32 {
    match size {
        1 => imports::WRITE_U8,
        2 => imports::WRITE_U16,
        4 => imports::WRITE_U32,
        _ => imports::WRITE_U64,
    }
}

/// What the narrowing code of a store makes of a value.
pub open spec fn narrowed(size: u64, v: u64) -> u64 {
    if size == 8 {
        v
    } else {
        v as u32 as u64
    }
}

proof fn lemma_cuts(v: u64)
    by (bit_vector)
    ensures
        (v as u32 as u64) as u8 == v as u8,
        (v as u32 as u64) as u16 == v as u16,
        (v as u32 as u64) as u32 == v as u32,
        v as u8 as u64 == v % 0x100,
        v as u16 as u64 == v % 0x1_0000,
        v as u32 as u64 == v % 0x1_0000_0000,
{
}

/// A store takes no more of a number than its bytes.
pub proof fn lemma_cut_bytes(v: u64, size: u64)
    requires
        size == 1 || size == 2 || size == 4 || size == 8,
    ensures
        bytes::le_bytes(cut(v, size) as nat, size as nat) == bytes::le_bytes(
            v as nat,
            size as nat,
        ),
        cut(narrowed(size, v), size) == cut(v, size),
{
    lemma_cuts(v);
    bytes::lemma_pow256_values();
    bytes::lemma_le_round_trip(v as nat, size as nat);
    bytes::lemma_le_bytes_len(v as nat, size as nat);
    bytes::lemma_le_bytes_of_value(bytes::le_bytes(v as nat, size as nat));
    if size == 8 {
        vstd::arithmetic::div_mod::lemma_small_mod(v as nat, bytes::pow256(8));
    }
}

/// The machine after a service that stores, the answer aside.
pub open spec fn after_store(m: Machine, vaddr: u64, size: u64, v: u64) -> Machine {
    let (tlb, bus, mem, _) = write_service(
        m.host.bus(),
        m.host.tlb(),
        m.host.mode(),
        m.host.satp(),
        m.host.mstatus(),
        m.mem,
        vaddr,
        size,
        v,
    );
    Machine { host: m.host.with(tlb, bus), mem, ..m }
}

pub proof fn lemma_write_call(m: Machine, vaddr: u64, size: u64, v: u64)
    requires
        m.ended is None,
        size == 1 || size == 2 || size == 4 || size == 8,
    ensures
        call(pushed(pushed(m, vaddr), narrowed(size, v)), writer(size)) == pushed(
            after_store(m, vaddr, size, v),
            m.host.store(vaddr, size, v).2.0 as u64,
        ),
{
    let full = pushed(pushed(m, vaddr), narrowed(size, v));
    lemma_calls(full);
    lemma_cut_bytes(v, size);
    lemma_same_store(m.host, vaddr, size, v);
    let after = call_write(full, size);
    assert(full.stack.drop_last().drop_last() =~= m.stack);
    assert(after.stack =~= m.stack.push(m.host.store(vaddr, size, v).2.0 as u64));
}

/// A store does the same with the bytes that it takes as with the whole number.
pub proof fn lemma_same_store(h: Host, vaddr: u64, size: u64, v: u64)
    requires
        size == 1 || size == 2 || size == 4 || size == 8,
    ensures
        h.store(vaddr, size, cut(v, size)) == h.store(vaddr, size, v),
{
    lemma_cut_bytes(v, size);
}

} // verus!
