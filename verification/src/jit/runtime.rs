//! What compiled code returned, and the services that it calls while it runs.

use crate::bus::SystemBus;
use crate::bytes;
use crate::cpu::types::Mode;
use crate::jit::helpers;
use crate::jit::state::{offsets, JIT_STATE_OFFSET};
use crate::jit::types::exit_codes::{
    EXIT_BRANCH, EXIT_INTERPRETER, EXIT_INTERRUPT_CHECK, EXIT_NORMAL, EXIT_TRAP,
};
use crate::mmu::Tlb;
use vstd::prelude::*;

pub mod native;

verus! {

use crate::bytes::{le_bytes, number_at, same_but, splice};
use crate::bus::SystemState;
use crate::jit::helpers::{mmu_read, mmu_write};
use crate::jit::state::{holds_state, state_place, trap_from};
use crate::cpu::types::{AccessType, Trap};
use crate::meaning::{is_stored, spells};
use crate::mmu::{translation, TlbEntry};

/// How a compiled block ended.
#[derive(Debug, Clone, PartialEq, Eq, Structural)]
#[allow(inconsistent_fields)]
pub enum JitExecResult {
    /// The program goes on at the address.
    Continue(u64),
    /// A trap occurred.
    Trap { code: u32, fault_pc: u64 },
    /// The interpreter has to go on.
    ExitToInterpreter { pc: u64 },
    /// An interrupt may be waiting.
    InterruptCheck { pc: u64 },
    /// A branch was decided. Its target stands in the shared memory; this is the low word of it.
    Branch { new_pc: u64 },
}

/// The high word of a returned value: why the code returned.
pub open spec fn reason(value: i64) -> u32 {
    (value >> 32) as u32
}

/// The low word of a returned value.
pub open spec fn payload(value: i64) -> u32 {
    (value & 0xffff_ffff) as u32
}

/// What a returned value says of a block at `base_pc`.
pub open spec fn meaning(value: i64, base_pc: u64) -> JitExecResult {
    let there = base_pc.wrapping_add(payload(value) as u64);
    if reason(value) == EXIT_NORMAL {
        JitExecResult::Continue(there)
    } else if reason(value) == EXIT_TRAP {
        JitExecResult::Trap { code: payload(value), fault_pc: base_pc }
    } else if reason(value) == EXIT_INTERPRETER {
        JitExecResult::ExitToInterpreter { pc: there }
    } else if reason(value) == EXIT_INTERRUPT_CHECK {
        JitExecResult::InterruptCheck { pc: there }
    } else if reason(value) == EXIT_BRANCH {
        JitExecResult::Branch { new_pc: payload(value) as u64 }
    } else {
        JitExecResult::ExitToInterpreter { pc: base_pc }
    }
}

/// The value that returns with the words given.
pub open spec fn packed_exit(why: u32, low: u32) -> i64 {
    ((why as i64) << 32) | (low as i64)
}

impl JitExecResult {
    /// Reads a value that compiled code returned. A reason that does not exist leaves the
    /// block to the interpreter.
    pub fn from_i64(value: i64, base_pc: u64) -> (result: Self)
        ensures
            result == meaning(value, base_pc),
    {
        let hi: u32 = (value >> 32) as u32;
        let lo: u32 = (value & 0xffff_ffff) as u32;
        let there: u64 = base_pc.wrapping_add(lo as u64);
        if hi == EXIT_NORMAL {
            JitExecResult::Continue(there)
        } else if hi == EXIT_TRAP {
            JitExecResult::Trap { code: lo, fault_pc: base_pc }
        } else if hi == EXIT_INTERPRETER {
            JitExecResult::ExitToInterpreter { pc: there }
        } else if hi == EXIT_INTERRUPT_CHECK {
            JitExecResult::InterruptCheck { pc: there }
        } else if hi == EXIT_BRANCH {
            JitExecResult::Branch { new_pc: lo as u64 }
        } else {
            JitExecResult::ExitToInterpreter { pc: base_pc }
        }
    }

    /// The value that returns for the end of a block.
    pub fn make_continue(pc_offset: u32) -> (value: i64)
        ensures
            value == packed_exit(EXIT_NORMAL, pc_offset),
    {
        ((EXIT_NORMAL as i64) << 32) | (pc_offset as i64)
    }

    /// The value that returns for a trap.
    pub fn make_trap(trap_code: u32) -> (value: i64)
        ensures
            value == packed_exit(EXIT_TRAP, trap_code),
    {
        ((EXIT_TRAP as i64) << 32) | (trap_code as i64)
    }

    /// The value that returns for leaving a block to the interpreter.
    pub fn make_interpreter(pc_offset: u32) -> (value: i64)
        ensures
            value == packed_exit(EXIT_INTERPRETER, pc_offset),
    {
        ((EXIT_INTERPRETER as i64) << 32) | (pc_offset as i64)
    }

    /// The value that returns for a look at the interrupts.
    pub fn make_interrupt_check(pc_offset: u32) -> (value: i64)
        ensures
            value == packed_exit(EXIT_INTERRUPT_CHECK, pc_offset),
    {
        ((EXIT_INTERRUPT_CHECK as i64) << 32) | (pc_offset as i64)
    }

    /// The value that returns for a branch.
    pub fn make_branch(new_pc: u32) -> (value: i64)
        ensures
            value == packed_exit(EXIT_BRANCH, new_pc),
    {
        ((EXIT_BRANCH as i64) << 32) | (new_pc as i64)
    }
}

/// A packed value keeps both words.
proof fn lemma_packed_words(why: u32, low: u32)
    requires
        why < 0x8000_0000,
    ensures
        reason(packed_exit(why, low)) == why,
        payload(packed_exit(why, low)) == low,
{
    lemma_packed_bits(why, low);
}

proof fn lemma_packed_bits(why: u32, low: u32)
    by (bit_vector)
    requires
        why < 0x8000_0000,
    ensures
        (((((why as i64) << 32) | (low as i64)) >> 32) as u32) == why,
        (((((why as i64) << 32) | (low as i64)) & 0xffff_ffff) as u32) == low,
        ((why as i64) << 32) | (low as i64) == why * 0x1_0000_0000 + low,
{
}

/// Reading a value gives back what it was made for.
pub proof fn law_exits_round_trip(low: u32, base_pc: u64)
    ensures
        meaning(packed_exit(EXIT_NORMAL, low), base_pc) == JitExecResult::Continue(
            base_pc.wrapping_add(low as u64),
        ),
        meaning(packed_exit(EXIT_TRAP, low), base_pc) == (JitExecResult::Trap {
            code: low,
            fault_pc: base_pc,
        }),
        meaning(packed_exit(EXIT_INTERPRETER, low), base_pc)
            == (JitExecResult::ExitToInterpreter { pc: base_pc.wrapping_add(low as u64) }),
        meaning(packed_exit(EXIT_INTERRUPT_CHECK, low), base_pc)
            == (JitExecResult::InterruptCheck { pc: base_pc.wrapping_add(low as u64) }),
        meaning(packed_exit(EXIT_BRANCH, low), base_pc) == (JitExecResult::Branch {
            new_pc: low as u64,
        }),
{
    lemma_packed_words(EXIT_NORMAL, low);
    lemma_packed_words(EXIT_TRAP, low);
    lemma_packed_words(EXIT_INTERPRETER, low);
    lemma_packed_words(EXIT_INTERRUPT_CHECK, low);
    lemma_packed_words(EXIT_BRANCH, low);
}

// Services.

/// That the shared memory tells a trap.
pub open spec fn tells_trap(shared: Seq<u8>, code: u32, value: u64) -> bool {
    &&& number_at(shared, state_place(offsets::TRAP_PENDING), 4) == 1
    &&& number_at(shared, state_place(offsets::TRAP_CODE), 4) == code
    &&& number_at(shared, state_place(offsets::TRAP_VALUE), 8) == value
}

/// The shared memory after a trap was told in it.
pub open spec fn trap_told(shared: Seq<u8>, code: u32, value: u64) -> Seq<u8> {
    let flagged = splice(shared, state_place(offsets::TRAP_PENDING), le_bytes(1, 4));
    let coded = splice(flagged, state_place(offsets::TRAP_CODE), le_bytes(code as nat, 4));
    splice(coded, state_place(offsets::TRAP_VALUE), le_bytes(value as nat, 8))
}

/// The shared memory after a service: it tells a trap where the service failed, and stays
/// as it is where it did not.
pub open spec fn after_service(shared: Seq<u8>, ok: bool, code: u32, value: u64) -> Seq<u8> {
    if ok {
        shared
    } else {
        trap_told(shared, code, value)
    }
}

/// Telling a trap touches nothing but the place for it.
pub proof fn lemma_trap_told(shared: Seq<u8>, code: u32, value: u64)
    requires
        holds_state(shared),
    ensures
        tells_trap(trap_told(shared, code, value), code, value),
        same_but(
            trap_told(shared, code, value),
            shared,
            state_place(offsets::TRAP_PENDING),
            16,
        ),
{
    bytes::lemma_pow256_values();
    let pending = state_place(offsets::TRAP_PENDING);
    let place = state_place(offsets::TRAP_CODE);
    let flagged = splice(shared, pending, le_bytes(1, 4));
    bytes::lemma_number_written(shared, pending, 4, 1);
    let coded = splice(flagged, place, le_bytes(code as nat, 4));
    bytes::lemma_number_written(flagged, place, 4, code as u64);
    bytes::lemma_number_written(coded, state_place(offsets::TRAP_VALUE), 8, value);
    let told = trap_told(shared, code, value);
    bytes::lemma_number_agrees(told, flagged, pending, 4);
    bytes::lemma_number_agrees(told, coded, place, 4);
}

/// Tells a trap in the shared memory.
pub fn set_trap_flag(shared: &mut Vec<u8>, code: u32, value: u64)
    requires
        holds_state(old(shared)@),
    ensures
        final(shared)@ == trap_told(old(shared)@, code, value),
{
    proof {
        bytes::lemma_pow256_values();
    }
    bytes::put(shared, JIT_STATE_OFFSET + offsets::TRAP_PENDING as usize, 4, 1);
    bytes::put(shared, JIT_STATE_OFFSET + offsets::TRAP_CODE as usize, 4, code as u64);
    bytes::put(shared, JIT_STATE_OFFSET + offsets::TRAP_VALUE as usize, 8, value);
}

/// A trap that was told is read back.
pub proof fn law_told_trap_is_read(before: Seq<u8>, code: u32, value: u64)
    requires
        holds_state(before),
    ensures
        holds_state(trap_told(before, code, value)),
        trap_from(trap_told(before, code, value)) == Some((code, value)),
{
    lemma_trap_told(before, code, value);
    let shared = trap_told(before, code, value);
    let place = state_place(offsets::TRAP_PENDING);
    let window = shared.subrange(place, place + 4);
    bytes::lemma_le_value_bound(window);
    bytes::lemma_pow256_values();
    assert(bytes::le_value(window) == window[0] as nat + 256 * bytes::le_value(window.skip(1)));
}

/// A load of `size` bytes that compiled code asks for: the cache of translations and the
/// shared memory after it, and its answer. A failure is told as a trap, and all bits of the
/// answer are ones then.
pub open spec fn read_service(
    bus: SystemState,
    tlb: Seq<TlbEntry>,
    mode: Mode,
    satp: u64,
    mstatus: u64,
    shared: Seq<u8>,
    vaddr: u64,
    size: u64,
) -> (Seq<TlbEntry>, Seq<u8>, u64) {
    let (after, (value, ok)) = mmu_read(bus, tlb, mode, satp, mstatus, vaddr, size);
    let answer = if ok {
        value
    } else if size == 8 {
        u64::MAX
    } else {
        u32::MAX as u64
    };
    (after, after_service(shared, ok, value as u32, vaddr), answer)
}

/// A store of the `size` low-order bytes of `value` that compiled code asks for: the cache
/// of translations, the bus and the shared memory after it, and its answer. A failure is
/// told as a trap and answered with its code.
pub open spec fn write_service(
    bus: SystemState,
    tlb: Seq<TlbEntry>,
    mode: Mode,
    satp: u64,
    mstatus: u64,
    shared: Seq<u8>,
    vaddr: u64,
    size: u64,
    value: u64,
) -> (Seq<TlbEntry>, SystemState, Seq<u8>, u32) {
    let (after, stored, (code, ok)) = mmu_write(
        bus,
        tlb,
        mode,
        satp,
        mstatus,
        vaddr,
        size,
        value,
    );
    (after, stored, after_service(shared, ok, code, vaddr), code)
}

/// What a load gives fits its size.
pub proof fn lemma_read_bound(
    bus: SystemState,
    tlb: Seq<TlbEntry>,
    mode: Mode,
    satp: u64,
    mstatus: u64,
    vaddr: u64,
    size: u64,
)
    requires
        size == 1 || size == 2 || size == 4 || size == 8,
    ensures
        mmu_read(bus, tlb, mode, satp, mstatus, vaddr, size).1.0 < bytes::pow256(size as nat),
        size == 1 ==> mmu_read(bus, tlb, mode, satp, mstatus, vaddr, size).1.0 <= 0xff,
        size == 2 ==> mmu_read(bus, tlb, mode, satp, mstatus, vaddr, size).1.0 <= 0xffff,
        size == 4 ==> mmu_read(bus, tlb, mode, satp, mstatus, vaddr, size).1.0 <= 0xffff_ffff,
{
    bytes::lemma_pow256_values();
    let (after, r) = translation(bus, tlb, mode, satp, mstatus, vaddr, AccessType::Load);
    if let Ok(pa) = r {
        if pa >= bus.base && pa - bus.base + size <= bus.mem.len() {
            let at = pa - bus.base;
            bytes::lemma_le_value_bound(bus.mem.subrange(at, at + size));
        }
    }
}

/// The conversions between the numbers of compiled code and those of memory.
proof fn lemma_conversions()
    by (bit_vector)
    ensures
        forall|v: u64| #[trigger] (v as i64) as u64 == v,
        forall|v: u32| #[trigger] (v as i32) as u32 == v,
        forall|v: u32| #[trigger] (v as u64) as u32 == v,
        forall|v: u64| v <= 0xffff_ffff ==> #[trigger] (v as u32) as u64 == v,
        forall|v: u64|
            v <= 0xffff ==> (((#[trigger] (v as u16)) as i32) as u32) as u64 == v && v as u16 as u32
                == v as u32,
        forall|v: u64|
            v <= 0xff ==> (((#[trigger] (v as u8)) as i32) as u32) as u64 == v && v as u8 as u32
                == v as u32,
        (-1i64) as u64 == 0xffff_ffff_ffff_ffff,
        ((-1i32) as u32) as u64 == 0xffff_ffff,
{
}

/// The load of 8 bytes that compiled code asks for.
pub fn host_read_u64(
    bus: &SystemBus,
    tlb: &mut Tlb,
    mode: Mode,
    satp: u64,
    mstatus: u64,
    shared: &mut Vec<u8>,
    vaddr: i64,
) -> (answer: i64)
    requires
        holds_state(old(shared)@),
    ensures
        (final(tlb)@, final(shared)@, answer as u64) == read_service(
            bus@,
            old(tlb)@,
            mode,
            satp,
            mstatus,
            old(shared)@,
            vaddr as u64,
            8,
        ),
{
    proof {
        lemma_conversions();
        lemma_read_bound(bus@, old(tlb)@, mode, satp, mstatus, vaddr as u64, 8);
    }
    let (value, ok) = helpers::mmu_read_u64(bus, tlb, mode, satp, mstatus, vaddr as u64);
    if ok {
        value as i64
    } else {
        set_trap_flag(shared, value as u32, vaddr as u64);
        -1
    }
}

/// The load of 4 bytes that compiled code asks for.
pub fn host_read_u32(
    bus: &SystemBus,
    tlb: &mut Tlb,
    mode: Mode,
    satp: u64,
    mstatus: u64,
    shared: &mut Vec<u8>,
    vaddr: i64,
) -> (answer: i32)
    requires
        holds_state(old(shared)@),
    ensures
        (final(tlb)@, final(shared)@, answer as u32 as u64) == read_service(
            bus@,
            old(tlb)@,
            mode,
            satp,
            mstatus,
            old(shared)@,
            vaddr as u64,
            4,
        ),
{
    proof {
        lemma_conversions();
        lemma_read_bound(bus@, old(tlb)@, mode, satp, mstatus, vaddr as u64, 4);
    }
    let (value, ok) = helpers::mmu_read_u32(bus, tlb, mode, satp, mstatus, vaddr as u64);
    if ok {
        value as i32
    } else {
        set_trap_flag(shared, value as u32, vaddr as u64);
        -1
    }
}

/// The load of 2 bytes that compiled code asks for.
pub fn host_read_u16(
    bus: &SystemBus,
    tlb: &mut Tlb,
    mode: Mode,
    satp: u64,
    mstatus: u64,
    shared: &mut Vec<u8>,
    vaddr: i64,
) -> (answer: i32)
    requires
        holds_state(old(shared)@),
    ensures
        (final(tlb)@, final(shared)@, answer as u32 as u64) == read_service(
            bus@,
            old(tlb)@,
            mode,
            satp,
            mstatus,
            old(shared)@,
            vaddr as u64,
            2,
        ),
{
    proof {
        lemma_conversions();
        lemma_read_bound(bus@, old(tlb)@, mode, satp, mstatus, vaddr as u64, 2);
    }
    let (value, ok) = helpers::mmu_read_u16(bus, tlb, mode, satp, mstatus, vaddr as u64);
    if ok {
        value as i32
    } else {
        set_trap_flag(shared, value as u32, vaddr as u64);
        -1
    }
}

/// The load of 1 byte that compiled code asks for.
pub fn host_read_u8(
    bus: &SystemBus,
    tlb: &mut Tlb,
    mode: Mode,
    satp: u64,
    mstatus: u64,
    shared: &mut Vec<u8>,
    vaddr: i64,
) -> (answer: i32)
    requires
        holds_state(old(shared)@),
    ensures
        (final(tlb)@, final(shared)@, answer as u32 as u64) == read_service(
            bus@,
            old(tlb)@,
            mode,
            satp,
            mstatus,
            old(shared)@,
            vaddr as u64,
            1,
        ),
{
    proof {
        lemma_conversions();
        lemma_read_bound(bus@, old(tlb)@, mode, satp, mstatus, vaddr as u64, 1);
    }
    let (value, ok) = helpers::mmu_read_u8(bus, tlb, mode, satp, mstatus, vaddr as u64);
    if ok {
        value as i32
    } else {
        set_trap_flag(shared, value as u32, vaddr as u64);
        -1
    }
}

/// The store of 8 bytes that compiled code asks for.
pub fn host_write_u64(
    bus: &mut SystemBus,
    tlb: &mut Tlb,
    mode: Mode,
    satp: u64,
    mstatus: u64,
    shared: &mut Vec<u8>,
    vaddr: i64,
    value: i64,
) -> (answer: i32)
    requires
        holds_state(old(shared)@),
    ensures
        (final(tlb)@, final(bus)@, final(shared)@, answer as u32) == write_service(
            old(bus)@,
            old(tlb)@,
            mode,
            satp,
            mstatus,
            old(shared)@,
            vaddr as u64,
            8,
            value as u64,
        ),
{
    proof {
        lemma_conversions();
    }
    let (code, ok) = helpers::mmu_write_u64(
        bus,
        tlb,
        mode,
        satp,
        mstatus,
        vaddr as u64,
        value as u64,
    );
    if ok {
        0
    } else {
        set_trap_flag(shared, code, vaddr as u64);
        code as i32
    }
}

/// The store of 4 bytes that compiled code asks for.
pub fn host_write_u32(
    bus: &mut SystemBus,
    tlb: &mut Tlb,
    mode: Mode,
    satp: u64,
    mstatus: u64,
    shared: &mut Vec<u8>,
    vaddr: i64,
    value: i32,
) -> (answer: i32)
    requires
        holds_state(old(shared)@),
    ensures
        (final(tlb)@, final(bus)@, final(shared)@, answer as u32) == write_service(
            old(bus)@,
            old(tlb)@,
            mode,
            satp,
            mstatus,
            old(shared)@,
            vaddr as u64,
            4,
            value as u32 as u64,
        ),
{
    proof {
        lemma_conversions();
    }
    let (code, ok) = helpers::mmu_write_u32(
        bus,
        tlb,
        mode,
        satp,
        mstatus,
        vaddr as u64,
        value as u32,
    );
    if ok {
        0
    } else {
        set_trap_flag(shared, code, vaddr as u64);
        code as i32
    }
}

/// The store of 2 bytes that compiled code asks for.
pub fn host_write_u16(
    bus: &mut SystemBus,
    tlb: &mut Tlb,
    mode: Mode,
    satp: u64,
    mstatus: u64,
    shared: &mut Vec<u8>,
    vaddr: i64,
    value: i32,
) -> (answer: i32)
    requires
        holds_state(old(shared)@),
    ensures
        (final(tlb)@, final(bus)@, final(shared)@, answer as u32) == write_service(
            old(bus)@,
            old(tlb)@,
            mode,
            satp,
            mstatus,
            old(shared)@,
            vaddr as u64,
            2,
            value as u16 as u64,
        ),
{
    proof {
        lemma_conversions();
    }
    let (code, ok) = helpers::mmu_write_u16(
        bus,
        tlb,
        mode,
        satp,
        mstatus,
        vaddr as u64,
        value as u16,
    );
    if ok {
        0
    } else {
        set_trap_flag(shared, code, vaddr as u64);
        code as i32
    }
}

/// The store of 1 byte that compiled code asks for.
pub fn host_write_u8(
    bus: &mut SystemBus,
    tlb: &mut Tlb,
    mode: Mode,
    satp: u64,
    mstatus: u64,
    shared: &mut Vec<u8>,
    vaddr: i64,
    value: i32,
) -> (answer: i32)
    requires
        holds_state(old(shared)@),
    ensures
        (final(tlb)@, final(bus)@, final(shared)@, answer as u32) == write_service(
            old(bus)@,
            old(tlb)@,
            mode,
            satp,
            mstatus,
            old(shared)@,
            vaddr as u64,
            1,
            value as u8 as u64,
        ),
{
    proof {
        lemma_conversions();
    }
    let (code, ok) = helpers::mmu_write_u8(
        bus,
        tlb,
        mode,
        satp,
        mstatus,
        vaddr as u64,
        value as u8,
    );
    if ok {
        0
    } else {
        set_trap_flag(shared, code, vaddr as u64);
        code as i32
    }
}

/// A value that compiled code returns is read by its high word: 0 goes on at a distance from the
/// start of the block, 1 is a trap with a code, 2 leaves the block to the interpreter and 3 to
/// the interrupts at a distance, and 4 goes to an address. Any other word leaves the whole
/// block to the interpreter.
pub proof fn law_words_of_exits(why: u32, low: u32, base_pc: u64)
    requires
        why < 0x8000_0000,
    ensures
        ({
            let value = (why * 0x1_0000_0000 + low) as i64;
            let there = ((base_pc + low) % 0x1_0000_0000_0000_0000) as u64;
            &&& packed_exit(why, low) == why * 0x1_0000_0000 + low
            &&& meaning(value, base_pc) == match why {
                0 => JitExecResult::Continue(there),
                1 => JitExecResult::Trap { code: low, fault_pc: base_pc },
                2 => JitExecResult::ExitToInterpreter { pc: there },
                3 => JitExecResult::InterruptCheck { pc: there },
                4 => JitExecResult::Branch { new_pc: low as u64 },
                _ => JitExecResult::ExitToInterpreter { pc: base_pc },
            }
        }),
{
    lemma_packed_words(why, low);
    lemma_packed_bits(why, low);
}

/// A service that loads gives the bytes of memory and tells no trap, or gives all ones and
/// tells the code of the fault with the address.
pub proof fn law_loads_are_served(
    bus: SystemState,
    tlb: Seq<TlbEntry>,
    mode: Mode,
    satp: u64,
    mstatus: u64,
    shared: Seq<u8>,
    vaddr: u64,
    size: u64,
)
    requires
        holds_state(shared),
        size == 1 || size == 2 || size == 4 || size == 8,
    ensures
        ({
            let (after, r) = translation(bus, tlb, mode, satp, mstatus, vaddr, AccessType::Load);
            let (kept, told, answer) = read_service(
                bus,
                tlb,
                mode,
                satp,
                mstatus,
                shared,
                vaddr,
                size,
            );
            let ones = if size == 8 {
                0xffff_ffff_ffff_ffff
            } else {
                0xffff_ffffu64
            };
            &&& kept == after
            &&& r matches Ok(pa) ==> if bus.base <= pa && pa + size <= bus.base + bus.mem.len() {
                told == shared && spells(bus.mem, pa - bus.base, size, answer)
            } else {
                trap_from(told) == Some((5u32, vaddr)) && answer == ones
            }
            &&& r matches Err(Trap::LoadPageFault(_)) ==> trap_from(told) == Some((13u32, vaddr))
            &&& r matches Err(Trap::LoadAccessFault(_)) ==> trap_from(told) == Some((5u32, vaddr))
            &&& r is Err ==> answer == ones
        }),
{
    let (after, r) = translation(bus, tlb, mode, satp, mstatus, vaddr, AccessType::Load);
    law_told_trap_is_read(shared, 5, vaddr);
    law_told_trap_is_read(shared, 13, vaddr);
    if let Ok(pa) = r {
        if bus.base <= pa && pa + size <= bus.base + bus.mem.len() {
            crate::meaning::lemma_reading_spells(bus.mem, pa - bus.base, size);
        }
    }
}

/// A service that stores puts the bytes into memory and answers zero, or leaves memory, tells
/// the code of the fault with the address and answers it.
pub proof fn law_stores_are_served(
    bus: SystemState,
    tlb: Seq<TlbEntry>,
    mode: Mode,
    satp: u64,
    mstatus: u64,
    shared: Seq<u8>,
    vaddr: u64,
    size: u64,
    value: u64,
)
    requires
        holds_state(shared),
        size == 1 || size == 2 || size == 4 || size == 8,
    ensures
        ({
            let (after, r) = translation(bus, tlb, mode, satp, mstatus, vaddr, AccessType::Store);
            let (kept, stored, told, answer) = write_service(
                bus,
                tlb,
                mode,
                satp,
                mstatus,
                shared,
                vaddr,
                size,
                value,
            );
            &&& kept == after
            &&& stored.base == bus.base
            &&& r matches Ok(pa) ==> if bus.base <= pa && pa + size <= bus.base + bus.mem.len() {
                told == shared && answer == 0 && is_stored(
                    stored.mem,
                    bus.mem,
                    pa - bus.base,
                    size,
                    value,
                )
            } else {
                trap_from(told) == Some((7u32, vaddr)) && answer == 7 && stored == bus
            }
            &&& r matches Err(Trap::StorePageFault(_)) ==> trap_from(told) == Some((15u32, vaddr))
                && answer == 15 && stored == bus
            &&& r matches Err(Trap::StoreAccessFault(_)) ==> trap_from(told) == Some((7u32, vaddr))
                && answer == 7 && stored == bus
        }),
{
    let (after, r) = translation(bus, tlb, mode, satp, mstatus, vaddr, AccessType::Store);
    law_told_trap_is_read(shared, 7, vaddr);
    law_told_trap_is_read(shared, 15, vaddr);
    bytes::lemma_le_bytes_len(value as nat, size as nat);
    if let Ok(pa) = r {
        if bus.base <= pa && pa + size <= bus.base + bus.mem.len() {
            crate::meaning::lemma_writing_spells(bus.mem, pa - bus.base, size, value);
        }
    }
}

} // verus!
