//! What compiled loads and stores do when they run.

use vstd::prelude::*;

verus! {

use crate::bytes;
use crate::cpu::alu;
use crate::engine::microop::MicroOp;
use crate::jit::codegen::{
    self, address, arith as arith_code, exit_if, exit_value, extend_s, extend_u, load_code,
    load_reg, op_code, sign_extend, store_code, store_reg, trap_check, wrap, Code,
    VALUE_LOCAL,
};
use crate::jit::runtime::{lemma_trap_told, tells_trap};
use crate::jit::semantics::host::{
    after_load, after_store, call, lemma_host_with, lemma_read_call, lemma_write_call,
    load_answer, narrowed, reader, writer,
};
use crate::jit::semantics::{
    all_plain, exec, lemma_arith, lemma_exit_if, lemma_extend, lemma_load_reg, lemma_plain,
    lemma_skip_one, lemma_store_reg, lemma_with_imm, lemma_with_register, lemma_word,
    lemma_wrap, pushed, ready, reg, run, step, stored, Ended, Machine,
};
use crate::jit::state::{holds_state, offsets, state_place, JIT_STATE_OFFSET};
use crate::jit::types::exit_codes;
use crate::jit::wasm::{Access, I32Op, I64Op, Instruction};

/// What the widening code of a load makes of an answer.
pub open spec fn widened(size: u64, signed: bool, v: u64) -> u64 {
    match (size, signed) {
        (1, true) => ((((v as u32) << 24) as i32) >> 24) as i64 as u64,
        (2, true) => ((((v as u32) << 16) as i32) >> 16) as i64 as u64,
        (4, true) => (v as u32) as i32 as i64 as u64,
        (8, _) => v,
        _ => v as u32 as u64,
    }
}

/// The code that widens the answer of a load.
pub open spec fn widening(size: u64, signed: bool) -> Code {
    match (size, signed) {
        (1, true) => sign_extend(24),
        (2, true) => sign_extend(16),
        (4, true) => extend_s(),
        (8, _) => Seq::empty(),
        _ => extend_u(),
    }
}

proof fn lemma_sign_extend(shift: i32, m: Machine, a: u32)
    requires
        m.ended is None,
        shift == 16 || shift == 24,
    ensures
        all_plain(sign_extend(shift)),
        exec(sign_extend(shift), pushed(m, a as u64)) == pushed(
            m,
            (((a << (shift as u32)) as i32) >> (shift as u32)) as i64 as u64,
        ),
{
    reveal_with_fuel(exec, 6);
    let code = sign_extend(shift);
    let n = shift as u32;
    let m0 = pushed(m, a as u64);
    let m1 = step(m0, code[0]);
    assert(m1 == pushed(m0, n as u64));
    lemma_word(I32Op::Shl, m, a, n);
    lemma_amounts();
    let b = a << n;
    let m2 = pushed(m, b as u64);
    assert(step(m1, code[1]) == m2);
    let m3 = step(m2, code[2]);
    assert(m3 == pushed(m2, n as u64));
    lemma_word(I32Op::ShrS, m, b, n);
    let c = ((b as i32) >> n) as u32;
    let m4 = pushed(m, c as u64);
    assert(step(m3, code[3]) == m4);
    lemma_extend(m, c);
    lemma_signs((b as i32) >> n);
    assert(code.skip(1)[0] == code[1]);
    assert(code.skip(1).skip(1)[0] == code[2]);
    assert(code.skip(1).skip(1).skip(1)[0] == code[3]);
    assert(code.skip(1).skip(1).skip(1).skip(1)[0] == code[4]);
    assert(code.skip(1).skip(1).skip(1).skip(1).skip(1).len() == 0);
}

proof fn lemma_amounts()
    by (bit_vector)
    ensures
        16u32 & 0x1f == 16u32,
        24u32 & 0x1f == 24u32,
        16i32 as u32 == 16u32,
        24i32 as u32 == 24u32,
{
}

proof fn lemma_signs(v: i32)
    by (bit_vector)
    ensures
        (v as u32) as i32 == v,
{
}

/// What a load gives after widening, for answers that fit its size.
proof fn lemma_widened_values(v: u64)
    by (bit_vector)
    ensures
        v <= 0xff ==> ((((v as u32) << 24) as i32) >> 24) as i64 as u64 == (v as i8) as i64 as u64,
        v <= 0xffff ==> ((((v as u32) << 16) as i32) >> 16) as i64 as u64 == (v as i16) as i64
            as u64,
        (v as u32) as i32 as i64 as u64 == (v as i32) as i64 as u64,
        v <= 0xff ==> v as u32 as u64 == v as u8 as u64,
        v <= 0xffff ==> v as u32 as u64 == v as u16 as u64,
{
}

proof fn lemma_widening(size: u64, signed: bool, m: Machine, v: u64)
    requires
        m.ended is None,
        size == 1 || size == 2 || size == 4 || size == 8,
        size < 8 ==> v <= u32::MAX,
    ensures
        all_plain(widening(size, signed)),
        exec(widening(size, signed), pushed(m, v)) == pushed(m, widened(size, signed, v)),
{
    reveal_with_fuel(exec, 2);
    if size < 8 {
        let a = v as u32;
        assert(a as u64 == v);
        lemma_extend(m, a);
        assert(extend_s().skip(1).len() == 0);
        assert(extend_u().skip(1).len() == 0);
        lemma_sign_extend(16, m, a);
        lemma_sign_extend(24, m, a);
    }
}

// Loads.

/// The parts of a compiled load: the register that it fills, the base register, the
/// distance, the place of the instruction, and its kind as the interpreter numbers it.
pub open spec fn load_parts(op: MicroOp) -> Option<(u8, u8, i64, u16, u8)> {
    match op {
        MicroOp::Lb { rd, rs1, imm, pc_offset } => Some((rd, rs1, imm, pc_offset, 0)),
        MicroOp::Lh { rd, rs1, imm, pc_offset } => Some((rd, rs1, imm, pc_offset, 1)),
        MicroOp::Lw { rd, rs1, imm, pc_offset } => Some((rd, rs1, imm, pc_offset, 2)),
        MicroOp::Ld { rd, rs1, imm, pc_offset } => Some((rd, rs1, imm, pc_offset, 3)),
        MicroOp::Lbu { rd, rs1, imm, pc_offset } => Some((rd, rs1, imm, pc_offset, 4)),
        MicroOp::Lhu { rd, rs1, imm, pc_offset } => Some((rd, rs1, imm, pc_offset, 5)),
        MicroOp::Lwu { rd, rs1, imm, pc_offset } => Some((rd, rs1, imm, pc_offset, 6)),
        _ => None,
    }
}

/// No trap is told.
pub open spec fn untroubled(m: Machine) -> bool {
    bytes::number_at(m.mem, state_place(offsets::TRAP_PENDING), 4) == 0
}

/// The address of a transfer.
pub open spec fn address_of(m: Machine, rs1: u8, imm: i64) -> u64 {
    reg(m, rs1).wrapping_add(imm as u64)
}

proof fn lemma_address(rs1: u8, imm: i64, m: Machine, rest: Code)
    requires
        ready(m),
        rs1 < 32,
    ensures
        run(address(rs1, imm) + rest, m) == run(rest, pushed(m, address_of(m, rs1, imm))),
{
    lemma_arith(I64Op::Add, m, reg(m, rs1), imm as u64);
    lemma_with_imm(rs1, imm, arith_code(I64Op::Add), m);
    lemma_plain(address(rs1, imm), rest, m);
}

proof fn lemma_call(index: u32, m: Machine, rest: Code)
    requires
        m.ended is None,
    ensures
        run(seq![Instruction::Call(index)] + rest, m) == run(rest, call(m, index)),
{
    lemma_skip_one(Instruction::Call(index), rest);
}

/// The check for a trap goes on where none is told, and returns where one is.
proof fn lemma_trap_check(place: u16, m: Machine, rest: Code)
    requires
        ready(m),
    ensures
        run(trap_check(place) + rest, m) == (if untroubled(m) {
            run(rest, m)
        } else {
            returned(m, exit_value(exit_codes::EXIT_TRAP, place as u32))
        }),
{
    reveal_with_fuel(exec, 3);
    let why = exit_codes::EXIT_TRAP;
    let flag = seq![
        Instruction::I32Const(0),
        Instruction::Memory(
            Access::I32Load,
            codegen::mem((JIT_STATE_OFFSET + offsets::TRAP_PENDING) as u64, 2),
        ),
    ];
    assert(trap_check(place) + rest =~= flag + (exit_if(why, place as u32) + rest));
    assert(all_plain(flag));
    lemma_plain(flag, exit_if(why, place as u32) + rest, m);
    let at = state_place(offsets::TRAP_PENDING);
    let c = bytes::number_at(m.mem, at, 4);
    let m1 = step(m, flag[0]);
    assert(m1.stack.drop_last() =~= m.stack);
    let m2 = step(m1, flag[1]);
    assert(m2.stack =~= m.stack.push(c));
    assert(flag.skip(1)[0] == flag[1]);
    assert(flag.skip(1).skip(1).len() == 0);
    assert(exec(flag, m) == pushed(m, c));
    bytes::lemma_le_value_bound(m.mem.subrange(at, at + 4));
    bytes::lemma_pow256_values();
    lemma_exit_if(why, place as u32, m, c, rest);
}

/// The machine after it returned a value.
pub open spec fn returned(m: Machine, v: i64) -> Machine {
    Machine { ended: Some(Ended::Returned(v as u64)), ..pushed(m, v as u64) }
}

/// A load, up to the check for a trap.
proof fn lemma_load_code(
    rd: u8,
    rs1: u8,
    imm: i64,
    place: u16,
    size: u64,
    signed: bool,
    m: Machine,
    rest: Code,
)
    requires
        ready(m),
        0 < rd < 32,
        rs1 < 32,
        size == 1 || size == 2 || size == 4 || size == 8,
    ensures
        ({
            let vaddr = address_of(m, rs1, imm);
            let after = stored(
                after_load(m, vaddr, size),
                rd,
                widened(size, signed, load_answer(m, vaddr, size)),
            );
            run(
                load_code(rd, rs1, imm, place, reader(size), widening(size, signed)) + rest,
                m,
            ) == run(trap_check(place) + rest, after)
        }),
{
    reveal(load_code);
    let widen = widening(size, signed);
    let tail = trap_check(place) + rest;
    let four = store_reg(rd) + tail;
    let three = widen + four;
    let two = seq![Instruction::Call(reader(size))] + three;
    let code = load_code(rd, rs1, imm, place, reader(size), widen);
    assert(code + rest =~= address(rs1, imm) + two);
    let vaddr = address_of(m, rs1, imm);
    lemma_address(rs1, imm, m, two);
    lemma_call(reader(size), pushed(m, vaddr), three);
    lemma_read_call(m, vaddr, size);
    let m1 = after_load(m, vaddr, size);
    let answer = load_answer(m, vaddr, size);
    lemma_answer_fits(m, vaddr, size);
    lemma_widening(size, signed, m1, answer);
    lemma_plain(widen, four, pushed(m1, answer));
    let v = widened(size, signed, answer);
    lemma_after_load(m, vaddr, size);
    lemma_store_reg(rd, m1, v);
    lemma_plain(store_reg(rd), tail, pushed(m1, v));
}

/// What a service that loads answers fits the number that compiled code takes.
proof fn lemma_answer_fits(m: Machine, vaddr: u64, size: u64)
    requires
        size == 1 || size == 2 || size == 4 || size == 8,
    ensures
        size < 8 ==> load_answer(m, vaddr, size) <= u32::MAX,
        m.host.load(vaddr, size).1.1 ==> load_answer(m, vaddr, size) == m.host.load(
            vaddr,
            size,
        ).1.0,
        size == 1 ==> m.host.load(vaddr, size).1.0 <= 0xff,
        size == 2 ==> m.host.load(vaddr, size).1.0 <= 0xffff,
{
    crate::jit::runtime::lemma_read_bound(
        m.host.bus(),
        m.host.tlb(),
        m.host.mode(),
        m.host.satp(),
        m.host.mstatus(),
        vaddr,
        size,
    );
}

/// A service that loads leaves the machine ready, and tells a trap if and only if it fails.
proof fn lemma_after_load(m: Machine, vaddr: u64, size: u64)
    requires
        ready(m),
    ensures
        ready(after_load(m, vaddr, size)),
        m.host.load(vaddr, size).1.1 ==> after_load(m, vaddr, size).mem == m.mem,
        !m.host.load(vaddr, size).1.1 ==> tells_trap(
            after_load(m, vaddr, size).mem,
            m.host.load(vaddr, size).1.0 as u32,
            vaddr,
        ),
        bytes::same_but(
            after_load(m, vaddr, size).mem,
            m.mem,
            state_place(offsets::TRAP_PENDING),
            16,
        ),
{
    lemma_trap_told(m.mem, m.host.load(vaddr, size).1.0 as u32, vaddr);
}

/// That all registers are as before, but for `rd` where it is not `x0`.
pub open spec fn registers_kept(after: Machine, m: Machine, rd: u8) -> bool {
    forall|i: u8| i < 32 && (i != rd || rd == 0) ==> #[trigger] reg(after, i) == reg(m, i)
}

/// The place for a trap is apart from the registers.
proof fn lemma_registers_beside(after: Machine, m: Machine)
    requires
        ready(m),
        bytes::same_but(after.mem, m.mem, state_place(offsets::TRAP_PENDING), 16),
    ensures
        registers_kept(after, m, 0),
{
    assert forall|i: u8| i < 32 implies #[trigger] reg(after, i) == reg(m, i) by {
        if i != 0 {
            bytes::lemma_number_agrees(after.mem, m.mem, state_place(0) + i * 8, 8);
        }
    }
}

/// The machine after a load that succeeds.
pub open spec fn loaded(op: MicroOp, m: Machine) -> Machine {
    let (rd, rs1, imm, _, kind) = load_parts(op).unwrap();
    let (tlb, (value, _)) = m.host.load(
        address_of(m, rs1, imm),
        alu::load_size(kind).unwrap(),
    );
    stored(
        Machine { host: m.host.with(tlb, m.host.bus()), ..m },
        rd,
        alu::load_value(kind, value),
    )
}

/// A write to a register leaves alone whether a trap is told, and which.
pub proof fn lemma_register_apart(m: Machine, rd: u8, v: u64)
    requires
        ready(m),
        rd < 32,
    ensures
        ready(stored(m, rd, v)),
        untroubled(stored(m, rd, v)) == untroubled(m),
        forall|code: u32, value: u64|
            tells_trap(m.mem, code, value) ==> #[trigger] tells_trap(
                stored(m, rd, v).mem,
                code,
                value,
            ),
{
    let kept = Machine { locals: m.locals.insert(VALUE_LOCAL, v), ..m };
    lemma_with_register(kept, rd, v);
    let after = stored(m, rd, v);
    bytes::lemma_number_agrees(after.mem, m.mem, state_place(offsets::TRAP_PENDING), 4);
    bytes::lemma_number_agrees(after.mem, m.mem, state_place(offsets::TRAP_CODE), 4);
    bytes::lemma_number_agrees(after.mem, m.mem, state_place(offsets::TRAP_VALUE), 8);
}

/// A compiled load asks the host for the bytes at its address. Where the host has them, the
/// register gets them as the interpreter would widen them, and the code goes on; where it
/// has not, the code returns with the place of the instruction, and the trap is told. The
/// register that was to be filled is then lost.
#[verifier::spinoff_prover]
pub proof fn law_compiled_load(op: MicroOp, base_pc: u64, m: Machine, rest: Code)
    requires
        ready(m),
        untroubled(m),
        load_parts(op) is Some,
        0 < load_parts(op).unwrap().0 < 32,
        load_parts(op).unwrap().1 < 32,
    ensures
        op_code(op, base_pc) is Some,
        ({
            let (rd, rs1, imm, place, kind) = load_parts(op).unwrap();
            let vaddr = address_of(m, rs1, imm);
            let (tlb, (value, ok)) = m.host.load(vaddr, alu::load_size(kind).unwrap());
            let after = run(op_code(op, base_pc).unwrap() + rest, m);
            &&& ok ==> after == run(rest, loaded(op, m))
            &&& !ok ==> after.ended == Some(
                Ended::Returned(exit_value(exit_codes::EXIT_TRAP, place as u32) as u64),
            ) && tells_trap(after.mem, value as u32, vaddr) && holds_state(after.mem)
                && after.host.bus() == m.host.bus() && after.host.tlb() == tlb && registers_kept(
                after,
                m,
                rd,
            )
        }),
{
    let (rd, rs1, imm, place, kind) = load_parts(op).unwrap();
    let size = alu::load_size(kind).unwrap();
    let signed = kind < 3;
    let vaddr = address_of(m, rs1, imm);
    let code = load_code(rd, rs1, imm, place, reader(size), widening(size, signed));
    assert(op_code(op, base_pc) == Some(code));
    let answer = load_answer(m, vaddr, size);
    let m1 = after_load(m, vaddr, size);
    let v = widened(size, signed, answer);
    lemma_load_code(rd, rs1, imm, place, size, signed, m, rest);
    lemma_after_load(m, vaddr, size);
    lemma_register_apart(m1, rd, v);
    lemma_trap_check(place, stored(m1, rd, v), rest);
    lemma_answer_fits(m, vaddr, size);
    lemma_widened_values(answer);
    lemma_host_with(m.host, m.host.load(vaddr, size).0, m.host.bus());
    if m.host.load(vaddr, size).1.1 {
        assert(v == alu::load_value(kind, answer));
        assert(stored(m1, rd, v) == loaded(op, m));
    } else {
        lemma_registers_beside(m1, m);
        let kept = Machine { locals: m1.locals.insert(VALUE_LOCAL, v), ..m1 };
        lemma_with_register(kept, rd, v);
        let after = run(code + rest, m);
        assert forall|i: u8| i < 32 && i != rd implies #[trigger] reg(after, i) == reg(m, i) by {
            assert(reg(stored(m1, rd, v), i) == reg(kept, i));
            assert(reg(m1, i) == reg(m, i));
        }
    }
}

// Stores.

/// The parts of a compiled store: the base register, the register that it takes, the
/// distance, the place of the instruction, and its kind as the interpreter numbers it.
pub open spec fn store_parts(op: MicroOp) -> Option<(u8, u8, i64, u16, u8)> {
    match op {
        MicroOp::Sb { rs1, rs2, imm, pc_offset } => Some((rs1, rs2, imm, pc_offset, 0)),
        MicroOp::Sh { rs1, rs2, imm, pc_offset } => Some((rs1, rs2, imm, pc_offset, 1)),
        MicroOp::Sw { rs1, rs2, imm, pc_offset } => Some((rs1, rs2, imm, pc_offset, 2)),
        MicroOp::Sd { rs1, rs2, imm, pc_offset } => Some((rs1, rs2, imm, pc_offset, 3)),
        _ => None,
    }
}

/// The code that narrows the value of a store.
pub open spec fn narrowing(size: u64) -> Code {
    if size == 8 {
        Seq::empty()
    } else {
        wrap()
    }
}

/// A service that stores leaves the machine ready, and tells a trap if and only if it fails.
proof fn lemma_after_store(m: Machine, vaddr: u64, size: u64, v: u64)
    requires
        ready(m),
    ensures
        ready(after_store(m, vaddr, size, v)),
        ({
            let (_, _, (code, ok)) = m.host.store(vaddr, size, v);
            &&& ok == (code == 0)
            &&& ok ==> after_store(m, vaddr, size, v).mem == m.mem
            &&& !ok ==> tells_trap(after_store(m, vaddr, size, v).mem, code, vaddr)
        }),
        bytes::same_but(
            after_store(m, vaddr, size, v).mem,
            m.mem,
            state_place(offsets::TRAP_PENDING),
            16,
        ),
{
    lemma_trap_told(m.mem, m.host.store(vaddr, size, v).2.0, vaddr);
}

/// The machine after a store that succeeds.
pub open spec fn stored_away(op: MicroOp, m: Machine) -> Machine {
    let (rs1, rs2, imm, _, kind) = store_parts(op).unwrap();
    let (tlb, bus, _) = m.host.store(
        address_of(m, rs1, imm),
        alu::store_size(kind).unwrap(),
        reg(m, rs2),
    );
    Machine { host: m.host.with(tlb, bus), ..m }
}

/// A compiled store hands its register to the host. Where the host takes it, the code goes
/// on; where it does not, the code returns with the place of the instruction, and the trap
/// is told.
#[verifier::spinoff_prover]
pub proof fn law_compiled_store(op: MicroOp, base_pc: u64, m: Machine, rest: Code)
    requires
        ready(m),
        store_parts(op) is Some,
        store_parts(op).unwrap().0 < 32,
        store_parts(op).unwrap().1 < 32,
    ensures
        op_code(op, base_pc) is Some,
        ({
            let (rs1, rs2, imm, place, kind) = store_parts(op).unwrap();
            let vaddr = address_of(m, rs1, imm);
            let (tlb, bus, (code, ok)) = m.host.store(
                vaddr,
                alu::store_size(kind).unwrap(),
                reg(m, rs2),
            );
            let after = run(op_code(op, base_pc).unwrap() + rest, m);
            &&& ok ==> after == run(rest, stored_away(op, m))
            &&& !ok ==> after.ended == Some(
                Ended::Returned(exit_value(exit_codes::EXIT_TRAP, place as u32) as u64),
            ) && tells_trap(after.mem, code, vaddr) && holds_state(after.mem)
                && after.host.bus() == bus && after.host.tlb() == tlb && registers_kept(after, m, 0)
        }),
{
    let (rs1, rs2, imm, place, kind) = store_parts(op).unwrap();
    let size = alu::store_size(kind).unwrap();
    let vaddr = address_of(m, rs1, imm);
    let v = reg(m, rs2);
    let exit = exit_if(exit_codes::EXIT_TRAP, place as u32) + rest;
    let four = seq![Instruction::Call(writer(size))] + exit;
    let three = narrowing(size) + four;
    let two = load_reg(rs2) + three;
    reveal(store_code);
    let code = store_code(rs1, rs2, imm, place, writer(size), narrowing(size));
    assert(op_code(op, base_pc) == Some(code));
    assert(code + rest =~= address(rs1, imm) + two);
    lemma_address(rs1, imm, m, two);
    let m1 = pushed(m, vaddr);
    lemma_load_reg(rs2, m1);
    lemma_plain(load_reg(rs2), three, m1);
    let m2 = pushed(m1, narrowed(size, v));
    lemma_wrap(m1, v);
    lemma_plain(narrowing(size), four, pushed(m1, v));
    assert(run(three, pushed(m1, v)) == run(four, m2)) by {
        if size == 8 {
            assert(three =~= four);
        }
    }
    lemma_call(writer(size), m2, exit);
    lemma_write_call(m, vaddr, size, v);
    let m3 = after_store(m, vaddr, size, v);
    lemma_after_store(m, vaddr, size, v);
    let (tlb, bus, (answer, ok)) = m.host.store(vaddr, size, v);
    lemma_exit_if(exit_codes::EXIT_TRAP, place as u32, m3, answer as u64, rest);
    lemma_host_with(m.host, tlb, bus);
    if !ok {
        lemma_registers_beside(m3, m);
        let after = run(code + rest, m);
        assert forall|i: u8| i < 32 implies #[trigger] reg(after, i) == reg(m, i) by {
            assert(reg(m3, i) == reg(m, i));
        }
    }
}

} // verus!
