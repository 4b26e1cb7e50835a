//! What emitted code does when it runs, and that compiled instructions compute what the
//! interpreter computes.

use vstd::prelude::*;

pub mod endings;
pub mod equivalence;
pub mod host;
pub mod jumps;
pub mod leaving;
pub mod meaning;
pub mod services;

verus! {

use crate::arith;
use crate::bytes;
use crate::cpu::alu;
use crate::engine::microop::MicroOp;
use crate::jit::codegen::{
    self, arith as arith_code, arith_cut, arith_word, choose_i64, const64,
    const_to_reg, cut_word, equals, equals_word, exit_if, exit_value, interrupt_check, is_zero,
    is_zero_word, load_reg, op_code, overflows, overflows_word, shift, shift_word, store_reg,
    test_value, to_reg, value_code, with_imm, with_reg, with_words, word_shift, Code,
    VALUE_LOCAL,
};
use crate::jit::semantics::host::{call, Host};
use crate::jit::state::{holds_state, register_at, state_place};
use crate::jit::wasm::{
    Access, BlockType, Convert, I32Op, I64Op, I64Test, Instruction, MemArg, ValType,
};

/// How code stops.
pub enum Ended {
    /// It returned a value.
    Returned(u64),
    /// It did what is not allowed: a division by zero, or an access outside memory.
    Trapped,
}

/// A machine that runs code. Numbers of 32 bits stand zero-extended on the stack.
#[verifier::ext_equal]
pub struct Machine {
    pub stack: Seq<u64>,
    pub locals: Map<u32, u64>,
    pub mem: Seq<u8>,
    pub host: Host,
    pub ended: Option<Ended>,
}

pub open spec fn pushed(m: Machine, v: u64) -> Machine {
    Machine { stack: m.stack.push(v), ..m }
}

pub open spec fn top(m: Machine) -> u64 {
    m.stack.last()
}

/// The value below the top of the stack.
pub open spec fn below(m: Machine) -> u64 {
    m.stack[m.stack.len() - 2]
}

pub open spec fn pop(m: Machine) -> Machine {
    Machine { stack: m.stack.drop_last(), ..m }
}

/// The machine with `v` in place of the top of the stack.
pub open spec fn replace_top(m: Machine, v: u64) -> Machine {
    pushed(pop(m), v)
}

/// The machine with `v` in place of the two topmost values.
pub open spec fn replace_two(m: Machine, v: u64) -> Machine {
    pushed(pop(pop(m)), v)
}

pub open spec fn trap(m: Machine) -> Machine {
    Machine { ended: Some(Ended::Trapped), ..m }
}

/// What an operation on two numbers of 64 bits gives; `None` where it is not allowed.
pub open spec fn i64_result(op: I64Op, a: u64, b: u64) -> Option<u64> {
    match op {
        I64Op::Add => Some(a.wrapping_add(b)),
        I64Op::Sub => Some(a.wrapping_sub(b)),
        I64Op::Mul => Some(a.wrapping_mul(b)),
        I64Op::DivS => if b == 0 || (a as i64 == i64::MIN && b as i64 == -1) {
            None
        } else {
            Some((arith::quotient(a as i64 as int, b as i64 as int) as i64) as u64)
        },
        I64Op::DivU => if b == 0 {
            None
        } else {
            Some(a / b)
        },
        I64Op::RemS => if b == 0 {
            None
        } else {
            Some((arith::remainder(a as i64 as int, b as i64 as int) as i64) as u64)
        },
        I64Op::RemU => if b == 0 {
            None
        } else {
            Some(a % b)
        },
        I64Op::And => Some(a & b),
        I64Op::Or => Some(a | b),
        I64Op::Xor => Some(a ^ b),
        I64Op::Shl => Some(a << (b & 0x3f)),
        I64Op::ShrS => Some(((a as i64) >> (b & 0x3f)) as u64),
        I64Op::ShrU => Some(a >> (b & 0x3f)),
    }
}

/// Whether a test of two numbers of 64 bits holds.
pub open spec fn i64_holds(test: I64Test, a: u64, b: u64) -> bool {
    match test {
        I64Test::Eqz => b == 0,
        I64Test::Eq => a == b,
        I64Test::Ne => a != b,
        I64Test::LtS => (a as i64) < (b as i64),
        I64Test::LtU => a < b,
        I64Test::GeS => (a as i64) >= (b as i64),
        I64Test::GeU => a >= b,
    }
}

/// What an operation on two numbers of 32 bits gives; `None` where it is not allowed.
pub open spec fn i32_result(op: I32Op, a: u32, b: u32) -> Option<u32> {
    match op {
        I32Op::Add => Some(a.wrapping_add(b)),
        I32Op::Mul => Some(a.wrapping_mul(b)),
        I32Op::DivS => if b == 0 || (a as i32 == i32::MIN && b as i32 == -1) {
            None
        } else {
            Some((arith::quotient(a as i32 as int, b as i32 as int) as i32) as u32)
        },
        I32Op::DivU => if b == 0 {
            None
        } else {
            Some(a / b)
        },
        I32Op::RemS => if b == 0 {
            None
        } else {
            Some((arith::remainder(a as i32 as int, b as i32 as int) as i32) as u32)
        },
        I32Op::RemU => if b == 0 {
            None
        } else {
            Some(a % b)
        },
        I32Op::And => Some(a & b),
        I32Op::Shl => Some(a << (b & 0x1f)),
        I32Op::ShrS => Some(((a as i32) >> (b & 0x1f)) as u32),
        I32Op::ShrU => Some(a >> (b & 0x1f)),
        I32Op::Eqz => Some(
            if b == 0 {
                1
            } else {
                0
            },
        ),
        I32Op::Eq => Some(
            if a == b {
                1
            } else {
                0
            },
        ),
    }
}

/// Whether an access of `n` bytes lies in memory.
pub open spec fn inside(m: Machine, at: int, n: int) -> bool {
    0 <= at && at + n <= m.mem.len()
}

/// How many bytes an access touches.
pub open spec fn access_size(access: Access) -> int {
    match access {
        Access::I64Load => 8,
        Access::I64Store => 8,
        Access::I32Load => 4,
        Access::I32Load8U => 1,
        Access::I32Store => 4,
    }
}

/// An access to memory. A load replaces the address by what is there; a store takes the
/// value and the address below it.
pub open spec fn access(m: Machine, access: Access, arg: MemArg) -> Machine {
    let n = access_size(access);
    match access {
        Access::I64Store | Access::I32Store => {
            let at = below(m) + arg.offset;
            let value = if n == 4 {
                top(m) as u32 as u64
            } else {
                top(m)
            };
            if inside(m, at, n) {
                Machine {
                    mem: bytes::splice(m.mem, at, bytes::le_bytes(value as nat, n as nat)),
                    ..pop(pop(m))
                }
            } else {
                trap(m)
            }
        },
        _ => {
            let at = top(m) + arg.offset;
            if inside(m, at, n) {
                replace_top(m, bytes::number_at(m.mem, at, n))
            } else {
                trap(m)
            }
        },
    }
}

/// What an instruction other than those of control does.
pub open spec fn step(m: Machine, instruction: Instruction) -> Machine {
    match instruction {
        Instruction::I32Const(v) => pushed(m, v as u32 as u64),
        Instruction::I64Const(v) => pushed(m, v as u64),
        Instruction::LocalGet(i) => pushed(m, m.locals[i]),
        Instruction::LocalSet(i) => Machine { locals: m.locals.insert(i, top(m)), ..pop(m) },
        Instruction::LocalTee(i) => Machine { locals: m.locals.insert(i, top(m)), ..m },
        Instruction::I64(op) => match i64_result(op, below(m), top(m)) {
            Some(v) => replace_two(m, v),
            None => trap(m),
        },
        Instruction::Test(test) => {
            let v = alu::flag(i64_holds(test, below(m), top(m)));
            if test == I64Test::Eqz {
                replace_top(m, v)
            } else {
                replace_two(m, v)
            }
        },
        Instruction::I32(op) => match i32_result(op, below(m) as u32, top(m) as u32) {
            Some(v) => if op == I32Op::Eqz {
                replace_top(m, v as u64)
            } else {
                replace_two(m, v as u64)
            },
            None => trap(m),
        },
        Instruction::Convert(Convert::I32WrapI64) => replace_top(m, top(m) as u32 as u64),
        Instruction::Convert(Convert::I64ExtendI32S) => replace_top(
            m,
            (top(m) as u32) as i32 as i64 as u64,
        ),
        Instruction::Convert(Convert::I64ExtendI32U) => replace_top(m, top(m) as u32 as u64),
        Instruction::Memory(kind, arg) => access(m, kind, arg),
        Instruction::Drop => pop(m),
        _ => m,
    }
}

/// Whether an instruction neither opens or closes a block nor leaves one.
pub open spec fn is_plain(instruction: Instruction) -> bool {
    match instruction {
        Instruction::Block(_)
        | Instruction::If(_)
        | Instruction::Else
        | Instruction::End
        | Instruction::Br(_)
        | Instruction::BrIf(_)
        | Instruction::Call(_)
        | Instruction::Return => false,
        _ => true,
    }
}

/// What follows the block that the code starts inside of: the code after its `End`, or
/// after its `Else` where `to_else` says so and there is one.
pub open spec fn after_block(code: Code, depth: nat, to_else: bool) -> Code
    decreases code.len(),
{
    if code.len() == 0 {
        code
    } else {
        let rest = code.skip(1);
        match code[0] {
            Instruction::If(_) | Instruction::Block(_) => after_block(rest, depth + 1, to_else),
            Instruction::Else => if depth == 0 && to_else {
                rest
            } else {
                after_block(rest, depth, to_else)
            },
            Instruction::End => if depth == 0 {
                rest
            } else {
                after_block(rest, (depth - 1) as nat, to_else)
            },
            _ => after_block(rest, depth, to_else),
        }
    }
}

/// What follows is never longer.
pub proof fn lemma_after_block_len(code: Code, depth: nat, to_else: bool)
    ensures
        after_block(code, depth, to_else).len() <= code.len(),
    decreases code.len(),
{
    if code.len() > 0 {
        let rest = code.skip(1);
        lemma_after_block_len(rest, depth + 1, to_else);
        lemma_after_block_len(rest, depth, to_else);
        if depth > 0 {
            lemma_after_block_len(rest, (depth - 1) as nat, to_else);
        }
    }
}

/// The machine after it ran code without jumps inside of it, up to the end of the code or to
/// where it stopped.
pub open spec fn run(code: Code, m: Machine) -> Machine
    decreases code.len(),
    via run_ends
{
    if code.len() == 0 || m.ended is Some {
        m
    } else {
        let rest = code.skip(1);
        match code[0] {
            Instruction::If(_) => if top(m) as u32 != 0 {
                run(rest, pop(m))
            } else {
                run(after_block(rest, 0, true), pop(m))
            },
            Instruction::Else => run(after_block(rest, 0, false), m),
            Instruction::End => run(rest, m),
            Instruction::Return => Machine { ended: Some(Ended::Returned(top(m))), ..m },
            Instruction::Call(index) => run(rest, call(m, index)),
            _ => run(rest, step(m, code[0])),
        }
    }
}

#[via_fn]
proof fn run_ends(code: Code, m: Machine) {
    lemma_after_block_len(code.skip(1), 0, true);
    lemma_after_block_len(code.skip(1), 0, false);
}

// Plain code.

/// Whether code has plain instructions only.
pub open spec fn all_plain(code: Code) -> bool {
    forall|i: int| 0 <= i < code.len() ==> is_plain(#[trigger] code[i])
}

/// The machine after plain code.
pub open spec fn exec(code: Code, m: Machine) -> Machine
    decreases code.len(),
{
    if code.len() == 0 || m.ended is Some {
        m
    } else {
        exec(code.skip(1), step(m, code[0]))
    }
}

/// Plain code runs through to what follows it.
proof fn lemma_plain(code: Code, rest: Code, m: Machine)
    requires
        all_plain(code),
    ensures
        run(code + rest, m) == run(rest, exec(code, m)),
    decreases code.len(),
{
    if code.len() == 0 {
        assert(code + rest =~= rest);
    } else if m.ended is Some {
    } else {
        assert((code + rest).skip(1) =~= code.skip(1) + rest);
        assert((code + rest)[0] == code[0]);
        assert(is_plain(code[0]));
        lemma_plain(code.skip(1), rest, step(m, code[0]));
    }
}

/// Plain code in two parts.
proof fn lemma_exec_concat(a: Code, b: Code, m: Machine)
    ensures
        exec(a + b, m) == exec(b, exec(a, m)),
    decreases a.len(),
{
    if a.len() == 0 {
        assert(a + b =~= b);
    } else if m.ended is Some {
    } else {
        assert((a + b).skip(1) =~= a.skip(1) + b);
        assert((a + b)[0] == a[0]);
        lemma_exec_concat(a.skip(1), b, step(m, a[0]));
    }
}

// Registers.

/// The machine is running, and its memory holds the state of a hart.
pub open spec fn ready(m: Machine) -> bool {
    m.ended is None && holds_state(m.mem)
}

/// Register `r` of the hart.
pub open spec fn reg(m: Machine, r: u8) -> u64 {
    if r == 0 {
        0
    } else {
        register_at(m.mem, r as int)
    }
}

proof fn lemma_load_reg(r: u8, m: Machine)
    requires
        ready(m),
        r < 32,
    ensures
        all_plain(load_reg(r)),
        exec(load_reg(r), m) == pushed(m, reg(m, r)),
{
    reveal_with_fuel(exec, 3);
    let code = load_reg(r);
    if r == 0 {
        assert(code.skip(1).len() == 0);
    } else {
        let one = step(m, code[0]);
        assert(one.stack.drop_last() =~= m.stack);
        assert(code.skip(1)[0] == code[1]);
        assert(code.skip(1).skip(1).len() == 0);
        let two = step(one, code[1]);
        assert(exec(code, m) == two);
        assert(two.stack =~= pushed(m, reg(m, r)).stack);
    }
}

/// The machine after `v` went to register `rd`.
pub open spec fn with_register(m: Machine, rd: u8, v: u64) -> Machine {
    if rd == 0 {
        m
    } else {
        Machine {
            mem: bytes::splice(
                m.mem,
                state_place(0) + rd * 8,
                bytes::le_bytes(v as nat, 8),
            ),
            ..m
        }
    }
}

/// A register holds what went to it, the others hold what they held, and the rest of the
/// memory is the same.
pub proof fn lemma_with_register(m: Machine, rd: u8, v: u64)
    requires
        ready(m),
        rd < 32,
    ensures
        ready(with_register(m, rd, v)),
        rd != 0 ==> reg(with_register(m, rd, v), rd) == v,
        forall|i: u8|
            i < 32 && i != rd ==> #[trigger] reg(with_register(m, rd, v), i) == reg(m, i),
        bytes::same_but(with_register(m, rd, v).mem, m.mem, state_place(0) + rd * 8, 8),
{
    if rd != 0 {
        let at = state_place(0) + rd * 8;
        bytes::lemma_pow256_values();
        bytes::lemma_number_written(m.mem, at, 8, v);
        let after = with_register(m, rd, v);
        assert forall|i: u8| i < 32 && i != rd implies #[trigger] reg(after, i) == reg(m, i) by {
            if i != 0 {
                bytes::lemma_number_agrees(after.mem, m.mem, state_place(0) + i * 8, 8);
            }
        }
    }
}

/// The machine after a value on top of its stack went to a register through a local.
pub open spec fn stored(m: Machine, rd: u8, v: u64) -> Machine {
    with_register(Machine { locals: m.locals.insert(VALUE_LOCAL, v), ..m }, rd, v)
}

proof fn lemma_store_reg(rd: u8, m: Machine, v: u64)
    requires
        ready(m),
        0 < rd < 32,
    ensures
        all_plain(store_reg(rd)),
        exec(store_reg(rd), pushed(m, v)) == stored(m, rd, v),
{
    reveal_with_fuel(exec, 5);
    let code = store_reg(rd);
    let m0 = pushed(m, v);
    let m1 = step(m0, code[0]);
    assert(m1.stack =~= m.stack);
    let m2 = step(m1, code[1]);
    let m3 = step(m2, code[2]);
    let m4 = step(m3, code[3]);
    assert(code.skip(1)[0] == code[1]);
    assert(code.skip(1).skip(1)[0] == code[2]);
    assert(code.skip(1).skip(1).skip(1)[0] == code[3]);
    assert(code.skip(1).skip(1).skip(1).skip(1).len() == 0);
    assert(m3.stack =~= m.stack.push(0).push(v));
    assert(m4.stack =~= m.stack);
    assert(m4.ended is None);
    assert(exec(code, m0) == m4);
}

// Values.

/// That running `code` pushes `v`, whatever follows, and changes nothing else.
pub open spec fn pushes(code: Code, m: Machine, v: u64, rest: Code) -> bool {
    run(code + rest, m) == run(rest, pushed(m, v))
}

proof fn lemma_with_imm(rs1: u8, imm: i64, tail: Code, m: Machine)
    requires
        ready(m),
        rs1 < 32,
        all_plain(tail),
    ensures
        all_plain(with_imm(rs1, imm, tail)),
        exec(with_imm(rs1, imm, tail), m) == exec(tail, pushed(pushed(m, reg(m, rs1)), imm as u64)),
{
    reveal(with_imm);
    reveal_with_fuel(exec, 2);
    lemma_load_reg(rs1, m);
    let one = const64(imm);
    let m1 = pushed(m, reg(m, rs1));
    lemma_exec_concat(load_reg(rs1), one + tail, m);
    lemma_exec_concat(one, tail, m1);
    assert(one.skip(1).len() == 0);
    assert(exec(one, m1) == pushed(m1, imm as u64));
    assert(with_imm(rs1, imm, tail) == load_reg(rs1) + (one + tail));
}

proof fn lemma_with_reg(rs1: u8, rs2: u8, tail: Code, m: Machine)
    requires
        ready(m),
        rs1 < 32,
        rs2 < 32,
        all_plain(tail),
    ensures
        all_plain(with_reg(rs1, rs2, tail)),
        exec(with_reg(rs1, rs2, tail), m) == exec(
            tail,
            pushed(pushed(m, reg(m, rs1)), reg(m, rs2)),
        ),
{
    reveal(with_reg);
    lemma_load_reg(rs1, m);
    let m1 = pushed(m, reg(m, rs1));
    lemma_load_reg(rs2, m1);
    lemma_exec_concat(load_reg(rs1), load_reg(rs2) + tail, m);
    lemma_exec_concat(load_reg(rs2), tail, m1);
}

proof fn lemma_wrap(m: Machine, v: u64)
    requires
        m.ended is None,
    ensures
        all_plain(codegen::wrap()),
        exec(codegen::wrap(), pushed(m, v)) == pushed(m, v as u32 as u64),
{
    reveal_with_fuel(exec, 2);
    let code = codegen::wrap();
    assert(code.skip(1).len() == 0);
    assert(step(pushed(m, v), code[0]).stack =~= m.stack.push(v as u32 as u64));
}

proof fn lemma_with_words(rs1: u8, rs2: u8, tail: Code, m: Machine)
    requires
        ready(m),
        rs1 < 32,
        rs2 < 32,
        all_plain(tail),
    ensures
        all_plain(with_words(rs1, rs2, tail)),
        exec(with_words(rs1, rs2, tail), m) == exec(
            tail,
            pushed(pushed(m, reg(m, rs1) as u32 as u64), reg(m, rs2) as u32 as u64),
        ),
{
    reveal(with_words);
    let wrap = codegen::wrap();
    lemma_load_reg(rs1, m);
    lemma_wrap(m, reg(m, rs1));
    let m1 = pushed(m, reg(m, rs1) as u32 as u64);
    lemma_load_reg(rs2, m1);
    lemma_wrap(m1, reg(m, rs2));
    lemma_exec_concat(load_reg(rs1), wrap + (load_reg(rs2) + (wrap + tail)), m);
    lemma_exec_concat(wrap, load_reg(rs2) + (wrap + tail), pushed(m, reg(m, rs1)));
    lemma_exec_concat(load_reg(rs2), wrap + tail, m1);
    lemma_exec_concat(wrap, tail, pushed(m1, reg(m, rs2)));
    assert(with_words(rs1, rs2, tail) == load_reg(rs1) + (wrap + (load_reg(rs2) + (wrap + tail))));
}

/// One operation on the two topmost values.
proof fn lemma_arith(op: I64Op, m: Machine, a: u64, b: u64)
    requires
        m.ended is None,
        i64_result(op, a, b) is Some,
    ensures
        all_plain(arith_code(op)),
        exec(arith_code(op), pushed(pushed(m, a), b)) == pushed(m, i64_result(op, a, b)->0),
{
    reveal_with_fuel(exec, 2);
    let code = arith_code(op);
    let m2 = pushed(pushed(m, a), b);
    assert(code.skip(1).len() == 0);
    assert(m2.stack.drop_last() =~= pushed(m, a).stack);
    assert(step(m2, code[0]).stack =~= m.stack.push(i64_result(op, a, b)->0));
}

/// One operation on the two topmost words.
proof fn lemma_word(op: I32Op, m: Machine, a: u32, b: u32)
    requires
        m.ended is None,
        op != I32Op::Eqz,
        i32_result(op, a, b) is Some,
    ensures
        step(pushed(pushed(m, a as u64), b as u64), Instruction::I32(op)) == pushed(
            m,
            i32_result(op, a, b)->0 as u64,
        ),
{
    let m2 = pushed(pushed(m, a as u64), b as u64);
    assert(m2.stack.drop_last() =~= pushed(m, a as u64).stack);
    assert(step(m2, Instruction::I32(op)).stack =~= m.stack.push(i32_result(op, a, b)->0 as u64));
}

/// The conversion of a word to 64 bits.
proof fn lemma_extend(m: Machine, a: u32)
    requires
        m.ended is None,
    ensures
        step(pushed(m, a as u64), Instruction::Convert(Convert::I64ExtendI32S)) == pushed(
            m,
            a as i32 as i64 as u64,
        ),
        step(pushed(m, a as u64), Instruction::Convert(Convert::I64ExtendI32U)) == pushed(m, a as u64),
{
    assert(step(
        pushed(m, a as u64),
        Instruction::Convert(Convert::I64ExtendI32S),
    ).stack =~= m.stack.push(a as i32 as i64 as u64));
    assert(step(
        pushed(m, a as u64),
        Instruction::Convert(Convert::I64ExtendI32U),
    ).stack =~= m.stack.push(a as u64));
}

proof fn lemma_arith_word(op: I32Op, m: Machine, a: u32, b: u32)
    requires
        m.ended is None,
        op != I32Op::Eqz,
        i32_result(op, a, b) is Some,
    ensures
        all_plain(arith_word(op)),
        exec(arith_word(op), pushed(pushed(m, a as u64), b as u64)) == pushed(
            m,
            i32_result(op, a, b)->0 as i32 as i64 as u64,
        ),
{
    reveal_with_fuel(exec, 3);
    let code = arith_word(op);
    lemma_word(op, m, a, b);
    lemma_extend(m, i32_result(op, a, b)->0);
    assert(code.skip(1)[0] == code[1]);
    assert(code.skip(1).skip(1).len() == 0);
}

proof fn lemma_arith_cut(op: I64Op, m: Machine, a: u64, b: u64)
    requires
        m.ended is None,
        i64_result(op, a, b) is Some,
    ensures
        all_plain(arith_cut(op)),
        exec(arith_cut(op), pushed(pushed(m, a), b)) == pushed(
            m,
            (i64_result(op, a, b)->0 as u32) as i32 as i64 as u64,
        ),
{
    reveal_with_fuel(exec, 4);
    let code = arith_cut(op);
    let v = i64_result(op, a, b)->0;
    let m2 = pushed(pushed(m, a), b);
    lemma_arith(op, m, a, b);
    assert(arith_code(op).skip(1).len() == 0);
    assert(step(m2, code[0]) == pushed(m, v));
    let m3 = step(pushed(m, v), code[1]);
    assert(m3.stack =~= m.stack.push(v as u32 as u64));
    lemma_extend(m, v as u32);
    assert(code.skip(1)[0] == code[1]);
    assert(code.skip(1).skip(1)[0] == code[2]);
    assert(code.skip(1).skip(1).skip(1).len() == 0);
}

proof fn lemma_test_value(test: I64Test, m: Machine, a: u64, b: u64)
    requires
        m.ended is None,
        test != I64Test::Eqz,
    ensures
        all_plain(test_value(test)),
        exec(test_value(test), pushed(pushed(m, a), b)) == pushed(m, alu::flag(i64_holds(test, a, b))),
{
    reveal_with_fuel(exec, 3);
    let code = test_value(test);
    let v = alu::flag(i64_holds(test, a, b));
    let m2 = pushed(pushed(m, a), b);
    assert(m2.stack.drop_last() =~= pushed(m, a).stack);
    let m3 = step(m2, code[0]);
    assert(m3.stack =~= m.stack.push(v));
    assert(m3 == pushed(m, v));
    lemma_extend(m, v as u32);
    assert(code.skip(1)[0] == code[1]);
    assert(code.skip(1).skip(1).len() == 0);
}

proof fn lemma_shift(op: I64Op, m: Machine, a: u64, b: u64)
    requires
        m.ended is None,
        op == I64Op::Shl || op == I64Op::ShrU || op == I64Op::ShrS,
    ensures
        all_plain(shift(op)),
        exec(shift(op), pushed(pushed(m, a), b)) == pushed(m, i64_result(op, a, b)->0),
{
    reveal_with_fuel(exec, 4);
    let code = shift(op);
    let m2 = pushed(pushed(m, a), b);
    let m3 = step(m2, code[0]);
    assert(0x3fi64 as u64 == 0x3f);
    assert(m3.stack.drop_last() =~= m2.stack);
    let m4 = step(m3, code[1]);
    assert(m4.stack =~= m.stack.push(a).push(b & 0x3f));
    assert(m4.stack.drop_last() =~= m.stack.push(a));
    let m5 = step(m4, code[2]);
    assert((b & 0x3f) & 0x3f == b & 0x3f) by (bit_vector);
    assert(m5.stack =~= m.stack.push(i64_result(op, a, b)->0));
    assert(code.skip(1)[0] == code[1]);
    assert(code.skip(1).skip(1)[0] == code[2]);
    assert(code.skip(1).skip(1).skip(1).len() == 0);
}

proof fn lemma_shift_word(op: I32Op, m: Machine, a: u32, b: u32)
    requires
        m.ended is None,
        op == I32Op::Shl || op == I32Op::ShrU || op == I32Op::ShrS,
    ensures
        all_plain(shift_word(op)),
        exec(shift_word(op), pushed(pushed(m, a as u64), b as u64)) == pushed(
            m,
            i32_result(op, a, b)->0 as i32 as i64 as u64,
        ),
{
    reveal_with_fuel(exec, 5);
    let code = shift_word(op);
    let m1 = pushed(m, a as u64);
    let m2 = pushed(m1, b as u64);
    assert(0x1fi32 as u32 as u64 == 0x1f);
    let m3 = step(m2, code[0]);
    assert(m3 == pushed(m2, 0x1fu32 as u64));
    lemma_word(I32Op::And, m1, b, 0x1f);
    let m4 = step(m3, code[1]);
    assert(m4 == pushed(m1, (b & 0x1f) as u64));
    lemma_word(op, m, a, b & 0x1f);
    assert((b & 0x1f) & 0x1f == b & 0x1f) by (bit_vector);
    lemma_extend(m, i32_result(op, a, b)->0);
    assert(code.skip(1)[0] == code[1]);
    assert(code.skip(1).skip(1)[0] == code[2]);
    assert(code.skip(1).skip(1).skip(1)[0] == code[3]);
    assert(code.skip(1).skip(1).skip(1).skip(1).len() == 0);
}

/// A word shifted by a constant, from its register's value on.
pub open spec fn word_shift_tail(shamt: u8, op: I32Op) -> Code {
    seq![
        Instruction::Convert(Convert::I32WrapI64),
        Instruction::I32Const(shamt as i32),
        Instruction::I32(op),
        Instruction::Convert(Convert::I64ExtendI32S),
    ]
}

proof fn lemma_word_shift_tail(shamt: u8, op: I32Op, m: Machine, v: u64)
    requires
        m.ended is None,
        op == I32Op::Shl || op == I32Op::ShrU || op == I32Op::ShrS,
    ensures
        all_plain(word_shift_tail(shamt, op)),
        exec(word_shift_tail(shamt, op), pushed(m, v)) == pushed(
            m,
            i32_result(op, v as u32, shamt as u32)->0 as i32 as i64 as u64,
        ),
{
    reveal_with_fuel(exec, 5);
    let tail = word_shift_tail(shamt, op);
    let a = v as u32;
    let m1 = pushed(m, v);
    let m2 = step(m1, tail[0]);
    assert(m2.stack =~= m.stack.push(a as u64));
    assert(shamt as i32 as u32 as u64 == shamt as u32 as u64);
    let m3 = step(m2, tail[1]);
    assert(m3 == pushed(pushed(m, a as u64), shamt as u32 as u64));
    lemma_word(op, m, a, shamt as u32);
    lemma_extend(m, i32_result(op, a, shamt as u32)->0);
    assert(tail.skip(1)[0] == tail[1]);
    assert(tail.skip(1).skip(1)[0] == tail[2]);
    assert(tail.skip(1).skip(1).skip(1)[0] == tail[3]);
    assert(tail.skip(1).skip(1).skip(1).skip(1).len() == 0);
}

proof fn lemma_word_shift(rs1: u8, shamt: u8, op: I32Op, m: Machine)
    requires
        ready(m),
        rs1 < 32,
        op == I32Op::Shl || op == I32Op::ShrU || op == I32Op::ShrS,
    ensures
        all_plain(word_shift(rs1, shamt, op)),
        exec(word_shift(rs1, shamt, op), m) == pushed(
            m,
            i32_result(op, reg(m, rs1) as u32, shamt as u32)->0 as i32 as i64 as u64,
        ),
{
    reveal(word_shift);
    lemma_load_reg(rs1, m);
    lemma_exec_concat(load_reg(rs1), word_shift_tail(shamt, op), m);
    lemma_word_shift_tail(shamt, op, m, reg(m, rs1));
    assert(word_shift(rs1, shamt, op) == load_reg(rs1) + word_shift_tail(shamt, op));
}

// Choices.

/// Plain code is passed over.
proof fn lemma_skip_plain(code: Code, tail: Code, depth: nat, to_else: bool)
    requires
        all_plain(code),
    ensures
        after_block(code + tail, depth, to_else) == after_block(tail, depth, to_else),
    decreases code.len(),
{
    if code.len() == 0 {
        assert(code + tail =~= tail);
    } else {
        assert((code + tail).skip(1) =~= code.skip(1) + tail);
        assert((code + tail)[0] == code[0]);
        assert(is_plain(code[0]));
        lemma_skip_plain(code.skip(1), tail, depth, to_else);
    }
}

/// The first instruction decides.
proof fn lemma_skip_one(instruction: Instruction, tail: Code)
    ensures
        (seq![instruction] + tail).skip(1) == tail,
        (seq![instruction] + tail)[0] == instruction,
        (seq![instruction] + tail).len() == tail.len() + 1,
{
    assert((seq![instruction] + tail).skip(1) =~= tail);
}

/// The parts of a choice, with what follows it.
proof fn lemma_choice_parts(cond: Code, taken: Code, other: Code, rest: Code)
    ensures
        choose_i64(cond, taken, other) + rest == cond + (seq![
            Instruction::If(BlockType::Result(ValType::I64)),
        ] + (taken + (seq![Instruction::Else] + (other + (seq![Instruction::End] + rest))))),
{
    reveal(choose_i64);
    assert(choose_i64(cond, taken, other) + rest =~= cond + (seq![
        Instruction::If(BlockType::Result(ValType::I64)),
    ] + (taken + (seq![Instruction::Else] + (other + (seq![Instruction::End] + rest))))));
}

/// A choice between plain pieces of code is passed over.
proof fn lemma_skip_choice(cond: Code, taken: Code, other: Code, rest: Code, depth: nat)
    requires
        all_plain(cond),
        all_plain(taken),
        all_plain(other),
    ensures
        after_block(choose_i64(cond, taken, other) + rest, depth, false) == after_block(
            rest,
            depth,
            false,
        ),
{
    lemma_choice_parts(cond, taken, other, rest);
    let end = seq![Instruction::End] + rest;
    let middle = seq![Instruction::Else] + (other + end);
    let opened = seq![Instruction::If(BlockType::Result(ValType::I64))] + (taken + middle);
    lemma_skip_plain(cond, opened, depth, false);
    lemma_skip_one(Instruction::If(BlockType::Result(ValType::I64)), taken + middle);
    lemma_skip_plain(taken, middle, depth + 1, false);
    lemma_skip_one(Instruction::Else, other + end);
    lemma_skip_plain(other, end, depth + 1, false);
    lemma_skip_one(Instruction::End, rest);
    assert(after_block(opened, depth, false) == after_block(taken + middle, depth + 1, false));
    assert(after_block(middle, depth + 1, false) == after_block(other + end, depth + 1, false));
    assert(after_block(end, depth + 1, false) == after_block(rest, depth, false));
}

/// A choice pushes the value of the branch that it takes.
proof fn lemma_choice(
    cond: Code,
    taken: Code,
    other: Code,
    m: Machine,
    c: u64,
    v_taken: u64,
    v_other: u64,
    rest: Code,
)
    requires
        m.ended is None,
        all_plain(cond),
        all_plain(taken),
        c < 2,
        exec(cond, m) == pushed(m, c),
        exec(taken, m) == pushed(m, v_taken),
        after_block(other + (seq![Instruction::End] + rest), 0, false) == rest,
        c == 0 ==> pushes(other, m, v_other, seq![Instruction::End] + rest),
    ensures
        pushes(
            choose_i64(cond, taken, other),
            m,
            if c != 0 {
                v_taken
            } else {
                v_other
            },
            rest,
        ),
{
    lemma_choice_parts(cond, taken, other, rest);
    let end = seq![Instruction::End] + rest;
    let middle = seq![Instruction::Else] + (other + end);
    let opened = seq![Instruction::If(BlockType::Result(ValType::I64))] + (taken + middle);
    lemma_plain(cond, opened, m);
    lemma_skip_one(Instruction::If(BlockType::Result(ValType::I64)), taken + middle);
    lemma_skip_one(Instruction::Else, other + end);
    lemma_skip_one(Instruction::End, rest);
    assert(pop(pushed(m, c)).stack =~= m.stack);
    assert(pop(pushed(m, c)) == m);
    assert(c < 2 ==> (c as u32 != 0) == (c != 0)) by (bit_vector);
    if c != 0 {
        assert(run(opened, pushed(m, c)) == run(taken + middle, m));
        lemma_plain(taken, middle, m);
        assert(run(middle, pushed(m, v_taken)) == run(rest, pushed(m, v_taken)));
    } else {
        lemma_skip_plain(taken, middle, 0, true);
        assert(after_block(middle, 0, true) == other + end);
        assert(run(opened, pushed(m, c)) == run(other + end, m));
        assert(run(end, pushed(m, v_other)) == run(rest, pushed(m, v_other)));
    }
}

/// A choice whose branches are both plain.
proof fn lemma_plain_choice(
    cond: Code,
    taken: Code,
    other: Code,
    m: Machine,
    c: u64,
    v_taken: u64,
    v_other: u64,
    rest: Code,
)
    requires
        m.ended is None,
        all_plain(cond),
        all_plain(taken),
        all_plain(other),
        c < 2,
        exec(cond, m) == pushed(m, c),
        exec(taken, m) == pushed(m, v_taken),
        c == 0 ==> exec(other, m) == pushed(m, v_other),
    ensures
        pushes(
            choose_i64(cond, taken, other),
            m,
            if c != 0 {
                v_taken
            } else {
                v_other
            },
            rest,
        ),
{
    let end = seq![Instruction::End] + rest;
    lemma_skip_plain(other, end, 0, false);
    lemma_skip_one(Instruction::End, rest);
    lemma_plain(other, end, m);
    lemma_choice(cond, taken, other, m, c, v_taken, v_other, rest);
}

/// A choice in the second branch of another.
proof fn lemma_nested_choice(
    cond: Code,
    taken: Code,
    cond2: Code,
    taken2: Code,
    other2: Code,
    m: Machine,
    c: u64,
    c2: u64,
    v_taken: u64,
    v_taken2: u64,
    v_other: u64,
    rest: Code,
)
    requires
        m.ended is None,
        all_plain(cond),
        all_plain(taken),
        all_plain(cond2),
        all_plain(taken2),
        all_plain(other2),
        c < 2,
        c2 < 2,
        exec(cond, m) == pushed(m, c),
        exec(taken, m) == pushed(m, v_taken),
        exec(cond2, m) == pushed(m, c2),
        exec(taken2, m) == pushed(m, v_taken2),
        c == 0 && c2 == 0 ==> exec(other2, m) == pushed(m, v_other),
    ensures
        pushes(
            choose_i64(cond, taken, choose_i64(cond2, taken2, other2)),
            m,
            if c != 0 {
                v_taken
            } else if c2 != 0 {
                v_taken2
            } else {
                v_other
            },
            rest,
        ),
{
    let inner = choose_i64(cond2, taken2, other2);
    let end = seq![Instruction::End] + rest;
    lemma_skip_choice(cond2, taken2, other2, end, 0);
    lemma_skip_one(Instruction::End, rest);
    let v = if c2 != 0 {
        v_taken2
    } else {
        v_other
    };
    if c == 0 {
        lemma_plain_choice(cond2, taken2, other2, m, c2, v_taken2, v_other, end);
    }
    lemma_choice(cond, taken, inner, m, c, v_taken, v, rest);
}

// Conditions.

proof fn lemma_const64(v: i64, m: Machine)
    requires
        m.ended is None,
    ensures
        all_plain(const64(v)),
        exec(const64(v), m) == pushed(m, v as u64),
{
    reveal_with_fuel(exec, 2);
    assert(const64(v).skip(1).len() == 0);
}

proof fn lemma_is_zero(r: u8, m: Machine)
    requires
        ready(m),
        r < 32,
    ensures
        all_plain(is_zero(r)),
        exec(is_zero(r), m) == pushed(m, alu::flag(reg(m, r) == 0)),
{
    reveal_with_fuel(exec, 2);
    let test = seq![Instruction::Test(I64Test::Eqz)];
    lemma_load_reg(r, m);
    lemma_exec_concat(load_reg(r), test, m);
    let m1 = pushed(m, reg(m, r));
    assert(test.skip(1).len() == 0);
    assert(step(m1, test[0]).stack =~= m.stack.push(alu::flag(reg(m, r) == 0)));
}

proof fn lemma_is_zero_word(r: u8, m: Machine)
    requires
        ready(m),
        r < 32,
    ensures
        all_plain(is_zero_word(r)),
        exec(is_zero_word(r), m) == pushed(m, alu::flag(reg(m, r) as u32 == 0)),
{
    reveal_with_fuel(exec, 3);
    let test = seq![
        Instruction::Convert(Convert::I32WrapI64),
        Instruction::I32(I32Op::Eqz),
    ];
    lemma_load_reg(r, m);
    lemma_exec_concat(load_reg(r), test, m);
    let m1 = pushed(m, reg(m, r));
    let m2 = step(m1, test[0]);
    assert(m2.stack =~= m.stack.push(reg(m, r) as u32 as u64));
    let m3 = step(m2, test[1]);
    assert(m3.stack =~= m.stack.push(alu::flag(reg(m, r) as u32 == 0)));
    assert(test.skip(1)[0] == test[1]);
    assert(test.skip(1).skip(1).len() == 0);
}

proof fn lemma_equals(v: i64, m: Machine, a: u64)
    requires
        m.ended is None,
    ensures
        all_plain(equals(v)),
        exec(equals(v), pushed(m, a)) == pushed(m, alu::flag(a == v as u64)),
{
    reveal_with_fuel(exec, 3);
    let code = equals(v);
    let m1 = pushed(pushed(m, a), v as u64);
    assert(step(pushed(m, a), code[0]) == m1);
    assert(m1.stack.drop_last() =~= m.stack.push(a));
    assert(step(m1, code[1]).stack =~= m.stack.push(alu::flag(a == v as u64)));
    assert(code.skip(1)[0] == code[1]);
    assert(code.skip(1).skip(1).len() == 0);
}

proof fn lemma_equals_word(v: i32, m: Machine, a: u64)
    requires
        m.ended is None,
    ensures
        all_plain(equals_word(v)),
        exec(equals_word(v), pushed(m, a)) == pushed(m, alu::flag(a as u32 == v as u32)),
{
    reveal_with_fuel(exec, 4);
    let code = equals_word(v);
    let m1 = step(pushed(m, a), code[0]);
    assert(m1.stack =~= m.stack.push(a as u32 as u64));
    let m2 = step(m1, code[1]);
    assert(m2 == pushed(pushed(m, a as u32 as u64), v as u32 as u64));
    lemma_word(I32Op::Eq, m, a as u32, v as u32);
    assert(code.skip(1)[0] == code[1]);
    assert(code.skip(1).skip(1)[0] == code[2]);
    assert(code.skip(1).skip(1).skip(1).len() == 0);
}

/// Both of two truth values.
proof fn lemma_both(m: Machine, a: bool, b: bool)
    requires
        m.ended is None,
    ensures
        step(
            pushed(pushed(m, alu::flag(a)), alu::flag(b)),
            Instruction::I32(I32Op::And),
        ) == pushed(m, alu::flag(a && b)),
{
    let x = alu::flag(a) as u32;
    let y = alu::flag(b) as u32;
    lemma_word(I32Op::And, m, x, y);
    assert(0u32 & 0u32 == 0 && 0u32 & 1u32 == 0 && 1u32 & 0u32 == 0 && 1u32 & 1u32 == 1)
        by (bit_vector);
}

proof fn lemma_overflows(rs1: u8, rs2: u8, m: Machine)
    requires
        ready(m),
        rs1 < 32,
        rs2 < 32,
    ensures
        all_plain(overflows(rs1, rs2)),
        exec(overflows(rs1, rs2), m) == pushed(
            m,
            alu::flag(reg(m, rs1) == i64::MIN as u64 && reg(m, rs2) == ((-1int) as i64) as u64),
        ),
{
    reveal_with_fuel(exec, 2);
    let minus: i64 = (-1int) as i64;
    let both = seq![Instruction::I32(I32Op::And)];
    let a = reg(m, rs1) == i64::MIN as u64;
    let b = reg(m, rs2) == minus as u64;
    lemma_load_reg(rs1, m);
    lemma_equals(i64::MIN, m, reg(m, rs1));
    let m1 = pushed(m, alu::flag(a));
    lemma_load_reg(rs2, m1);
    lemma_equals(minus, m1, reg(m, rs2));
    lemma_exec_concat(
        load_reg(rs1),
        equals(i64::MIN) + (load_reg(rs2) + (equals(minus) + both)),
        m,
    );
    lemma_exec_concat(
        equals(i64::MIN),
        load_reg(rs2) + (equals(minus) + both),
        pushed(m, reg(m, rs1)),
    );
    lemma_exec_concat(load_reg(rs2), equals(minus) + both, m1);
    lemma_exec_concat(equals(minus), both, pushed(m1, reg(m, rs2)));
    lemma_both(m, a, b);
    assert(both.skip(1).len() == 0);
}

proof fn lemma_overflows_word(rs1: u8, rs2: u8, m: Machine)
    requires
        ready(m),
        rs1 < 32,
        rs2 < 32,
    ensures
        all_plain(overflows_word(rs1, rs2)),
        exec(overflows_word(rs1, rs2), m) == pushed(
            m,
            alu::flag(
                reg(m, rs1) as u32 == i32::MIN as u32 && reg(m, rs2) as u32
                    == ((-1int) as i32) as u32,
            ),
        ),
{
    reveal_with_fuel(exec, 2);
    let minus: i32 = (-1int) as i32;
    let both = seq![Instruction::I32(I32Op::And)];
    let a = reg(m, rs1) as u32 == i32::MIN as u32;
    let b = reg(m, rs2) as u32 == minus as u32;
    lemma_load_reg(rs1, m);
    lemma_equals_word(i32::MIN, m, reg(m, rs1));
    let m1 = pushed(m, alu::flag(a));
    lemma_load_reg(rs2, m1);
    lemma_equals_word(minus, m1, reg(m, rs2));
    lemma_exec_concat(
        load_reg(rs1),
        equals_word(i32::MIN) + (load_reg(rs2) + (equals_word(minus) + both)),
        m,
    );
    lemma_exec_concat(
        equals_word(i32::MIN),
        load_reg(rs2) + (equals_word(minus) + both),
        pushed(m, reg(m, rs1)),
    );
    lemma_exec_concat(load_reg(rs2), equals_word(minus) + both, m1);
    lemma_exec_concat(equals_word(minus), both, pushed(m1, reg(m, rs2)));
    lemma_both(m, a, b);
    assert(both.skip(1).len() == 0);
}

proof fn lemma_cut_word(r: u8, m: Machine)
    requires
        ready(m),
        r < 32,
    ensures
        all_plain(cut_word(r)),
        exec(cut_word(r), m) == pushed(m, (reg(m, r) as u32) as i32 as i64 as u64),
{
    reveal_with_fuel(exec, 3);
    let tail = seq![
        Instruction::Convert(Convert::I32WrapI64),
        Instruction::Convert(Convert::I64ExtendI32S),
    ];
    lemma_load_reg(r, m);
    lemma_exec_concat(load_reg(r), tail, m);
    let m1 = pushed(m, reg(m, r));
    let m2 = step(m1, tail[0]);
    assert(m2.stack =~= m.stack.push(reg(m, r) as u32 as u64));
    lemma_extend(m, reg(m, r) as u32);
    assert(tail.skip(1)[0] == tail[1]);
    assert(tail.skip(1).skip(1).len() == 0);
}

// Instructions.

/// Whether an instruction names registers that exist.
pub open spec fn names_registers(op: MicroOp) -> bool {
    match op {
        MicroOp::Addi { rd, rs1, .. }
        | MicroOp::Xori { rd, rs1, .. }
        | MicroOp::Ori { rd, rs1, .. }
        | MicroOp::Andi { rd, rs1, .. }
        | MicroOp::Slti { rd, rs1, .. }
        | MicroOp::Sltiu { rd, rs1, .. }
        | MicroOp::Slli { rd, rs1, .. }
        | MicroOp::Srli { rd, rs1, .. }
        | MicroOp::Srai { rd, rs1, .. }
        | MicroOp::Addiw { rd, rs1, .. }
        | MicroOp::Slliw { rd, rs1, .. }
        | MicroOp::Srliw { rd, rs1, .. }
        | MicroOp::Sraiw { rd, rs1, .. } => rd < 32 && rs1 < 32,
        MicroOp::Add { rd, rs1, rs2 }
        | MicroOp::Sub { rd, rs1, rs2 }
        | MicroOp::Xor { rd, rs1, rs2 }
        | MicroOp::Or { rd, rs1, rs2 }
        | MicroOp::And { rd, rs1, rs2 }
        | MicroOp::Sll { rd, rs1, rs2 }
        | MicroOp::Srl { rd, rs1, rs2 }
        | MicroOp::Sra { rd, rs1, rs2 }
        | MicroOp::Slt { rd, rs1, rs2 }
        | MicroOp::Sltu { rd, rs1, rs2 }
        | MicroOp::Addw { rd, rs1, rs2 }
        | MicroOp::Subw { rd, rs1, rs2 }
        | MicroOp::Sllw { rd, rs1, rs2 }
        | MicroOp::Srlw { rd, rs1, rs2 }
        | MicroOp::Sraw { rd, rs1, rs2 }
        | MicroOp::Mul { rd, rs1, rs2 }
        | MicroOp::Mulw { rd, rs1, rs2 }
        | MicroOp::Div { rd, rs1, rs2 }
        | MicroOp::Divu { rd, rs1, rs2 }
        | MicroOp::Rem { rd, rs1, rs2 }
        | MicroOp::Remu { rd, rs1, rs2 }
        | MicroOp::Divw { rd, rs1, rs2 }
        | MicroOp::Divuw { rd, rs1, rs2 }
        | MicroOp::Remw { rd, rs1, rs2 }
        | MicroOp::Remuw { rd, rs1, rs2 } => rd < 32 && rs1 < 32 && rs2 < 32,
        MicroOp::Lui { rd, .. } => rd < 32,
        MicroOp::Auipc { rd, .. } => rd < 32,
        _ => false,
    }
}

/// The code that leaves the value of an instruction on the stack.
pub open spec fn own_code(op: MicroOp) -> Code {
    value_code(op).unwrap().1
}

/// What the interpreter computes for an instruction without memory access or jump.
pub open spec fn interpreted(op: MicroOp, m: Machine) -> Option<u64> {
    match op {
        MicroOp::Addi { rs1, imm, .. } => alu::imm_result(0, 0, reg(m, rs1), imm),
        MicroOp::Slti { rs1, imm, .. } => alu::imm_result(2, 0, reg(m, rs1), imm),
        MicroOp::Sltiu { rs1, imm, .. } => alu::imm_result(3, 0, reg(m, rs1), imm),
        MicroOp::Xori { rs1, imm, .. } => alu::imm_result(4, 0, reg(m, rs1), imm),
        MicroOp::Ori { rs1, imm, .. } => alu::imm_result(6, 0, reg(m, rs1), imm),
        MicroOp::Andi { rs1, imm, .. } => alu::imm_result(7, 0, reg(m, rs1), imm),
        MicroOp::Slli { rs1, shamt, .. } => alu::imm_result(1, 0, reg(m, rs1), shamt as i64),
        MicroOp::Srli { rs1, shamt, .. } => alu::imm_result(5, 0, reg(m, rs1), shamt as i64),
        MicroOp::Srai { rs1, shamt, .. } => alu::imm_result(5, 0x20, reg(m, rs1), shamt as i64),
        MicroOp::Add { rs1, rs2, .. } => alu::reg_result(0, 0, reg(m, rs1), reg(m, rs2)),
        MicroOp::Sub { rs1, rs2, .. } => alu::reg_result(0, 0x20, reg(m, rs1), reg(m, rs2)),
        MicroOp::Sll { rs1, rs2, .. } => alu::reg_result(1, 0, reg(m, rs1), reg(m, rs2)),
        MicroOp::Slt { rs1, rs2, .. } => alu::reg_result(2, 0, reg(m, rs1), reg(m, rs2)),
        MicroOp::Sltu { rs1, rs2, .. } => alu::reg_result(3, 0, reg(m, rs1), reg(m, rs2)),
        MicroOp::Xor { rs1, rs2, .. } => alu::reg_result(4, 0, reg(m, rs1), reg(m, rs2)),
        MicroOp::Srl { rs1, rs2, .. } => alu::reg_result(5, 0, reg(m, rs1), reg(m, rs2)),
        MicroOp::Sra { rs1, rs2, .. } => alu::reg_result(5, 0x20, reg(m, rs1), reg(m, rs2)),
        MicroOp::Or { rs1, rs2, .. } => alu::reg_result(6, 0, reg(m, rs1), reg(m, rs2)),
        MicroOp::And { rs1, rs2, .. } => alu::reg_result(7, 0, reg(m, rs1), reg(m, rs2)),
        MicroOp::Mul { rs1, rs2, .. } => alu::reg_result(0, 1, reg(m, rs1), reg(m, rs2)),
        MicroOp::Div { rs1, rs2, .. } => alu::reg_result(4, 1, reg(m, rs1), reg(m, rs2)),
        MicroOp::Divu { rs1, rs2, .. } => alu::reg_result(5, 1, reg(m, rs1), reg(m, rs2)),
        MicroOp::Rem { rs1, rs2, .. } => alu::reg_result(6, 1, reg(m, rs1), reg(m, rs2)),
        MicroOp::Remu { rs1, rs2, .. } => alu::reg_result(7, 1, reg(m, rs1), reg(m, rs2)),
        MicroOp::Addiw { rs1, imm, .. } => alu::imm_result_32(0, 0, reg(m, rs1), imm as i64),
        MicroOp::Slliw { rs1, shamt, .. } => alu::imm_result_32(1, 0, reg(m, rs1), shamt as i64),
        MicroOp::Srliw { rs1, shamt, .. } => alu::imm_result_32(5, 0, reg(m, rs1), shamt as i64),
        MicroOp::Sraiw { rs1, shamt, .. } => alu::imm_result_32(
            5,
            0x20,
            reg(m, rs1),
            shamt as i64,
        ),
        MicroOp::Addw { rs1, rs2, .. } => alu::reg_result_32(0, 0, reg(m, rs1), reg(m, rs2)),
        MicroOp::Subw { rs1, rs2, .. } => alu::reg_result_32(0, 0x20, reg(m, rs1), reg(m, rs2)),
        MicroOp::Sllw { rs1, rs2, .. } => alu::reg_result_32(1, 0, reg(m, rs1), reg(m, rs2)),
        MicroOp::Srlw { rs1, rs2, .. } => alu::reg_result_32(5, 0, reg(m, rs1), reg(m, rs2)),
        MicroOp::Sraw { rs1, rs2, .. } => alu::reg_result_32(5, 0x20, reg(m, rs1), reg(m, rs2)),
        MicroOp::Mulw { rs1, rs2, .. } => alu::reg_result_32(0, 1, reg(m, rs1), reg(m, rs2)),
        MicroOp::Divw { rs1, rs2, .. } => alu::reg_result_32(4, 1, reg(m, rs1), reg(m, rs2)),
        MicroOp::Divuw { rs1, rs2, .. } => alu::reg_result_32(5, 1, reg(m, rs1), reg(m, rs2)),
        MicroOp::Remw { rs1, rs2, .. } => alu::reg_result_32(6, 1, reg(m, rs1), reg(m, rs2)),
        MicroOp::Remuw { rs1, rs2, .. } => alu::reg_result_32(7, 1, reg(m, rs1), reg(m, rs2)),
        _ => None,
    }
}

proof fn lemma_casts(a: u64, b: u64, imm: i64, s: u8)
    by (bit_vector)
    ensures
        (a as u32) as i32 == a as i32,
        (a as i64) as u64 == a,
        (imm as u64) as i64 == imm,
        0u8 & 0x20 == 0,
        0x20u8 & 0x20 != 0,
        a << (((s as i64) as u64) & 0x3f) == a << ((s as i64) & 0x3f),
        a >> (((s as i64) as u64) & 0x3f) == a >> ((s as i64) & 0x3f),
        (a as i64) >> (((s as i64) as u64) & 0x3f) == (a as i64) >> ((s as i64) & 0x3f),
        (a as u32) << ((s as u32) & 0x1f) == (a as u32) << ((s as i64) & 0x1f),
        (a as u32) >> ((s as u32) & 0x1f) == (a as u32) >> ((s as i64) & 0x1f),
        ((((a as u32) as i32) >> ((s as u32) & 0x1f)) as u32) as i32 == (a as i32) >> ((s as i64)
            & 0x1f),
        (a as u32) << ((b as u32) & 0x1f) == (a as u32) << (b & 0x1f),
        (a as u32) >> ((b as u32) & 0x1f) == (a as u32) >> (b & 0x1f),
        ((((a as u32) as i32) >> ((b as u32) & 0x1f)) as u32) as i32 == (a as i32) >> (b & 0x1f),
{
}

proof fn lemma_imm_value(op: MicroOp, m: Machine)
    requires
        ready(m),
        names_registers(op),
        op is Addi || op is Slti || op is Sltiu || op is Xori || op is Ori || op is Andi || op is Slli
            || op is Srli || op is Srai || op is Addiw || op is Slliw || op is Srliw || op is Sraiw,
    ensures
        value_code(op) is Some,
        interpreted(op, m) is Some,
        all_plain(own_code(op)),
        exec(own_code(op), m) == pushed(m, interpreted(op, m)->0),
{
    match op {
        MicroOp::Addi { rs1, imm, .. } => {
            lemma_arith(I64Op::Add, m, reg(m, rs1), imm as u64);
            lemma_with_imm(rs1, imm, arith_code(I64Op::Add), m);
        },
        MicroOp::Xori { rs1, imm, .. } => {
            lemma_arith(I64Op::Xor, m, reg(m, rs1), imm as u64);
            lemma_with_imm(rs1, imm, arith_code(I64Op::Xor), m);
        },
        MicroOp::Ori { rs1, imm, .. } => {
            lemma_arith(I64Op::Or, m, reg(m, rs1), imm as u64);
            lemma_with_imm(rs1, imm, arith_code(I64Op::Or), m);
        },
        MicroOp::Andi { rs1, imm, .. } => {
            lemma_arith(I64Op::And, m, reg(m, rs1), imm as u64);
            lemma_with_imm(rs1, imm, arith_code(I64Op::And), m);
        },
        MicroOp::Slti { rs1, imm, .. } => {
            lemma_casts(0, 0, imm, 0);
            lemma_test_value(I64Test::LtS, m, reg(m, rs1), imm as u64);
            lemma_with_imm(rs1, imm, test_value(I64Test::LtS), m);
        },
        MicroOp::Sltiu { rs1, imm, .. } => {
            lemma_test_value(I64Test::LtU, m, reg(m, rs1), imm as u64);
            lemma_with_imm(rs1, imm, test_value(I64Test::LtU), m);
        },
        MicroOp::Slli { rs1, shamt, .. } => {
            lemma_casts(reg(m, rs1), 0, 0, shamt);
            lemma_arith(I64Op::Shl, m, reg(m, rs1), (shamt as i64) as u64);
            lemma_with_imm(rs1, shamt as i64, arith_code(I64Op::Shl), m);
        },
        MicroOp::Srli { rs1, shamt, .. } => {
            lemma_casts(reg(m, rs1), 0, 0, shamt);
            lemma_arith(I64Op::ShrU, m, reg(m, rs1), (shamt as i64) as u64);
            lemma_with_imm(rs1, shamt as i64, arith_code(I64Op::ShrU), m);
        },
        MicroOp::Srai { rs1, shamt, .. } => {
            lemma_casts(reg(m, rs1), 0, 0, shamt);
            lemma_arith(I64Op::ShrS, m, reg(m, rs1), (shamt as i64) as u64);
            lemma_with_imm(rs1, shamt as i64, arith_code(I64Op::ShrS), m);
        },
        MicroOp::Addiw { rs1, imm, .. } => {
            let wide = imm as i64;
            lemma_casts(reg(m, rs1).wrapping_add(wide as u64), 0, 0, 0);
            lemma_arith_cut(I64Op::Add, m, reg(m, rs1), wide as u64);
            lemma_with_imm(rs1, wide, arith_cut(I64Op::Add), m);
        },
        MicroOp::Slliw { rs1, shamt, .. } => {
            lemma_casts(reg(m, rs1), 0, 0, shamt);
            lemma_word_shift(rs1, shamt, I32Op::Shl, m);
        },
        MicroOp::Srliw { rs1, shamt, .. } => {
            lemma_casts(reg(m, rs1), 0, 0, shamt);
            lemma_word_shift(rs1, shamt, I32Op::ShrU, m);
        },
        MicroOp::Sraiw { rs1, shamt, .. } => {
            lemma_casts(reg(m, rs1), 0, 0, shamt);
            lemma_word_shift(rs1, shamt, I32Op::ShrS, m);
        },
        _ => {},
    }
}

proof fn lemma_reg_value(op: MicroOp, m: Machine)
    requires
        ready(m),
        names_registers(op),
        op is Add || op is Sub || op is Xor || op is Or || op is And || op is Sll || op is Srl
            || op is Sra || op is Slt || op is Sltu || op is Mul || op is Addw || op is Subw
            || op is Sllw || op is Srlw || op is Sraw,
    ensures
        value_code(op) is Some,
        interpreted(op, m) is Some,
        all_plain(own_code(op)),
        exec(own_code(op), m) == pushed(m, interpreted(op, m)->0),
{
    match op {
        MicroOp::Add { rs1, rs2, .. } => {
            lemma_arith(I64Op::Add, m, reg(m, rs1), reg(m, rs2));
            lemma_with_reg(rs1, rs2, arith_code(I64Op::Add), m);
        },
        MicroOp::Sub { rs1, rs2, .. } => {
            lemma_arith(I64Op::Sub, m, reg(m, rs1), reg(m, rs2));
            lemma_with_reg(rs1, rs2, arith_code(I64Op::Sub), m);
        },
        MicroOp::Xor { rs1, rs2, .. } => {
            lemma_arith(I64Op::Xor, m, reg(m, rs1), reg(m, rs2));
            lemma_with_reg(rs1, rs2, arith_code(I64Op::Xor), m);
        },
        MicroOp::Or { rs1, rs2, .. } => {
            lemma_arith(I64Op::Or, m, reg(m, rs1), reg(m, rs2));
            lemma_with_reg(rs1, rs2, arith_code(I64Op::Or), m);
        },
        MicroOp::And { rs1, rs2, .. } => {
            lemma_arith(I64Op::And, m, reg(m, rs1), reg(m, rs2));
            lemma_with_reg(rs1, rs2, arith_code(I64Op::And), m);
        },
        MicroOp::Mul { rs1, rs2, .. } => {
            lemma_arith(I64Op::Mul, m, reg(m, rs1), reg(m, rs2));
            lemma_with_reg(rs1, rs2, arith_code(I64Op::Mul), m);
        },
        MicroOp::Sll { rs1, rs2, .. } => {
            lemma_shift(I64Op::Shl, m, reg(m, rs1), reg(m, rs2));
            lemma_with_reg(rs1, rs2, shift(I64Op::Shl), m);
        },
        MicroOp::Srl { rs1, rs2, .. } => {
            lemma_shift(I64Op::ShrU, m, reg(m, rs1), reg(m, rs2));
            lemma_with_reg(rs1, rs2, shift(I64Op::ShrU), m);
        },
        MicroOp::Sra { rs1, rs2, .. } => {
            lemma_shift(I64Op::ShrS, m, reg(m, rs1), reg(m, rs2));
            lemma_with_reg(rs1, rs2, shift(I64Op::ShrS), m);
        },
        MicroOp::Slt { rs1, rs2, .. } => {
            lemma_test_value(I64Test::LtS, m, reg(m, rs1), reg(m, rs2));
            lemma_with_reg(rs1, rs2, test_value(I64Test::LtS), m);
        },
        MicroOp::Sltu { rs1, rs2, .. } => {
            lemma_test_value(I64Test::LtU, m, reg(m, rs1), reg(m, rs2));
            lemma_with_reg(rs1, rs2, test_value(I64Test::LtU), m);
        },
        MicroOp::Addw { rs1, rs2, .. } => {
            lemma_casts(reg(m, rs1).wrapping_add(reg(m, rs2)), 0, 0, 0);
            lemma_arith_cut(I64Op::Add, m, reg(m, rs1), reg(m, rs2));
            lemma_with_reg(rs1, rs2, arith_cut(I64Op::Add), m);
        },
        MicroOp::Subw { rs1, rs2, .. } => {
            lemma_casts(reg(m, rs1).wrapping_sub(reg(m, rs2)), 0, 0, 0);
            lemma_arith_cut(I64Op::Sub, m, reg(m, rs1), reg(m, rs2));
            lemma_with_reg(rs1, rs2, arith_cut(I64Op::Sub), m);
        },
        MicroOp::Sllw { rs1, rs2, .. } => {
            lemma_casts(reg(m, rs1), reg(m, rs2), 0, 0);
            lemma_shift_word(I32Op::Shl, m, reg(m, rs1) as u32, reg(m, rs2) as u32);
            lemma_with_words(rs1, rs2, shift_word(I32Op::Shl), m);
        },
        MicroOp::Srlw { rs1, rs2, .. } => {
            lemma_casts(reg(m, rs1), reg(m, rs2), 0, 0);
            lemma_shift_word(I32Op::ShrU, m, reg(m, rs1) as u32, reg(m, rs2) as u32);
            lemma_with_words(rs1, rs2, shift_word(I32Op::ShrU), m);
        },
        MicroOp::Sraw { rs1, rs2, .. } => {
            lemma_casts(reg(m, rs1), reg(m, rs2), 0, 0);
            lemma_shift_word(I32Op::ShrS, m, reg(m, rs1) as u32, reg(m, rs2) as u32);
            lemma_with_words(rs1, rs2, shift_word(I32Op::ShrS), m);
        },
        _ => {},
    }
}

proof fn lemma_word_product(a: u64, b: u64)
    ensures
        (a as u32).wrapping_mul(b as u32) as i32 == (a as i32).wrapping_mul(b as i32),
{
    let x = a as u32;
    let y = b as u32;
    let p = a as i32;
    let q = b as i32;
    lemma_casts(a, 0, 0, 0);
    lemma_casts(b, 0, 0, 0);
    assert(x as i32 == p && y as i32 == q);
    let wide = (x as u64 * y as u64) as u64;
    assert(0 <= x * y <= 0xffff_ffff * 0xffff_ffff) by (nonlinear_arith)
        requires
            0 <= x <= 0xffff_ffff,
            0 <= y <= 0xffff_ffff,
    ;
    assert(-0x8000_0000 * 0x8000_0000 <= p * q <= 0x8000_0000 * 0x8000_0000) by (nonlinear_arith)
        requires
            -0x8000_0000 <= p <= 0x7fff_ffff,
            -0x8000_0000 <= q <= 0x7fff_ffff,
    ;
    let signed = (p as i64 * q as i64) as i64;
    lemma_signed_word(x, p);
    lemma_signed_word(y, q);
    let k: int = if p < 0 {
        1
    } else {
        0
    };
    let l: int = if q < 0 {
        1
    } else {
        0
    };
    assert(x == p + k * 0x1_0000_0000);
    assert(y == q + l * 0x1_0000_0000);
    let d = k * q + l * p + k * l * 0x1_0000_0000;
    assert(x * y == p * q + 0x1_0000_0000 * d) by (nonlinear_arith)
        requires
            x == p + k * 0x1_0000_0000,
            y == q + l * 0x1_0000_0000,
            d == k * q + l * p + k * l * 0x1_0000_0000,
    ;
    vstd::arithmetic::div_mod::lemma_mod_multiples_vanish(d, p * q, 0x1_0000_0000);
    let low = (x * y) % 0x1_0000_0000;
    assert(low == (p * q) % 0x1_0000_0000);
    assert(x.wrapping_mul(y) == low);
    lemma_signed_word(low as u32, (low as u32) as i32);
}

/// A word and the signed number that it stands for differ by 2^32 where it is negative.
proof fn lemma_signed_word(x: u32, p: i32)
    by (bit_vector)
    requires
        x as i32 == p,
    ensures
        p >= 0 ==> x == p,
        p < 0 ==> x == p + 0x1_0000_0000,
{
}

/// When a number is zero, the least one, or minus one, as a signed number.
proof fn lemma_signed_values(a: u64)
    by (bit_vector)
    ensures
        (a == 0) == (a as i64 == 0),
        (a == i64::MIN as u64) == (a as i64 == i64::MIN),
        (a == (-1i64) as u64) == (a as i64 == -1),
        (a as u32 == 0) == (a as i32 == 0),
        (a as u32 == i32::MIN as u32) == (a as i32 == i32::MIN),
        (a as u32 == (-1i32) as u32) == (a as i32 == -1),
        (-1i64) as u64 == u64::MAX,
        ((-1i32) as i64) as u64 == u64::MAX,
        (u64::MAX as u32) as i32 == -1i32,
        (i32::MIN as i64) as u64 == 0xffff_ffff_8000_0000,
        0i64 as u64 == 0,
        (0i32 as i64) as u64 == 0,
        (a as i64) as u64 == a,
        (a as u32) as i32 == a as i32,
        a as u32 as u64 as u32 == a as u32,
{
}

proof fn lemma_div_value(op: MicroOp, m: Machine, rest: Code)
    requires
        ready(m),
        names_registers(op),
        op is Div || op is Divu || op is Rem || op is Remu,
    ensures
        value_code(op) is Some,
        interpreted(op, m) is Some,
        pushes(own_code(op), m, interpreted(op, m)->0, rest),
{
    let minus: i64 = (-1int) as i64;
    let (rs1, rs2) = match op {
        MicroOp::Div { rs1, rs2, .. } => (rs1, rs2),
        MicroOp::Divu { rs1, rs2, .. } => (rs1, rs2),
        MicroOp::Rem { rs1, rs2, .. } => (rs1, rs2),
        MicroOp::Remu { rs1, rs2, .. } => (rs1, rs2),
        _ => (0u8, 0u8),
    };
    let a = reg(m, rs1);
    let b = reg(m, rs2);
    lemma_signed_values(a);
    lemma_signed_values(b);
    lemma_is_zero(rs2, m);
    lemma_overflows(rs1, rs2, m);
    lemma_const64(minus, m);
    lemma_const64(i64::MIN, m);
    lemma_const64(0, m);
    lemma_load_reg(rs1, m);
    let zero = alu::flag(b == 0);
    let over = alu::flag(a == i64::MIN as u64 && b == minus as u64);
    match op {
        MicroOp::Div { .. } => {
            lemma_divided(I64Op::DivS, rs1, rs2, m);
            lemma_nested_choice(
                is_zero(rs2),
                const64(minus),
                overflows(rs1, rs2),
                const64(i64::MIN),
                with_reg(rs1, rs2, arith_code(I64Op::DivS)),
                m,
                zero,
                over,
                minus as u64,
                i64::MIN as u64,
                i64_result(I64Op::DivS, a, b)->0,
                rest,
            );
        },
        MicroOp::Divu { .. } => {
            lemma_divided(I64Op::DivU, rs1, rs2, m);
            lemma_plain_choice(
                is_zero(rs2),
                const64(minus),
                with_reg(rs1, rs2, arith_code(I64Op::DivU)),
                m,
                zero,
                minus as u64,
                i64_result(I64Op::DivU, a, b)->0,
                rest,
            );
        },
        MicroOp::Rem { .. } => {
            lemma_divided(I64Op::RemS, rs1, rs2, m);
            lemma_nested_choice(
                is_zero(rs2),
                load_reg(rs1),
                overflows(rs1, rs2),
                const64(0),
                with_reg(rs1, rs2, arith_code(I64Op::RemS)),
                m,
                zero,
                over,
                a,
                0,
                i64_result(I64Op::RemS, a, b)->0,
                rest,
            );
        },
        MicroOp::Remu { .. } => {
            lemma_divided(I64Op::RemU, rs1, rs2, m);
            lemma_plain_choice(
                is_zero(rs2),
                load_reg(rs1),
                with_reg(rs1, rs2, arith_code(I64Op::RemU)),
                m,
                zero,
                a,
                i64_result(I64Op::RemU, a, b)->0,
                rest,
            );
        },
        _ => {},
    }
}

/// A division, where it is allowed.
proof fn lemma_divided(op: I64Op, rs1: u8, rs2: u8, m: Machine)
    requires
        ready(m),
        rs1 < 32,
        rs2 < 32,
    ensures
        all_plain(with_reg(rs1, rs2, arith_code(op))),
        i64_result(op, reg(m, rs1), reg(m, rs2)) is Some ==> exec(
            with_reg(rs1, rs2, arith_code(op)),
            m,
        ) == pushed(m, i64_result(op, reg(m, rs1), reg(m, rs2))->0),
{
    assert(all_plain(arith_code(op)));
    lemma_with_reg(rs1, rs2, arith_code(op), m);
    if i64_result(op, reg(m, rs1), reg(m, rs2)) is Some {
        lemma_arith(op, m, reg(m, rs1), reg(m, rs2));
    }
}

/// An operation on words, where it is allowed.
proof fn lemma_divided_word(op: I32Op, rs1: u8, rs2: u8, m: Machine)
    requires
        ready(m),
        rs1 < 32,
        rs2 < 32,
        op != I32Op::Eqz,
    ensures
        all_plain(with_words(rs1, rs2, arith_word(op))),
        i32_result(op, reg(m, rs1) as u32, reg(m, rs2) as u32) is Some ==> exec(
            with_words(rs1, rs2, arith_word(op)),
            m,
        ) == pushed(
            m,
            i32_result(op, reg(m, rs1) as u32, reg(m, rs2) as u32)->0 as i32 as i64 as u64,
        ),
{
    assert(all_plain(arith_word(op)));
    lemma_with_words(rs1, rs2, arith_word(op), m);
    if i32_result(op, reg(m, rs1) as u32, reg(m, rs2) as u32) is Some {
        lemma_arith_word(op, m, reg(m, rs1) as u32, reg(m, rs2) as u32);
    }
}

/// A number that fits a word signed is the same after a trip through the word.
proof fn lemma_word_trip(v: i32)
    by (bit_vector)
    ensures
        (v as u32) as i32 == v,
{
}

proof fn lemma_divw_value(op: MicroOp, m: Machine, rest: Code)
    requires
        ready(m),
        names_registers(op),
        op is Divw || op is Remw,
    ensures
        value_code(op) is Some,
        interpreted(op, m) is Some,
        pushes(own_code(op), m, interpreted(op, m)->0, rest),
{
    let minus: i64 = (-1int) as i64;
    let minus_word: i32 = (-1int) as i32;
    let (rs1, rs2) = match op {
        MicroOp::Divw { rs1, rs2, .. } => (rs1, rs2),
        MicroOp::Remw { rs1, rs2, .. } => (rs1, rs2),
        _ => (0u8, 0u8),
    };
    let a = reg(m, rs1);
    let b = reg(m, rs2);
    lemma_signed_values(a);
    lemma_signed_values(b);
    lemma_is_zero_word(rs2, m);
    lemma_overflows_word(rs1, rs2, m);
    lemma_const64(minus, m);
    lemma_const64(i32::MIN as i64, m);
    lemma_const64(0, m);
    lemma_cut_word(rs1, m);
    let zero = alu::flag(b as u32 == 0);
    let over = alu::flag(a as u32 == i32::MIN as u32 && b as u32 == minus_word as u32);
    match op {
        MicroOp::Divw { .. } => {
            lemma_divided_word(I32Op::DivS, rs1, rs2, m);
            lemma_word_trip(arith::quotient(a as i32 as int, b as i32 as int) as i32);
            lemma_nested_choice(
                is_zero_word(rs2),
                const64(minus),
                overflows_word(rs1, rs2),
                const64(i32::MIN as i64),
                with_words(rs1, rs2, arith_word(I32Op::DivS)),
                m,
                zero,
                over,
                minus as u64,
                i32::MIN as i64 as u64,
                i32_result(I32Op::DivS, a as u32, b as u32)->0 as i32 as i64 as u64,
                rest,
            );
        },
        MicroOp::Remw { .. } => {
            lemma_divided_word(I32Op::RemS, rs1, rs2, m);
            lemma_word_trip(arith::remainder(a as i32 as int, b as i32 as int) as i32);
            lemma_nested_choice(
                is_zero_word(rs2),
                cut_word(rs1),
                overflows_word(rs1, rs2),
                const64(0),
                with_words(rs1, rs2, arith_word(I32Op::RemS)),
                m,
                zero,
                over,
                (a as u32) as i32 as i64 as u64,
                0,
                i32_result(I32Op::RemS, a as u32, b as u32)->0 as i32 as i64 as u64,
                rest,
            );
        },
        _ => {},
    }
}

proof fn lemma_divuw_value(op: MicroOp, m: Machine, rest: Code)
    requires
        ready(m),
        names_registers(op),
        op is Divuw || op is Remuw,
    ensures
        value_code(op) is Some,
        interpreted(op, m) is Some,
        pushes(own_code(op), m, interpreted(op, m)->0, rest),
{
    let minus: i64 = (-1int) as i64;
    let (rs1, rs2) = match op {
        MicroOp::Divuw { rs1, rs2, .. } => (rs1, rs2),
        MicroOp::Remuw { rs1, rs2, .. } => (rs1, rs2),
        _ => (0u8, 0u8),
    };
    let a = reg(m, rs1);
    let b = reg(m, rs2);
    lemma_signed_values(a);
    lemma_signed_values(b);
    lemma_is_zero_word(rs2, m);
    lemma_const64(minus, m);
    lemma_cut_word(rs1, m);
    let zero = alu::flag(b as u32 == 0);
    if b as u32 != 0 {
        let x = a as u32;
        let y = b as u32;
        assert((x as u64) / (y as u64) == x / y);
        assert((x as u64) % (y as u64) == x % y);
    }
    match op {
        MicroOp::Divuw { .. } => {
            lemma_divided_word(I32Op::DivU, rs1, rs2, m);
            lemma_plain_choice(
                is_zero_word(rs2),
                const64(minus),
                with_words(rs1, rs2, arith_word(I32Op::DivU)),
                m,
                zero,
                minus as u64,
                i32_result(I32Op::DivU, a as u32, b as u32)->0 as i32 as i64 as u64,
                rest,
            );
        },
        MicroOp::Remuw { .. } => {
            lemma_divided_word(I32Op::RemU, rs1, rs2, m);
            lemma_plain_choice(
                is_zero_word(rs2),
                cut_word(rs1),
                with_words(rs1, rs2, arith_word(I32Op::RemU)),
                m,
                zero,
                (a as u32) as i32 as i64 as u64,
                i32_result(I32Op::RemU, a as u32, b as u32)->0 as i32 as i64 as u64,
                rest,
            );
        },
        _ => {},
    }
}

/// The code of an instruction without memory access or jump leaves on the stack what the
/// interpreter computes for it.
pub proof fn lemma_value(op: MicroOp, m: Machine, rest: Code)
    requires
        ready(m),
        names_registers(op),
        value_code(op) is Some,
    ensures
        interpreted(op, m) is Some,
        pushes(own_code(op), m, interpreted(op, m)->0, rest),
{
    match op {
        MicroOp::Div { .. } | MicroOp::Divu { .. } | MicroOp::Rem { .. } | MicroOp::Remu { .. } => {
            lemma_div_value(op, m, rest);
        },
        MicroOp::Divw { .. } | MicroOp::Remw { .. } => {
            lemma_divw_value(op, m, rest);
        },
        MicroOp::Divuw { .. } | MicroOp::Remuw { .. } => {
            lemma_divuw_value(op, m, rest);
        },
        MicroOp::Mulw { rs1, rs2, .. } => {
            lemma_word_product(reg(m, rs1), reg(m, rs2));
            lemma_divided_word(I32Op::Mul, rs1, rs2, m);
            lemma_plain(own_code(op), rest, m);
        },
        MicroOp::Addi { .. }
        | MicroOp::Slti { .. }
        | MicroOp::Sltiu { .. }
        | MicroOp::Xori { .. }
        | MicroOp::Ori { .. }
        | MicroOp::Andi { .. }
        | MicroOp::Slli { .. }
        | MicroOp::Srli { .. }
        | MicroOp::Srai { .. }
        | MicroOp::Addiw { .. }
        | MicroOp::Slliw { .. }
        | MicroOp::Srliw { .. }
        | MicroOp::Sraiw { .. } => {
            lemma_imm_value(op, m);
            lemma_plain(own_code(op), rest, m);
        },
        _ => {
            lemma_reg_value(op, m);
            lemma_plain(own_code(op), rest, m);
        },
    }
}

/// Whether an instruction only computes: it accesses no memory and does not jump.
pub open spec fn only_computes(op: MicroOp) -> bool {
    value_code(op) is Some || op is Lui || op is Auipc
}

/// The register that an instruction writes.
pub open spec fn destination(op: MicroOp) -> u8 {
    match op {
        MicroOp::Lui { rd, .. } => rd,
        MicroOp::Auipc { rd, .. } => rd,
        _ => value_code(op).unwrap().0,
    }
}

/// What the interpreter computes for an instruction of a block at `base_pc` that only
/// computes.
pub open spec fn result_of(op: MicroOp, base_pc: u64, m: Machine) -> u64 {
    match op {
        MicroOp::Lui { imm, .. } => imm as u64,
        MicroOp::Auipc { imm, pc_offset, .. } => (base_pc as i64).wrapping_add(
            pc_offset as i64,
        ).wrapping_add(imm) as u64,
        _ => interpreted(op, m)->0,
    }
}

/// The machine after an instruction that only computes.
pub open spec fn after_op(op: MicroOp, base_pc: u64, m: Machine) -> Machine {
    let rd = destination(op);
    if rd == 0 {
        m
    } else if value_code(op) is Some {
        stored(m, rd, result_of(op, base_pc, m))
    } else {
        with_register(m, rd, result_of(op, base_pc, m))
    }
}

proof fn lemma_const_to_reg(rd: u8, v: i64, m: Machine)
    requires
        ready(m),
        0 < rd < 32,
    ensures
        all_plain(const_to_reg(rd, v)),
        exec(const_to_reg(rd, v), m) == with_register(m, rd, v as u64),
{
    reveal(const_to_reg);
    reveal_with_fuel(exec, 4);
    let code = const_to_reg(rd, v);
    let m1 = step(m, code[0]);
    let m2 = step(m1, code[1]);
    let m3 = step(m2, code[2]);
    assert(code.skip(1)[0] == code[1]);
    assert(code.skip(1).skip(1)[0] == code[2]);
    assert(code.skip(1).skip(1).skip(1).len() == 0);
    assert(m2.stack =~= m.stack.push(0).push(v as u64));
    assert(m3.stack =~= m.stack);
    assert(exec(code, m) == m3);
}

/// The compiled code of an instruction that only computes goes on to what follows with the
/// machine that `after_op` describes.
pub proof fn law_compiled_instruction_computes(op: MicroOp, base_pc: u64, m: Machine, rest: Code)
    requires
        ready(m),
        names_registers(op),
        only_computes(op),
    ensures
        op_code(op, base_pc) is Some,
        run(op_code(op, base_pc).unwrap() + rest, m) == run(rest, after_op(op, base_pc, m)),
{
    let rd = destination(op);
    let code = op_code(op, base_pc).unwrap();
    if rd == 0 {
        reveal(to_reg);
        reveal(const_to_reg);
        assert(code + rest =~= rest);
    } else if value_code(op) is Some {
        reveal(to_reg);
        let v = result_of(op, base_pc, m);
        lemma_value(op, m, store_reg(rd) + rest);
        assert(code + rest =~= own_code(op) + (store_reg(rd) + rest));
        lemma_store_reg(rd, m, v);
        lemma_plain(store_reg(rd), rest, pushed(m, v));
    } else {
        let v: i64 = match op {
            MicroOp::Lui { imm, .. } => imm,
            MicroOp::Auipc { imm, pc_offset, .. } => (base_pc as i64).wrapping_add(
                pc_offset as i64,
            ).wrapping_add(imm),
            _ => 0,
        };
        lemma_const_to_reg(rd, v, m);
        lemma_plain(code, rest, m);
    }
}

/// After a compiled instruction its register holds what the interpreter computes, `x0` aside;
/// the other registers and the rest of the memory are as they were, and so is the stack.
pub proof fn law_compiled_instruction_writes_one_register(op: MicroOp, base_pc: u64, m: Machine)
    requires
        ready(m),
        names_registers(op),
        only_computes(op),
    ensures
        ({
            let after = after_op(op, base_pc, m);
            let rd = destination(op);
            &&& ready(after)
            &&& after.stack == m.stack
            &&& rd != 0 ==> reg(after, rd) == result_of(op, base_pc, m)
            &&& forall|i: u8| i < 32 && i != rd ==> #[trigger] reg(after, i) == reg(m, i)
            &&& bytes::same_but(after.mem, m.mem, state_place(0) + rd * 8, 8)
            &&& rd == 0 ==> after == m
        }),
{
    let rd = destination(op);
    let v = result_of(op, base_pc, m);
    let kept = Machine { locals: m.locals.insert(VALUE_LOCAL, v), ..m };
    lemma_with_register(m, rd, v);
    lemma_with_register(kept, rd, v);
    assert forall|i: u8| i < 32 implies reg(kept, i) == reg(m, i) by {}
    let after = after_op(op, base_pc, m);
    assert forall|i: u8| i < 32 && i != rd implies #[trigger] reg(after, i) == reg(m, i) by {
        assert(reg(with_register(m, rd, v), i) == reg(m, i));
        assert(reg(with_register(kept, rd, v), i) == reg(kept, i));
    }
}

// Blocks.

/// Whether the memory tells that an interrupt is waiting.
pub open spec fn interrupted(m: Machine) -> bool {
    crate::jit::state::waiting(m.mem)
}

/// The code that leaves for an interrupt, from the flag on the stack on.
proof fn lemma_exit_if(why: u32, low: u32, m: Machine, c: u64, rest: Code)
    requires
        m.ended is None,
        c <= u32::MAX,
    ensures
        run(exit_if(why, low) + rest, pushed(m, c)) == (if c != 0 {
            Machine {
                ended: Some(Ended::Returned(exit_value(why, low) as u64)),
                ..pushed(m, exit_value(why, low) as u64)
            }
        } else {
            run(rest, m)
        }),
{
    let value = Instruction::I64Const(exit_value(why, low));
    let three = seq![Instruction::End] + rest;
    let two = seq![Instruction::Return] + three;
    let one = seq![value] + two;
    let all = seq![Instruction::If(BlockType::Empty)] + one;
    assert(exit_if(why, low) + rest =~= all);
    lemma_skip_one(Instruction::If(BlockType::Empty), one);
    lemma_skip_one(value, two);
    lemma_skip_one(Instruction::Return, three);
    lemma_skip_one(Instruction::End, rest);
    assert(pop(pushed(m, c)).stack =~= m.stack);
    assert(pop(pushed(m, c)) == m);
    assert(c as u32 == c);
    if c != 0 {
        assert(run(all, pushed(m, c)) == run(one, m));
        assert(run(one, m) == run(two, pushed(m, exit_value(why, low) as u64)));
    } else {
        assert(after_block(one, 0, true) == after_block(two, 0, true));
        assert(after_block(two, 0, true) == after_block(three, 0, true));
        assert(after_block(three, 0, true) == rest);
    }
}

/// A look at the interrupts goes on where none waits, and returns to the host where one
/// does; no register changes in either case.
pub proof fn law_interrupt_check(place: u16, m: Machine, rest: Code)
    requires
        ready(m),
    ensures
        !interrupted(m) ==> run(interrupt_check(place) + rest, m) == run(rest, m),
        interrupted(m) ==> ({
            let after = run(interrupt_check(place) + rest, m);
            &&& after.ended == Some(
                Ended::Returned(
                    exit_value(
                        crate::jit::types::exit_codes::EXIT_INTERRUPT_CHECK,
                        place as u32,
                    ) as u64,
                ),
            )
            &&& after.mem == m.mem
        }),
{
    reveal_with_fuel(exec, 3);
    let why = crate::jit::types::exit_codes::EXIT_INTERRUPT_CHECK;
    let flag = seq![
        Instruction::I32Const(crate::jit::state::JIT_STATE_OFFSET as i32),
        Instruction::Memory(
            Access::I32Load,
            codegen::mem(crate::jit::state::offsets::INTERRUPT_PENDING as u64, 2),
        ),
    ];
    assert(interrupt_check(place) + rest =~= flag + (exit_if(why, place as u32) + rest));
    assert(all_plain(flag));
    lemma_plain(flag, exit_if(why, place as u32) + rest, m);
    let at = state_place(crate::jit::state::offsets::INTERRUPT_PENDING);
    let c = bytes::number_at(m.mem, at, 4);
    let m1 = step(m, flag[0]);
    assert(m1.stack.drop_last() =~= m.stack);
    let m2 = step(m1, flag[1]);
    assert(m2.stack =~= m.stack.push(c));
    assert(flag.skip(1)[0] == flag[1]);
    assert(flag.skip(1).skip(1).len() == 0);
    assert(exec(flag, m) == pushed(m, c));
    bytes::lemma_le_value_bound(m.mem.subrange(at, at + 4));
    bytes::lemma_pow256_values();
    lemma_exit_if(why, place as u32, m, c, rest);
}

/// The machine after the first `n` instructions of a block that only compute.
pub open spec fn after_ops(code: Seq<MicroOp>, base_pc: u64, m: Machine, n: nat) -> Machine
    decreases n,
{
    if n == 0 {
        m
    } else {
        after_op(code[n - 1], base_pc, after_ops(code, base_pc, m, (n - 1) as nat))
    }
}

/// A computation leaves the interrupt flag alone.
proof fn lemma_after_ops_ready(code: Seq<MicroOp>, base_pc: u64, m: Machine, n: nat)
    requires
        ready(m),
        n <= code.len(),
        forall|i: int| 0 <= i < n ==> names_registers(#[trigger] code[i]) && only_computes(code[i]),
    ensures
        ready(after_ops(code, base_pc, m, n)),
        interrupted(after_ops(code, base_pc, m, n)) == interrupted(m),
        after_ops(code, base_pc, m, n).stack == m.stack,
    decreases n,
{
    if n > 0 {
        lemma_after_ops_ready(code, base_pc, m, (n - 1) as nat);
        let before = after_ops(code, base_pc, m, (n - 1) as nat);
        let op = code[n - 1];
        law_compiled_instruction_writes_one_register(op, base_pc, before);
        let after = after_op(op, base_pc, before);
        let rd = destination(op);
        assert(rd < 32) by {
            assert(names_registers(op));
        }
        bytes::lemma_number_agrees(
            after.mem,
            before.mem,
            state_place(crate::jit::state::offsets::INTERRUPT_PENDING),
            4,
        );
    }
}

/// Code may be put together from the right as well as from the left.
proof fn lemma_grouping(a: Code, b: Code, c: Code, d: Code)
    ensures
        a + (b + c) + d == a + (b + (c + d)),
{
    assert(a + (b + c) + d =~= a + (b + (c + d)));
}

/// A look at the interrupts, where one is asked for, goes on while none waits.
proof fn lemma_optional_check(asked: bool, place: u16, m: Machine, rest: Code)
    requires
        ready(m),
        !interrupted(m),
    ensures
        run((if asked {
            interrupt_check(place)
        } else {
            Seq::empty()
        }) + rest, m) == run(rest, m),
{
    if asked {
        law_interrupt_check(place, m, rest);
    } else {
        assert(Seq::<Instruction>::empty() + rest =~= rest);
    }
}

/// The compiled code of the first `n` instructions of a block, all of which only compute,
/// goes on to what follows with the machine that the instructions leave one after another.
/// No interrupt is waiting.
#[verifier::rlimit(50)]
#[verifier::spinoff_prover]
pub proof fn law_compiled_code_computes(
    config: crate::jit::types::JitConfig,
    code: Seq<MicroOp>,
    base_pc: u64,
    m: Machine,
    n: nat,
    rest: Code,
)
    requires
        ready(m),
        !interrupted(m),
        n <= code.len(),
        forall|i: int| 0 <= i < n ==> names_registers(#[trigger] code[i]) && only_computes(code[i]),
    ensures
        codegen::prefix_code(config, code, base_pc, n) is Some,
        run(codegen::prefix_code(config, code, base_pc, n).unwrap() + rest, m) == run(
            rest,
            after_ops(code, base_pc, m, n),
        ),
    decreases n,
{
    if n == 0 {
        assert(codegen::prefix_code(config, code, base_pc, n).unwrap() + rest =~= rest);
    } else {
        let i = (n - 1) as int;
        let k = (n - 1) as nat;
        let op = code[i];
        let before = after_ops(code, base_pc, m, k);
        lemma_after_ops_ready(code, base_pc, m, k);
        law_compiled_instruction_computes(op, base_pc, before, rest);
        let own = op_code(op, base_pc).unwrap();
        let place = codegen::op_place(op, i);
        let asked = codegen::checks_interrupts(config, code.len(), i, op);
        let check: Code = if asked {
            interrupt_check(place)
        } else {
            Seq::empty()
        };
        law_compiled_code_computes(config, code, base_pc, m, k, check + (own + rest));
        let prefix = codegen::prefix_code(config, code, base_pc, k).unwrap();
        lemma_grouping(prefix, check, own, rest);
        lemma_optional_check(asked, place, before, own + rest);
    }
}

/// A compiled block whose instructions all only compute ends with the registers that the
/// interpreter would leave, and with a value that tells the length of the block.
pub proof fn law_compiled_block_computes(
    config: crate::jit::types::JitConfig,
    code: Seq<MicroOp>,
    base_pc: u64,
    byte_len: u16,
    m: Machine,
)
    requires
        ready(m),
        !interrupted(m),
        forall|i: int|
            0 <= i < code.len() ==> names_registers(#[trigger] code[i]) && only_computes(code[i]),
    ensures
        codegen::block_code(config, code, base_pc, byte_len) is Some,
        run(codegen::block_code(config, code, base_pc, byte_len).unwrap(), m) == pushed(
            after_ops(code, base_pc, m, code.len()),
            exit_value(crate::jit::types::exit_codes::EXIT_NORMAL, byte_len as u32) as u64,
        ),
{
    let end = const64(
        exit_value(crate::jit::types::exit_codes::EXIT_NORMAL, byte_len as u32),
    );
    let last = after_ops(code, base_pc, m, code.len());
    law_compiled_code_computes(config, code, base_pc, m, code.len(), end);
    lemma_after_ops_ready(code, base_pc, m, code.len());
    lemma_const64(
        exit_value(crate::jit::types::exit_codes::EXIT_NORMAL, byte_len as u32),
        last,
    );
    lemma_plain(end, Seq::empty(), last);
    assert(end + Seq::<Instruction>::empty() =~= end);
}

} // verus!
