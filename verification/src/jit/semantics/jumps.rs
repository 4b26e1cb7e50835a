//! What compiled branches and jumps do when they run.

use vstd::prelude::*;

verus! {

use crate::bytes;
use crate::cpu::alu;
use crate::engine::microop::MicroOp;
use crate::jit::codegen::{
    address_from, branch_code, choose_i64, const64, exit_branch, exit_value, jal_code, jalr_code,
    jalr_target, link, op_code, pc_mem, store_reg, to_reg, with_imm, with_reg, Code, TARGET_LOCAL,
    VALUE_LOCAL,
};
use crate::jit::semantics::equivalence::lemma_sums;
use crate::jit::semantics::services::returned;
use crate::jit::semantics::{
    all_plain, exec, i64_holds, lemma_const64, lemma_plain, lemma_plain_choice, lemma_skip_one,
    lemma_store_reg, lemma_with_imm, lemma_with_reg, lemma_with_register, pushed, ready, reg, run,
    step, stored, Machine,
};
use crate::jit::state::{offsets, state_place};
use crate::jit::types::exit_codes;
use crate::jit::wasm::{Access, Convert, I64Op, I64Test, Instruction};

/// The machine after an address went to the place of the program counter.
pub open spec fn told(m: Machine, target: u64) -> Machine {
    Machine {
        mem: bytes::splice(m.mem, state_place(offsets::PC), bytes::le_bytes(target as nat, 8)),
        ..m
    }
}

/// The machine after code left for an address: the address is the program counter, and its
/// low word was returned.
pub open spec fn left_for(m: Machine, target: u64) -> Machine {
    returned(told(m, target), exit_value(exit_codes::EXIT_BRANCH, target as u32))
}

/// The machine that knows where a jump goes.
pub open spec fn aimed(m: Machine, target: u64) -> Machine {
    Machine { locals: m.locals.insert(TARGET_LOCAL, target), ..m }
}

proof fn lemma_even(a: u64)
    by (bit_vector)
    ensures
        (-2i64) as u64 == !1u64,
        (a as u32 as u64) | 0x4_0000_0000 == 0x4_0000_0000 + a as u32,
        0x4_0000_0000i64 as u64 == 0x4_0000_0000,
{
}

/// The code that leaves for the target, up to the return.
spec fn tell_code() -> Code {
    seq![
        Instruction::I32Const(0),
        Instruction::LocalGet(TARGET_LOCAL),
        Instruction::Memory(Access::I64Store, pc_mem()),
        Instruction::LocalGet(TARGET_LOCAL),
        Instruction::Convert(Convert::I32WrapI64),
        Instruction::Convert(Convert::I64ExtendI32U),
        Instruction::I64Const(exit_value(exit_codes::EXIT_BRANCH, 0)),
        Instruction::I64(I64Op::Or),
    ]
}

proof fn lemma_tell(m: Machine)
    requires
        ready(m),
    ensures
        all_plain(tell_code()),
        exec(tell_code(), m) == pushed(
            told(m, m.locals[TARGET_LOCAL]),
            exit_value(exit_codes::EXIT_BRANCH, m.locals[TARGET_LOCAL] as u32) as u64,
        ),
{
    reveal_with_fuel(exec, 9);
    let code = tell_code();
    let t = m.locals[TARGET_LOCAL];
    lemma_even(t);
    let m1 = step(m, code[0]);
    let m2 = step(m1, code[1]);
    assert(m2.stack.drop_last() =~= m1.stack);
    assert(m1.stack.drop_last() =~= m.stack);
    let m3 = step(m2, code[2]);
    assert(m3 == told(m, t));
    let m4 = step(m3, code[3]);
    let m5 = step(m4, code[4]);
    assert(m5.stack =~= m.stack.push(t as u32 as u64));
    let m6 = step(m5, code[5]);
    assert(m6.stack =~= m.stack.push(t as u32 as u64));
    let m7 = step(m6, code[6]);
    assert(m7.stack.drop_last() =~= m6.stack);
    let m8 = step(m7, code[7]);
    assert(m8.stack =~= m.stack.push((t as u32 as u64) | 0x4_0000_0000));
    let s1 = code.skip(1);
    let s2 = s1.skip(1);
    let s3 = s2.skip(1);
    let s4 = s3.skip(1);
    let s5 = s4.skip(1);
    let s6 = s5.skip(1);
    let s7 = s6.skip(1);
    assert(s1[0] == code[1]);
    assert(s2[0] == code[2]);
    assert(s3[0] == code[3]);
    assert(s4[0] == code[4]);
    assert(s5[0] == code[5]);
    assert(s6[0] == code[6]);
    assert(s7[0] == code[7]);
    assert(s7.skip(1).len() == 0);
}

/// The code that leaves for the target.
proof fn lemma_exit_branch(m: Machine, rest: Code)
    requires
        ready(m),
    ensures
        run(exit_branch() + rest, m) == left_for(m, m.locals[TARGET_LOCAL]),
{
    let last = seq![Instruction::Return] + rest;
    assert(exit_branch() + rest =~= tell_code() + last);
    lemma_tell(m);
    lemma_plain(tell_code(), last, m);
    lemma_skip_one(Instruction::Return, rest);
}

/// The code that keeps the top of the stack as the target.
proof fn lemma_aim(m: Machine, v: u64, rest: Code)
    requires
        m.ended is None,
    ensures
        run(seq![Instruction::LocalSet(TARGET_LOCAL)] + rest, pushed(m, v)) == run(
            rest,
            aimed(m, v),
        ),
{
    let one = seq![Instruction::LocalSet(TARGET_LOCAL)];
    assert(all_plain(one));
    lemma_plain(one, rest, pushed(m, v));
    reveal_with_fuel(exec, 2);
    assert(one.skip(1).len() == 0);
    assert(step(pushed(m, v), one[0]).stack =~= m.stack);
}

/// The machine after the address of the next instruction went to a register.
pub open spec fn linked(m: Machine, rd: u8, v: u64) -> Machine {
    if rd == 0 {
        m
    } else {
        stored(m, rd, v)
    }
}

proof fn lemma_link(rd: u8, v: i64, m: Machine, rest: Code)
    requires
        ready(m),
        rd < 32,
    ensures
        run(to_reg(rd, const64(v)) + rest, m) == run(rest, linked(m, rd, v as u64)),
        ready(linked(m, rd, v as u64)),
        linked(m, rd, v as u64).locals[TARGET_LOCAL] == m.locals[TARGET_LOCAL],
{
    reveal(to_reg);
    if rd == 0 {
        assert(to_reg(rd, const64(v)) + rest =~= rest);
    } else {
        let tail = store_reg(rd) + rest;
        assert(to_reg(rd, const64(v)) + rest =~= const64(v) + tail);
        lemma_const64(v, m);
        lemma_plain(const64(v), tail, m);
        lemma_store_reg(rd, m, v as u64);
        lemma_plain(store_reg(rd), rest, pushed(m, v as u64));
        let kept = Machine { locals: m.locals.insert(VALUE_LOCAL, v as u64), ..m };
        lemma_with_register(kept, rd, v as u64);
    }
}

/// The address that lies `distance` from the instruction at `place` of a block.
pub open spec fn address_at(base_pc: u64, place: u16, distance: u64) -> u64 {
    base_pc.wrapping_add(place as u64).wrapping_add(distance)
}

/// The registers, the distance, the place, the length and the test of a branch, and the
/// number of the test in the instruction.
pub open spec fn branch_parts(op: MicroOp) -> Option<(u8, u8, i64, u16, u8, I64Test, u8)> {
    match op {
        MicroOp::Beq { rs1, rs2, imm, pc_offset, insn_len } => Some(
            (rs1, rs2, imm, pc_offset, insn_len, I64Test::Eq, 0),
        ),
        MicroOp::Bne { rs1, rs2, imm, pc_offset, insn_len } => Some(
            (rs1, rs2, imm, pc_offset, insn_len, I64Test::Ne, 1),
        ),
        MicroOp::Blt { rs1, rs2, imm, pc_offset, insn_len } => Some(
            (rs1, rs2, imm, pc_offset, insn_len, I64Test::LtS, 4),
        ),
        MicroOp::Bge { rs1, rs2, imm, pc_offset, insn_len } => Some(
            (rs1, rs2, imm, pc_offset, insn_len, I64Test::GeS, 5),
        ),
        MicroOp::Bltu { rs1, rs2, imm, pc_offset, insn_len } => Some(
            (rs1, rs2, imm, pc_offset, insn_len, I64Test::LtU, 6),
        ),
        MicroOp::Bgeu { rs1, rs2, imm, pc_offset, insn_len } => Some(
            (rs1, rs2, imm, pc_offset, insn_len, I64Test::GeU, 7),
        ),
        _ => None,
    }
}

/// A compiled branch leaves for its target where the interpreter takes it, and else for the
/// instruction that follows. Registers stay as they are.
pub proof fn law_compiled_branch_decides(op: MicroOp, base_pc: u64, m: Machine, rest: Code)
    requires
        ready(m),
        branch_parts(op) is Some,
        branch_parts(op).unwrap().0 < 32,
        branch_parts(op).unwrap().1 < 32,
    ensures
        ({
            let (rs1, rs2, imm, place, len, _, funct3) = branch_parts(op).unwrap();
            let taken = alu::branch_taken(funct3, reg(m, rs1), reg(m, rs2)) == Some(true);
            let target = if taken {
                address_at(base_pc, place, imm as u64)
            } else {
                address_at(base_pc, place, len as u64)
            };
            &&& op_code(op, base_pc) is Some
            &&& run(op_code(op, base_pc).unwrap() + rest, m) == left_for(aimed(m, target), target)
        }),
{
    reveal(branch_code);
    reveal(with_reg);
    reveal(choose_i64);
    let (rs1, rs2, imm, place, len, test, funct3) = branch_parts(op).unwrap();
    let there = address_from(base_pc, place, imm);
    let next = link(base_pc, place, len);
    lemma_sums(base_pc, place, imm);
    lemma_sums(base_pc, place, len as i64);
    let a = reg(m, rs1);
    let b = reg(m, rs2);
    let compared = seq![Instruction::Test(test)];
    let cond = with_reg(rs1, rs2, compared);
    let c = alu::flag(i64_holds(test, a, b));
    let leave = exit_branch() + rest;
    let tail = seq![Instruction::LocalSet(TARGET_LOCAL)] + leave;
    assert(all_plain(compared));
    lemma_with_reg(rs1, rs2, compared, m);
    reveal_with_fuel(exec, 2);
    let m2 = pushed(pushed(m, a), b);
    assert(m2.stack.drop_last() =~= pushed(m, a).stack);
    assert(compared.skip(1).len() == 0);
    assert(step(m2, compared[0]).stack =~= m.stack.push(c));
    assert(exec(cond, m) == pushed(m, c));
    lemma_const64(there, m);
    lemma_const64(next, m);
    lemma_plain_choice(cond, const64(there), const64(next), m, c, there as u64, next as u64, tail);
    assert(op_code(op, base_pc).unwrap() == branch_code(
        rs1,
        rs2,
        imm,
        place,
        len,
        test,
        base_pc,
    ));
    assert(branch_code(rs1, rs2, imm, place, len, test, base_pc) + rest =~= choose_i64(
        cond,
        const64(there),
        const64(next),
    ) + tail);
    let v = if c != 0 {
        there as u64
    } else {
        next as u64
    };
    lemma_aim(m, v, leave);
    lemma_exit_branch(aimed(m, v), rest);
}

/// A compiled jump leaves the address of the next instruction in its register, `x0` aside,
/// and leaves for its target.
pub proof fn law_compiled_jump_links(
    rd: u8,
    imm: i64,
    place: u16,
    len: u8,
    base_pc: u64,
    m: Machine,
    rest: Code,
)
    requires
        ready(m),
        rd < 32,
    ensures
        ({
            let op = MicroOp::Jal { rd, imm, pc_offset: place, insn_len: len };
            let target = address_at(base_pc, place, imm as u64);
            &&& op_code(op, base_pc) is Some
            &&& run(op_code(op, base_pc).unwrap() + rest, m) == left_for(
                aimed(linked(m, rd, address_at(base_pc, place, len as u64)), target),
                target,
            )
        }),
{
    reveal(jal_code);
    let v = link(base_pc, place, len);
    let there = address_from(base_pc, place, imm);
    lemma_sums(base_pc, place, imm);
    lemma_sums(base_pc, place, len as i64);
    let leave = exit_branch() + rest;
    let set = seq![Instruction::LocalSet(TARGET_LOCAL)] + leave;
    let code = jal_code(rd, imm, place, len, base_pc);
    assert(code + rest =~= to_reg(rd, const64(v)) + (const64(there) + set));
    lemma_link(rd, v, m, const64(there) + set);
    let m1 = linked(m, rd, v as u64);
    lemma_const64(there, m1);
    lemma_plain(const64(there), set, m1);
    lemma_aim(m1, there as u64, leave);
    lemma_exit_branch(aimed(m1, there as u64), rest);
}

/// Where an indirect jump goes.
pub open spec fn target_of(m: Machine, rs1: u8, imm: i64) -> u64 {
    reg(m, rs1).wrapping_add(imm as u64) & !1
}

proof fn lemma_target(a: u64, b: u64, m: Machine)
    requires
        m.ended is None,
    ensures
        all_plain(jalr_target()),
        exec(jalr_target(), pushed(pushed(m, a), b)) == aimed(m, a.wrapping_add(b) & !1),
{
    reveal_with_fuel(exec, 5);
    lemma_even(0);
    let code = jalr_target();
    let m0 = pushed(pushed(m, a), b);
    assert(m0.stack.drop_last() =~= pushed(m, a).stack);
    let m1 = step(m0, code[0]);
    assert(m1.stack =~= m.stack.push(a.wrapping_add(b)));
    let m2 = step(m1, code[1]);
    assert(m2.stack.drop_last() =~= m1.stack);
    let m3 = step(m2, code[2]);
    assert(m3.stack =~= m.stack.push(a.wrapping_add(b) & !1));
    let m4 = step(m3, code[3]);
    assert(m4.stack =~= m.stack);
    assert(code.skip(1)[0] == code[1]);
    assert(code.skip(1).skip(1)[0] == code[2]);
    assert(code.skip(1).skip(1).skip(1)[0] == code[3]);
    assert(code.skip(1).skip(1).skip(1).skip(1).len() == 0);
}

/// A compiled indirect jump leaves the address of the next instruction in its register, `x0`
/// aside, and leaves for its target. The target comes from the registers as they were before.
pub proof fn law_compiled_indirect_jump_links(
    rd: u8,
    rs1: u8,
    imm: i64,
    place: u16,
    len: u8,
    base_pc: u64,
    m: Machine,
    rest: Code,
)
    requires
        ready(m),
        rd < 32,
        rs1 < 32,
    ensures
        ({
            let op = MicroOp::Jalr { rd, rs1, imm, pc_offset: place, insn_len: len };
            let target = target_of(m, rs1, imm);
            &&& op_code(op, base_pc) is Some
            &&& run(op_code(op, base_pc).unwrap() + rest, m) == left_for(
                linked(aimed(m, target), rd, address_at(base_pc, place, len as u64)),
                target,
            )
        }),
{
    reveal(jalr_code);
    let v = link(base_pc, place, len);
    lemma_sums(base_pc, place, len as i64);
    let target = target_of(m, rs1, imm);
    let three = exit_branch() + rest;
    let two = to_reg(rd, const64(v)) + three;
    let one = with_imm(rs1, imm, jalr_target());
    let code = jalr_code(rd, rs1, imm, place, len, base_pc);
    assert(code + rest =~= one + two);
    lemma_target(reg(m, rs1), imm as u64, m);
    lemma_with_imm(rs1, imm, jalr_target(), m);
    lemma_plain(one, two, m);
    let m1 = aimed(m, target);
    lemma_link(rd, v, m1, three);
    lemma_exit_branch(linked(m1, rd, v as u64), rest);
}

} // verus!
