//! Where a hart stands after a compiled block.

use vstd::prelude::*;

verus! {

use crate::bus::SystemState;
use crate::bytes;
use crate::cpu::blocks::{left_block, trap_of, JitBlockResult};
use crate::cpu::csr::{CSR_MSTATUS, CSR_SATP};
use crate::cpu::decoder::Op;
use crate::cpu::execution::{after, begun, Effect, Insn, Step};
use crate::cpu::hart::HartState;
use crate::cpu::memory::{carried_on, executed};
use crate::cpu::types::Trap;
use crate::engine::microop::MicroOp;
use crate::jit::codegen::{self, const64, exit_value, op_code, Code};
use crate::jit::runtime::{meaning, tells_trap, JitExecResult};
use crate::jit::semantics::equivalence::{
    after_all, completes, decoded, fault_code, followable, followed, follows_on,
    law_compiled_block_follows_the_interpreter, law_compiled_code_follows_the_interpreter,
    law_compiled_code_stops_where_the_interpreter_traps, mirrors, registers_agree, stopped_as,
    transfer_address,
};
use crate::jit::semantics::jumps::{
    address_at, aimed, branch_parts, law_compiled_branch_decides, law_compiled_indirect_jump_links,
    law_compiled_jump_links, left_for, linked, target_of, told,
};
use crate::jit::semantics::services::untroubled;
use crate::jit::semantics::{
    interrupted, lemma_grouping, lemma_optional_check, lemma_with_register, ready, reg, run, stored,
    top, Ended, Machine,
};
use crate::jit::state::{
    hart_from, holds_state, offsets, register_at, state_place, tells_hart, trap_from,
};
use crate::jit::types::{exit_codes, JitConfig};

/// A branch or a jump as the interpreter sees it, with its place in the block and its length.
pub open spec fn ending(op: MicroOp) -> Option<(Op, u16, u8)> {
    match op {
        MicroOp::Jal { rd, imm, pc_offset, insn_len } => Some(
            (Op::Jal { rd, imm }, pc_offset, insn_len),
        ),
        MicroOp::Jalr { rd, rs1, imm, pc_offset, insn_len } => Some(
            (Op::Jalr { rd, rs1, imm }, pc_offset, insn_len),
        ),
        _ => match branch_parts(op) {
            Some((rs1, rs2, imm, place, len, _, funct3)) => Some(
                (Op::Branch { rs1, rs2, imm, funct3 }, place, len),
            ),
            None => None,
        },
    }
}

/// Whether an instruction is a branch or a jump whose registers exist, and a hart stands
/// where it was compiled for.
pub open spec fn ends_here(op: MicroOp, base_pc: u64, s: HartState, insn: Insn) -> bool {
    ending(op) matches Some((as_decoded, place, len)) && as_decoded.wf() && s.pc
        == base_pc.wrapping_add(place as u64) && insn.len == len
}

/// Telling the program counter leaves registers and flags alone.
pub proof fn lemma_told(m: Machine, target: u64)
    requires
        ready(m),
    ensures
        holds_state(told(m, target).mem),
        bytes::number_at(told(m, target).mem, state_place(offsets::PC), 8) == target,
        forall|i: u8| i < 32 ==> #[trigger] reg(told(m, target), i) == reg(m, i),
        untroubled(told(m, target)) == untroubled(m),
{
    bytes::lemma_pow256_values();
    let pc = state_place(offsets::PC);
    bytes::lemma_number_written(m.mem, pc, 8, target);
    let after = told(m, target).mem;
    assert forall|i: u8| i < 32 implies #[trigger] reg(told(m, target), i) == reg(m, i) by {
        if i != 0 {
            bytes::lemma_number_agrees(after, m.mem, state_place(0) + i * 8, 8);
        }
    }
    bytes::lemma_number_agrees(after, m.mem, state_place(offsets::TRAP_PENDING), 4);
}

/// Linking fills one register.
pub proof fn lemma_linked(m: Machine, rd: u8, v: u64)
    requires
        ready(m),
        rd < 32,
    ensures
        ready(linked(m, rd, v)),
        untroubled(linked(m, rd, v)) == untroubled(m),
        forall|i: u8|
            i < 32 ==> #[trigger] reg(linked(m, rd, v), i) == if i == rd && i != 0 {
                v
            } else {
                reg(m, i)
            },
{
    if rd != 0 {
        let kept = Machine {
            locals: m.locals.insert(codegen::VALUE_LOCAL, v),
            ..m
        };
        lemma_with_register(kept, rd, v);
        let next = linked(m, rd, v);
        assert(next == stored(m, rd, v));
        bytes::lemma_number_agrees(next.mem, m.mem, state_place(offsets::TRAP_PENDING), 4);
        assert forall|i: u8| i < 32 implies #[trigger] reg(next, i) == if i == rd && i != 0 {
            v
        } else {
            reg(m, i)
        } by {
            assert(reg(kept, i) == reg(m, i));
        }
    }
}

/// A compiled branch or jump that the interpreter completes returns, and leaves the registers
/// and the program counter that the interpreter leaves.
#[verifier::spinoff_prover]
pub proof fn law_compiled_ending_goes_where_the_interpreter_goes(
    op: MicroOp,
    base_pc: u64,
    m: Machine,
    s: HartState,
    mask: u64,
    bus: SystemState,
    insn: Insn,
    rest: Code,
)
    requires
        mirrors(m, s, bus),
        ends_here(op, base_pc, s, insn),
        executed(s, mask, bus, insn, ending(op).unwrap().0).2 is Retire,
    ensures
        op_code(op, base_pc) is Some,
        ({
            let (next, kept, step) = executed(s, mask, bus, insn, ending(op).unwrap().0);
            let ran = run(op_code(op, base_pc).unwrap() + rest, m);
            &&& step == Step::Retire(Effect::Nothing)
            &&& kept == bus
            &&& next == (HartState { regs: next.regs, pc: next.pc, ..s })
            &&& ran.ended == Some(
                Ended::Returned(exit_value(exit_codes::EXIT_BRANCH, next.pc as u32) as u64),
            )
            &&& bytes::number_at(ran.mem, state_place(offsets::PC), 8) == next.pc
            &&& registers_agree(ran, next)
            &&& untroubled(ran)
            &&& holds_state(ran.mem)
            &&& ran.host == m.host
        }),
{
    let (as_decoded, place, len) = ending(op).unwrap();
    let (next, kept, step) = executed(s, mask, bus, insn, as_decoded);
    let ran = run(op_code(op, base_pc).unwrap() + rest, m);
    reveal_with_fuel(carried_on, 1);
    match op {
        MicroOp::Jal { rd, imm, .. } => {
            let target = address_at(base_pc, place, imm as u64);
            let back = address_at(base_pc, place, len as u64);
            law_compiled_jump_links(rd, imm, place, len, base_pc, m, rest);
            lemma_linked(m, rd, back);
            let before = aimed(linked(m, rd, back), target);
            lemma_told(before, target);
            assert forall|i: u8| i < 32 implies #[trigger] reg(ran, i) == next.regs[i as int] by {
                assert(reg(told(before, target), i) == reg(before, i));
                assert(reg(linked(m, rd, back), i) == reg(before, i));
                assert(reg(m, i) == s.regs[i as int]);
            }
        },
        MicroOp::Jalr { rd, rs1, imm, .. } => {
            let target = target_of(m, rs1, imm);
            let back = address_at(base_pc, place, len as u64);
            assert(reg(m, rs1) == s.regs[rs1 as int]);
            law_compiled_indirect_jump_links(rd, rs1, imm, place, len, base_pc, m, rest);
            let first = aimed(m, target);
            lemma_linked(first, rd, back);
            let before = linked(first, rd, back);
            lemma_told(before, target);
            assert forall|i: u8| i < 32 implies #[trigger] reg(ran, i) == next.regs[i as int] by {
                assert(reg(told(before, target), i) == reg(before, i));
                assert(reg(first, i) == reg(m, i));
                assert(reg(m, i) == s.regs[i as int]);
            }
        },
        _ => {
            let (rs1, rs2, _, _, _, _, _) = branch_parts(op).unwrap();
            assert(reg(m, rs1) == s.regs[rs1 as int]);
            assert(reg(m, rs2) == s.regs[rs2 as int]);
            law_compiled_branch_decides(op, base_pc, m, rest);
            let target = next.pc;
            let before = aimed(m, target);
            assert(ran == left_for(before, target));
            lemma_told(before, target);
            assert forall|i: u8| i < 32 implies #[trigger] reg(ran, i) == next.regs[i as int] by {
                assert(reg(told(before, target), i) == reg(before, i));
                assert(reg(before, i) == reg(m, i));
                assert(reg(m, i) == s.regs[i as int]);
            }
        },
    }
}

// Blocks.

/// What code returns: what it returned early, or else what is left on the stack.
pub open spec fn value_of(m: Machine) -> i64 {
    match m.ended {
        Some(Ended::Returned(v)) => v as i64,
        _ => top(m) as i64,
    }
}

proof fn lemma_exit_words(low: u32)
    by (bit_vector)
    ensures
        ((low as i64) >> 32) as u32 == 0,
        ((low as i64) & 0xffff_ffff) as u32 == low,
        ((0x4_0000_0000i64 | (low as i64)) >> 32) as u32 == 4,
        ((0x4_0000_0000i64 | (low as i64)) & 0xffff_ffff) as u32 == low,
        0x4_0000_0000i64 | (low as i64) == 0x4_0000_0000i64 + low,
        ((low as i64) as u64) as i64 == low,
        ((0x4_0000_0000i64 | (low as i64)) as u64) as i64 == 0x4_0000_0000i64 | (low as i64),
{
}

/// What the values of a block mean.
proof fn lemma_meanings(low: u32, base_pc: u64)
    ensures
        meaning((exit_value(exit_codes::EXIT_NORMAL, low) as u64) as i64, base_pc)
            == JitExecResult::Continue(base_pc.wrapping_add(low as u64)),
        meaning((exit_value(exit_codes::EXIT_BRANCH, low) as u64) as i64, base_pc)
            == (JitExecResult::Branch { new_pc: low as u64 }),
{
    lemma_exit_words(low);
    assert(exit_value(exit_codes::EXIT_NORMAL, low) == low as i64);
    assert(exit_value(exit_codes::EXIT_BRANCH, low) == 0x4_0000_0000i64 | (low as i64));
}

proof fn lemma_low_word(a: u64)
    by (bit_vector)
    ensures
        (a as u32) as u64 == a % 0x1_0000_0000,
{
}

/// No trap is told where the flag for it is zero.
proof fn lemma_no_trap(m: Machine)
    requires
        untroubled(m),
        holds_state(m.mem),
    ensures
        m.mem[state_place(offsets::TRAP_PENDING)] == 0,
{
    let at = state_place(offsets::TRAP_PENDING);
    let part = m.mem.subrange(at, at + 4);
    bytes::lemma_pow256_values();
    bytes::lemma_le_value_bound(part);
    bytes::lemma_le_bytes_of_value(part);
    assert(bytes::le_value(part) == 0);
    reveal_with_fuel(bytes::le_bytes, 5);
    assert(part[0] == 0);
}

/// The registers that a hart takes back are those that the machine holds.
proof fn lemma_taken_back(m: Machine, s: HartState, t: HartState)
    requires
        registers_agree(m, s),
    ensures
        hart_from(m.mem, t).regs == s.regs,
{
    let taken = hart_from(m.mem, t).regs;
    assert forall|i: int| 0 <= i < 32 implies taken[i] == s.regs[i] by {
        assert(reg(m, i as u8) == s.regs[i]);
    }
    assert(taken =~= s.regs);
}

/// The bytes of the first `n` instructions.
pub open spec fn length_of(insns: Seq<Insn>, n: nat) -> nat
    decreases n,
{
    if n == 0 {
        0
    } else {
        length_of(insns, (n - 1) as nat) + insns[n - 1].len as nat
    }
}

/// That a hart stands at the next instruction, with mode and control registers as before.
spec fn went_on(s: HartState, insn: Insn, next: HartState) -> bool {
    &&& next.pc == after(s, insn)
    &&& next.mode == s.mode
    &&& next.csrs == s.csrs
}

proof fn lemma_transfer_goes_on(s: HartState, mask: u64, bus: SystemState, insn: Insn, op: Op)
    requires
        op is Load || op is Store,
        executed(s, mask, bus, insn, op).2 is Retire,
    ensures
        went_on(s, insn, executed(s, mask, bus, insn, op).0),
{
    reveal_with_fuel(carried_on, 3);
}

proof fn lemma_computation_goes_on(s: HartState, mask: u64, bus: SystemState, insn: Insn, op: Op)
    requires
        op is Lui || op is Auipc || op is OpImm || op is Op || op is OpImm32 || op is Op32,
        executed(s, mask, bus, insn, op).2 is Retire,
    ensures
        went_on(s, insn, executed(s, mask, bus, insn, op).0),
{
    let (next, step) = begun(s, insn, op);
    assert(!(step is Ask));
    assert(carried_on(next, mask, bus, insn, step, 2) == (next, bus, step));
}

/// An instruction that computes or transfers goes on to the next.
proof fn lemma_goes_on(op: MicroOp, s: HartState, mask: u64, bus: SystemState, insn: Insn)
    requires
        followable(op),
        executed(s, mask, bus, insn, decoded(op).unwrap()).2 is Retire,
    ensures
        went_on(s, insn, executed(s, mask, bus, insn, decoded(op).unwrap()).0),
{
    let as_decoded = decoded(op).unwrap();
    if as_decoded is Load || as_decoded is Store {
        lemma_transfer_goes_on(s, mask, bus, insn, as_decoded);
    } else {
        lemma_computation_goes_on(s, mask, bus, insn, as_decoded);
    }
}

proof fn lemma_followed(
    code: Seq<MicroOp>,
    insns: Seq<Insn>,
    base_pc: u64,
    s: HartState,
    mask: u64,
    bus: SystemState,
    n: nat,
)
    requires
        n <= code.len(),
        length_of(insns, n) <= u16::MAX,
        forall|i: int|
            0 <= i < n ==> #[trigger] follows_on(code, insns, base_pc, s, mask, bus, i),
        forall|i: int| 0 <= i < n ==> #[trigger] completes(code, insns, s, mask, bus, i),
    ensures
        ({
            let next = followed(code, insns, s, mask, bus, n).0;
            &&& next.pc == s.pc.wrapping_add(length_of(insns, n) as u64)
            &&& next.mode == s.mode
            &&& next.csrs == s.csrs
        }),
    decreases n,
{
    if n > 0 {
        let k = (n - 1) as nat;
        lemma_followed(code, insns, base_pc, s, mask, bus, k);
        let (t, kept) = followed(code, insns, s, mask, bus, k);
        assert(follows_on(code, insns, base_pc, s, mask, bus, k as int));
        assert(completes(code, insns, s, mask, bus, k as int));
        lemma_goes_on(code[k as int], t, mask, kept, insns[k as int]);
    }
}

/// A hart that runs a compiled block without a branch, whose instructions the interpreter
/// completes, then stands where the interpreter would stand, with the registers that it would
/// have. Its translations come back from the host.
pub proof fn law_compiled_block_leaves_the_hart_where_the_interpreter_does(
    config: JitConfig,
    code: Seq<MicroOp>,
    insns: Seq<Insn>,
    base_pc: u64,
    byte_len: u16,
    m: Machine,
    s: HartState,
    mask: u64,
    bus: SystemState,
)
    requires
        mirrors(m, s, bus),
        s.pc == base_pc,
        byte_len == length_of(insns, code.len()),
        forall|i: int|
            0 <= i < code.len() ==> #[trigger] follows_on(code, insns, base_pc, s, mask, bus, i),
        forall|i: int| 0 <= i < code.len() ==> #[trigger] completes(code, insns, s, mask, bus, i),
    ensures
        codegen::block_code(config, code, base_pc, byte_len) is Some,
        ({
            let ran = run(codegen::block_code(config, code, base_pc, byte_len).unwrap(), m);
            let (next, kept) = followed(code, insns, s, mask, bus, code.len());
            &&& left_block(s, ran.mem, Some(meaning(value_of(ran), base_pc))) == (
                HartState { tlb: s.tlb, reservation: s.reservation, ..next },
                Ok::<JitBlockResult, Trap>(JitBlockResult::Continue),
            )
            &&& ran.host.tlb() == next.tlb
            &&& ran.host.bus() == kept
        }),
{
    let n = code.len();
    law_compiled_block_follows_the_interpreter(
        config,
        code,
        insns,
        base_pc,
        byte_len,
        m,
        s,
        mask,
        bus,
    );
    lemma_followed(code, insns, base_pc, s, mask, bus, n);
    let last = after_all(code, base_pc, m, n);
    let next = followed(code, insns, s, mask, bus, n).0;
    let ran = run(codegen::block_code(config, code, base_pc, byte_len).unwrap(), m);
    lemma_meanings(byte_len as u32, base_pc);
    lemma_no_trap(last);
    lemma_taken_back(last, next, s);
    assert(ran.mem == last.mem);
}

/// A hart that runs a compiled block whose last instruction is a branch or a jump, and whose
/// instructions the interpreter completes, then stands where the interpreter would stand, with
/// the registers that it would have. Its translations come back from the host.
#[verifier::spinoff_prover]
pub proof fn law_compiled_block_branches_where_the_interpreter_does(
    config: JitConfig,
    code: Seq<MicroOp>,
    insns: Seq<Insn>,
    base_pc: u64,
    byte_len: u16,
    m: Machine,
    s: HartState,
    mask: u64,
    bus: SystemState,
    n: nat,
)
    requires
        mirrors(m, s, bus),
        code.len() == n + 1,
        length_of(insns, n) <= u16::MAX,
        forall|i: int|
            0 <= i < n ==> #[trigger] follows_on(code, insns, base_pc, s, mask, bus, i),
        forall|i: int| 0 <= i < n ==> #[trigger] completes(code, insns, s, mask, bus, i),
        ({
            let (t, kept) = followed(code, insns, s, mask, bus, n);
            &&& ends_here(code[n as int], base_pc, t, insns[n as int])
            &&& executed(
                t,
                mask,
                kept,
                insns[n as int],
                ending(code[n as int]).unwrap().0,
            ).2 is Retire
        }),
    ensures
        codegen::block_code(config, code, base_pc, byte_len) is Some,
        ({
            let ran = run(codegen::block_code(config, code, base_pc, byte_len).unwrap(), m);
            let (t, kept) = followed(code, insns, s, mask, bus, n);
            let (next, seen, _) = executed(
                t,
                mask,
                kept,
                insns[n as int],
                ending(code[n as int]).unwrap().0,
            );
            &&& left_block(s, ran.mem, Some(meaning(value_of(ran), base_pc))) == (
                HartState { tlb: s.tlb, reservation: s.reservation, ..next },
                Ok::<JitBlockResult, Trap>(JitBlockResult::Continue),
            )
            &&& ran.host.tlb() == next.tlb
            &&& ran.host.bus() == seen
        }),
{
    let i = n as int;
    let op = code[i];
    let before = after_all(code, base_pc, m, n);
    let (t, kept) = followed(code, insns, s, mask, bus, n);
    let asked = codegen::checks_interrupts(config, code.len(), i, op);
    let place = codegen::op_place(op, i);
    let check: Code = if asked {
        codegen::interrupt_check(place)
    } else {
        Seq::empty()
    };
    let end = const64(exit_value(exit_codes::EXIT_NORMAL, byte_len as u32));
    let own = op_code(op, base_pc).unwrap();
    law_compiled_code_follows_the_interpreter(
        config,
        code,
        insns,
        base_pc,
        m,
        s,
        mask,
        bus,
        n,
        check + (own + end),
    );
    law_compiled_ending_goes_where_the_interpreter_goes(
        op,
        base_pc,
        before,
        t,
        mask,
        kept,
        insns[i],
        end,
    );
    let prefix = codegen::prefix_code(config, code, base_pc, n).unwrap();
    lemma_grouping(prefix, check, own, end);
    lemma_optional_check(asked, place, before, own + end);
    lemma_followed(code, insns, base_pc, s, mask, bus, n);
    let (next, seen, _) = executed(t, mask, kept, insns[i], ending(op).unwrap().0);
    let ran = run(codegen::block_code(config, code, base_pc, byte_len).unwrap(), m);
    assert(ran == run(own + end, before));
    lemma_meanings(next.pc as u32, base_pc);
    lemma_low_word(next.pc);
    lemma_no_trap(ran);
    lemma_taken_back(ran, next, s);
}

/// The code of a block starts with that of its first instructions.
proof fn lemma_prefix(
    config: JitConfig,
    code: Seq<MicroOp>,
    base_pc: u64,
    n: nat,
    k: nat,
) -> (rest: Code)
    requires
        n <= k,
        codegen::prefix_code(config, code, base_pc, k) is Some,
    ensures
        codegen::prefix_code(config, code, base_pc, n) is Some,
        codegen::prefix_code(config, code, base_pc, k).unwrap() == codegen::prefix_code(
            config,
            code,
            base_pc,
            n,
        ).unwrap() + rest,
    decreases k,
{
    let whole = codegen::prefix_code(config, code, base_pc, k).unwrap();
    if n == k {
        assert(whole =~= whole + Seq::empty());
        Seq::empty()
    } else {
        let j = (k - 1) as nat;
        let middle = lemma_prefix(config, code, base_pc, n, j);
        let first = codegen::prefix_code(config, code, base_pc, n).unwrap();
        let shorter = codegen::prefix_code(config, code, base_pc, j).unwrap();
        let last = whole.skip(shorter.len() as int);
        assert(whole =~= shorter + last);
        assert(whole =~= first + (middle + last));
        middle + last
    }
}

/// A trap that is told is taken up.
proof fn lemma_trap_taken(m: Machine, code: u32, value: u64)
    requires
        holds_state(m.mem),
        tells_trap(m.mem, code, value),
    ensures
        trap_from(m.mem) == Some((code, value)),
{
    let at = state_place(offsets::TRAP_PENDING);
    let part = m.mem.subrange(at, at + 4);
    bytes::lemma_pow256_values();
    bytes::lemma_le_value_bound(part);
    bytes::lemma_le_bytes_of_value(part);
    assert(bytes::le_value(part) == 1);
    reveal_with_fuel(bytes::le_bytes, 5);
    assert(part[0] == 1);
}

/// A hart that runs a compiled block at one of whose instructions the interpreter ends in a
/// trap, having completed those before it, ends in that trap too. A fault of memory behind a
/// translation, which the interpreter gives with the physical address, comes with the virtual
/// one.
pub proof fn law_compiled_block_traps_where_the_interpreter_does(
    config: JitConfig,
    code: Seq<MicroOp>,
    insns: Seq<Insn>,
    base_pc: u64,
    byte_len: u16,
    m: Machine,
    s: HartState,
    mask: u64,
    bus: SystemState,
    n: nat,
)
    requires
        mirrors(m, s, bus),
        n < code.len(),
        length_of(insns, n) <= u16::MAX,
        codegen::block_code(config, code, base_pc, byte_len) is Some,
        forall|i: int|
            0 <= i <= n ==> #[trigger] follows_on(code, insns, base_pc, s, mask, bus, i),
        forall|i: int| 0 <= i < n ==> #[trigger] completes(code, insns, s, mask, bus, i),
        !completes(code, insns, s, mask, bus, n as int),
    ensures
        ({
            let ran = run(codegen::block_code(config, code, base_pc, byte_len).unwrap(), m);
            let (t, kept) = followed(code, insns, s, mask, bus, n);
            let op = code[n as int];
            let done = executed(t, mask, kept, insns[n as int], decoded(op).unwrap());
            let vaddr = transfer_address(op, t);
            let left = left_block(s, ran.mem, Some(meaning(value_of(ran), base_pc)));
            &&& stopped_as(ran, op, t, kept, done)
            &&& left.1 == Err::<JitBlockResult, Trap>(
                trap_of(s.mode, fault_code(done.2), vaddr),
            )
            &&& done.2 matches Step::Abort(trap) ==> left.1 == Err::<JitBlockResult, Trap>(trap)
        }),
{
    let end = const64(exit_value(exit_codes::EXIT_NORMAL, byte_len as u32));
    let rest = lemma_prefix(config, code, base_pc, n + 1, code.len());
    let first = codegen::prefix_code(config, code, base_pc, n + 1).unwrap();
    assert(codegen::block_code(config, code, base_pc, byte_len).unwrap() =~= first + (rest + end));
    law_compiled_code_stops_where_the_interpreter_traps(
        config,
        code,
        insns,
        base_pc,
        m,
        s,
        mask,
        bus,
        n,
        rest + end,
    );
    lemma_followed(code, insns, base_pc, s, mask, bus, n);
    let ran = run(codegen::block_code(config, code, base_pc, byte_len).unwrap(), m);
    let (t, kept) = followed(code, insns, s, mask, bus, n);
    let op = code[n as int];
    let done = executed(t, mask, kept, insns[n as int], decoded(op).unwrap());
    lemma_trap_taken(ran, fault_code(done.2), transfer_address(op, t));
}

/// A machine whose memory tells a hart mirrors it, where its host sees what the hart sees, and
/// neither a trap nor an interrupt is told.
pub proof fn law_told_hart_is_mirrored(m: Machine, s: HartState, bus: SystemState)
    requires
        s.wf(),
        m.ended is None,
        holds_state(m.mem),
        tells_hart(m.mem, s),
        untroubled(m),
        !interrupted(m),
        m.host.bus() == bus,
        m.host.tlb() == s.tlb,
        m.host.mode() == s.mode,
        m.host.satp() == s.csrs[CSR_SATP as int],
        m.host.mstatus() == s.csrs[CSR_MSTATUS as int],
    ensures
        mirrors(m, s, bus),
{
    assert forall|i: u8| i < 32 implies #[trigger] reg(m, i) == s.regs[i as int] by {
        if i != 0 {
            assert(register_at(m.mem, i as int) == s.regs[i as int]);
        }
    }
}

} // verus!
