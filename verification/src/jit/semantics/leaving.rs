//! What compiled branches, jumps, loads and stores mean.

use vstd::prelude::*;

verus! {

use crate::bus::read_result;
use crate::bytes;
use crate::cpu::alu;
use crate::cpu::types::{AccessType, Trap};
use crate::engine::microop::MicroOp;
use crate::jit::codegen::{op_code, tlb_place, Code};
use crate::jit::semantics::endings::{lemma_linked, lemma_told};
use crate::jit::semantics::host::lemma_host_with;
use crate::jit::semantics::jumps::{
    address_at, aimed, branch_parts, law_compiled_branch_decides,
    law_compiled_indirect_jump_links, law_compiled_jump_links, left_for, linked, target_of, told,
};
use crate::jit::semantics::services::{
    address_of, law_compiled_load, law_compiled_store, load_parts, loaded, store_parts,
    stored_away, untroubled,
};
use crate::jit::semantics::{exec, lemma_with_register, ready, reg, run, step, Ended, Machine};
use crate::jit::state::{offsets, state_place};
use crate::meaning::{self, is_cut, is_loaded, is_stored, signed};
use crate::mmu::translation;

/// That the code of an instruction returns for an address, given up to multiples of 2^64: the
/// address stands as the program counter, and what is returned is its low word under the code
/// for branches. Of the registers only `rd` changes, and to `link`.
pub open spec fn leaves_for(
    op: MicroOp,
    base_pc: u64,
    m: Machine,
    target: int,
    rd: u8,
    link: int,
) -> bool {
    &&& op_code(op, base_pc) is Some
    &&& {
        let t = run(op_code(op, base_pc)->0, m);
        let pc = bytes::number_at(t.mem, state_place(offsets::PC), 8);
        &&& is_cut(pc, target)
        &&& t.ended == Some(Ended::Returned((0x4_0000_0000 + pc as int % 0x1_0000_0000) as u64))
        &&& t.host == m.host
        &&& rd != 0 ==> is_cut(reg(t, rd), link)
        &&& forall|i: u8| i < 32 && (i != rd || rd == 0) ==> #[trigger] reg(t, i) == reg(m, i)
    }
}

proof fn lemma_returned(m: Machine, target: u64)
    requires
        ready(m),
    ensures
        ({
            let t = left_for(m, target);
            &&& bytes::number_at(t.mem, state_place(offsets::PC), 8) == target
            &&& t.ended == Some(
                Ended::Returned((0x4_0000_0000 + target as int % 0x1_0000_0000) as u64),
            )
            &&& t.host == m.host
            &&& forall|i: u8| i < 32 ==> #[trigger] reg(t, i) == reg(m, i)
        }),
{
    lemma_told(m, target);
    meaning::lemma_casts(target, 0);
    let t = left_for(m, target);
    meaning::lemma_casts(0, (0x4_0000_0000 + target as u32) as i64);
    assert forall|i: u8| i < 32 implies #[trigger] reg(t, i) == reg(m, i) by {
        assert(reg(told(m, target), i) == reg(m, i));
    }
}

proof fn lemma_branch(op: MicroOp, base_pc: u64, m: Machine)
    requires
        ready(m),
        branch_parts(op) is Some,
        branch_parts(op).unwrap().0 < 32,
        branch_parts(op).unwrap().1 < 32,
    ensures
        ({
            let (rs1, rs2, imm, place, len, _, funct3) = branch_parts(op).unwrap();
            let taken = alu::branch_taken(funct3, reg(m, rs1), reg(m, rs2)) == Some(true);
            leaves_for(
                op,
                base_pc,
                m,
                base_pc + place + if taken {
                    imm as int
                } else {
                    len as int
                },
                0,
                0,
            )
        }),
{
    let none: Code = Seq::empty();
    law_compiled_branch_decides(op, base_pc, m, none);
    let (rs1, rs2, imm, place, len, _, funct3) = branch_parts(op).unwrap();
    let taken = alu::branch_taken(funct3, reg(m, rs1), reg(m, rs2)) == Some(true);
    let target = if taken {
        address_at(base_pc, place, imm as u64)
    } else {
        address_at(base_pc, place, len as u64)
    };
    let code = op_code(op, base_pc).unwrap();
    assert(code + none =~= code);
    meaning::lemma_casts(0, imm);
    let aim = aimed(m, target);
    assert forall|i: u8| i < 32 implies #[trigger] reg(aim, i) == reg(m, i) by {}
    lemma_returned(aim, target);
    let t = run(code, m);
    assert forall|i: u8| i < 32 implies #[trigger] reg(t, i) == reg(m, i) by {
        assert(reg(left_for(aim, target), i) == reg(aim, i));
    }
}

/// Branches are taken where two registers are equal, or one less than the other, and else go
/// on behind themselves.
pub proof fn law_compiled_branches(
    m: Machine,
    base_pc: u64,
    rs1: u8,
    rs2: u8,
    imm: i64,
    pc_offset: u16,
    insn_len: u8,
)
    requires
        ready(m),
        rs1 < 32,
        rs2 < 32,
    ensures
        ({
            let a = reg(m, rs1);
            let b = reg(m, rs2);
            let goes = |op: MicroOp, taken: bool|
                leaves_for(
                    op,
                    base_pc,
                    m,
                    base_pc + pc_offset + if taken {
                        imm as int
                    } else {
                        insn_len as int
                    },
                    0,
                    0,
                );
            &&& goes(MicroOp::Beq { rs1, rs2, imm, pc_offset, insn_len }, a == b)
            &&& goes(MicroOp::Bne { rs1, rs2, imm, pc_offset, insn_len }, a != b)
            &&& goes(MicroOp::Blt { rs1, rs2, imm, pc_offset, insn_len }, signed(a) < signed(b))
            &&& goes(MicroOp::Bge { rs1, rs2, imm, pc_offset, insn_len }, signed(b) <= signed(a))
            &&& goes(MicroOp::Bltu { rs1, rs2, imm, pc_offset, insn_len }, a < b)
            &&& goes(MicroOp::Bgeu { rs1, rs2, imm, pc_offset, insn_len }, b <= a)
        }),
{
    meaning::lemma_casts(reg(m, rs1), 0);
    meaning::lemma_casts(reg(m, rs2), 0);
    lemma_branch(MicroOp::Beq { rs1, rs2, imm, pc_offset, insn_len }, base_pc, m);
    lemma_branch(MicroOp::Bne { rs1, rs2, imm, pc_offset, insn_len }, base_pc, m);
    lemma_branch(MicroOp::Blt { rs1, rs2, imm, pc_offset, insn_len }, base_pc, m);
    lemma_branch(MicroOp::Bge { rs1, rs2, imm, pc_offset, insn_len }, base_pc, m);
    lemma_branch(MicroOp::Bltu { rs1, rs2, imm, pc_offset, insn_len }, base_pc, m);
    lemma_branch(MicroOp::Bgeu { rs1, rs2, imm, pc_offset, insn_len }, base_pc, m);
}

#[verifier::spinoff_prover]
proof fn lemma_jal(
    m: Machine,
    base_pc: u64,
    rd: u8,
    imm: i64,
    pc_offset: u16,
    insn_len: u8,
)
    requires
        ready(m),
        rd < 32,
    ensures
        leaves_for(
            MicroOp::Jal { rd, imm, pc_offset, insn_len },
            base_pc,
            m,
            base_pc + pc_offset + imm,
            rd,
            base_pc + pc_offset + insn_len,
        ),
{
    let none: Code = Seq::empty();
    meaning::lemma_casts(0, imm);
    let behind = address_at(base_pc, pc_offset, insn_len as u64);
    let jal = MicroOp::Jal { rd, imm, pc_offset, insn_len };
    law_compiled_jump_links(rd, imm, pc_offset, insn_len, base_pc, m, none);
    let code = op_code(jal, base_pc).unwrap();
    assert(code + none =~= code);
    let target = address_at(base_pc, pc_offset, imm as u64);
    lemma_linked(m, rd, behind);
    let one = aimed(linked(m, rd, behind), target);
    assert forall|i: u8| i < 32 implies #[trigger] reg(one, i) == reg(linked(m, rd, behind), i) by {}
    lemma_returned(one, target);
    let t = run(code, m);
    assert forall|i: u8| i < 32 implies #[trigger] reg(t, i) == reg(linked(m, rd, behind), i) by {
        assert(reg(left_for(one, target), i) == reg(one, i));
    }
}

proof fn lemma_even_target(a: u64, imm: i64)
    ensures
        is_cut(
            a.wrapping_add(imm as u64) & !1,
            if (a + imm) % 2 == 0 {
                a + imm
            } else {
                a + imm - 1
            },
        ),
{
    meaning::lemma_casts(a.wrapping_add(imm as u64), imm);
}

#[verifier::spinoff_prover]
proof fn lemma_jalr(
    m: Machine,
    base_pc: u64,
    rd: u8,
    rs1: u8,
    imm: i64,
    pc_offset: u16,
    insn_len: u8,
    goal: int,
)
    requires
        ready(m),
        rd < 32,
        rs1 < 32,
        is_cut(target_of(m, rs1, imm), goal),
    ensures
        leaves_for(
            MicroOp::Jalr { rd, rs1, imm, pc_offset, insn_len },
            base_pc,
            m,
            goal,
            rd,
            base_pc + pc_offset + insn_len,
        ),
{
    let none: Code = Seq::empty();
    let behind = address_at(base_pc, pc_offset, insn_len as u64);
    let jalr = MicroOp::Jalr { rd, rs1, imm, pc_offset, insn_len };
    law_compiled_indirect_jump_links(rd, rs1, imm, pc_offset, insn_len, base_pc, m, none);
    let code = op_code(jalr, base_pc).unwrap();
    assert(code + none =~= code);
    let target = target_of(m, rs1, imm);
    let aim = aimed(m, target);
    assert forall|i: u8| i < 32 implies #[trigger] reg(aim, i) == reg(m, i) by {}
    lemma_linked(aim, rd, behind);
    let two = linked(aim, rd, behind);
    lemma_returned(two, target);
    let u = run(code, m);
    assert forall|i: u8| i < 32 implies #[trigger] reg(u, i) == reg(two, i) by {
        assert(reg(left_for(two, target), i) == reg(two, i));
    }
}

/// Jumps leave the address behind them in a register and go where they point: `JAL` by a
/// distance, `JALR` to the even address at or right below a sum.
pub proof fn law_compiled_jumps(
    m: Machine,
    base_pc: u64,
    rd: u8,
    rs1: u8,
    imm: i64,
    pc_offset: u16,
    insn_len: u8,
)
    requires
        ready(m),
        rd < 32,
        rs1 < 32,
    ensures
        ({
            let a = reg(m, rs1);
            let behind = base_pc + pc_offset + insn_len;
            &&& leaves_for(
                MicroOp::Jal { rd, imm, pc_offset, insn_len },
                base_pc,
                m,
                base_pc + pc_offset + imm,
                rd,
                behind,
            )
            &&& leaves_for(
                MicroOp::Jalr { rd, rs1, imm, pc_offset, insn_len },
                base_pc,
                m,
                if (a + imm) % 2 == 0 {
                    a + imm
                } else {
                    a + imm - 1
                },
                rd,
                behind,
            )
        }),
{
    let a = reg(m, rs1);
    lemma_jal(m, base_pc, rd, imm, pc_offset, insn_len);
    lemma_even_target(a, imm);
    lemma_jalr(
        m,
        base_pc,
        rd,
        rs1,
        imm,
        pc_offset,
        insn_len,
        if (a + imm) % 2 == 0 {
            a + imm
        } else {
            a + imm - 1
        },
    );
}

/// That an address stands for `size` bytes of memory, from the place `at` of it on.
pub open spec fn in_memory(
    m: Machine,
    vaddr: u64,
    access: AccessType,
    size: u64,
    at: int,
) -> bool {
    let bus = m.host.bus();
    &&& translation(
        bus,
        m.host.tlb(),
        m.host.mode(),
        m.host.satp(),
        m.host.mstatus(),
        vaddr,
        access,
    ).1 matches Ok(pa) && pa == bus.base + at
    &&& 0 <= at
    &&& at + size <= bus.mem.len()
}

/// What the code of a load leaves in register `rd`, where it comes to its end and leaves memory,
/// the stack and the other registers as they are.
#[verifier::opaque]
pub open spec fn brings(op: MicroOp, base_pc: u64, m: Machine, rd: u8) -> Option<u64> {
    match op_code(op, base_pc) {
        Some(code) => {
            let t = run(code, m);
            if ready(t) && t.stack == m.stack && t.host.bus() == m.host.bus() && forall|i: u8|
                i < 32 && i != rd ==> #[trigger] reg(t, i) == reg(m, i) {
                Some(reg(t, rd))
            } else {
                None
            }
        },
        None => None,
    }
}

proof fn lemma_brings(op: MicroOp, base_pc: u64, m: Machine, vaddr: u64, size: u64, at: int)
    requires
        ready(m),
        untroubled(m),
        load_parts(op) is Some,
        0 < load_parts(op).unwrap().0 < 32,
        load_parts(op).unwrap().1 < 32,
        alu::load_size(load_parts(op).unwrap().4) == Some(size),
        is_cut(vaddr, reg(m, load_parts(op).unwrap().1) + load_parts(op).unwrap().2),
        in_memory(m, vaddr, AccessType::Load, size, at),
    ensures
        ({
            let (rd, _, _, _, kind) = load_parts(op).unwrap();
            brings(op, base_pc, m, rd) matches Some(r) && is_loaded(
                r,
                m.host.bus().mem,
                at,
                size,
                kind < 4,
            )
        }),
{
    reveal(brings);
    let none: Code = Seq::empty();
    law_compiled_load(op, base_pc, m, none);
    let (rd, rs1, imm, _, kind) = load_parts(op).unwrap();
    meaning::lemma_casts(0, imm);
    assert(vaddr == address_of(m, rs1, imm));
    let bus = m.host.bus();
    let v = bytes::le_u64(bus.mem.subrange(at, at + size));
    assert(read_result(bus, (bus.base + at) as u64, size) == Ok::<u64, Trap>(v));
    let (tlb, answer) = m.host.load(vaddr, size);
    assert(answer == (v, true));
    meaning::lemma_widened(v);
    let r = alu::load_value(kind, v);
    meaning::lemma_widened_reading(bus.mem, at, size, r, kind < 4);
    let code = op_code(op, base_pc).unwrap();
    assert(code + none =~= code);
    let t = loaded(op, m);
    assert(run(code, m) == t);
    lemma_host_with(m.host, tlb, bus);
    let base = Machine {
        host: m.host.with(tlb, bus),
        locals: m.locals.insert(crate::jit::codegen::VALUE_LOCAL, r),
        ..m
    };
    lemma_with_register(base, rd, r);
    assert forall|i: u8| i < 32 && i != rd implies #[trigger] reg(t, i) == reg(m, i) by {
        assert(reg(base, i) == reg(m, i));
    }
}

/// Loads give the bytes of memory where the address leads, widened by their sign or by zeros.
pub proof fn law_compiled_loads(
    m: Machine,
    base_pc: u64,
    rd: u8,
    rs1: u8,
    imm: i64,
    pc_offset: u16,
    vaddr: u64,
    size: u64,
    at: int,
)
    requires
        ready(m),
        untroubled(m),
        0 < rd < 32,
        rs1 < 32,
        size == 1 || size == 2 || size == 4 || size == 8,
        is_cut(vaddr, reg(m, rs1) + imm),
        in_memory(m, vaddr, AccessType::Load, size, at),
    ensures
        ({
            let loads = |op: MicroOp, extended: bool|
                brings(op, base_pc, m, rd) matches Some(r) && is_loaded(
                    r,
                    m.host.bus().mem,
                    at,
                    size,
                    extended,
                );
            &&& size == 1 ==> loads(MicroOp::Lb { rd, rs1, imm, pc_offset }, true)
            &&& size == 2 ==> loads(MicroOp::Lh { rd, rs1, imm, pc_offset }, true)
            &&& size == 4 ==> loads(MicroOp::Lw { rd, rs1, imm, pc_offset }, true)
            &&& size == 8 ==> loads(MicroOp::Ld { rd, rs1, imm, pc_offset }, true)
            &&& size == 1 ==> loads(MicroOp::Lbu { rd, rs1, imm, pc_offset }, false)
            &&& size == 2 ==> loads(MicroOp::Lhu { rd, rs1, imm, pc_offset }, false)
            &&& size == 4 ==> loads(MicroOp::Lwu { rd, rs1, imm, pc_offset }, false)
        }),
{
    if size == 1 {
        lemma_brings(MicroOp::Lb { rd, rs1, imm, pc_offset }, base_pc, m, vaddr, size, at);
        lemma_brings(MicroOp::Lbu { rd, rs1, imm, pc_offset }, base_pc, m, vaddr, size, at);
    } else if size == 2 {
        lemma_brings(MicroOp::Lh { rd, rs1, imm, pc_offset }, base_pc, m, vaddr, size, at);
        lemma_brings(MicroOp::Lhu { rd, rs1, imm, pc_offset }, base_pc, m, vaddr, size, at);
    } else if size == 4 {
        lemma_brings(MicroOp::Lw { rd, rs1, imm, pc_offset }, base_pc, m, vaddr, size, at);
        lemma_brings(MicroOp::Lwu { rd, rs1, imm, pc_offset }, base_pc, m, vaddr, size, at);
    } else {
        lemma_brings(MicroOp::Ld { rd, rs1, imm, pc_offset }, base_pc, m, vaddr, size, at);
    }
}

/// That the code of a store comes to its end with memory changed as the store asks, and with
/// the stack and the registers as they are.
#[verifier::opaque]
pub open spec fn puts(
    op: MicroOp,
    base_pc: u64,
    m: Machine,
    at: int,
    size: u64,
    v: u64,
) -> bool {
    &&& op_code(op, base_pc) is Some
    &&& {
        let t = run(op_code(op, base_pc)->0, m);
        &&& ready(t)
        &&& t.stack == m.stack
        &&& t.host.bus().base == m.host.bus().base
        &&& is_stored(t.host.bus().mem, m.host.bus().mem, at, size, v)
        &&& forall|i: u8| i < 32 ==> #[trigger] reg(t, i) == reg(m, i)
    }
}

proof fn lemma_puts(op: MicroOp, base_pc: u64, m: Machine, vaddr: u64, size: u64, at: int)
    requires
        ready(m),
        store_parts(op) is Some,
        store_parts(op).unwrap().0 < 32,
        store_parts(op).unwrap().1 < 32,
        alu::store_size(store_parts(op).unwrap().4) == Some(size),
        is_cut(vaddr, reg(m, store_parts(op).unwrap().0) + store_parts(op).unwrap().2),
        in_memory(m, vaddr, AccessType::Store, size, at),
    ensures
        puts(op, base_pc, m, at, size, reg(m, store_parts(op).unwrap().1)),
{
    reveal(puts);
    let none: Code = Seq::empty();
    law_compiled_store(op, base_pc, m, none);
    let (rs1, rs2, imm, _, kind) = store_parts(op).unwrap();
    meaning::lemma_casts(0, imm);
    assert(vaddr == address_of(m, rs1, imm));
    let v = reg(m, rs2);
    bytes::lemma_le_bytes_len(v as nat, size as nat);
    meaning::lemma_writing_spells(m.host.bus().mem, at, size, v);
    let (tlb, after, answer) = m.host.store(vaddr, size, v);
    assert(answer == (0u32, true));
    lemma_host_with(m.host, tlb, after);
    let code = op_code(op, base_pc).unwrap();
    assert(code + none =~= code);
    let t = stored_away(op, m);
    assert(run(code, m) == t);
    assert forall|i: u8| i < 32 implies #[trigger] reg(t, i) == reg(m, i) by {}
}

/// Stores put the low-order bytes of a register into memory where the address leads, and leave
/// the rest of it.
pub proof fn law_compiled_stores(
    m: Machine,
    base_pc: u64,
    rs1: u8,
    rs2: u8,
    imm: i64,
    pc_offset: u16,
    vaddr: u64,
    size: u64,
    at: int,
)
    requires
        ready(m),
        rs1 < 32,
        rs2 < 32,
        size == 1 || size == 2 || size == 4 || size == 8,
        is_cut(vaddr, reg(m, rs1) + imm),
        in_memory(m, vaddr, AccessType::Store, size, at),
    ensures
        ({
            let v = reg(m, rs2);
            &&& size == 1 ==> puts(
                MicroOp::Sb { rs1, rs2, imm, pc_offset },
                base_pc,
                m,
                at,
                size,
                v,
            )
            &&& size == 2 ==> puts(
                MicroOp::Sh { rs1, rs2, imm, pc_offset },
                base_pc,
                m,
                at,
                size,
                v,
            )
            &&& size == 4 ==> puts(
                MicroOp::Sw { rs1, rs2, imm, pc_offset },
                base_pc,
                m,
                at,
                size,
                v,
            )
            &&& size == 8 ==> puts(
                MicroOp::Sd { rs1, rs2, imm, pc_offset },
                base_pc,
                m,
                at,
                size,
                v,
            )
        }),
{
    if size == 1 {
        lemma_puts(MicroOp::Sb { rs1, rs2, imm, pc_offset }, base_pc, m, vaddr, size, at);
    } else if size == 2 {
        lemma_puts(MicroOp::Sh { rs1, rs2, imm, pc_offset }, base_pc, m, vaddr, size, at);
    } else if size == 4 {
        lemma_puts(MicroOp::Sw { rs1, rs2, imm, pc_offset }, base_pc, m, vaddr, size, at);
    } else {
        lemma_puts(MicroOp::Sd { rs1, rs2, imm, pc_offset }, base_pc, m, vaddr, size, at);
    }
}

/// A load that finds its translation among the entries goes to the place in the shared memory
/// where the physical page says, at the same distance from the start of the page, but for the
/// header.
#[verifier::spinoff_prover]
pub proof fn law_fast_place(m: Machine, vaddr: u32, entry: u32, v: u64, e: u64, ppn: u64)
    requires
        m.ended is None,
        m.locals[vaddr] == v,
        m.locals[entry] == e,
        e + 16 <= m.mem.len(),
        e < 0x1_0000_0000,
        ppn == bytes::number_at(m.mem, e + 8, 8),
        0x8_0000 <= ppn < 0x10_0000_0000_0000,
    ensures
        ({
            let t = exec(tlb_place(vaddr, entry), m);
            &&& t.ended is None
            &&& t.mem == m.mem
            &&& t.locals == m.locals
            &&& t.stack == m.stack.push(
                ((ppn * 4096 + v as int % 4096 - 0x8000_0000) % 0x1_0000_0000) as u64,
            )
        }),
{
    let code = tlb_place(vaddr, entry);
    meaning::lemma_places(ppn, v);
    reveal_with_fuel(exec, 12);
    let c1 = code.skip(1);
    let c2 = c1.skip(1);
    let c3 = c2.skip(1);
    let c4 = c3.skip(1);
    let c5 = c4.skip(1);
    let c6 = c5.skip(1);
    let c7 = c6.skip(1);
    let c8 = c7.skip(1);
    let c9 = c8.skip(1);
    let c10 = c9.skip(1);
    let c11 = c10.skip(1);
    assert(c1[0] == code[1] && c2[0] == code[2] && c3[0] == code[3] && c4[0] == code[4] && c5[0]
        == code[5] && c6[0] == code[6] && c7[0] == code[7] && c8[0] == code[8] && c9[0] == code[9]
        && c10[0] == code[10]);
    assert(c11.len() == 0);
    let m1 = step(m, code[0]);
    let m2 = step(m1, code[1]);
    assert(m2.stack =~= m.stack.push(ppn));
    let m3 = step(m2, code[2]);
    let m4 = step(m3, code[3]);
    assert(m4.stack =~= m.stack.push(ppn << 12));
    let m5 = step(m4, code[4]);
    let m6 = step(m5, code[5]);
    let m7 = step(m6, code[6]);
    assert(m7.stack =~= m.stack.push(ppn << 12).push(v & 0xfff));
    let m8 = step(m7, code[7]);
    assert(m8.stack =~= m.stack.push((ppn << 12) | (v & 0xfff)));
    let m9 = step(m8, code[8]);
    let m10 = step(m9, code[9]);
    assert(m10.stack =~= m.stack.push(((ppn << 12) | (v & 0xfff)).wrapping_sub(0x8000_0000)));
    let m11 = step(m10, code[10]);
    assert(m11.stack =~= m.stack.push(
        ((ppn * 4096 + v as int % 4096 - 0x8000_0000) % 0x1_0000_0000) as u64,
    ));
    assert(exec(code, m) == m11);
}

} // verus!
