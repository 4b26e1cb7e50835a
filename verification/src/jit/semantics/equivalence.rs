//! That compiled code leaves what the interpreter would leave.

use vstd::prelude::*;

verus! {

use crate::bus::SystemState;
use crate::bytes;
use crate::cpu::alu;
use crate::cpu::blocks::trap_of;
use crate::cpu::csr::{CSR_MSTATUS, CSR_SATP};
use crate::cpu::decoder::Op;
use crate::cpu::execution::{begun, result_in, Effect, Insn, Step};
use crate::cpu::hart::HartState;
use crate::cpu::memory::{carried_on, executed};
use crate::cpu::types::{AccessType, Trap};
use crate::engine::microop::MicroOp;
use crate::jit::codegen::{self, const64, exit_value, op_code, value_code, Code, VALUE_LOCAL};
use crate::jit::helpers::{mmu_read, mmu_write};
use crate::jit::runtime::tells_trap;
use crate::jit::semantics::host::lemma_host_with;
use crate::jit::semantics::services::{
    address_of, law_compiled_load, law_compiled_store, load_parts, loaded, store_parts,
    stored_away, untroubled,
};
use crate::jit::semantics::{
    after_op, destination, interpreted, interrupted, law_compiled_instruction_computes,
    law_compiled_instruction_writes_one_register, lemma_const64, lemma_grouping,
    lemma_optional_check, lemma_plain, lemma_value, lemma_with_register, names_registers,
    only_computes, pushed, ready, reg, result_of, run, stored, with_register, Ended, Machine,
};
use crate::jit::state::{holds_state, offsets, state_place, trap_codes};
use crate::jit::types::{exit_codes, JitConfig};
use crate::jit::wasm::Instruction;
use crate::mmu::{lemma_translation_faults, translation};

/// The instruction as the interpreter sees it, for instructions that compute or transfer.
pub open spec fn decoded(op: MicroOp) -> Option<Op> {
    match op {
        MicroOp::Lui { rd, imm } => Some(Op::Lui { rd, imm }),
        MicroOp::Auipc { rd, imm, .. } => Some(Op::Auipc { rd, imm }),
        MicroOp::Addi { rd, rs1, imm } => Some(imm_op(rd, rs1, imm, 0, 0)),
        MicroOp::Slti { rd, rs1, imm } => Some(imm_op(rd, rs1, imm, 2, 0)),
        MicroOp::Sltiu { rd, rs1, imm } => Some(imm_op(rd, rs1, imm, 3, 0)),
        MicroOp::Xori { rd, rs1, imm } => Some(imm_op(rd, rs1, imm, 4, 0)),
        MicroOp::Ori { rd, rs1, imm } => Some(imm_op(rd, rs1, imm, 6, 0)),
        MicroOp::Andi { rd, rs1, imm } => Some(imm_op(rd, rs1, imm, 7, 0)),
        MicroOp::Slli { rd, rs1, shamt } => Some(imm_op(rd, rs1, shamt as i64, 1, 0)),
        MicroOp::Srli { rd, rs1, shamt } => Some(imm_op(rd, rs1, shamt as i64, 5, 0)),
        MicroOp::Srai { rd, rs1, shamt } => Some(imm_op(rd, rs1, shamt as i64, 5, 0x20)),
        MicroOp::Add { rd, rs1, rs2 } => Some(reg_op(rd, rs1, rs2, 0, 0)),
        MicroOp::Sub { rd, rs1, rs2 } => Some(reg_op(rd, rs1, rs2, 0, 0x20)),
        MicroOp::Sll { rd, rs1, rs2 } => Some(reg_op(rd, rs1, rs2, 1, 0)),
        MicroOp::Slt { rd, rs1, rs2 } => Some(reg_op(rd, rs1, rs2, 2, 0)),
        MicroOp::Sltu { rd, rs1, rs2 } => Some(reg_op(rd, rs1, rs2, 3, 0)),
        MicroOp::Xor { rd, rs1, rs2 } => Some(reg_op(rd, rs1, rs2, 4, 0)),
        MicroOp::Srl { rd, rs1, rs2 } => Some(reg_op(rd, rs1, rs2, 5, 0)),
        MicroOp::Sra { rd, rs1, rs2 } => Some(reg_op(rd, rs1, rs2, 5, 0x20)),
        MicroOp::Or { rd, rs1, rs2 } => Some(reg_op(rd, rs1, rs2, 6, 0)),
        MicroOp::And { rd, rs1, rs2 } => Some(reg_op(rd, rs1, rs2, 7, 0)),
        MicroOp::Mul { rd, rs1, rs2 } => Some(reg_op(rd, rs1, rs2, 0, 1)),
        MicroOp::Div { rd, rs1, rs2 } => Some(reg_op(rd, rs1, rs2, 4, 1)),
        MicroOp::Divu { rd, rs1, rs2 } => Some(reg_op(rd, rs1, rs2, 5, 1)),
        MicroOp::Rem { rd, rs1, rs2 } => Some(reg_op(rd, rs1, rs2, 6, 1)),
        MicroOp::Remu { rd, rs1, rs2 } => Some(reg_op(rd, rs1, rs2, 7, 1)),
        MicroOp::Addiw { rd, rs1, imm } => Some(imm_op_32(rd, rs1, imm as i64, 0, 0)),
        MicroOp::Slliw { rd, rs1, shamt } => Some(imm_op_32(rd, rs1, shamt as i64, 1, 0)),
        MicroOp::Srliw { rd, rs1, shamt } => Some(imm_op_32(rd, rs1, shamt as i64, 5, 0)),
        MicroOp::Sraiw { rd, rs1, shamt } => Some(imm_op_32(rd, rs1, shamt as i64, 5, 0x20)),
        MicroOp::Addw { rd, rs1, rs2 } => Some(reg_op_32(rd, rs1, rs2, 0, 0)),
        MicroOp::Subw { rd, rs1, rs2 } => Some(reg_op_32(rd, rs1, rs2, 0, 0x20)),
        MicroOp::Sllw { rd, rs1, rs2 } => Some(reg_op_32(rd, rs1, rs2, 1, 0)),
        MicroOp::Srlw { rd, rs1, rs2 } => Some(reg_op_32(rd, rs1, rs2, 5, 0)),
        MicroOp::Sraw { rd, rs1, rs2 } => Some(reg_op_32(rd, rs1, rs2, 5, 0x20)),
        MicroOp::Mulw { rd, rs1, rs2 } => Some(reg_op_32(rd, rs1, rs2, 0, 1)),
        MicroOp::Divw { rd, rs1, rs2 } => Some(reg_op_32(rd, rs1, rs2, 4, 1)),
        MicroOp::Divuw { rd, rs1, rs2 } => Some(reg_op_32(rd, rs1, rs2, 5, 1)),
        MicroOp::Remw { rd, rs1, rs2 } => Some(reg_op_32(rd, rs1, rs2, 6, 1)),
        MicroOp::Remuw { rd, rs1, rs2 } => Some(reg_op_32(rd, rs1, rs2, 7, 1)),
        MicroOp::Lb { rd, rs1, imm, .. } => Some(Op::Load { rd, rs1, imm, funct3: 0 }),
        MicroOp::Lh { rd, rs1, imm, .. } => Some(Op::Load { rd, rs1, imm, funct3: 1 }),
        MicroOp::Lw { rd, rs1, imm, .. } => Some(Op::Load { rd, rs1, imm, funct3: 2 }),
        MicroOp::Ld { rd, rs1, imm, .. } => Some(Op::Load { rd, rs1, imm, funct3: 3 }),
        MicroOp::Lbu { rd, rs1, imm, .. } => Some(Op::Load { rd, rs1, imm, funct3: 4 }),
        MicroOp::Lhu { rd, rs1, imm, .. } => Some(Op::Load { rd, rs1, imm, funct3: 5 }),
        MicroOp::Lwu { rd, rs1, imm, .. } => Some(Op::Load { rd, rs1, imm, funct3: 6 }),
        MicroOp::Sb { rs1, rs2, imm, .. } => Some(Op::Store { rs1, rs2, imm, funct3: 0 }),
        MicroOp::Sh { rs1, rs2, imm, .. } => Some(Op::Store { rs1, rs2, imm, funct3: 1 }),
        MicroOp::Sw { rs1, rs2, imm, .. } => Some(Op::Store { rs1, rs2, imm, funct3: 2 }),
        MicroOp::Sd { rs1, rs2, imm, .. } => Some(Op::Store { rs1, rs2, imm, funct3: 3 }),
        _ => None,
    }
}

pub open spec fn imm_op(rd: u8, rs1: u8, imm: i64, funct3: u8, funct7: u8) -> Op {
    Op::OpImm { rd, rs1, imm, funct3, funct7 }
}

pub open spec fn reg_op(rd: u8, rs1: u8, rs2: u8, funct3: u8, funct7: u8) -> Op {
    Op::Op { rd, rs1, rs2, funct3, funct7 }
}

pub open spec fn imm_op_32(rd: u8, rs1: u8, imm: i64, funct3: u8, funct7: u8) -> Op {
    Op::OpImm32 { rd, rs1, imm, funct3, funct7 }
}

pub open spec fn reg_op_32(rd: u8, rs1: u8, rs2: u8, funct3: u8, funct7: u8) -> Op {
    Op::Op32 { rd, rs1, rs2, funct3, funct7 }
}

/// Whether an instruction computes or transfers, and its registers exist. A load that fills
/// no register is left out: compiled code skips it, and so misses its faults.
pub open spec fn followable(op: MicroOp) -> bool {
    &&& decoded(op) is Some
    &&& decoded(op).unwrap().wf()
    &&& load_parts(op) is Some ==> load_parts(op).unwrap().0 != 0
}

/// That a machine holds the registers of a hart, and its host what the hart sees of memory.
/// Neither a trap nor an interrupt is told.
pub open spec fn mirrors(m: Machine, s: HartState, bus: SystemState) -> bool {
    &&& ready(m)
    &&& untroubled(m)
    &&& !interrupted(m)
    &&& registers_agree(m, s)
    &&& m.host.bus() == bus
    &&& m.host.tlb() == s.tlb
    &&& m.host.mode() == s.mode
    &&& m.host.satp() == s.csrs[CSR_SATP as int]
    &&& m.host.mstatus() == s.csrs[CSR_MSTATUS as int]
}

/// The machine after an instruction that computes or transfers, and succeeds.
pub open spec fn after_one(op: MicroOp, base_pc: u64, m: Machine) -> Machine {
    if load_parts(op) is Some {
        loaded(op, m)
    } else if store_parts(op) is Some {
        stored_away(op, m)
    } else {
        after_op(op, base_pc, m)
    }
}

/// Whether the program counter stands where an instruction that uses it was compiled for.
pub open spec fn in_place(op: MicroOp, base_pc: u64, s: HartState) -> bool {
    match op {
        MicroOp::Auipc { pc_offset, .. } => s.pc == base_pc.wrapping_add(pc_offset as u64),
        _ => true,
    }
}

/// Sums of signed numbers are those of unsigned ones.
pub proof fn lemma_sums(a: u64, b: u16, c: i64)
    ensures
        (a as i64).wrapping_add(b as i64).wrapping_add(c) as u64 == a.wrapping_add(
            b as u64,
        ).wrapping_add(c as u64),
{
    lemma_signs(a, c);
    let x = a as i64;
    let y = x.wrapping_add(b as i64);
    let z = y.wrapping_add(c);
    lemma_signs(0, z);
}

proof fn lemma_signs(a: u64, c: i64)
    by (bit_vector)
    ensures
        a as i64 == (if a < 0x8000_0000_0000_0000 {
            a as int
        } else {
            a - 0x1_0000_0000_0000_0000
        }),
        c as u64 == (if c >= 0 {
            c as int
        } else {
            c + 0x1_0000_0000_0000_0000
        }),
{
}

/// That a machine holds the registers of a hart.
pub open spec fn registers_agree(m: Machine, s: HartState) -> bool {
    &&& s.regs.len() == 32
    &&& forall|i: u8| i < 32 ==> #[trigger] reg(m, i) == s.regs[i as int]
}

/// That the interpreter completes an instruction with the value that compiled code computes.
spec fn computes_as(op: MicroOp, m: Machine, s: HartState, insn: Insn) -> bool {
    &&& destination(op) < 32
    &&& begun(s, insn, decoded(op).unwrap()) == result_in(
        s,
        insn,
        destination(op),
        interpreted(op, m)->0,
    )
}

/// An operation with a constant: what the interpreter makes of it.
proof fn lemma_interpreted_imm(op: MicroOp, m: Machine, s: HartState, insn: Insn)
    requires
        registers_agree(m, s),
        followable(op),
        interpreted(op, m) is Some,
        op is Addi || op is Slti || op is Sltiu || op is Xori || op is Ori || op is Andi || op is Slli || op is Srli || op is Srai || op is Addiw || op is Slliw || op is Srliw || op is Sraiw,
    ensures
        computes_as(op, m, s, insn),
{
    match op {
        MicroOp::Addi { rd, rs1, .. } => {
            assert(reg(m, rs1) == s.regs[rs1 as int]);
            assert(destination(op) == rd);
        },
        MicroOp::Slti { rd, rs1, .. } => {
            assert(reg(m, rs1) == s.regs[rs1 as int]);
            assert(destination(op) == rd);
        },
        MicroOp::Sltiu { rd, rs1, .. } => {
            assert(reg(m, rs1) == s.regs[rs1 as int]);
            assert(destination(op) == rd);
        },
        MicroOp::Xori { rd, rs1, .. } => {
            assert(reg(m, rs1) == s.regs[rs1 as int]);
            assert(destination(op) == rd);
        },
        MicroOp::Ori { rd, rs1, .. } => {
            assert(reg(m, rs1) == s.regs[rs1 as int]);
            assert(destination(op) == rd);
        },
        MicroOp::Andi { rd, rs1, .. } => {
            assert(reg(m, rs1) == s.regs[rs1 as int]);
            assert(destination(op) == rd);
        },
        MicroOp::Slli { rd, rs1, .. } => {
            assert(reg(m, rs1) == s.regs[rs1 as int]);
            assert(destination(op) == rd);
        },
        MicroOp::Srli { rd, rs1, .. } => {
            assert(reg(m, rs1) == s.regs[rs1 as int]);
            assert(destination(op) == rd);
        },
        MicroOp::Srai { rd, rs1, .. } => {
            assert(reg(m, rs1) == s.regs[rs1 as int]);
            assert(destination(op) == rd);
        },
        MicroOp::Addiw { rd, rs1, .. } => {
            assert(reg(m, rs1) == s.regs[rs1 as int]);
            assert(destination(op) == rd);
        },
        MicroOp::Slliw { rd, rs1, .. } => {
            assert(reg(m, rs1) == s.regs[rs1 as int]);
            assert(destination(op) == rd);
        },
        MicroOp::Srliw { rd, rs1, .. } => {
            assert(reg(m, rs1) == s.regs[rs1 as int]);
            assert(destination(op) == rd);
        },
        MicroOp::Sraiw { rd, rs1, .. } => {
            assert(reg(m, rs1) == s.regs[rs1 as int]);
            assert(destination(op) == rd);
        },
        _ => {},
    }
}

/// An operation on two registers: what the interpreter makes of it.
proof fn lemma_interpreted_reg(op: MicroOp, m: Machine, s: HartState, insn: Insn)
    requires
        registers_agree(m, s),
        followable(op),
        interpreted(op, m) is Some,
        op is Add || op is Sub || op is Sll || op is Slt || op is Sltu || op is Xor || op is Srl || op is Sra || op is Or || op is And || op is Mul || op is Div || op is Divu || op is Rem || op is Remu,
    ensures
        computes_as(op, m, s, insn),
{
    match op {
        MicroOp::Add { rd, rs1, rs2 } => {
            assert(reg(m, rs1) == s.regs[rs1 as int]);
            assert(reg(m, rs2) == s.regs[rs2 as int]);
            assert(destination(op) == rd);
        },
        MicroOp::Sub { rd, rs1, rs2 } => {
            assert(reg(m, rs1) == s.regs[rs1 as int]);
            assert(reg(m, rs2) == s.regs[rs2 as int]);
            assert(destination(op) == rd);
        },
        MicroOp::Sll { rd, rs1, rs2 } => {
            assert(reg(m, rs1) == s.regs[rs1 as int]);
            assert(reg(m, rs2) == s.regs[rs2 as int]);
            assert(destination(op) == rd);
        },
        MicroOp::Slt { rd, rs1, rs2 } => {
            assert(reg(m, rs1) == s.regs[rs1 as int]);
            assert(reg(m, rs2) == s.regs[rs2 as int]);
            assert(destination(op) == rd);
        },
        MicroOp::Sltu { rd, rs1, rs2 } => {
            assert(reg(m, rs1) == s.regs[rs1 as int]);
            assert(reg(m, rs2) == s.regs[rs2 as int]);
            assert(destination(op) == rd);
        },
        MicroOp::Xor { rd, rs1, rs2 } => {
            assert(reg(m, rs1) == s.regs[rs1 as int]);
            assert(reg(m, rs2) == s.regs[rs2 as int]);
            assert(destination(op) == rd);
        },
        MicroOp::Srl { rd, rs1, rs2 } => {
            assert(reg(m, rs1) == s.regs[rs1 as int]);
            assert(reg(m, rs2) == s.regs[rs2 as int]);
            assert(destination(op) == rd);
        },
        MicroOp::Sra { rd, rs1, rs2 } => {
            assert(reg(m, rs1) == s.regs[rs1 as int]);
            assert(reg(m, rs2) == s.regs[rs2 as int]);
            assert(destination(op) == rd);
        },
        MicroOp::Or { rd, rs1, rs2 } => {
            assert(reg(m, rs1) == s.regs[rs1 as int]);
            assert(reg(m, rs2) == s.regs[rs2 as int]);
            assert(destination(op) == rd);
        },
        MicroOp::And { rd, rs1, rs2 } => {
            assert(reg(m, rs1) == s.regs[rs1 as int]);
            assert(reg(m, rs2) == s.regs[rs2 as int]);
            assert(destination(op) == rd);
        },
        MicroOp::Mul { rd, rs1, rs2 } => {
            assert(reg(m, rs1) == s.regs[rs1 as int]);
            assert(reg(m, rs2) == s.regs[rs2 as int]);
            assert(destination(op) == rd);
        },
        MicroOp::Div { rd, rs1, rs2 } => {
            assert(reg(m, rs1) == s.regs[rs1 as int]);
            assert(reg(m, rs2) == s.regs[rs2 as int]);
            assert(destination(op) == rd);
        },
        MicroOp::Divu { rd, rs1, rs2 } => {
            assert(reg(m, rs1) == s.regs[rs1 as int]);
            assert(reg(m, rs2) == s.regs[rs2 as int]);
            assert(destination(op) == rd);
        },
        MicroOp::Rem { rd, rs1, rs2 } => {
            assert(reg(m, rs1) == s.regs[rs1 as int]);
            assert(reg(m, rs2) == s.regs[rs2 as int]);
            assert(destination(op) == rd);
        },
        MicroOp::Remu { rd, rs1, rs2 } => {
            assert(reg(m, rs1) == s.regs[rs1 as int]);
            assert(reg(m, rs2) == s.regs[rs2 as int]);
            assert(destination(op) == rd);
        },
        _ => {},
    }
}

/// An operation on two words: what the interpreter makes of it.
proof fn lemma_interpreted_words(op: MicroOp, m: Machine, s: HartState, insn: Insn)
    requires
        registers_agree(m, s),
        followable(op),
        interpreted(op, m) is Some,
        op is Addw || op is Subw || op is Sllw || op is Srlw || op is Sraw || op is Mulw || op is Divw || op is Divuw || op is Remw || op is Remuw,
    ensures
        computes_as(op, m, s, insn),
{
    match op {
        MicroOp::Addw { rd, rs1, rs2 } => {
            assert(reg(m, rs1) == s.regs[rs1 as int]);
            assert(reg(m, rs2) == s.regs[rs2 as int]);
            assert(destination(op) == rd);
        },
        MicroOp::Subw { rd, rs1, rs2 } => {
            assert(reg(m, rs1) == s.regs[rs1 as int]);
            assert(reg(m, rs2) == s.regs[rs2 as int]);
            assert(destination(op) == rd);
        },
        MicroOp::Sllw { rd, rs1, rs2 } => {
            assert(reg(m, rs1) == s.regs[rs1 as int]);
            assert(reg(m, rs2) == s.regs[rs2 as int]);
            assert(destination(op) == rd);
        },
        MicroOp::Srlw { rd, rs1, rs2 } => {
            assert(reg(m, rs1) == s.regs[rs1 as int]);
            assert(reg(m, rs2) == s.regs[rs2 as int]);
            assert(destination(op) == rd);
        },
        MicroOp::Sraw { rd, rs1, rs2 } => {
            assert(reg(m, rs1) == s.regs[rs1 as int]);
            assert(reg(m, rs2) == s.regs[rs2 as int]);
            assert(destination(op) == rd);
        },
        MicroOp::Mulw { rd, rs1, rs2 } => {
            assert(reg(m, rs1) == s.regs[rs1 as int]);
            assert(reg(m, rs2) == s.regs[rs2 as int]);
            assert(destination(op) == rd);
        },
        MicroOp::Divw { rd, rs1, rs2 } => {
            assert(reg(m, rs1) == s.regs[rs1 as int]);
            assert(reg(m, rs2) == s.regs[rs2 as int]);
            assert(destination(op) == rd);
        },
        MicroOp::Divuw { rd, rs1, rs2 } => {
            assert(reg(m, rs1) == s.regs[rs1 as int]);
            assert(reg(m, rs2) == s.regs[rs2 as int]);
            assert(destination(op) == rd);
        },
        MicroOp::Remw { rd, rs1, rs2 } => {
            assert(reg(m, rs1) == s.regs[rs1 as int]);
            assert(reg(m, rs2) == s.regs[rs2 as int]);
            assert(destination(op) == rd);
        },
        MicroOp::Remuw { rd, rs1, rs2 } => {
            assert(reg(m, rs1) == s.regs[rs1 as int]);
            assert(reg(m, rs2) == s.regs[rs2 as int]);
            assert(destination(op) == rd);
        },
        _ => {},
    }
}

/// Instructions that neither transfer nor come from nowhere compute a value, and name
/// registers that exist.
proof fn lemma_computation(op: MicroOp)
    requires
        followable(op),
        load_parts(op) is None,
        store_parts(op) is None,
    ensures
        only_computes(op),
        names_registers(op),
{
    match op {
        MicroOp::Lui { .. } => {},
        MicroOp::Auipc { .. } => {},
        _ => {
            assert(value_code(op) is Some);
        },
    }
}

/// An instruction that computes: what the interpreter makes of it.
proof fn lemma_interpreted_computation(
    op: MicroOp,
    base_pc: u64,
    m: Machine,
    s: HartState,
    insn: Insn,
)
    requires
        ready(m),
        registers_agree(m, s),
        followable(op),
        load_parts(op) is None,
        store_parts(op) is None,
        in_place(op, base_pc, s),
    ensures
        only_computes(op),
        names_registers(op),
        destination(op) < 32,
        begun(s, insn, decoded(op).unwrap()) == result_in(
            s,
            insn,
            destination(op),
            result_of(op, base_pc, m),
        ),
{
    lemma_computation(op);
    match op {
        MicroOp::Lui { .. } => {},
        MicroOp::Auipc { pc_offset, imm, .. } => {
            lemma_sums(base_pc, pc_offset, imm);
        },
        MicroOp::Addi { .. }
        | MicroOp::Slti { .. }
        | MicroOp::Sltiu { .. }
        | MicroOp::Xori { .. }
        | MicroOp::Ori { .. }
        | MicroOp::Andi { .. }
        | MicroOp::Slli { .. }
        | MicroOp::Srli { .. }
        | MicroOp::Srai { .. }
        | MicroOp::Addiw { .. }
        | MicroOp::Slliw { .. }
        | MicroOp::Srliw { .. }
        | MicroOp::Sraiw { .. } => {
            lemma_value(op, m, Seq::empty());
            lemma_interpreted_imm(op, m, s, insn);
        },
        MicroOp::Add { .. }
        | MicroOp::Sub { .. }
        | MicroOp::Sll { .. }
        | MicroOp::Slt { .. }
        | MicroOp::Sltu { .. }
        | MicroOp::Xor { .. }
        | MicroOp::Srl { .. }
        | MicroOp::Sra { .. }
        | MicroOp::Or { .. }
        | MicroOp::And { .. }
        | MicroOp::Mul { .. }
        | MicroOp::Div { .. }
        | MicroOp::Divu { .. }
        | MicroOp::Rem { .. }
        | MicroOp::Remu { .. } => {
            lemma_value(op, m, Seq::empty());
            lemma_interpreted_reg(op, m, s, insn);
        },
        _ => {
            lemma_value(op, m, Seq::empty());
            lemma_interpreted_words(op, m, s, insn);
        },
    }
}

/// The number of a fault of memory.
pub open spec fn cause_of(trap: Trap) -> u32 {
    match trap {
        Trap::LoadPageFault(_) => trap_codes::LOAD_PAGE_FAULT,
        Trap::LoadAccessFault(_) => trap_codes::LOAD_ACCESS_FAULT,
        Trap::StorePageFault(_) => trap_codes::STORE_PAGE_FAULT,
        Trap::StoreAccessFault(_) => trap_codes::STORE_ACCESS_FAULT,
        _ => trap_codes::NONE,
    }
}

/// That the interpreter ends a transfer at `vaddr` in the fault that `code` numbers. A
/// translation fails at `vaddr` itself, and memory at the physical address behind it.
pub open spec fn ends_as(
    step: Step,
    code: u32,
    s: HartState,
    bus: SystemState,
    vaddr: u64,
    access: AccessType,
) -> bool {
    match step {
        Step::Abort(trap) => code == cause_of(trap) && trap == trap_of(s.mode, code, vaddr),
        Step::Raise(trap) => code == cause_of(trap) && (translation(
            bus,
            s.tlb,
            s.mode,
            s.csrs[CSR_SATP as int],
            s.csrs[CSR_MSTATUS as int],
            vaddr,
            access,
        ).1 matches Ok(pa) && trap == trap_of(s.mode, code, pa)),
        _ => false,
    }
}

/// The address of a transfer.
pub open spec fn transfer_address(op: MicroOp, s: HartState) -> u64 {
    if load_parts(op) is Some {
        s.regs[load_parts(op).unwrap().1 as int].wrapping_add(load_parts(op).unwrap().2 as u64)
    } else {
        s.regs[store_parts(op).unwrap().0 as int].wrapping_add(store_parts(op).unwrap().2 as u64)
    }
}

/// What a transfer uses its address for.
pub open spec fn transfer_access(op: MicroOp) -> AccessType {
    if load_parts(op) is Some {
        AccessType::Load
    } else {
        AccessType::Store
    }
}

/// That the shared memory tells the fault in which the interpreter ends a transfer: its
/// number, and the address of the transfer.
pub open spec fn tells_fault(
    shared: Seq<u8>,
    op: MicroOp,
    s: HartState,
    bus: SystemState,
    step: Step,
) -> bool {
    let vaddr = transfer_address(op, s);
    let code = fault_code(step);
    tells_trap(shared, code, vaddr) && ends_as(step, code, s, bus, vaddr, transfer_access(op))
}

/// The number of the fault in which an instruction ends.
pub open spec fn fault_code(step: Step) -> u32 {
    match step {
        Step::Abort(trap) => cause_of(trap),
        Step::Raise(trap) => cause_of(trap),
        _ => trap_codes::NONE,
    }
}

/// The register that a transfer loses where it fails, and `x0` where it loses none: the code
/// of a load fills its register before it looks for a trap.
pub open spec fn lost_register(op: MicroOp) -> u8 {
    if load_parts(op) is Some {
        load_parts(op).unwrap().0
    } else {
        0
    }
}

/// That a machine stopped at a transfer as the interpreter did: it returned the place of the
/// transfer and tells its fault, memory and translations are those of the interpreter, and so
/// are the registers, but for the one that a load was to fill.
pub open spec fn stopped_as(
    ran: Machine,
    op: MicroOp,
    s: HartState,
    bus: SystemState,
    done: (HartState, SystemState, Step),
) -> bool {
    let (next, after, step) = done;
    let lost = lost_register(op);
    &&& ran.ended == Some(
        Ended::Returned(exit_value(exit_codes::EXIT_TRAP, place_of(op) as u32) as u64),
    )
    &&& holds_state(ran.mem)
    &&& tells_fault(ran.mem, op, s, bus, step)
    &&& ran.host.bus() == after
    &&& ran.host.tlb() == next.tlb
    &&& forall|i: u8|
        i < 32 && (i != lost || lost == 0) ==> #[trigger] reg(ran, i) == next.regs[i as int]
}

/// What the interpreter makes of a load.
proof fn lemma_interpreted_load(
    s: HartState,
    mask: u64,
    bus: SystemState,
    insn: Insn,
    rd: u8,
    rs1: u8,
    imm: i64,
    kind: u8,
)
    requires
        kind <= 6,
    ensures
        ({
            let vaddr = s.regs[rs1 as int].wrapping_add(imm as u64);
            let (tlb, (value, ok)) = mmu_read(
                bus,
                s.tlb,
                s.mode,
                s.csrs[CSR_SATP as int],
                s.csrs[CSR_MSTATUS as int],
                vaddr,
                alu::load_size(kind).unwrap(),
            );
            let done = executed(s, mask, bus, insn, Op::Load { rd, rs1, imm, funct3: kind });
            let (after, step) = result_in(
                HartState { tlb, ..s },
                insn,
                rd,
                alu::load_value(kind, value),
            );
            &&& ok ==> done == (after, bus, step)
            &&& !ok ==> done.0 == (HartState { tlb, ..s }) && done.1 == bus && ends_as(
                done.2,
                value as u32,
                s,
                bus,
                vaddr,
                AccessType::Load,
            )
        }),
{
    reveal_with_fuel(carried_on, 3);
    lemma_translation_faults(
        bus,
        s.tlb,
        s.mode,
        s.csrs[CSR_SATP as int],
        s.csrs[CSR_MSTATUS as int],
        s.regs[rs1 as int].wrapping_add(imm as u64),
        AccessType::Load,
    );
}

/// What the interpreter makes of a store.
proof fn lemma_interpreted_store(
    s: HartState,
    mask: u64,
    bus: SystemState,
    insn: Insn,
    rs1: u8,
    rs2: u8,
    imm: i64,
    kind: u8,
)
    requires
        kind <= 3,
    ensures
        ({
            let vaddr = s.regs[rs1 as int].wrapping_add(imm as u64);
            let (tlb, after, (code, ok)) = mmu_write(
                bus,
                s.tlb,
                s.mode,
                s.csrs[CSR_SATP as int],
                s.csrs[CSR_MSTATUS as int],
                vaddr,
                alu::store_size(kind).unwrap(),
                s.regs[rs2 as int],
            );
            let done = executed(s, mask, bus, insn, Op::Store { rs1, rs2, imm, funct3: kind });
            &&& done.1 == after
            &&& ok ==> done.2 == Step::Retire(Effect::Nothing) && done.0.regs == s.regs
                && done.0.tlb == tlb && done.0.mode == s.mode && done.0.csrs == s.csrs
            &&& !ok ==> done.0.regs == s.regs && done.0.tlb == tlb && ends_as(
                done.2,
                code,
                s,
                bus,
                vaddr,
                AccessType::Store,
            )
        }),
{
    reveal_with_fuel(carried_on, 3);
    lemma_translation_faults(
        bus,
        s.tlb,
        s.mode,
        s.csrs[CSR_SATP as int],
        s.csrs[CSR_MSTATUS as int],
        s.regs[rs1 as int].wrapping_add(imm as u64),
        AccessType::Store,
    );
}

/// The place of a transfer in its block.
pub open spec fn place_of(op: MicroOp) -> u16 {
    if load_parts(op) is Some {
        load_parts(op).unwrap().3
    } else {
        store_parts(op).unwrap().3
    }
}

/// A compiled instruction on a machine that mirrors a hart does what the interpreter does
/// with the hart. Where the interpreter completes it, the code goes on, and the machine
/// mirrors the hart again; where the interpreter ends in a trap, the code returns with the
/// place of the instruction, and the shared memory tells that trap. Reservations have no
/// mirror image.
#[verifier::spinoff_prover]
#[verifier::rlimit(40)]
pub proof fn law_compiled_instruction_follows_the_interpreter(
    op: MicroOp,
    base_pc: u64,
    m: Machine,
    s: HartState,
    mask: u64,
    bus: SystemState,
    insn: Insn,
    rest: Code,
)
    requires
        mirrors(m, s, bus),
        followable(op),
        in_place(op, base_pc, s),
    ensures
        op_code(op, base_pc) is Some,
        ({
            let (next, after, step) = executed(s, mask, bus, insn, decoded(op).unwrap());
            let ran = run(op_code(op, base_pc).unwrap() + rest, m);
            &&& step is Retire ==> {
                &&& step == Step::Retire(Effect::Nothing)
                &&& ran == run(rest, after_one(op, base_pc, m))
                &&& mirrors(after_one(op, base_pc, m), next, after)
                &&& after_one(op, base_pc, m).stack == m.stack
            }
            &&& !(step is Retire) ==> stopped_as(ran, op, s, bus, (next, after, step))
        }),
{
    if load_parts(op) is Some {
        let (rd, rs1, imm, place, kind) = load_parts(op).unwrap();
        assert(reg(m, rs1) == s.regs[rs1 as int]);
        lemma_interpreted_load(s, mask, bus, insn, rd, rs1, imm, kind);
        law_compiled_load(op, base_pc, m, rest);
        let (tlb, (value, ok)) = m.host.load(
            address_of(m, rs1, imm),
            alu::load_size(kind).unwrap(),
        );
        if ok {
            lemma_host_with(m.host, tlb, bus);
            let base = Machine { host: m.host.with(tlb, bus), ..m };
            lemma_filled(base, m, rd, alu::load_value(kind, value));
            let (next, _, _) = executed(s, mask, bus, insn, decoded(op).unwrap());
            assert(registers_agree(loaded(op, m), next)) by {
                assert forall|i: u8| i < 32 implies #[trigger] reg(loaded(op, m), i)
                    == next.regs[i as int] by {
                    assert(reg(m, i) == s.regs[i as int]);
                }
            }
        }
    } else if store_parts(op) is Some {
        let (rs1, rs2, imm, place, kind) = store_parts(op).unwrap();
        assert(reg(m, rs1) == s.regs[rs1 as int]);
        assert(reg(m, rs2) == s.regs[rs2 as int]);
        lemma_interpreted_store(s, mask, bus, insn, rs1, rs2, imm, kind);
        law_compiled_store(op, base_pc, m, rest);
        let (tlb, kept, (code, ok)) = m.host.store(
            address_of(m, rs1, imm),
            alu::store_size(kind).unwrap(),
            reg(m, rs2),
        );
        if ok {
            lemma_host_with(m.host, tlb, kept);
            let (next, _, _) = executed(s, mask, bus, insn, decoded(op).unwrap());
            assert(registers_agree(stored_away(op, m), next)) by {
                assert forall|i: u8| i < 32 implies #[trigger] reg(stored_away(op, m), i)
                    == next.regs[i as int] by {
                    assert(reg(m, i) == s.regs[i as int]);
                }
            }
        }
    } else {
        lemma_interpreted_computation(op, base_pc, m, s, insn);
        law_compiled_instruction_computes(op, base_pc, m, rest);
        law_compiled_instruction_writes_one_register(op, base_pc, m);
        let after = after_op(op, base_pc, m);
        let rd = destination(op);
        lemma_flags_apart(after, m, rd);
        let (next, _, _) = executed(s, mask, bus, insn, decoded(op).unwrap());
        assert(registers_agree(after, next)) by {
            assert forall|i: u8| i < 32 implies #[trigger] reg(after, i) == next.regs[i as int] by {
                assert(reg(m, i) == s.regs[i as int]);
            }
        }
    }
}

/// A change of a register leaves alone whether a trap or an interrupt is told.
proof fn lemma_flags_apart(after: Machine, m: Machine, rd: u8)
    requires
        ready(m),
        rd < 32,
        bytes::same_but(after.mem, m.mem, state_place(0) + rd * 8, 8),
    ensures
        untroubled(after) == untroubled(m),
        interrupted(after) == interrupted(m),
{
    bytes::lemma_number_agrees(after.mem, m.mem, state_place(offsets::TRAP_PENDING), 4);
    bytes::lemma_number_agrees(after.mem, m.mem, state_place(offsets::INTERRUPT_PENDING), 4);
}

/// A register that is filled through a local: all else stays.
proof fn lemma_filled(base: Machine, m: Machine, rd: u8, v: u64)
    requires
        ready(m),
        base.mem == m.mem,
        base.ended is None,
        0 < rd < 32,
    ensures
        ready(stored(base, rd, v)),
        untroubled(stored(base, rd, v)) == untroubled(m),
        interrupted(stored(base, rd, v)) == interrupted(m),
        reg(stored(base, rd, v), rd) == v,
        forall|i: u8| i < 32 && i != rd ==> #[trigger] reg(stored(base, rd, v), i) == reg(m, i),
{
    let kept = Machine { locals: base.locals.insert(VALUE_LOCAL, v), ..base };
    lemma_with_register(kept, rd, v);
    lemma_flags_apart(stored(base, rd, v), m, rd);
    assert forall|i: u8| i < 32 && i != rd implies #[trigger] reg(stored(base, rd, v), i) == reg(
        m,
        i,
    ) by {
        assert(reg(with_register(kept, rd, v), i) == reg(kept, i));
    }
}

// Blocks.

/// A hart and its memory after the interpreter executed the first `n` instructions of a
/// block, which were fetched as `insns`.
pub open spec fn followed(
    code: Seq<MicroOp>,
    insns: Seq<Insn>,
    s: HartState,
    mask: u64,
    bus: SystemState,
    n: nat,
) -> (HartState, SystemState)
    decreases n,
{
    if n == 0 {
        (s, bus)
    } else {
        let (t, kept) = followed(code, insns, s, mask, bus, (n - 1) as nat);
        let (next, after, _) = executed(
            t,
            mask,
            kept,
            insns[n - 1],
            decoded(code[n - 1]).unwrap(),
        );
        (next, after)
    }
}

/// Whether the interpreter completes instruction `i`, after those before it.
pub open spec fn completes(
    code: Seq<MicroOp>,
    insns: Seq<Insn>,
    s: HartState,
    mask: u64,
    bus: SystemState,
    i: int,
) -> bool {
    let (t, kept) = followed(code, insns, s, mask, bus, i as nat);
    executed(t, mask, kept, insns[i], decoded(code[i]).unwrap()).2 is Retire
}

/// Whether instruction `i` computes or transfers, and stands where it was compiled for.
pub open spec fn follows_on(
    code: Seq<MicroOp>,
    insns: Seq<Insn>,
    base_pc: u64,
    s: HartState,
    mask: u64,
    bus: SystemState,
    i: int,
) -> bool {
    &&& followable(code[i])
    &&& in_place(code[i], base_pc, followed(code, insns, s, mask, bus, i as nat).0)
}

/// The machine after the first `n` instructions of a block, which all succeed.
pub open spec fn after_all(code: Seq<MicroOp>, base_pc: u64, m: Machine, n: nat) -> Machine
    decreases n,
{
    if n == 0 {
        m
    } else {
        after_one(code[n - 1], base_pc, after_all(code, base_pc, m, (n - 1) as nat))
    }
}

/// The compiled code of instructions that the interpreter completes goes on to what follows
/// with a machine that mirrors the hart after these instructions.
#[verifier::spinoff_prover]
pub proof fn law_compiled_code_follows_the_interpreter(
    config: JitConfig,
    code: Seq<MicroOp>,
    insns: Seq<Insn>,
    base_pc: u64,
    m: Machine,
    s: HartState,
    mask: u64,
    bus: SystemState,
    n: nat,
    rest: Code,
)
    requires
        mirrors(m, s, bus),
        n <= code.len(),
        forall|i: int|
            0 <= i < n ==> #[trigger] follows_on(code, insns, base_pc, s, mask, bus, i),
        forall|i: int| 0 <= i < n ==> #[trigger] completes(code, insns, s, mask, bus, i),
    ensures
        codegen::prefix_code(config, code, base_pc, n) is Some,
        run(codegen::prefix_code(config, code, base_pc, n).unwrap() + rest, m) == run(
            rest,
            after_all(code, base_pc, m, n),
        ),
        mirrors(
            after_all(code, base_pc, m, n),
            followed(code, insns, s, mask, bus, n).0,
            followed(code, insns, s, mask, bus, n).1,
        ),
        after_all(code, base_pc, m, n).stack == m.stack,
    decreases n,
{
    if n == 0 {
        assert(codegen::prefix_code(config, code, base_pc, n).unwrap() + rest =~= rest);
    } else {
        let i = (n - 1) as int;
        let k = (n - 1) as nat;
        let op = code[i];
        assert(follows_on(code, insns, base_pc, s, mask, bus, i));
        assert(completes(code, insns, s, mask, bus, i));
        let before = after_all(code, base_pc, m, k);
        let (t, kept) = followed(code, insns, s, mask, bus, k);
        let asked = codegen::checks_interrupts(config, code.len(), i, op);
        let place = codegen::op_place(op, i);
        let check: Code = if asked {
            codegen::interrupt_check(place)
        } else {
            Seq::empty()
        };
        law_compiled_code_follows_the_interpreter(
            config,
            code,
            insns,
            base_pc,
            m,
            s,
            mask,
            bus,
            k,
            check + (op_code(op, base_pc).unwrap() + rest),
        );
        law_compiled_instruction_follows_the_interpreter(
            op,
            base_pc,
            before,
            t,
            mask,
            kept,
            insns[i],
            rest,
        );
        let own = op_code(op, base_pc).unwrap();
        let prefix = codegen::prefix_code(config, code, base_pc, k).unwrap();
        lemma_grouping(prefix, check, own, rest);
        lemma_optional_check(asked, place, before, own + rest);
    }
}

/// A compiled block whose instructions the interpreter completes leaves a machine that
/// mirrors the hart after the block, and a value that tells the length of the block.
pub proof fn law_compiled_block_follows_the_interpreter(
    config: JitConfig,
    code: Seq<MicroOp>,
    insns: Seq<Insn>,
    base_pc: u64,
    byte_len: u16,
    m: Machine,
    s: HartState,
    mask: u64,
    bus: SystemState,
)
    requires
        mirrors(m, s, bus),
        forall|i: int|
            0 <= i < code.len() ==> #[trigger] follows_on(code, insns, base_pc, s, mask, bus, i),
        forall|i: int| 0 <= i < code.len() ==> #[trigger] completes(code, insns, s, mask, bus, i),
    ensures
        codegen::block_code(config, code, base_pc, byte_len) is Some,
        run(codegen::block_code(config, code, base_pc, byte_len).unwrap(), m) == pushed(
            after_all(code, base_pc, m, code.len()),
            exit_value(exit_codes::EXIT_NORMAL, byte_len as u32) as u64,
        ),
        mirrors(
            after_all(code, base_pc, m, code.len()),
            followed(code, insns, s, mask, bus, code.len()).0,
            followed(code, insns, s, mask, bus, code.len()).1,
        ),
{
    let end = const64(exit_value(exit_codes::EXIT_NORMAL, byte_len as u32));
    let last = after_all(code, base_pc, m, code.len());
    law_compiled_code_follows_the_interpreter(
        config,
        code,
        insns,
        base_pc,
        m,
        s,
        mask,
        bus,
        code.len(),
        end,
    );
    lemma_const64(exit_value(exit_codes::EXIT_NORMAL, byte_len as u32), last);
    lemma_plain(end, Seq::empty(), last);
    assert(end + Seq::<Instruction>::empty() =~= end);
}

/// Where the interpreter completes the first `n` instructions of a block and ends in a trap
/// at the next, the compiled code up to that instruction stops as the interpreter does,
/// whatever follows it: it returns with the place of the instruction, the shared memory tells
/// the trap, and memory is that of the interpreter.
#[verifier::spinoff_prover]
pub proof fn law_compiled_code_stops_where_the_interpreter_traps(
    config: JitConfig,
    code: Seq<MicroOp>,
    insns: Seq<Insn>,
    base_pc: u64,
    m: Machine,
    s: HartState,
    mask: u64,
    bus: SystemState,
    n: nat,
    rest: Code,
)
    requires
        mirrors(m, s, bus),
        n < code.len(),
        forall|i: int|
            0 <= i <= n ==> #[trigger] follows_on(code, insns, base_pc, s, mask, bus, i),
        forall|i: int| 0 <= i < n ==> #[trigger] completes(code, insns, s, mask, bus, i),
        !completes(code, insns, s, mask, bus, n as int),
    ensures
        codegen::prefix_code(config, code, base_pc, n + 1) is Some,
        ({
            let ran = run(
                codegen::prefix_code(config, code, base_pc, n + 1).unwrap() + rest,
                m,
            );
            let (t, kept) = followed(code, insns, s, mask, bus, n);
            let op = code[n as int];
            stopped_as(
                ran,
                op,
                t,
                kept,
                executed(t, mask, kept, insns[n as int], decoded(op).unwrap()),
            )
        }),
{
    let i = n as int;
    let op = code[i];
    assert(follows_on(code, insns, base_pc, s, mask, bus, i));
    let before = after_all(code, base_pc, m, n);
    let (t, kept) = followed(code, insns, s, mask, bus, n);
    let asked = codegen::checks_interrupts(config, code.len(), i, op);
    let place = codegen::op_place(op, i);
    let check: Code = if asked {
        codegen::interrupt_check(place)
    } else {
        Seq::empty()
    };
    law_compiled_code_follows_the_interpreter(
        config,
        code,
        insns,
        base_pc,
        m,
        s,
        mask,
        bus,
        n,
        check + (op_code(op, base_pc).unwrap() + rest),
    );
    law_compiled_instruction_follows_the_interpreter(
        op,
        base_pc,
        before,
        t,
        mask,
        kept,
        insns[i],
        rest,
    );
    let own = op_code(op, base_pc).unwrap();
    let prefix = codegen::prefix_code(config, code, base_pc, n).unwrap();
    lemma_grouping(prefix, check, own, rest);
    lemma_optional_check(asked, place, before, own + rest);
}

} // verus!
