//! Pre-decoded instructions.

use vstd::prelude::*;

verus! {

/// One RISC-V instruction, decoded. `pc_offset` is the distance of the instruction
/// from the start of its block, and `insn_len` its length, both in bytes.
#[derive(Debug, Clone, Copy, PartialEq, Eq, Structural)]
#[allow(inconsistent_fields)]
pub enum MicroOp {
    // Register-immediate arithmetic.
    Addi { rd: u8, rs1: u8, imm: i64 },
    Xori { rd: u8, rs1: u8, imm: i64 },
    Ori { rd: u8, rs1: u8, imm: i64 },
    Andi { rd: u8, rs1: u8, imm: i64 },
    Slti { rd: u8, rs1: u8, imm: i64 },
    Sltiu { rd: u8, rs1: u8, imm: i64 },
    Slli { rd: u8, rs1: u8, shamt: u8 },
    Srli { rd: u8, rs1: u8, shamt: u8 },
    Srai { rd: u8, rs1: u8, shamt: u8 },
    // Register-register arithmetic.
    Add { rd: u8, rs1: u8, rs2: u8 },
    Sub { rd: u8, rs1: u8, rs2: u8 },
    Xor { rd: u8, rs1: u8, rs2: u8 },
    Or { rd: u8, rs1: u8, rs2: u8 },
    And { rd: u8, rs1: u8, rs2: u8 },
    Sll { rd: u8, rs1: u8, rs2: u8 },
    Srl { rd: u8, rs1: u8, rs2: u8 },
    Sra { rd: u8, rs1: u8, rs2: u8 },
    Slt { rd: u8, rs1: u8, rs2: u8 },
    Sltu { rd: u8, rs1: u8, rs2: u8 },
    // 32-bit arithmetic.
    Addiw { rd: u8, rs1: u8, imm: i32 },
    Slliw { rd: u8, rs1: u8, shamt: u8 },
    Srliw { rd: u8, rs1: u8, shamt: u8 },
    Sraiw { rd: u8, rs1: u8, shamt: u8 },
    Addw { rd: u8, rs1: u8, rs2: u8 },
    Subw { rd: u8, rs1: u8, rs2: u8 },
    Sllw { rd: u8, rs1: u8, rs2: u8 },
    Srlw { rd: u8, rs1: u8, rs2: u8 },
    Sraw { rd: u8, rs1: u8, rs2: u8 },
    // Multiplication and division.
    Mul { rd: u8, rs1: u8, rs2: u8 },
    Mulh { rd: u8, rs1: u8, rs2: u8 },
    Mulhsu { rd: u8, rs1: u8, rs2: u8 },
    Mulhu { rd: u8, rs1: u8, rs2: u8 },
    Div { rd: u8, rs1: u8, rs2: u8 },
    Divu { rd: u8, rs1: u8, rs2: u8 },
    Rem { rd: u8, rs1: u8, rs2: u8 },
    Remu { rd: u8, rs1: u8, rs2: u8 },
    Mulw { rd: u8, rs1: u8, rs2: u8 },
    Divw { rd: u8, rs1: u8, rs2: u8 },
    Divuw { rd: u8, rs1: u8, rs2: u8 },
    Remw { rd: u8, rs1: u8, rs2: u8 },
    Remuw { rd: u8, rs1: u8, rs2: u8 },
    // Upper immediates.
    Lui { rd: u8, imm: i64 },
    Auipc { rd: u8, imm: i64, pc_offset: u16 },
    // Loads.
    Lb { rd: u8, rs1: u8, imm: i64, pc_offset: u16 },
    Lbu { rd: u8, rs1: u8, imm: i64, pc_offset: u16 },
    Lh { rd: u8, rs1: u8, imm: i64, pc_offset: u16 },
    Lhu { rd: u8, rs1: u8, imm: i64, pc_offset: u16 },
    Lw { rd: u8, rs1: u8, imm: i64, pc_offset: u16 },
    Lwu { rd: u8, rs1: u8, imm: i64, pc_offset: u16 },
    Ld { rd: u8, rs1: u8, imm: i64, pc_offset: u16 },
    // Stores.
    Sb { rs1: u8, rs2: u8, imm: i64, pc_offset: u16 },
    Sh { rs1: u8, rs2: u8, imm: i64, pc_offset: u16 },
    Sw { rs1: u8, rs2: u8, imm: i64, pc_offset: u16 },
    Sd { rs1: u8, rs2: u8, imm: i64, pc_offset: u16 },
    // Conditional branches.
    Beq { rs1: u8, rs2: u8, imm: i64, pc_offset: u16, insn_len: u8 },
    Bne { rs1: u8, rs2: u8, imm: i64, pc_offset: u16, insn_len: u8 },
    Blt { rs1: u8, rs2: u8, imm: i64, pc_offset: u16, insn_len: u8 },
    Bge { rs1: u8, rs2: u8, imm: i64, pc_offset: u16, insn_len: u8 },
    Bltu { rs1: u8, rs2: u8, imm: i64, pc_offset: u16, insn_len: u8 },
    Bgeu { rs1: u8, rs2: u8, imm: i64, pc_offset: u16, insn_len: u8 },
    // Jumps.
    Jal { rd: u8, imm: i64, pc_offset: u16, insn_len: u8 },
    Jalr { rd: u8, rs1: u8, imm: i64, pc_offset: u16, insn_len: u8 },
    // Control registers.
    Csrrw { rd: u8, rs1: u8, csr: u16, pc_offset: u16 },
    Csrrs { rd: u8, rs1: u8, csr: u16, pc_offset: u16 },
    Csrrc { rd: u8, rs1: u8, csr: u16, pc_offset: u16 },
    Csrrwi { rd: u8, zimm: u8, csr: u16, pc_offset: u16 },
    Csrrsi { rd: u8, zimm: u8, csr: u16, pc_offset: u16 },
    Csrrci { rd: u8, zimm: u8, csr: u16, pc_offset: u16 },
    // System.
    Ecall { pc_offset: u16 },
    Ebreak { pc_offset: u16 },
    Mret { pc_offset: u16 },
    Sret { pc_offset: u16 },
    Wfi { pc_offset: u16 },
    SfenceVma { pc_offset: u16 },
    Fence,
    // Atomics.
    LrW { rd: u8, rs1: u8, pc_offset: u16 },
    LrD { rd: u8, rs1: u8, pc_offset: u16 },
    ScW { rd: u8, rs1: u8, rs2: u8, pc_offset: u16 },
    ScD { rd: u8, rs1: u8, rs2: u8, pc_offset: u16 },
    AmoSwap { rd: u8, rs1: u8, rs2: u8, is_word: bool, pc_offset: u16 },
    AmoAdd { rd: u8, rs1: u8, rs2: u8, is_word: bool, pc_offset: u16 },
    AmoXor { rd: u8, rs1: u8, rs2: u8, is_word: bool, pc_offset: u16 },
    AmoAnd { rd: u8, rs1: u8, rs2: u8, is_word: bool, pc_offset: u16 },
    AmoOr { rd: u8, rs1: u8, rs2: u8, is_word: bool, pc_offset: u16 },
    AmoMin { rd: u8, rs1: u8, rs2: u8, is_word: bool, pc_offset: u16 },
    AmoMax { rd: u8, rs1: u8, rs2: u8, is_word: bool, pc_offset: u16 },
    AmoMinu { rd: u8, rs1: u8, rs2: u8, is_word: bool, pc_offset: u16 },
    AmoMaxu { rd: u8, rs1: u8, rs2: u8, is_word: bool, pc_offset: u16 },
}

/// Where the instruction knows its own place in the block, that place.
pub open spec fn op_pc_offset(op: MicroOp) -> Option<u16> {
    match op {
        MicroOp::Auipc { pc_offset, .. } | MicroOp::Lb { pc_offset, .. }
        | MicroOp::Lbu { pc_offset, .. } | MicroOp::Lh { pc_offset, .. }
        | MicroOp::Lhu { pc_offset, .. } | MicroOp::Lw { pc_offset, .. }
        | MicroOp::Lwu { pc_offset, .. } | MicroOp::Ld { pc_offset, .. }
        | MicroOp::Sb { pc_offset, .. } | MicroOp::Sh { pc_offset, .. }
        | MicroOp::Sw { pc_offset, .. } | MicroOp::Sd { pc_offset, .. }
        | MicroOp::Beq { pc_offset, .. } | MicroOp::Bne { pc_offset, .. }
        | MicroOp::Blt { pc_offset, .. } | MicroOp::Bge { pc_offset, .. }
        | MicroOp::Bltu { pc_offset, .. } | MicroOp::Bgeu { pc_offset, .. }
        | MicroOp::Jal { pc_offset, .. } | MicroOp::Jalr { pc_offset, .. }
        | MicroOp::Csrrw { pc_offset, .. } | MicroOp::Csrrs { pc_offset, .. }
        | MicroOp::Csrrc { pc_offset, .. } | MicroOp::Csrrwi { pc_offset, .. }
        | MicroOp::Csrrsi { pc_offset, .. } | MicroOp::Csrrci { pc_offset, .. }
        | MicroOp::Ecall { pc_offset, .. } | MicroOp::Ebreak { pc_offset, .. }
        | MicroOp::Mret { pc_offset, .. } | MicroOp::Sret { pc_offset, .. }
        | MicroOp::Wfi { pc_offset, .. } | MicroOp::SfenceVma { pc_offset, .. }
        | MicroOp::LrW { pc_offset, .. } | MicroOp::LrD { pc_offset, .. }
        | MicroOp::ScW { pc_offset, .. } | MicroOp::ScD { pc_offset, .. }
        | MicroOp::AmoSwap { pc_offset, .. } | MicroOp::AmoAdd { pc_offset, .. }
        | MicroOp::AmoXor { pc_offset, .. } | MicroOp::AmoAnd { pc_offset, .. }
        | MicroOp::AmoOr { pc_offset, .. } | MicroOp::AmoMin { pc_offset, .. }
        | MicroOp::AmoMax { pc_offset, .. } | MicroOp::AmoMinu { pc_offset, .. }
        | MicroOp::AmoMaxu { pc_offset, .. } => Some(pc_offset),
        _ => None,
    }
}

/// Whether the instruction reaches memory or the privileged state, and so can
/// raise an exception.
pub open spec fn op_may_trap(op: MicroOp) -> bool {
    match op {
        MicroOp::Lb { .. } | MicroOp::Lbu { .. } | MicroOp::Lh { .. }
        | MicroOp::Lhu { .. } | MicroOp::Lw { .. } | MicroOp::Lwu { .. }
        | MicroOp::Ld { .. } | MicroOp::Sb { .. } | MicroOp::Sh { .. }
        | MicroOp::Sw { .. } | MicroOp::Sd { .. } | MicroOp::Csrrw { .. }
        | MicroOp::Csrrs { .. } | MicroOp::Csrrc { .. } | MicroOp::Csrrwi { .. }
        | MicroOp::Csrrsi { .. } | MicroOp::Csrrci { .. } | MicroOp::LrW { .. }
        | MicroOp::LrD { .. } | MicroOp::ScW { .. } | MicroOp::ScD { .. }
        | MicroOp::AmoSwap { .. } | MicroOp::AmoAdd { .. } | MicroOp::AmoXor { .. }
        | MicroOp::AmoAnd { .. } | MicroOp::AmoOr { .. } | MicroOp::AmoMin { .. }
        | MicroOp::AmoMax { .. } | MicroOp::AmoMinu { .. } | MicroOp::AmoMaxu { .. }
        | MicroOp::Ecall { .. } | MicroOp::Ebreak { .. } | MicroOp::Mret { .. }
        | MicroOp::Sret { .. } | MicroOp::SfenceVma { .. } => true,
        _ => false,
    }
}

impl MicroOp {
    /// Where the instruction knows its own place in the block, that place.
    pub fn pc_offset(&self) -> (offset: Option<u16>)
        ensures
            offset == op_pc_offset(*self),
    {
        match *self {
            MicroOp::Auipc { pc_offset, .. } | MicroOp::Lb { pc_offset, .. }
            | MicroOp::Lbu { pc_offset, .. } | MicroOp::Lh { pc_offset, .. }
            | MicroOp::Lhu { pc_offset, .. } | MicroOp::Lw { pc_offset, .. }
            | MicroOp::Lwu { pc_offset, .. } | MicroOp::Ld { pc_offset, .. }
            | MicroOp::Sb { pc_offset, .. } | MicroOp::Sh { pc_offset, .. }
            | MicroOp::Sw { pc_offset, .. } | MicroOp::Sd { pc_offset, .. }
            | MicroOp::Beq { pc_offset, .. } | MicroOp::Bne { pc_offset, .. }
            | MicroOp::Blt { pc_offset, .. } | MicroOp::Bge { pc_offset, .. }
            | MicroOp::Bltu { pc_offset, .. } | MicroOp::Bgeu { pc_offset, .. }
            | MicroOp::Jal { pc_offset, .. } | MicroOp::Jalr { pc_offset, .. }
            | MicroOp::Csrrw { pc_offset, .. } | MicroOp::Csrrs { pc_offset, .. }
            | MicroOp::Csrrc { pc_offset, .. } | MicroOp::Csrrwi { pc_offset, .. }
            | MicroOp::Csrrsi { pc_offset, .. } | MicroOp::Csrrci { pc_offset, .. }
            | MicroOp::Ecall { pc_offset, .. } | MicroOp::Ebreak { pc_offset, .. }
            | MicroOp::Mret { pc_offset, .. } | MicroOp::Sret { pc_offset, .. }
            | MicroOp::Wfi { pc_offset, .. } | MicroOp::SfenceVma { pc_offset, .. }
            | MicroOp::LrW { pc_offset, .. } | MicroOp::LrD { pc_offset, .. }
            | MicroOp::ScW { pc_offset, .. } | MicroOp::ScD { pc_offset, .. }
            | MicroOp::AmoSwap { pc_offset, .. } | MicroOp::AmoAdd { pc_offset, .. }
            | MicroOp::AmoXor { pc_offset, .. } | MicroOp::AmoAnd { pc_offset, .. }
            | MicroOp::AmoOr { pc_offset, .. } | MicroOp::AmoMin { pc_offset, .. }
            | MicroOp::AmoMax { pc_offset, .. } | MicroOp::AmoMinu { pc_offset, .. }
            | MicroOp::AmoMaxu { pc_offset, .. } => Some(pc_offset),
            _ => None,
        }
    }

    /// Whether the instruction can raise an exception.
    pub fn may_trap(&self) -> (b: bool)
        ensures
            b == op_may_trap(*self),
    {
        match *self {
            MicroOp::Lb { .. } | MicroOp::Lbu { .. } | MicroOp::Lh { .. }
            | MicroOp::Lhu { .. } | MicroOp::Lw { .. } | MicroOp::Lwu { .. }
            | MicroOp::Ld { .. } | MicroOp::Sb { .. } | MicroOp::Sh { .. }
            | MicroOp::Sw { .. } | MicroOp::Sd { .. } | MicroOp::Csrrw { .. }
            | MicroOp::Csrrs { .. } | MicroOp::Csrrc { .. } | MicroOp::Csrrwi { .. }
            | MicroOp::Csrrsi { .. } | MicroOp::Csrrci { .. } | MicroOp::LrW { .. }
            | MicroOp::LrD { .. } | MicroOp::ScW { .. } | MicroOp::ScD { .. }
            | MicroOp::AmoSwap { .. } | MicroOp::AmoAdd { .. } | MicroOp::AmoXor { .. }
            | MicroOp::AmoAnd { .. } | MicroOp::AmoOr { .. } | MicroOp::AmoMin { .. }
            | MicroOp::AmoMax { .. } | MicroOp::AmoMinu { .. } | MicroOp::AmoMaxu { .. }
            | MicroOp::Ecall { .. } | MicroOp::Ebreak { .. } | MicroOp::Mret { .. }
            | MicroOp::Sret { .. } | MicroOp::SfenceVma { .. } => true,
            _ => false,
        }
    }
}

/// Instructions that know their place in the block tell it.
pub proof fn law_places_are_told(p: u16, a: u8, b: u8, c: u8, imm: i64, csr: u16, len: u8, w: bool)
    ensures
        op_pc_offset(MicroOp::Auipc { rd: a, imm, pc_offset: p }) == Some(p),
        op_pc_offset(MicroOp::Lb { rd: a, rs1: b, imm, pc_offset: p }) == Some(p),
        op_pc_offset(MicroOp::Lbu { rd: a, rs1: b, imm, pc_offset: p }) == Some(p),
        op_pc_offset(MicroOp::Lh { rd: a, rs1: b, imm, pc_offset: p }) == Some(p),
        op_pc_offset(MicroOp::Lhu { rd: a, rs1: b, imm, pc_offset: p }) == Some(p),
        op_pc_offset(MicroOp::Lw { rd: a, rs1: b, imm, pc_offset: p }) == Some(p),
        op_pc_offset(MicroOp::Lwu { rd: a, rs1: b, imm, pc_offset: p }) == Some(p),
        op_pc_offset(MicroOp::Ld { rd: a, rs1: b, imm, pc_offset: p }) == Some(p),
        op_pc_offset(MicroOp::Sb { rs1: a, rs2: b, imm, pc_offset: p }) == Some(p),
        op_pc_offset(MicroOp::Sh { rs1: a, rs2: b, imm, pc_offset: p }) == Some(p),
        op_pc_offset(MicroOp::Sw { rs1: a, rs2: b, imm, pc_offset: p }) == Some(p),
        op_pc_offset(MicroOp::Sd { rs1: a, rs2: b, imm, pc_offset: p }) == Some(p),
        op_pc_offset(MicroOp::Beq { rs1: a, rs2: b, imm, pc_offset: p, insn_len: len }) == Some(p),
        op_pc_offset(MicroOp::Bne { rs1: a, rs2: b, imm, pc_offset: p, insn_len: len }) == Some(p),
        op_pc_offset(MicroOp::Blt { rs1: a, rs2: b, imm, pc_offset: p, insn_len: len }) == Some(p),
        op_pc_offset(MicroOp::Bge { rs1: a, rs2: b, imm, pc_offset: p, insn_len: len }) == Some(p),
        op_pc_offset(MicroOp::Bltu { rs1: a, rs2: b, imm, pc_offset: p, insn_len: len }) == Some(p),
        op_pc_offset(MicroOp::Bgeu { rs1: a, rs2: b, imm, pc_offset: p, insn_len: len }) == Some(p),
        op_pc_offset(MicroOp::Jal { rd: a, imm, pc_offset: p, insn_len: len }) == Some(p),
        op_pc_offset(MicroOp::Jalr { rd: a, rs1: b, imm, pc_offset: p, insn_len: len }) == Some(p),
        op_pc_offset(MicroOp::Csrrw { rd: a, rs1: b, csr, pc_offset: p }) == Some(p),
        op_pc_offset(MicroOp::Csrrs { rd: a, rs1: b, csr, pc_offset: p }) == Some(p),
        op_pc_offset(MicroOp::Csrrc { rd: a, rs1: b, csr, pc_offset: p }) == Some(p),
        op_pc_offset(MicroOp::Csrrwi { rd: a, zimm: b, csr, pc_offset: p }) == Some(p),
        op_pc_offset(MicroOp::Csrrsi { rd: a, zimm: b, csr, pc_offset: p }) == Some(p),
        op_pc_offset(MicroOp::Csrrci { rd: a, zimm: b, csr, pc_offset: p }) == Some(p),
        op_pc_offset(MicroOp::Ecall { pc_offset: p }) == Some(p),
        op_pc_offset(MicroOp::Ebreak { pc_offset: p }) == Some(p),
        op_pc_offset(MicroOp::Mret { pc_offset: p }) == Some(p),
        op_pc_offset(MicroOp::Sret { pc_offset: p }) == Some(p),
        op_pc_offset(MicroOp::Wfi { pc_offset: p }) == Some(p),
        op_pc_offset(MicroOp::SfenceVma { pc_offset: p }) == Some(p),
        op_pc_offset(MicroOp::LrW { rd: a, rs1: b, pc_offset: p }) == Some(p),
        op_pc_offset(MicroOp::LrD { rd: a, rs1: b, pc_offset: p }) == Some(p),
        op_pc_offset(MicroOp::ScW { rd: a, rs1: b, rs2: c, pc_offset: p }) == Some(p),
        op_pc_offset(MicroOp::ScD { rd: a, rs1: b, rs2: c, pc_offset: p }) == Some(p),
        op_pc_offset(MicroOp::AmoSwap { rd: a, rs1: b, rs2: c, is_word: w, pc_offset: p }) == Some(p),
        op_pc_offset(MicroOp::AmoAdd { rd: a, rs1: b, rs2: c, is_word: w, pc_offset: p }) == Some(p),
        op_pc_offset(MicroOp::AmoXor { rd: a, rs1: b, rs2: c, is_word: w, pc_offset: p }) == Some(p),
        op_pc_offset(MicroOp::AmoAnd { rd: a, rs1: b, rs2: c, is_word: w, pc_offset: p }) == Some(p),
        op_pc_offset(MicroOp::AmoOr { rd: a, rs1: b, rs2: c, is_word: w, pc_offset: p }) == Some(p),
        op_pc_offset(MicroOp::AmoMin { rd: a, rs1: b, rs2: c, is_word: w, pc_offset: p }) == Some(p),
        op_pc_offset(MicroOp::AmoMax { rd: a, rs1: b, rs2: c, is_word: w, pc_offset: p }) == Some(p),
        op_pc_offset(MicroOp::AmoMinu { rd: a, rs1: b, rs2: c, is_word: w, pc_offset: p }) == Some(p),
        op_pc_offset(MicroOp::AmoMaxu { rd: a, rs1: b, rs2: c, is_word: w, pc_offset: p }) == Some(p),
{
}

/// Whether an instruction knows its place: all do but those that only compute from registers
/// and constants, and the fence.
pub proof fn law_traps_have_places(op: MicroOp)
    ensures
        op_may_trap(op) ==> op_pc_offset(op) is Some,
        op_pc_offset(op) is Some && !op_may_trap(op) ==> op is Auipc || op is Wfi || op is Beq || op is Bne
            || op is Blt || op is Bge || op is Bltu || op is Bgeu || op is Jal || op is Jalr,
        op is Fence || op is Lui ==> op_pc_offset(op) is None && !op_may_trap(op),
        op is Ecall || op is Ebreak || op is Mret || op is Sret || op is SfenceVma
            ==> op_may_trap(op),
{
}

} // verus!
