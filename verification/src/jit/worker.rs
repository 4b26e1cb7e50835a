//! What the compiling worker and its owner send to each other.

use crate::bytes;
use crate::engine::block::Block;
use crate::engine::microop::MicroOp;
use crate::jit::types::CompilationResult;
use vstd::prelude::*;

verus! {

use crate::bytes::number_at;
use crate::meaning::is_cut;

/// A block that is to be compiled.
#[derive(Debug, Clone)]
pub struct CompileRequest {
    pub pc: u64,
    pub pa: u64,
    pub ops: Vec<SerializedMicroOp>,
    pub byte_len: u16,
}

/// What became of a request.
#[derive(Debug, Clone)]
pub struct CompileResponse {
    pub pc: u64,
    pub status: CompileStatus,
    pub wasm_bytes: Vec<u8>,
    pub compile_time_us: u64,
}

/// How a compilation ended.
#[derive(Debug, Clone, Copy, PartialEq, Eq, Structural)]
pub enum CompileStatus {
    /// The bytes are a module.
    Success,
    /// The block cannot be compiled.
    Unsuitable,
    /// The compiler failed.
    Error,
}

impl From<&CompilationResult> for CompileStatus {
    fn from(result: &CompilationResult) -> (status: Self) {
        match result {
            CompilationResult::Success(_) => CompileStatus::Success,
            CompilationResult::Unsuitable => CompileStatus::Unsuitable,
            CompilationResult::Error(_) => CompileStatus::Error,
        }
    }
}

impl vstd::std_specs::convert::FromSpecImpl<&CompilationResult> for CompileStatus {
    open spec fn obeys_from_spec() -> bool {
        true
    }

    open spec fn from_spec(result: &CompilationResult) -> Self {
        match *result {
            CompilationResult::Success(_) => CompileStatus::Success,
            CompilationResult::Unsuitable => CompileStatus::Unsuitable,
            CompilationResult::Error(_) => CompileStatus::Error,
        }
    }
}

/// An instruction as a tag and sixteen bytes of operands. The tags go by what instructions
/// do:
///
/// - 0 to 9: operations on a register and a constant;
/// - 10 to 19: operations on two registers;
/// - 20 to 29: operations on words;
/// - 30 to 39: products and quotients, which go on from 129 to 131;
/// - 40 to 49: loads;
/// - 50 to 59: stores;
/// - 60 to 69: branches;
/// - 70 to 79: jumps;
/// - 80 to 89: control and status registers;
/// - 90 to 99: the system;
/// - 100 to 109: reservations;
/// - 110 to 119: atomic operations;
/// - 120 and 121: upper constants;
/// - 254: the fence.
#[derive(Debug, Clone, Copy)]
pub struct SerializedMicroOp {
    pub tag: u8,
    pub data: [u8; 16],
}

// The places of operands in the sixteen bytes.

/// `part` followed by zeros up to sixteen bytes.
pub open spec fn padded(part: Seq<u8>) -> Seq<u8> {
    part + Seq::new((16 - part.len()) as nat, |i: int| 0u8)
}

pub open spec fn le64(v: i64) -> Seq<u8> {
    bytes::le_bytes(v as u64 as nat, 8)
}

pub open spec fn le32(v: i32) -> Seq<u8> {
    bytes::le_bytes(v as u32 as nat, 4)
}

pub open spec fn le16(v: u16) -> Seq<u8> {
    bytes::le_bytes(v as nat, 2)
}

pub open spec fn layout_empty() -> Seq<u8> {
    padded(Seq::empty())
}

pub open spec fn layout_three(a: u8, b: u8, c: u8) -> Seq<u8> {
    padded(seq![a, b, c])
}

pub open spec fn layout_with_imm(a: u8, b: u8, imm: i64) -> Seq<u8> {
    padded(seq![a, b] + le64(imm))
}

pub open spec fn layout_with_imm32(a: u8, b: u8, imm: i32) -> Seq<u8> {
    padded(seq![a, b] + le32(imm))
}

pub open spec fn layout_with_place(a: u8, b: u8, imm: i64, place: u16) -> Seq<u8> {
    padded(seq![a, b] + le64(imm) + le16(place))
}

pub open spec fn layout_with_len(a: u8, b: u8, imm: i64, place: u16, len: u8) -> Seq<u8> {
    padded(seq![a, b] + le64(imm) + le16(place) + seq![len])
}

pub open spec fn layout_csr(a: u8, b: u8, csr: u16, place: u16) -> Seq<u8> {
    padded(seq![a, b] + le16(csr) + le16(place))
}

pub open spec fn layout_place(place: u16) -> Seq<u8> {
    padded(le16(place))
}

pub open spec fn layout_two_place(a: u8, b: u8, place: u16) -> Seq<u8> {
    padded(seq![a, b] + le16(place))
}

pub open spec fn layout_three_place(a: u8, b: u8, c: u8, place: u16) -> Seq<u8> {
    padded(seq![a, b, c] + le16(place))
}

pub open spec fn layout_amo(a: u8, b: u8, c: u8, word: bool, place: u16) -> Seq<u8> {
    padded(
        seq![
            a,
            b,
            c,
            if word {
                1u8
            } else {
                0u8
            },
        ] + le16(place),
    )
}

/// The tag and the operand bytes of an instruction.
pub open spec fn encoded(op: MicroOp) -> (u8, Seq<u8>) {
    match op {
        MicroOp::Addi { rd, rs1, imm } => (0, layout_with_imm(rd, rs1, imm)),
        MicroOp::Xori { rd, rs1, imm } => (1, layout_with_imm(rd, rs1, imm)),
        MicroOp::Ori { rd, rs1, imm } => (2, layout_with_imm(rd, rs1, imm)),
        MicroOp::Andi { rd, rs1, imm } => (3, layout_with_imm(rd, rs1, imm)),
        MicroOp::Slti { rd, rs1, imm } => (4, layout_with_imm(rd, rs1, imm)),
        MicroOp::Sltiu { rd, rs1, imm } => (5, layout_with_imm(rd, rs1, imm)),
        MicroOp::Slli { rd, rs1, shamt } => (6, layout_three(rd, rs1, shamt)),
        MicroOp::Srli { rd, rs1, shamt } => (7, layout_three(rd, rs1, shamt)),
        MicroOp::Srai { rd, rs1, shamt } => (8, layout_three(rd, rs1, shamt)),
        MicroOp::Add { rd, rs1, rs2 } => (10, layout_three(rd, rs1, rs2)),
        MicroOp::Sub { rd, rs1, rs2 } => (11, layout_three(rd, rs1, rs2)),
        MicroOp::Xor { rd, rs1, rs2 } => (12, layout_three(rd, rs1, rs2)),
        MicroOp::Or { rd, rs1, rs2 } => (13, layout_three(rd, rs1, rs2)),
        MicroOp::And { rd, rs1, rs2 } => (14, layout_three(rd, rs1, rs2)),
        MicroOp::Sll { rd, rs1, rs2 } => (15, layout_three(rd, rs1, rs2)),
        MicroOp::Srl { rd, rs1, rs2 } => (16, layout_three(rd, rs1, rs2)),
        MicroOp::Sra { rd, rs1, rs2 } => (17, layout_three(rd, rs1, rs2)),
        MicroOp::Slt { rd, rs1, rs2 } => (18, layout_three(rd, rs1, rs2)),
        MicroOp::Sltu { rd, rs1, rs2 } => (19, layout_three(rd, rs1, rs2)),
        MicroOp::Addiw { rd, rs1, imm } => (20, layout_with_imm32(rd, rs1, imm)),
        MicroOp::Slliw { rd, rs1, shamt } => (21, layout_three(rd, rs1, shamt)),
        MicroOp::Srliw { rd, rs1, shamt } => (22, layout_three(rd, rs1, shamt)),
        MicroOp::Sraiw { rd, rs1, shamt } => (23, layout_three(rd, rs1, shamt)),
        MicroOp::Addw { rd, rs1, rs2 } => (24, layout_three(rd, rs1, rs2)),
        MicroOp::Subw { rd, rs1, rs2 } => (25, layout_three(rd, rs1, rs2)),
        MicroOp::Sllw { rd, rs1, rs2 } => (26, layout_three(rd, rs1, rs2)),
        MicroOp::Srlw { rd, rs1, rs2 } => (27, layout_three(rd, rs1, rs2)),
        MicroOp::Sraw { rd, rs1, rs2 } => (28, layout_three(rd, rs1, rs2)),
        MicroOp::Mul { rd, rs1, rs2 } => (30, layout_three(rd, rs1, rs2)),
        MicroOp::Mulh { rd, rs1, rs2 } => (31, layout_three(rd, rs1, rs2)),
        MicroOp::Mulhsu { rd, rs1, rs2 } => (32, layout_three(rd, rs1, rs2)),
        MicroOp::Mulhu { rd, rs1, rs2 } => (33, layout_three(rd, rs1, rs2)),
        MicroOp::Div { rd, rs1, rs2 } => (34, layout_three(rd, rs1, rs2)),
        MicroOp::Divu { rd, rs1, rs2 } => (35, layout_three(rd, rs1, rs2)),
        MicroOp::Rem { rd, rs1, rs2 } => (36, layout_three(rd, rs1, rs2)),
        MicroOp::Remu { rd, rs1, rs2 } => (37, layout_three(rd, rs1, rs2)),
        MicroOp::Mulw { rd, rs1, rs2 } => (38, layout_three(rd, rs1, rs2)),
        MicroOp::Divw { rd, rs1, rs2 } => (39, layout_three(rd, rs1, rs2)),
        MicroOp::Divuw { rd, rs1, rs2 } => (129, layout_three(rd, rs1, rs2)),
        MicroOp::Remw { rd, rs1, rs2 } => (130, layout_three(rd, rs1, rs2)),
        MicroOp::Remuw { rd, rs1, rs2 } => (131, layout_three(rd, rs1, rs2)),
        MicroOp::Lui { rd, imm } => (120, layout_with_imm(rd, 0, imm)),
        MicroOp::Auipc { rd, imm, pc_offset } => (121, layout_with_place(rd, 0, imm, pc_offset)),
        MicroOp::Lb { rd, rs1, imm, pc_offset } => (40, layout_with_place(rd, rs1, imm, pc_offset)),
        MicroOp::Lbu { rd, rs1, imm, pc_offset } => (41, layout_with_place(rd, rs1, imm, pc_offset)),
        MicroOp::Lh { rd, rs1, imm, pc_offset } => (42, layout_with_place(rd, rs1, imm, pc_offset)),
        MicroOp::Lhu { rd, rs1, imm, pc_offset } => (43, layout_with_place(rd, rs1, imm, pc_offset)),
        MicroOp::Lw { rd, rs1, imm, pc_offset } => (44, layout_with_place(rd, rs1, imm, pc_offset)),
        MicroOp::Lwu { rd, rs1, imm, pc_offset } => (45, layout_with_place(rd, rs1, imm, pc_offset)),
        MicroOp::Ld { rd, rs1, imm, pc_offset } => (46, layout_with_place(rd, rs1, imm, pc_offset)),
        MicroOp::Sb { rs1, rs2, imm, pc_offset } => (50, layout_with_place(rs1, rs2, imm, pc_offset)),
        MicroOp::Sh { rs1, rs2, imm, pc_offset } => (51, layout_with_place(rs1, rs2, imm, pc_offset)),
        MicroOp::Sw { rs1, rs2, imm, pc_offset } => (52, layout_with_place(rs1, rs2, imm, pc_offset)),
        MicroOp::Sd { rs1, rs2, imm, pc_offset } => (53, layout_with_place(rs1, rs2, imm, pc_offset)),
        MicroOp::Beq { rs1, rs2, imm, pc_offset, insn_len } => (60, layout_with_len(rs1, rs2, imm, pc_offset, insn_len)),
        MicroOp::Bne { rs1, rs2, imm, pc_offset, insn_len } => (61, layout_with_len(rs1, rs2, imm, pc_offset, insn_len)),
        MicroOp::Blt { rs1, rs2, imm, pc_offset, insn_len } => (62, layout_with_len(rs1, rs2, imm, pc_offset, insn_len)),
        MicroOp::Bge { rs1, rs2, imm, pc_offset, insn_len } => (63, layout_with_len(rs1, rs2, imm, pc_offset, insn_len)),
        MicroOp::Bltu { rs1, rs2, imm, pc_offset, insn_len } => (64, layout_with_len(rs1, rs2, imm, pc_offset, insn_len)),
        MicroOp::Bgeu { rs1, rs2, imm, pc_offset, insn_len } => (65, layout_with_len(rs1, rs2, imm, pc_offset, insn_len)),
        MicroOp::Jal { rd, imm, pc_offset, insn_len } => (70, layout_with_len(rd, 0, imm, pc_offset, insn_len)),
        MicroOp::Jalr { rd, rs1, imm, pc_offset, insn_len } => (71, layout_with_len(rd, rs1, imm, pc_offset, insn_len)),
        MicroOp::Csrrw { rd, rs1, csr, pc_offset } => (80, layout_csr(rd, rs1, csr, pc_offset)),
        MicroOp::Csrrs { rd, rs1, csr, pc_offset } => (81, layout_csr(rd, rs1, csr, pc_offset)),
        MicroOp::Csrrc { rd, rs1, csr, pc_offset } => (82, layout_csr(rd, rs1, csr, pc_offset)),
        MicroOp::Csrrwi { rd, zimm, csr, pc_offset } => (83, layout_csr(rd, zimm, csr, pc_offset)),
        MicroOp::Csrrsi { rd, zimm, csr, pc_offset } => (84, layout_csr(rd, zimm, csr, pc_offset)),
        MicroOp::Csrrci { rd, zimm, csr, pc_offset } => (85, layout_csr(rd, zimm, csr, pc_offset)),
        MicroOp::Ecall { pc_offset } => (90, layout_place(pc_offset)),
        MicroOp::Ebreak { pc_offset } => (91, layout_place(pc_offset)),
        MicroOp::Mret { pc_offset } => (92, layout_place(pc_offset)),
        MicroOp::Sret { pc_offset } => (93, layout_place(pc_offset)),
        MicroOp::Wfi { pc_offset } => (94, layout_place(pc_offset)),
        MicroOp::SfenceVma { pc_offset } => (95, layout_place(pc_offset)),
        MicroOp::Fence => (254, layout_empty()),
        MicroOp::LrW { rd, rs1, pc_offset } => (100, layout_two_place(rd, rs1, pc_offset)),
        MicroOp::LrD { rd, rs1, pc_offset } => (101, layout_two_place(rd, rs1, pc_offset)),
        MicroOp::ScW { rd, rs1, rs2, pc_offset } => (102, layout_three_place(rd, rs1, rs2, pc_offset)),
        MicroOp::ScD { rd, rs1, rs2, pc_offset } => (103, layout_three_place(rd, rs1, rs2, pc_offset)),
        MicroOp::AmoSwap { rd, rs1, rs2, is_word, pc_offset } => (110, layout_amo(rd, rs1, rs2, is_word, pc_offset)),
        MicroOp::AmoAdd { rd, rs1, rs2, is_word, pc_offset } => (111, layout_amo(rd, rs1, rs2, is_word, pc_offset)),
        MicroOp::AmoXor { rd, rs1, rs2, is_word, pc_offset } => (112, layout_amo(rd, rs1, rs2, is_word, pc_offset)),
        MicroOp::AmoAnd { rd, rs1, rs2, is_word, pc_offset } => (113, layout_amo(rd, rs1, rs2, is_word, pc_offset)),
        MicroOp::AmoOr { rd, rs1, rs2, is_word, pc_offset } => (114, layout_amo(rd, rs1, rs2, is_word, pc_offset)),
        MicroOp::AmoMin { rd, rs1, rs2, is_word, pc_offset } => (115, layout_amo(rd, rs1, rs2, is_word, pc_offset)),
        MicroOp::AmoMax { rd, rs1, rs2, is_word, pc_offset } => (116, layout_amo(rd, rs1, rs2, is_word, pc_offset)),
        MicroOp::AmoMinu { rd, rs1, rs2, is_word, pc_offset } => (117, layout_amo(rd, rs1, rs2, is_word, pc_offset)),
        MicroOp::AmoMaxu { rd, rs1, rs2, is_word, pc_offset } => (118, layout_amo(rd, rs1, rs2, is_word, pc_offset)),
    }
}

pub open spec fn i64_at(data: Seq<u8>, at: int) -> i64 {
    bytes::le_u64(data.subrange(at, at + 8)) as i64
}

pub open spec fn i32_at(data: Seq<u8>, at: int) -> i32 {
    bytes::le_u64(data.subrange(at, at + 4)) as u32 as i32
}

pub open spec fn u16_at(data: Seq<u8>, at: int) -> u16 {
    bytes::le_u64(data.subrange(at, at + 2)) as u16
}

/// The instruction that a tag and sixteen bytes stand for, where the tag is one.
pub open spec fn decoded(tag: u8, data: Seq<u8>) -> Option<MicroOp> {
    match tag {
        0 => Some(MicroOp::Addi { rd: data[0], rs1: data[1], imm: i64_at(data, 2) }),
        1 => Some(MicroOp::Xori { rd: data[0], rs1: data[1], imm: i64_at(data, 2) }),
        2 => Some(MicroOp::Ori { rd: data[0], rs1: data[1], imm: i64_at(data, 2) }),
        3 => Some(MicroOp::Andi { rd: data[0], rs1: data[1], imm: i64_at(data, 2) }),
        4 => Some(MicroOp::Slti { rd: data[0], rs1: data[1], imm: i64_at(data, 2) }),
        5 => Some(MicroOp::Sltiu { rd: data[0], rs1: data[1], imm: i64_at(data, 2) }),
        6 => Some(MicroOp::Slli { rd: data[0], rs1: data[1], shamt: data[2] }),
        7 => Some(MicroOp::Srli { rd: data[0], rs1: data[1], shamt: data[2] }),
        8 => Some(MicroOp::Srai { rd: data[0], rs1: data[1], shamt: data[2] }),
        10 => Some(MicroOp::Add { rd: data[0], rs1: data[1], rs2: data[2] }),
        11 => Some(MicroOp::Sub { rd: data[0], rs1: data[1], rs2: data[2] }),
        12 => Some(MicroOp::Xor { rd: data[0], rs1: data[1], rs2: data[2] }),
        13 => Some(MicroOp::Or { rd: data[0], rs1: data[1], rs2: data[2] }),
        14 => Some(MicroOp::And { rd: data[0], rs1: data[1], rs2: data[2] }),
        15 => Some(MicroOp::Sll { rd: data[0], rs1: data[1], rs2: data[2] }),
        16 => Some(MicroOp::Srl { rd: data[0], rs1: data[1], rs2: data[2] }),
        17 => Some(MicroOp::Sra { rd: data[0], rs1: data[1], rs2: data[2] }),
        18 => Some(MicroOp::Slt { rd: data[0], rs1: data[1], rs2: data[2] }),
        19 => Some(MicroOp::Sltu { rd: data[0], rs1: data[1], rs2: data[2] }),
        20 => Some(MicroOp::Addiw { rd: data[0], rs1: data[1], imm: i32_at(data, 2) }),
        21 => Some(MicroOp::Slliw { rd: data[0], rs1: data[1], shamt: data[2] }),
        22 => Some(MicroOp::Srliw { rd: data[0], rs1: data[1], shamt: data[2] }),
        23 => Some(MicroOp::Sraiw { rd: data[0], rs1: data[1], shamt: data[2] }),
        24 => Some(MicroOp::Addw { rd: data[0], rs1: data[1], rs2: data[2] }),
        25 => Some(MicroOp::Subw { rd: data[0], rs1: data[1], rs2: data[2] }),
        26 => Some(MicroOp::Sllw { rd: data[0], rs1: data[1], rs2: data[2] }),
        27 => Some(MicroOp::Srlw { rd: data[0], rs1: data[1], rs2: data[2] }),
        28 => Some(MicroOp::Sraw { rd: data[0], rs1: data[1], rs2: data[2] }),
        30 => Some(MicroOp::Mul { rd: data[0], rs1: data[1], rs2: data[2] }),
        31 => Some(MicroOp::Mulh { rd: data[0], rs1: data[1], rs2: data[2] }),
        32 => Some(MicroOp::Mulhsu { rd: data[0], rs1: data[1], rs2: data[2] }),
        33 => Some(MicroOp::Mulhu { rd: data[0], rs1: data[1], rs2: data[2] }),
        34 => Some(MicroOp::Div { rd: data[0], rs1: data[1], rs2: data[2] }),
        35 => Some(MicroOp::Divu { rd: data[0], rs1: data[1], rs2: data[2] }),
        36 => Some(MicroOp::Rem { rd: data[0], rs1: data[1], rs2: data[2] }),
        37 => Some(MicroOp::Remu { rd: data[0], rs1: data[1], rs2: data[2] }),
        38 => Some(MicroOp::Mulw { rd: data[0], rs1: data[1], rs2: data[2] }),
        39 => Some(MicroOp::Divw { rd: data[0], rs1: data[1], rs2: data[2] }),
        129 => Some(MicroOp::Divuw { rd: data[0], rs1: data[1], rs2: data[2] }),
        130 => Some(MicroOp::Remw { rd: data[0], rs1: data[1], rs2: data[2] }),
        131 => Some(MicroOp::Remuw { rd: data[0], rs1: data[1], rs2: data[2] }),
        120 => Some(MicroOp::Lui { rd: data[0], imm: i64_at(data, 2) }),
        121 => Some(MicroOp::Auipc { rd: data[0], imm: i64_at(data, 2), pc_offset: u16_at(data, 10) }),
        40 => Some(MicroOp::Lb { rd: data[0], rs1: data[1], imm: i64_at(data, 2), pc_offset: u16_at(data, 10) }),
        41 => Some(MicroOp::Lbu { rd: data[0], rs1: data[1], imm: i64_at(data, 2), pc_offset: u16_at(data, 10) }),
        42 => Some(MicroOp::Lh { rd: data[0], rs1: data[1], imm: i64_at(data, 2), pc_offset: u16_at(data, 10) }),
        43 => Some(MicroOp::Lhu { rd: data[0], rs1: data[1], imm: i64_at(data, 2), pc_offset: u16_at(data, 10) }),
        44 => Some(MicroOp::Lw { rd: data[0], rs1: data[1], imm: i64_at(data, 2), pc_offset: u16_at(data, 10) }),
        45 => Some(MicroOp::Lwu { rd: data[0], rs1: data[1], imm: i64_at(data, 2), pc_offset: u16_at(data, 10) }),
        46 => Some(MicroOp::Ld { rd: data[0], rs1: data[1], imm: i64_at(data, 2), pc_offset: u16_at(data, 10) }),
        50 => Some(MicroOp::Sb { rs1: data[0], rs2: data[1], imm: i64_at(data, 2), pc_offset: u16_at(data, 10) }),
        51 => Some(MicroOp::Sh { rs1: data[0], rs2: data[1], imm: i64_at(data, 2), pc_offset: u16_at(data, 10) }),
        52 => Some(MicroOp::Sw { rs1: data[0], rs2: data[1], imm: i64_at(data, 2), pc_offset: u16_at(data, 10) }),
        53 => Some(MicroOp::Sd { rs1: data[0], rs2: data[1], imm: i64_at(data, 2), pc_offset: u16_at(data, 10) }),
        60 => Some(MicroOp::Beq { rs1: data[0], rs2: data[1], imm: i64_at(data, 2), pc_offset: u16_at(data, 10), insn_len: data[12] }),
        61 => Some(MicroOp::Bne { rs1: data[0], rs2: data[1], imm: i64_at(data, 2), pc_offset: u16_at(data, 10), insn_len: data[12] }),
        62 => Some(MicroOp::Blt { rs1: data[0], rs2: data[1], imm: i64_at(data, 2), pc_offset: u16_at(data, 10), insn_len: data[12] }),
        63 => Some(MicroOp::Bge { rs1: data[0], rs2: data[1], imm: i64_at(data, 2), pc_offset: u16_at(data, 10), insn_len: data[12] }),
        64 => Some(MicroOp::Bltu { rs1: data[0], rs2: data[1], imm: i64_at(data, 2), pc_offset: u16_at(data, 10), insn_len: data[12] }),
        65 => Some(MicroOp::Bgeu { rs1: data[0], rs2: data[1], imm: i64_at(data, 2), pc_offset: u16_at(data, 10), insn_len: data[12] }),
        70 => Some(MicroOp::Jal { rd: data[0], imm: i64_at(data, 2), pc_offset: u16_at(data, 10), insn_len: data[12] }),
        71 => Some(MicroOp::Jalr { rd: data[0], rs1: data[1], imm: i64_at(data, 2), pc_offset: u16_at(data, 10), insn_len: data[12] }),
        80 => Some(MicroOp::Csrrw { rd: data[0], rs1: data[1], csr: u16_at(data, 2), pc_offset: u16_at(data, 4) }),
        81 => Some(MicroOp::Csrrs { rd: data[0], rs1: data[1], csr: u16_at(data, 2), pc_offset: u16_at(data, 4) }),
        82 => Some(MicroOp::Csrrc { rd: data[0], rs1: data[1], csr: u16_at(data, 2), pc_offset: u16_at(data, 4) }),
        83 => Some(MicroOp::Csrrwi { rd: data[0], zimm: data[1], csr: u16_at(data, 2), pc_offset: u16_at(data, 4) }),
        84 => Some(MicroOp::Csrrsi { rd: data[0], zimm: data[1], csr: u16_at(data, 2), pc_offset: u16_at(data, 4) }),
        85 => Some(MicroOp::Csrrci { rd: data[0], zimm: data[1], csr: u16_at(data, 2), pc_offset: u16_at(data, 4) }),
        90 => Some(MicroOp::Ecall { pc_offset: u16_at(data, 0) }),
        91 => Some(MicroOp::Ebreak { pc_offset: u16_at(data, 0) }),
        92 => Some(MicroOp::Mret { pc_offset: u16_at(data, 0) }),
        93 => Some(MicroOp::Sret { pc_offset: u16_at(data, 0) }),
        94 => Some(MicroOp::Wfi { pc_offset: u16_at(data, 0) }),
        95 => Some(MicroOp::SfenceVma { pc_offset: u16_at(data, 0) }),
        254 => Some(MicroOp::Fence),
        100 => Some(MicroOp::LrW { rd: data[0], rs1: data[1], pc_offset: u16_at(data, 2) }),
        101 => Some(MicroOp::LrD { rd: data[0], rs1: data[1], pc_offset: u16_at(data, 2) }),
        102 => Some(MicroOp::ScW { rd: data[0], rs1: data[1], rs2: data[2], pc_offset: u16_at(data, 3) }),
        103 => Some(MicroOp::ScD { rd: data[0], rs1: data[1], rs2: data[2], pc_offset: u16_at(data, 3) }),
        110 => Some(MicroOp::AmoSwap { rd: data[0], rs1: data[1], rs2: data[2], is_word: data[3] != 0, pc_offset: u16_at(data, 4) }),
        111 => Some(MicroOp::AmoAdd { rd: data[0], rs1: data[1], rs2: data[2], is_word: data[3] != 0, pc_offset: u16_at(data, 4) }),
        112 => Some(MicroOp::AmoXor { rd: data[0], rs1: data[1], rs2: data[2], is_word: data[3] != 0, pc_offset: u16_at(data, 4) }),
        113 => Some(MicroOp::AmoAnd { rd: data[0], rs1: data[1], rs2: data[2], is_word: data[3] != 0, pc_offset: u16_at(data, 4) }),
        114 => Some(MicroOp::AmoOr { rd: data[0], rs1: data[1], rs2: data[2], is_word: data[3] != 0, pc_offset: u16_at(data, 4) }),
        115 => Some(MicroOp::AmoMin { rd: data[0], rs1: data[1], rs2: data[2], is_word: data[3] != 0, pc_offset: u16_at(data, 4) }),
        116 => Some(MicroOp::AmoMax { rd: data[0], rs1: data[1], rs2: data[2], is_word: data[3] != 0, pc_offset: u16_at(data, 4) }),
        117 => Some(MicroOp::AmoMinu { rd: data[0], rs1: data[1], rs2: data[2], is_word: data[3] != 0, pc_offset: u16_at(data, 4) }),
        118 => Some(MicroOp::AmoMaxu { rd: data[0], rs1: data[1], rs2: data[2], is_word: data[3] != 0, pc_offset: u16_at(data, 4) }),
        _ => None,
    }
}

proof fn lemma_le_elements(v: nat, n: nat)
    requires
        n <= 8,
    ensures
        bytes::le_bytes(v, n).len() == n,
        n > 0 ==> bytes::le_bytes(v, n)[0] == (v % 256) as u8,
        n > 1 ==> bytes::le_bytes(v, n)[1] == (v / 256 % 256) as u8,
        n > 2 ==> bytes::le_bytes(v, n)[2] == (v / 256 / 256 % 256) as u8,
        n > 3 ==> bytes::le_bytes(v, n)[3] == (v / 256 / 256 / 256 % 256) as u8,
        n > 4 ==> bytes::le_bytes(v, n)[4] == (v / 256 / 256 / 256 / 256 % 256) as u8,
        n > 5 ==> bytes::le_bytes(v, n)[5] == (v / 256 / 256 / 256 / 256 / 256 % 256) as u8,
        n > 6 ==> bytes::le_bytes(v, n)[6] == (v / 256 / 256 / 256 / 256 / 256 / 256 % 256) as u8,
        n > 7 ==> bytes::le_bytes(v, n)[7] == (v / 256 / 256 / 256 / 256 / 256 / 256 / 256
            % 256) as u8,
    decreases n,
{
    bytes::lemma_le_bytes_len(v, n);
    if n > 0 {
        lemma_le_elements(v / 256, (n - 1) as nat);
    }
}

/// The bytes of an immediate, least significant first.
fn split64(v: i64) -> (b: [u8; 8])
    ensures
        b@ == le64(v),
{
    let v0: u64 = v as u64;
    let v1: u64 = v0 / 256;
    let v2: u64 = v1 / 256;
    let v3: u64 = v2 / 256;
    let v4: u64 = v3 / 256;
    let v5: u64 = v4 / 256;
    let v6: u64 = v5 / 256;
    let v7: u64 = v6 / 256;
    proof {
        lemma_le_elements(v0 as nat, 8);
    }
    let b: [u8; 8] = [
        (v0 % 256) as u8,
        (v1 % 256) as u8,
        (v2 % 256) as u8,
        (v3 % 256) as u8,
        (v4 % 256) as u8,
        (v5 % 256) as u8,
        (v6 % 256) as u8,
        (v7 % 256) as u8,
    ];
    assert(b@ =~= le64(v));
    b
}

/// The bytes of a half-word, least significant first.
fn split16(v: u16) -> (b: (u8, u8))
    ensures
        le16(v) == seq![b.0, b.1],
{
    proof {
        lemma_le_elements(v as nat, 2);
    }
    let b: (u8, u8) = ((v % 256) as u8, (v / 256) as u8);
    assert(le16(v) =~= seq![b.0, b.1]);
    b
}

fn pack_empty() -> (d: [u8; 16])
    ensures
        d@ == layout_empty(),
{
    let d: [u8; 16] = [0; 16];
    assert(d@ =~= layout_empty());
    d
}

fn pack_three(a: u8, b: u8, c: u8) -> (d: [u8; 16])
    ensures
        d@ == layout_three(a, b, c),
{
    let d: [u8; 16] = [a, b, c, 0, 0, 0, 0, 0, 0, 0, 0, 0, 0, 0, 0, 0];
    assert(d@ =~= layout_three(a, b, c));
    d
}

fn pack_with_imm(a: u8, b: u8, imm: i64) -> (d: [u8; 16])
    ensures
        d@ == layout_with_imm(a, b, imm),
{
    let i: [u8; 8] = split64(imm);
    let d: [u8; 16] = [a, b, i[0], i[1], i[2], i[3], i[4], i[5], i[6], i[7], 0, 0, 0, 0, 0, 0];
    assert(d@ =~= layout_with_imm(a, b, imm));
    d
}

fn pack_with_imm32(a: u8, b: u8, imm: i32) -> (d: [u8; 16])
    ensures
        d@ == layout_with_imm32(a, b, imm),
{
    let v0: u32 = imm as u32;
    let v1: u32 = v0 / 256;
    let v2: u32 = v1 / 256;
    let v3: u32 = v2 / 256;
    proof {
        lemma_le_elements(v0 as nat, 4);
    }
    let d: [u8; 16] = [
        a,
        b,
        (v0 % 256) as u8,
        (v1 % 256) as u8,
        (v2 % 256) as u8,
        (v3 % 256) as u8,
        0,
        0,
        0,
        0,
        0,
        0,
        0,
        0,
        0,
        0,
    ];
    assert(d@ =~= layout_with_imm32(a, b, imm));
    d
}

fn pack_with_place(a: u8, b: u8, imm: i64, place: u16) -> (d: [u8; 16])
    ensures
        d@ == layout_with_place(a, b, imm, place),
{
    let i: [u8; 8] = split64(imm);
    let p: (u8, u8) = split16(place);
    let d: [u8; 16] = [
        a,
        b,
        i[0],
        i[1],
        i[2],
        i[3],
        i[4],
        i[5],
        i[6],
        i[7],
        p.0,
        p.1,
        0,
        0,
        0,
        0,
    ];
    assert(d@ =~= layout_with_place(a, b, imm, place));
    d
}

fn pack_with_len(a: u8, b: u8, imm: i64, place: u16, len: u8) -> (d: [u8; 16])
    ensures
        d@ == layout_with_len(a, b, imm, place, len),
{
    let i: [u8; 8] = split64(imm);
    let p: (u8, u8) = split16(place);
    let d: [u8; 16] = [
        a,
        b,
        i[0],
        i[1],
        i[2],
        i[3],
        i[4],
        i[5],
        i[6],
        i[7],
        p.0,
        p.1,
        len,
        0,
        0,
        0,
    ];
    assert(d@ =~= layout_with_len(a, b, imm, place, len));
    d
}

fn pack_csr(a: u8, b: u8, csr: u16, place: u16) -> (d: [u8; 16])
    ensures
        d@ == layout_csr(a, b, csr, place),
{
    let c: (u8, u8) = split16(csr);
    let p: (u8, u8) = split16(place);
    let d: [u8; 16] = [a, b, c.0, c.1, p.0, p.1, 0, 0, 0, 0, 0, 0, 0, 0, 0, 0];
    assert(d@ =~= layout_csr(a, b, csr, place));
    d
}

fn pack_place(place: u16) -> (d: [u8; 16])
    ensures
        d@ == layout_place(place),
{
    let p: (u8, u8) = split16(place);
    let d: [u8; 16] = [p.0, p.1, 0, 0, 0, 0, 0, 0, 0, 0, 0, 0, 0, 0, 0, 0];
    assert(d@ =~= layout_place(place));
    d
}

fn pack_two_place(a: u8, b: u8, place: u16) -> (d: [u8; 16])
    ensures
        d@ == layout_two_place(a, b, place),
{
    let p: (u8, u8) = split16(place);
    let d: [u8; 16] = [a, b, p.0, p.1, 0, 0, 0, 0, 0, 0, 0, 0, 0, 0, 0, 0];
    assert(d@ =~= layout_two_place(a, b, place));
    d
}

fn pack_three_place(a: u8, b: u8, c: u8, place: u16) -> (d: [u8; 16])
    ensures
        d@ == layout_three_place(a, b, c, place),
{
    let p: (u8, u8) = split16(place);
    let d: [u8; 16] = [a, b, c, p.0, p.1, 0, 0, 0, 0, 0, 0, 0, 0, 0, 0, 0];
    assert(d@ =~= layout_three_place(a, b, c, place));
    d
}

fn pack_amo(a: u8, b: u8, c: u8, word: bool, place: u16) -> (d: [u8; 16])
    ensures
        d@ == layout_amo(a, b, c, word, place),
{
    let p: (u8, u8) = split16(place);
    let w: u8 = if word {
        1
    } else {
        0
    };
    let d: [u8; 16] = [a, b, c, w, p.0, p.1, 0, 0, 0, 0, 0, 0, 0, 0, 0, 0];
    assert(d@ =~= layout_amo(a, b, c, word, place));
    d
}

fn get_i64(data: [u8; 16], at: usize) -> (v: i64)
    requires
        at + 8 <= 16,
    ensures
        v == i64_at(data@, at as int),
{
    bytes::read_le(data.as_slice(), at, 8) as i64
}

fn get_i32(data: [u8; 16], at: usize) -> (v: i32)
    requires
        at + 4 <= 16,
    ensures
        v == i32_at(data@, at as int),
{
    bytes::read_le(data.as_slice(), at, 4) as u32 as i32
}

fn get_u16(data: [u8; 16], at: usize) -> (v: u16)
    requires
        at + 2 <= 16,
    ensures
        v == u16_at(data@, at as int),
{
    bytes::read_le(data.as_slice(), at, 2) as u16
}

impl SerializedMicroOp {
    /// Packs an instruction.
    #[verifier::spinoff_prover]
    pub fn from_microop(op: &MicroOp) -> (s: Self)
        ensures
            (s.tag, s.data@) == encoded(*op),
    {
        let (tag, data): (u8, [u8; 16]) = match *op {
            MicroOp::Addi { rd, rs1, imm } => (0, pack_with_imm(rd, rs1, imm)),
            MicroOp::Xori { rd, rs1, imm } => (1, pack_with_imm(rd, rs1, imm)),
            MicroOp::Ori { rd, rs1, imm } => (2, pack_with_imm(rd, rs1, imm)),
            MicroOp::Andi { rd, rs1, imm } => (3, pack_with_imm(rd, rs1, imm)),
            MicroOp::Slti { rd, rs1, imm } => (4, pack_with_imm(rd, rs1, imm)),
            MicroOp::Sltiu { rd, rs1, imm } => (5, pack_with_imm(rd, rs1, imm)),
            MicroOp::Slli { rd, rs1, shamt } => (6, pack_three(rd, rs1, shamt)),
            MicroOp::Srli { rd, rs1, shamt } => (7, pack_three(rd, rs1, shamt)),
            MicroOp::Srai { rd, rs1, shamt } => (8, pack_three(rd, rs1, shamt)),
            MicroOp::Add { rd, rs1, rs2 } => (10, pack_three(rd, rs1, rs2)),
            MicroOp::Sub { rd, rs1, rs2 } => (11, pack_three(rd, rs1, rs2)),
            MicroOp::Xor { rd, rs1, rs2 } => (12, pack_three(rd, rs1, rs2)),
            MicroOp::Or { rd, rs1, rs2 } => (13, pack_three(rd, rs1, rs2)),
            MicroOp::And { rd, rs1, rs2 } => (14, pack_three(rd, rs1, rs2)),
            MicroOp::Sll { rd, rs1, rs2 } => (15, pack_three(rd, rs1, rs2)),
            MicroOp::Srl { rd, rs1, rs2 } => (16, pack_three(rd, rs1, rs2)),
            MicroOp::Sra { rd, rs1, rs2 } => (17, pack_three(rd, rs1, rs2)),
            MicroOp::Slt { rd, rs1, rs2 } => (18, pack_three(rd, rs1, rs2)),
            MicroOp::Sltu { rd, rs1, rs2 } => (19, pack_three(rd, rs1, rs2)),
            MicroOp::Addiw { rd, rs1, imm } => (20, pack_with_imm32(rd, rs1, imm)),
            MicroOp::Slliw { rd, rs1, shamt } => (21, pack_three(rd, rs1, shamt)),
            MicroOp::Srliw { rd, rs1, shamt } => (22, pack_three(rd, rs1, shamt)),
            MicroOp::Sraiw { rd, rs1, shamt } => (23, pack_three(rd, rs1, shamt)),
            MicroOp::Addw { rd, rs1, rs2 } => (24, pack_three(rd, rs1, rs2)),
            MicroOp::Subw { rd, rs1, rs2 } => (25, pack_three(rd, rs1, rs2)),
            MicroOp::Sllw { rd, rs1, rs2 } => (26, pack_three(rd, rs1, rs2)),
            MicroOp::Srlw { rd, rs1, rs2 } => (27, pack_three(rd, rs1, rs2)),
            MicroOp::Sraw { rd, rs1, rs2 } => (28, pack_three(rd, rs1, rs2)),
            MicroOp::Mul { rd, rs1, rs2 } => (30, pack_three(rd, rs1, rs2)),
            MicroOp::Mulh { rd, rs1, rs2 } => (31, pack_three(rd, rs1, rs2)),
            MicroOp::Mulhsu { rd, rs1, rs2 } => (32, pack_three(rd, rs1, rs2)),
            MicroOp::Mulhu { rd, rs1, rs2 } => (33, pack_three(rd, rs1, rs2)),
            MicroOp::Div { rd, rs1, rs2 } => (34, pack_three(rd, rs1, rs2)),
            MicroOp::Divu { rd, rs1, rs2 } => (35, pack_three(rd, rs1, rs2)),
            MicroOp::Rem { rd, rs1, rs2 } => (36, pack_three(rd, rs1, rs2)),
            MicroOp::Remu { rd, rs1, rs2 } => (37, pack_three(rd, rs1, rs2)),
            MicroOp::Mulw { rd, rs1, rs2 } => (38, pack_three(rd, rs1, rs2)),
            MicroOp::Divw { rd, rs1, rs2 } => (39, pack_three(rd, rs1, rs2)),
            MicroOp::Divuw { rd, rs1, rs2 } => (129, pack_three(rd, rs1, rs2)),
            MicroOp::Remw { rd, rs1, rs2 } => (130, pack_three(rd, rs1, rs2)),
            MicroOp::Remuw { rd, rs1, rs2 } => (131, pack_three(rd, rs1, rs2)),
            MicroOp::Lui { rd, imm } => (120, pack_with_imm(rd, 0, imm)),
            MicroOp::Auipc { rd, imm, pc_offset } => (121, pack_with_place(rd, 0, imm, pc_offset)),
            MicroOp::Lb { rd, rs1, imm, pc_offset } => (40, pack_with_place(rd, rs1, imm, pc_offset)),
            MicroOp::Lbu { rd, rs1, imm, pc_offset } => (41, pack_with_place(rd, rs1, imm, pc_offset)),
            MicroOp::Lh { rd, rs1, imm, pc_offset } => (42, pack_with_place(rd, rs1, imm, pc_offset)),
            MicroOp::Lhu { rd, rs1, imm, pc_offset } => (43, pack_with_place(rd, rs1, imm, pc_offset)),
            MicroOp::Lw { rd, rs1, imm, pc_offset } => (44, pack_with_place(rd, rs1, imm, pc_offset)),
            MicroOp::Lwu { rd, rs1, imm, pc_offset } => (45, pack_with_place(rd, rs1, imm, pc_offset)),
            MicroOp::Ld { rd, rs1, imm, pc_offset } => (46, pack_with_place(rd, rs1, imm, pc_offset)),
            MicroOp::Sb { rs1, rs2, imm, pc_offset } => (50, pack_with_place(rs1, rs2, imm, pc_offset)),
            MicroOp::Sh { rs1, rs2, imm, pc_offset } => (51, pack_with_place(rs1, rs2, imm, pc_offset)),
            MicroOp::Sw { rs1, rs2, imm, pc_offset } => (52, pack_with_place(rs1, rs2, imm, pc_offset)),
            MicroOp::Sd { rs1, rs2, imm, pc_offset } => (53, pack_with_place(rs1, rs2, imm, pc_offset)),
            MicroOp::Beq { rs1, rs2, imm, pc_offset, insn_len } => (60, pack_with_len(rs1, rs2, imm, pc_offset, insn_len)),
            MicroOp::Bne { rs1, rs2, imm, pc_offset, insn_len } => (61, pack_with_len(rs1, rs2, imm, pc_offset, insn_len)),
            MicroOp::Blt { rs1, rs2, imm, pc_offset, insn_len } => (62, pack_with_len(rs1, rs2, imm, pc_offset, insn_len)),
            MicroOp::Bge { rs1, rs2, imm, pc_offset, insn_len } => (63, pack_with_len(rs1, rs2, imm, pc_offset, insn_len)),
            MicroOp::Bltu { rs1, rs2, imm, pc_offset, insn_len } => (64, pack_with_len(rs1, rs2, imm, pc_offset, insn_len)),
            MicroOp::Bgeu { rs1, rs2, imm, pc_offset, insn_len } => (65, pack_with_len(rs1, rs2, imm, pc_offset, insn_len)),
            MicroOp::Jal { rd, imm, pc_offset, insn_len } => (70, pack_with_len(rd, 0, imm, pc_offset, insn_len)),
            MicroOp::Jalr { rd, rs1, imm, pc_offset, insn_len } => (71, pack_with_len(rd, rs1, imm, pc_offset, insn_len)),
            MicroOp::Csrrw { rd, rs1, csr, pc_offset } => (80, pack_csr(rd, rs1, csr, pc_offset)),
            MicroOp::Csrrs { rd, rs1, csr, pc_offset } => (81, pack_csr(rd, rs1, csr, pc_offset)),
            MicroOp::Csrrc { rd, rs1, csr, pc_offset } => (82, pack_csr(rd, rs1, csr, pc_offset)),
            MicroOp::Csrrwi { rd, zimm, csr, pc_offset } => (83, pack_csr(rd, zimm, csr, pc_offset)),
            MicroOp::Csrrsi { rd, zimm, csr, pc_offset } => (84, pack_csr(rd, zimm, csr, pc_offset)),
            MicroOp::Csrrci { rd, zimm, csr, pc_offset } => (85, pack_csr(rd, zimm, csr, pc_offset)),
            MicroOp::Ecall { pc_offset } => (90, pack_place(pc_offset)),
            MicroOp::Ebreak { pc_offset } => (91, pack_place(pc_offset)),
            MicroOp::Mret { pc_offset } => (92, pack_place(pc_offset)),
            MicroOp::Sret { pc_offset } => (93, pack_place(pc_offset)),
            MicroOp::Wfi { pc_offset } => (94, pack_place(pc_offset)),
            MicroOp::SfenceVma { pc_offset } => (95, pack_place(pc_offset)),
            MicroOp::Fence => (254, pack_empty()),
            MicroOp::LrW { rd, rs1, pc_offset } => (100, pack_two_place(rd, rs1, pc_offset)),
            MicroOp::LrD { rd, rs1, pc_offset } => (101, pack_two_place(rd, rs1, pc_offset)),
            MicroOp::ScW { rd, rs1, rs2, pc_offset } => (102, pack_three_place(rd, rs1, rs2, pc_offset)),
            MicroOp::ScD { rd, rs1, rs2, pc_offset } => (103, pack_three_place(rd, rs1, rs2, pc_offset)),
            MicroOp::AmoSwap { rd, rs1, rs2, is_word, pc_offset } => (110, pack_amo(rd, rs1, rs2, is_word, pc_offset)),
            MicroOp::AmoAdd { rd, rs1, rs2, is_word, pc_offset } => (111, pack_amo(rd, rs1, rs2, is_word, pc_offset)),
            MicroOp::AmoXor { rd, rs1, rs2, is_word, pc_offset } => (112, pack_amo(rd, rs1, rs2, is_word, pc_offset)),
            MicroOp::AmoAnd { rd, rs1, rs2, is_word, pc_offset } => (113, pack_amo(rd, rs1, rs2, is_word, pc_offset)),
            MicroOp::AmoOr { rd, rs1, rs2, is_word, pc_offset } => (114, pack_amo(rd, rs1, rs2, is_word, pc_offset)),
            MicroOp::AmoMin { rd, rs1, rs2, is_word, pc_offset } => (115, pack_amo(rd, rs1, rs2, is_word, pc_offset)),
            MicroOp::AmoMax { rd, rs1, rs2, is_word, pc_offset } => (116, pack_amo(rd, rs1, rs2, is_word, pc_offset)),
            MicroOp::AmoMinu { rd, rs1, rs2, is_word, pc_offset } => (117, pack_amo(rd, rs1, rs2, is_word, pc_offset)),
            MicroOp::AmoMaxu { rd, rs1, rs2, is_word, pc_offset } => (118, pack_amo(rd, rs1, rs2, is_word, pc_offset)),
        };
        Self { tag, data }
    }

    /// Unpacks an instruction, or gives `None` where the tag stands for none.
    #[verifier::spinoff_prover]
    pub fn to_microop(&self) -> (op: Option<MicroOp>)
        ensures
            op == decoded(self.tag, self.data@),
    {
        let data: [u8; 16] = self.data;
        match self.tag {
            0 => Some(MicroOp::Addi { rd: data[0], rs1: data[1], imm: get_i64(data, 2) }),
            1 => Some(MicroOp::Xori { rd: data[0], rs1: data[1], imm: get_i64(data, 2) }),
            2 => Some(MicroOp::Ori { rd: data[0], rs1: data[1], imm: get_i64(data, 2) }),
            3 => Some(MicroOp::Andi { rd: data[0], rs1: data[1], imm: get_i64(data, 2) }),
            4 => Some(MicroOp::Slti { rd: data[0], rs1: data[1], imm: get_i64(data, 2) }),
            5 => Some(MicroOp::Sltiu { rd: data[0], rs1: data[1], imm: get_i64(data, 2) }),
            6 => Some(MicroOp::Slli { rd: data[0], rs1: data[1], shamt: data[2] }),
            7 => Some(MicroOp::Srli { rd: data[0], rs1: data[1], shamt: data[2] }),
            8 => Some(MicroOp::Srai { rd: data[0], rs1: data[1], shamt: data[2] }),
            10 => Some(MicroOp::Add { rd: data[0], rs1: data[1], rs2: data[2] }),
            11 => Some(MicroOp::Sub { rd: data[0], rs1: data[1], rs2: data[2] }),
            12 => Some(MicroOp::Xor { rd: data[0], rs1: data[1], rs2: data[2] }),
            13 => Some(MicroOp::Or { rd: data[0], rs1: data[1], rs2: data[2] }),
            14 => Some(MicroOp::And { rd: data[0], rs1: data[1], rs2: data[2] }),
            15 => Some(MicroOp::Sll { rd: data[0], rs1: data[1], rs2: data[2] }),
            16 => Some(MicroOp::Srl { rd: data[0], rs1: data[1], rs2: data[2] }),
            17 => Some(MicroOp::Sra { rd: data[0], rs1: data[1], rs2: data[2] }),
            18 => Some(MicroOp::Slt { rd: data[0], rs1: data[1], rs2: data[2] }),
            19 => Some(MicroOp::Sltu { rd: data[0], rs1: data[1], rs2: data[2] }),
            20 => Some(MicroOp::Addiw { rd: data[0], rs1: data[1], imm: get_i32(data, 2) }),
            21 => Some(MicroOp::Slliw { rd: data[0], rs1: data[1], shamt: data[2] }),
            22 => Some(MicroOp::Srliw { rd: data[0], rs1: data[1], shamt: data[2] }),
            23 => Some(MicroOp::Sraiw { rd: data[0], rs1: data[1], shamt: data[2] }),
            24 => Some(MicroOp::Addw { rd: data[0], rs1: data[1], rs2: data[2] }),
            25 => Some(MicroOp::Subw { rd: data[0], rs1: data[1], rs2: data[2] }),
            26 => Some(MicroOp::Sllw { rd: data[0], rs1: data[1], rs2: data[2] }),
            27 => Some(MicroOp::Srlw { rd: data[0], rs1: data[1], rs2: data[2] }),
            28 => Some(MicroOp::Sraw { rd: data[0], rs1: data[1], rs2: data[2] }),
            30 => Some(MicroOp::Mul { rd: data[0], rs1: data[1], rs2: data[2] }),
            31 => Some(MicroOp::Mulh { rd: data[0], rs1: data[1], rs2: data[2] }),
            32 => Some(MicroOp::Mulhsu { rd: data[0], rs1: data[1], rs2: data[2] }),
            33 => Some(MicroOp::Mulhu { rd: data[0], rs1: data[1], rs2: data[2] }),
            34 => Some(MicroOp::Div { rd: data[0], rs1: data[1], rs2: data[2] }),
            35 => Some(MicroOp::Divu { rd: data[0], rs1: data[1], rs2: data[2] }),
            36 => Some(MicroOp::Rem { rd: data[0], rs1: data[1], rs2: data[2] }),
            37 => Some(MicroOp::Remu { rd: data[0], rs1: data[1], rs2: data[2] }),
            38 => Some(MicroOp::Mulw { rd: data[0], rs1: data[1], rs2: data[2] }),
            39 => Some(MicroOp::Divw { rd: data[0], rs1: data[1], rs2: data[2] }),
            129 => Some(MicroOp::Divuw { rd: data[0], rs1: data[1], rs2: data[2] }),
            130 => Some(MicroOp::Remw { rd: data[0], rs1: data[1], rs2: data[2] }),
            131 => Some(MicroOp::Remuw { rd: data[0], rs1: data[1], rs2: data[2] }),
            120 => Some(MicroOp::Lui { rd: data[0], imm: get_i64(data, 2) }),
            121 => Some(MicroOp::Auipc { rd: data[0], imm: get_i64(data, 2), pc_offset: get_u16(data, 10) }),
            40 => Some(MicroOp::Lb { rd: data[0], rs1: data[1], imm: get_i64(data, 2), pc_offset: get_u16(data, 10) }),
            41 => Some(MicroOp::Lbu { rd: data[0], rs1: data[1], imm: get_i64(data, 2), pc_offset: get_u16(data, 10) }),
            42 => Some(MicroOp::Lh { rd: data[0], rs1: data[1], imm: get_i64(data, 2), pc_offset: get_u16(data, 10) }),
            43 => Some(MicroOp::Lhu { rd: data[0], rs1: data[1], imm: get_i64(data, 2), pc_offset: get_u16(data, 10) }),
            44 => Some(MicroOp::Lw { rd: data[0], rs1: data[1], imm: get_i64(data, 2), pc_offset: get_u16(data, 10) }),
            45 => Some(MicroOp::Lwu { rd: data[0], rs1: data[1], imm: get_i64(data, 2), pc_offset: get_u16(data, 10) }),
            46 => Some(MicroOp::Ld { rd: data[0], rs1: data[1], imm: get_i64(data, 2), pc_offset: get_u16(data, 10) }),
            50 => Some(MicroOp::Sb { rs1: data[0], rs2: data[1], imm: get_i64(data, 2), pc_offset: get_u16(data, 10) }),
            51 => Some(MicroOp::Sh { rs1: data[0], rs2: data[1], imm: get_i64(data, 2), pc_offset: get_u16(data, 10) }),
            52 => Some(MicroOp::Sw { rs1: data[0], rs2: data[1], imm: get_i64(data, 2), pc_offset: get_u16(data, 10) }),
            53 => Some(MicroOp::Sd { rs1: data[0], rs2: data[1], imm: get_i64(data, 2), pc_offset: get_u16(data, 10) }),
            60 => Some(MicroOp::Beq { rs1: data[0], rs2: data[1], imm: get_i64(data, 2), pc_offset: get_u16(data, 10), insn_len: data[12] }),
            61 => Some(MicroOp::Bne { rs1: data[0], rs2: data[1], imm: get_i64(data, 2), pc_offset: get_u16(data, 10), insn_len: data[12] }),
            62 => Some(MicroOp::Blt { rs1: data[0], rs2: data[1], imm: get_i64(data, 2), pc_offset: get_u16(data, 10), insn_len: data[12] }),
            63 => Some(MicroOp::Bge { rs1: data[0], rs2: data[1], imm: get_i64(data, 2), pc_offset: get_u16(data, 10), insn_len: data[12] }),
            64 => Some(MicroOp::Bltu { rs1: data[0], rs2: data[1], imm: get_i64(data, 2), pc_offset: get_u16(data, 10), insn_len: data[12] }),
            65 => Some(MicroOp::Bgeu { rs1: data[0], rs2: data[1], imm: get_i64(data, 2), pc_offset: get_u16(data, 10), insn_len: data[12] }),
            70 => Some(MicroOp::Jal { rd: data[0], imm: get_i64(data, 2), pc_offset: get_u16(data, 10), insn_len: data[12] }),
            71 => Some(MicroOp::Jalr { rd: data[0], rs1: data[1], imm: get_i64(data, 2), pc_offset: get_u16(data, 10), insn_len: data[12] }),
            80 => Some(MicroOp::Csrrw { rd: data[0], rs1: data[1], csr: get_u16(data, 2), pc_offset: get_u16(data, 4) }),
            81 => Some(MicroOp::Csrrs { rd: data[0], rs1: data[1], csr: get_u16(data, 2), pc_offset: get_u16(data, 4) }),
            82 => Some(MicroOp::Csrrc { rd: data[0], rs1: data[1], csr: get_u16(data, 2), pc_offset: get_u16(data, 4) }),
            83 => Some(MicroOp::Csrrwi { rd: data[0], zimm: data[1], csr: get_u16(data, 2), pc_offset: get_u16(data, 4) }),
            84 => Some(MicroOp::Csrrsi { rd: data[0], zimm: data[1], csr: get_u16(data, 2), pc_offset: get_u16(data, 4) }),
            85 => Some(MicroOp::Csrrci { rd: data[0], zimm: data[1], csr: get_u16(data, 2), pc_offset: get_u16(data, 4) }),
            90 => Some(MicroOp::Ecall { pc_offset: get_u16(data, 0) }),
            91 => Some(MicroOp::Ebreak { pc_offset: get_u16(data, 0) }),
            92 => Some(MicroOp::Mret { pc_offset: get_u16(data, 0) }),
            93 => Some(MicroOp::Sret { pc_offset: get_u16(data, 0) }),
            94 => Some(MicroOp::Wfi { pc_offset: get_u16(data, 0) }),
            95 => Some(MicroOp::SfenceVma { pc_offset: get_u16(data, 0) }),
            254 => Some(MicroOp::Fence),
            100 => Some(MicroOp::LrW { rd: data[0], rs1: data[1], pc_offset: get_u16(data, 2) }),
            101 => Some(MicroOp::LrD { rd: data[0], rs1: data[1], pc_offset: get_u16(data, 2) }),
            102 => Some(MicroOp::ScW { rd: data[0], rs1: data[1], rs2: data[2], pc_offset: get_u16(data, 3) }),
            103 => Some(MicroOp::ScD { rd: data[0], rs1: data[1], rs2: data[2], pc_offset: get_u16(data, 3) }),
            110 => Some(MicroOp::AmoSwap { rd: data[0], rs1: data[1], rs2: data[2], is_word: data[3] != 0, pc_offset: get_u16(data, 4) }),
            111 => Some(MicroOp::AmoAdd { rd: data[0], rs1: data[1], rs2: data[2], is_word: data[3] != 0, pc_offset: get_u16(data, 4) }),
            112 => Some(MicroOp::AmoXor { rd: data[0], rs1: data[1], rs2: data[2], is_word: data[3] != 0, pc_offset: get_u16(data, 4) }),
            113 => Some(MicroOp::AmoAnd { rd: data[0], rs1: data[1], rs2: data[2], is_word: data[3] != 0, pc_offset: get_u16(data, 4) }),
            114 => Some(MicroOp::AmoOr { rd: data[0], rs1: data[1], rs2: data[2], is_word: data[3] != 0, pc_offset: get_u16(data, 4) }),
            115 => Some(MicroOp::AmoMin { rd: data[0], rs1: data[1], rs2: data[2], is_word: data[3] != 0, pc_offset: get_u16(data, 4) }),
            116 => Some(MicroOp::AmoMax { rd: data[0], rs1: data[1], rs2: data[2], is_word: data[3] != 0, pc_offset: get_u16(data, 4) }),
            117 => Some(MicroOp::AmoMinu { rd: data[0], rs1: data[1], rs2: data[2], is_word: data[3] != 0, pc_offset: get_u16(data, 4) }),
            118 => Some(MicroOp::AmoMaxu { rd: data[0], rs1: data[1], rs2: data[2], is_word: data[3] != 0, pc_offset: get_u16(data, 4) }),
            _ => None,
        }
    }
}

proof fn lemma_le64(d: Seq<u8>, at: int, v: i64)
    requires
        0 <= at,
        at + 8 <= d.len(),
        d.subrange(at, at + 8) == le64(v),
    ensures
        i64_at(d, at) == v,
{
    bytes::lemma_le_round_trip(v as u64 as nat, 8);
    bytes::lemma_pow256_values();
    vstd::arithmetic::div_mod::lemma_small_mod(v as u64 as nat, bytes::pow256(8));
    assert((v as u64) as i64 == v) by (bit_vector);
}

proof fn lemma_le16(d: Seq<u8>, at: int, v: u16)
    requires
        0 <= at,
        at + 2 <= d.len(),
        d.subrange(at, at + 2) == le16(v),
    ensures
        u16_at(d, at) == v,
{
    bytes::lemma_le_round_trip(v as nat, 2);
    bytes::lemma_pow256_values();
    vstd::arithmetic::div_mod::lemma_small_mod(v as nat, bytes::pow256(2));
}

proof fn lemma_three(a: u8, b: u8, c: u8)
    ensures
        layout_three(a, b, c)[0] == a,
        layout_three(a, b, c)[1] == b,
        layout_three(a, b, c)[2] == c,
{
}

proof fn lemma_with_imm(a: u8, b: u8, imm: i64)
    ensures
        layout_with_imm(a, b, imm)[0] == a,
        layout_with_imm(a, b, imm)[1] == b,
        i64_at(layout_with_imm(a, b, imm), 2) == imm,
{
    bytes::lemma_le_bytes_len(imm as u64 as nat, 8);
    let d = layout_with_imm(a, b, imm);
    assert(d.subrange(2, 10) =~= le64(imm));
    lemma_le64(d, 2, imm);
}

proof fn lemma_with_imm32(a: u8, b: u8, imm: i32)
    ensures
        layout_with_imm32(a, b, imm)[0] == a,
        layout_with_imm32(a, b, imm)[1] == b,
        i32_at(layout_with_imm32(a, b, imm), 2) == imm,
{
    bytes::lemma_le_bytes_len(imm as u32 as nat, 4);
    let d = layout_with_imm32(a, b, imm);
    assert(d.subrange(2, 6) =~= le32(imm));
    bytes::lemma_le_round_trip(imm as u32 as nat, 4);
    bytes::lemma_pow256_values();
    vstd::arithmetic::div_mod::lemma_small_mod(imm as u32 as nat, bytes::pow256(4));
    assert((imm as u32) as i32 == imm) by (bit_vector);
}

proof fn lemma_with_place(a: u8, b: u8, imm: i64, place: u16)
    ensures
        layout_with_place(a, b, imm, place)[0] == a,
        layout_with_place(a, b, imm, place)[1] == b,
        i64_at(layout_with_place(a, b, imm, place), 2) == imm,
        u16_at(layout_with_place(a, b, imm, place), 10) == place,
{
    bytes::lemma_le_bytes_len(imm as u64 as nat, 8);
    bytes::lemma_le_bytes_len(place as nat, 2);
    let d = layout_with_place(a, b, imm, place);
    assert(d.subrange(2, 10) =~= le64(imm));
    lemma_le64(d, 2, imm);
    assert(d.subrange(10, 12) =~= le16(place));
    lemma_le16(d, 10, place);
}

proof fn lemma_with_len(a: u8, b: u8, imm: i64, place: u16, len: u8)
    ensures
        layout_with_len(a, b, imm, place, len)[0] == a,
        layout_with_len(a, b, imm, place, len)[1] == b,
        i64_at(layout_with_len(a, b, imm, place, len), 2) == imm,
        u16_at(layout_with_len(a, b, imm, place, len), 10) == place,
        layout_with_len(a, b, imm, place, len)[12] == len,
{
    bytes::lemma_le_bytes_len(imm as u64 as nat, 8);
    bytes::lemma_le_bytes_len(place as nat, 2);
    let d = layout_with_len(a, b, imm, place, len);
    assert(d.subrange(2, 10) =~= le64(imm));
    lemma_le64(d, 2, imm);
    assert(d.subrange(10, 12) =~= le16(place));
    lemma_le16(d, 10, place);
}

proof fn lemma_csr(a: u8, b: u8, csr: u16, place: u16)
    ensures
        layout_csr(a, b, csr, place)[0] == a,
        layout_csr(a, b, csr, place)[1] == b,
        u16_at(layout_csr(a, b, csr, place), 2) == csr,
        u16_at(layout_csr(a, b, csr, place), 4) == place,
{
    bytes::lemma_le_bytes_len(csr as nat, 2);
    bytes::lemma_le_bytes_len(place as nat, 2);
    let d = layout_csr(a, b, csr, place);
    assert(d.subrange(2, 4) =~= le16(csr));
    lemma_le16(d, 2, csr);
    assert(d.subrange(4, 6) =~= le16(place));
    lemma_le16(d, 4, place);
}

proof fn lemma_place(place: u16)
    ensures
        u16_at(layout_place(place), 0) == place,
{
    bytes::lemma_le_bytes_len(place as nat, 2);
    let d = layout_place(place);
    assert(d.subrange(0, 2) =~= le16(place));
    lemma_le16(d, 0, place);
}

proof fn lemma_two_place(a: u8, b: u8, place: u16)
    ensures
        layout_two_place(a, b, place)[0] == a,
        layout_two_place(a, b, place)[1] == b,
        u16_at(layout_two_place(a, b, place), 2) == place,
{
    bytes::lemma_le_bytes_len(place as nat, 2);
    let d = layout_two_place(a, b, place);
    assert(d.subrange(2, 4) =~= le16(place));
    lemma_le16(d, 2, place);
}

proof fn lemma_three_place(a: u8, b: u8, c: u8, place: u16)
    ensures
        layout_three_place(a, b, c, place)[0] == a,
        layout_three_place(a, b, c, place)[1] == b,
        layout_three_place(a, b, c, place)[2] == c,
        u16_at(layout_three_place(a, b, c, place), 3) == place,
{
    bytes::lemma_le_bytes_len(place as nat, 2);
    let d = layout_three_place(a, b, c, place);
    assert(d.subrange(3, 5) =~= le16(place));
    lemma_le16(d, 3, place);
}

proof fn lemma_amo(a: u8, b: u8, c: u8, word: bool, place: u16)
    ensures
        layout_amo(a, b, c, word, place)[0] == a,
        layout_amo(a, b, c, word, place)[1] == b,
        layout_amo(a, b, c, word, place)[2] == c,
        (layout_amo(a, b, c, word, place)[3] != 0) == word,
        u16_at(layout_amo(a, b, c, word, place), 4) == place,
{
    bytes::lemma_le_bytes_len(place as nat, 2);
    let d = layout_amo(a, b, c, word, place);
    assert(d.subrange(4, 6) =~= le16(place));
    lemma_le16(d, 4, place);
}

/// Packing and unpacking a computation on registers and constants.
#[verifier::spinoff_prover]
proof fn lemma_round_trip_computations(op: MicroOp)
    requires
        op is Addi || op is Xori || op is Ori || op is Andi || op is Slti || op is Sltiu
            || op is Slli || op is Srli || op is Srai || op is Add || op is Sub || op is Xor
            || op is Or || op is And || op is Sll || op is Srl || op is Sra || op is Slt
            || op is Sltu,
    ensures
        decoded(encoded(op).0, encoded(op).1) == Some(op),
{
    match op {
        MicroOp::Addi { rd, rs1, imm } => lemma_with_imm(rd, rs1, imm),
        MicroOp::Xori { rd, rs1, imm } => lemma_with_imm(rd, rs1, imm),
        MicroOp::Ori { rd, rs1, imm } => lemma_with_imm(rd, rs1, imm),
        MicroOp::Andi { rd, rs1, imm } => lemma_with_imm(rd, rs1, imm),
        MicroOp::Slti { rd, rs1, imm } => lemma_with_imm(rd, rs1, imm),
        MicroOp::Sltiu { rd, rs1, imm } => lemma_with_imm(rd, rs1, imm),
        MicroOp::Slli { rd, rs1, shamt } => lemma_three(rd, rs1, shamt),
        MicroOp::Srli { rd, rs1, shamt } => lemma_three(rd, rs1, shamt),
        MicroOp::Srai { rd, rs1, shamt } => lemma_three(rd, rs1, shamt),
        MicroOp::Add { rd, rs1, rs2 } => lemma_three(rd, rs1, rs2),
        MicroOp::Sub { rd, rs1, rs2 } => lemma_three(rd, rs1, rs2),
        MicroOp::Xor { rd, rs1, rs2 } => lemma_three(rd, rs1, rs2),
        MicroOp::Or { rd, rs1, rs2 } => lemma_three(rd, rs1, rs2),
        MicroOp::And { rd, rs1, rs2 } => lemma_three(rd, rs1, rs2),
        MicroOp::Sll { rd, rs1, rs2 } => lemma_three(rd, rs1, rs2),
        MicroOp::Srl { rd, rs1, rs2 } => lemma_three(rd, rs1, rs2),
        MicroOp::Sra { rd, rs1, rs2 } => lemma_three(rd, rs1, rs2),
        MicroOp::Slt { rd, rs1, rs2 } => lemma_three(rd, rs1, rs2),
        MicroOp::Sltu { rd, rs1, rs2 } => lemma_three(rd, rs1, rs2),
        _ => {},
    }
}

/// Packing and unpacking a computation on words, product, quotient or upper constant.
#[verifier::spinoff_prover]
proof fn lemma_round_trip_words(op: MicroOp)
    requires
        op is Addiw || op is Slliw || op is Srliw || op is Sraiw || op is Addw || op is Subw
            || op is Sllw || op is Srlw || op is Sraw || op is Mul || op is Mulh || op is Mulhsu
            || op is Mulhu || op is Div || op is Divu || op is Rem || op is Remu || op is Mulw
            || op is Divw || op is Divuw || op is Remw || op is Remuw || op is Lui || op is Auipc,
    ensures
        decoded(encoded(op).0, encoded(op).1) == Some(op),
{
    match op {
        MicroOp::Addiw { rd, rs1, imm } => lemma_with_imm32(rd, rs1, imm),
        MicroOp::Slliw { rd, rs1, shamt } => lemma_three(rd, rs1, shamt),
        MicroOp::Srliw { rd, rs1, shamt } => lemma_three(rd, rs1, shamt),
        MicroOp::Sraiw { rd, rs1, shamt } => lemma_three(rd, rs1, shamt),
        MicroOp::Addw { rd, rs1, rs2 } => lemma_three(rd, rs1, rs2),
        MicroOp::Subw { rd, rs1, rs2 } => lemma_three(rd, rs1, rs2),
        MicroOp::Sllw { rd, rs1, rs2 } => lemma_three(rd, rs1, rs2),
        MicroOp::Srlw { rd, rs1, rs2 } => lemma_three(rd, rs1, rs2),
        MicroOp::Sraw { rd, rs1, rs2 } => lemma_three(rd, rs1, rs2),
        MicroOp::Mul { rd, rs1, rs2 } => lemma_three(rd, rs1, rs2),
        MicroOp::Mulh { rd, rs1, rs2 } => lemma_three(rd, rs1, rs2),
        MicroOp::Mulhsu { rd, rs1, rs2 } => lemma_three(rd, rs1, rs2),
        MicroOp::Mulhu { rd, rs1, rs2 } => lemma_three(rd, rs1, rs2),
        MicroOp::Div { rd, rs1, rs2 } => lemma_three(rd, rs1, rs2),
        MicroOp::Divu { rd, rs1, rs2 } => lemma_three(rd, rs1, rs2),
        MicroOp::Rem { rd, rs1, rs2 } => lemma_three(rd, rs1, rs2),
        MicroOp::Remu { rd, rs1, rs2 } => lemma_three(rd, rs1, rs2),
        MicroOp::Mulw { rd, rs1, rs2 } => lemma_three(rd, rs1, rs2),
        MicroOp::Divw { rd, rs1, rs2 } => lemma_three(rd, rs1, rs2),
        MicroOp::Divuw { rd, rs1, rs2 } => lemma_three(rd, rs1, rs2),
        MicroOp::Remw { rd, rs1, rs2 } => lemma_three(rd, rs1, rs2),
        MicroOp::Remuw { rd, rs1, rs2 } => lemma_three(rd, rs1, rs2),
        MicroOp::Lui { rd, imm } => lemma_with_imm(rd, 0, imm),
        MicroOp::Auipc { rd, imm, pc_offset } => lemma_with_place(rd, 0, imm, pc_offset),
        _ => {},
    }
}

/// Packing and unpacking a load, store, branch or jump.
#[verifier::spinoff_prover]
proof fn lemma_round_trip_transfers(op: MicroOp)
    requires
        op is Lb || op is Lbu || op is Lh || op is Lhu || op is Lw || op is Lwu || op is Ld
            || op is Sb || op is Sh || op is Sw || op is Sd || op is Beq || op is Bne
            || op is Blt || op is Bge || op is Bltu || op is Bgeu || op is Jal || op is Jalr,
    ensures
        decoded(encoded(op).0, encoded(op).1) == Some(op),
{
    match op {
        MicroOp::Lb { rd, rs1, imm, pc_offset } => lemma_with_place(rd, rs1, imm, pc_offset),
        MicroOp::Lbu { rd, rs1, imm, pc_offset } => lemma_with_place(rd, rs1, imm, pc_offset),
        MicroOp::Lh { rd, rs1, imm, pc_offset } => lemma_with_place(rd, rs1, imm, pc_offset),
        MicroOp::Lhu { rd, rs1, imm, pc_offset } => lemma_with_place(rd, rs1, imm, pc_offset),
        MicroOp::Lw { rd, rs1, imm, pc_offset } => lemma_with_place(rd, rs1, imm, pc_offset),
        MicroOp::Lwu { rd, rs1, imm, pc_offset } => lemma_with_place(rd, rs1, imm, pc_offset),
        MicroOp::Ld { rd, rs1, imm, pc_offset } => lemma_with_place(rd, rs1, imm, pc_offset),
        MicroOp::Sb { rs1, rs2, imm, pc_offset } => lemma_with_place(rs1, rs2, imm, pc_offset),
        MicroOp::Sh { rs1, rs2, imm, pc_offset } => lemma_with_place(rs1, rs2, imm, pc_offset),
        MicroOp::Sw { rs1, rs2, imm, pc_offset } => lemma_with_place(rs1, rs2, imm, pc_offset),
        MicroOp::Sd { rs1, rs2, imm, pc_offset } => lemma_with_place(rs1, rs2, imm, pc_offset),
        MicroOp::Beq { rs1, rs2, imm, pc_offset, insn_len } => lemma_with_len(rs1, rs2, imm, pc_offset, insn_len),
        MicroOp::Bne { rs1, rs2, imm, pc_offset, insn_len } => lemma_with_len(rs1, rs2, imm, pc_offset, insn_len),
        MicroOp::Blt { rs1, rs2, imm, pc_offset, insn_len } => lemma_with_len(rs1, rs2, imm, pc_offset, insn_len),
        MicroOp::Bge { rs1, rs2, imm, pc_offset, insn_len } => lemma_with_len(rs1, rs2, imm, pc_offset, insn_len),
        MicroOp::Bltu { rs1, rs2, imm, pc_offset, insn_len } => lemma_with_len(rs1, rs2, imm, pc_offset, insn_len),
        MicroOp::Bgeu { rs1, rs2, imm, pc_offset, insn_len } => lemma_with_len(rs1, rs2, imm, pc_offset, insn_len),
        MicroOp::Jal { rd, imm, pc_offset, insn_len } => lemma_with_len(rd, 0, imm, pc_offset, insn_len),
        MicroOp::Jalr { rd, rs1, imm, pc_offset, insn_len } => lemma_with_len(rd, rs1, imm, pc_offset, insn_len),
        _ => {},
    }
}

/// Packing and unpacking a system instruction or atomic operation.
#[verifier::spinoff_prover]
proof fn lemma_round_trip_system(op: MicroOp)
    requires
        op is Csrrw || op is Csrrs || op is Csrrc || op is Csrrwi || op is Csrrsi || op is Csrrci
            || op is Ecall || op is Ebreak || op is Mret || op is Sret || op is Wfi
            || op is SfenceVma || op is LrW || op is LrD || op is ScW || op is ScD
            || op is AmoSwap || op is AmoAdd || op is AmoXor || op is AmoAnd || op is AmoOr
            || op is AmoMin || op is AmoMax || op is AmoMinu || op is AmoMaxu || op is Fence,
    ensures
        decoded(encoded(op).0, encoded(op).1) == Some(op),
{
    match op {
        MicroOp::Csrrw { rd, rs1, csr, pc_offset } => lemma_csr(rd, rs1, csr, pc_offset),
        MicroOp::Csrrs { rd, rs1, csr, pc_offset } => lemma_csr(rd, rs1, csr, pc_offset),
        MicroOp::Csrrc { rd, rs1, csr, pc_offset } => lemma_csr(rd, rs1, csr, pc_offset),
        MicroOp::Csrrwi { rd, zimm, csr, pc_offset } => lemma_csr(rd, zimm, csr, pc_offset),
        MicroOp::Csrrsi { rd, zimm, csr, pc_offset } => lemma_csr(rd, zimm, csr, pc_offset),
        MicroOp::Csrrci { rd, zimm, csr, pc_offset } => lemma_csr(rd, zimm, csr, pc_offset),
        MicroOp::Ecall { pc_offset } => lemma_place(pc_offset),
        MicroOp::Ebreak { pc_offset } => lemma_place(pc_offset),
        MicroOp::Mret { pc_offset } => lemma_place(pc_offset),
        MicroOp::Sret { pc_offset } => lemma_place(pc_offset),
        MicroOp::Wfi { pc_offset } => lemma_place(pc_offset),
        MicroOp::SfenceVma { pc_offset } => lemma_place(pc_offset),
        MicroOp::LrW { rd, rs1, pc_offset } => lemma_two_place(rd, rs1, pc_offset),
        MicroOp::LrD { rd, rs1, pc_offset } => lemma_two_place(rd, rs1, pc_offset),
        MicroOp::ScW { rd, rs1, rs2, pc_offset } => lemma_three_place(rd, rs1, rs2, pc_offset),
        MicroOp::ScD { rd, rs1, rs2, pc_offset } => lemma_three_place(rd, rs1, rs2, pc_offset),
        MicroOp::AmoSwap { rd, rs1, rs2, is_word, pc_offset } => lemma_amo(rd, rs1, rs2, is_word, pc_offset),
        MicroOp::AmoAdd { rd, rs1, rs2, is_word, pc_offset } => lemma_amo(rd, rs1, rs2, is_word, pc_offset),
        MicroOp::AmoXor { rd, rs1, rs2, is_word, pc_offset } => lemma_amo(rd, rs1, rs2, is_word, pc_offset),
        MicroOp::AmoAnd { rd, rs1, rs2, is_word, pc_offset } => lemma_amo(rd, rs1, rs2, is_word, pc_offset),
        MicroOp::AmoOr { rd, rs1, rs2, is_word, pc_offset } => lemma_amo(rd, rs1, rs2, is_word, pc_offset),
        MicroOp::AmoMin { rd, rs1, rs2, is_word, pc_offset } => lemma_amo(rd, rs1, rs2, is_word, pc_offset),
        MicroOp::AmoMax { rd, rs1, rs2, is_word, pc_offset } => lemma_amo(rd, rs1, rs2, is_word, pc_offset),
        MicroOp::AmoMinu { rd, rs1, rs2, is_word, pc_offset } => lemma_amo(rd, rs1, rs2, is_word, pc_offset),
        MicroOp::AmoMaxu { rd, rs1, rs2, is_word, pc_offset } => lemma_amo(rd, rs1, rs2, is_word, pc_offset),
        MicroOp::Fence => {},
        _ => {},
    }
}

/// Packing an instruction and unpacking it gives back the instruction.
pub proof fn law_microop_round_trip(op: MicroOp)
    ensures
        decoded(encoded(op).0, encoded(op).1) == Some(op),
{
    match op {
        MicroOp::Addi { .. }
        | MicroOp::Xori { .. }
        | MicroOp::Ori { .. }
        | MicroOp::Andi { .. }
        | MicroOp::Slti { .. }
        | MicroOp::Sltiu { .. }
        | MicroOp::Slli { .. }
        | MicroOp::Srli { .. }
        | MicroOp::Srai { .. }
        | MicroOp::Add { .. }
        | MicroOp::Sub { .. }
        | MicroOp::Xor { .. }
        | MicroOp::Or { .. }
        | MicroOp::And { .. }
        | MicroOp::Sll { .. }
        | MicroOp::Srl { .. }
        | MicroOp::Sra { .. }
        | MicroOp::Slt { .. }
        | MicroOp::Sltu { .. } => lemma_round_trip_computations(op),
        MicroOp::Addiw { .. }
        | MicroOp::Slliw { .. }
        | MicroOp::Srliw { .. }
        | MicroOp::Sraiw { .. }
        | MicroOp::Addw { .. }
        | MicroOp::Subw { .. }
        | MicroOp::Sllw { .. }
        | MicroOp::Srlw { .. }
        | MicroOp::Sraw { .. }
        | MicroOp::Mul { .. }
        | MicroOp::Mulh { .. }
        | MicroOp::Mulhsu { .. }
        | MicroOp::Mulhu { .. }
        | MicroOp::Div { .. }
        | MicroOp::Divu { .. }
        | MicroOp::Rem { .. }
        | MicroOp::Remu { .. }
        | MicroOp::Mulw { .. }
        | MicroOp::Divw { .. }
        | MicroOp::Divuw { .. }
        | MicroOp::Remw { .. }
        | MicroOp::Remuw { .. }
        | MicroOp::Lui { .. }
        | MicroOp::Auipc { .. } => lemma_round_trip_words(op),
        MicroOp::Lb { .. }
        | MicroOp::Lbu { .. }
        | MicroOp::Lh { .. }
        | MicroOp::Lhu { .. }
        | MicroOp::Lw { .. }
        | MicroOp::Lwu { .. }
        | MicroOp::Ld { .. }
        | MicroOp::Sb { .. }
        | MicroOp::Sh { .. }
        | MicroOp::Sw { .. }
        | MicroOp::Sd { .. }
        | MicroOp::Beq { .. }
        | MicroOp::Bne { .. }
        | MicroOp::Blt { .. }
        | MicroOp::Bge { .. }
        | MicroOp::Bltu { .. }
        | MicroOp::Bgeu { .. }
        | MicroOp::Jal { .. }
        | MicroOp::Jalr { .. } => lemma_round_trip_transfers(op),
        _ => lemma_round_trip_system(op),
    }
}

/// Instructions that pack alike are the same.
pub proof fn law_packing_is_injective(a: MicroOp, b: MicroOp)
    requires
        encoded(a) == encoded(b),
    ensures
        a == b,
{
    law_microop_round_trip(a);
    law_microop_round_trip(b);
}

/// Loads, stores, branches, jumps, accesses to control and status registers, system
/// instructions, reservations and atomic operations each have a range of ten tags.
#[verifier::spinoff_prover]
pub proof fn law_tags_tell_what_instructions_do(op: MicroOp)
    ensures
        (op is Lb || op is Lbu || op is Lh || op is Lhu || op is Lw || op is Lwu || op is Ld) <==> 40
            <= encoded(op).0 <= 49,
        (op is Sb || op is Sh || op is Sw || op is Sd) <==> 50 <= encoded(op).0 <= 59,
        (op is Beq || op is Bne || op is Blt || op is Bge || op is Bltu || op is Bgeu) <==> 60
            <= encoded(op).0 <= 69,
        (op is Jal || op is Jalr) <==> 70 <= encoded(op).0 <= 79,
        (op is Csrrw || op is Csrrs || op is Csrrc || op is Csrrwi || op is Csrrsi || op is Csrrci)
            <==> 80 <= encoded(op).0 <= 89,
        (op is Ecall || op is Ebreak || op is Mret || op is Sret || op is Wfi || op is SfenceVma)
            <==> 90 <= encoded(op).0 <= 99,
        (op is LrW || op is LrD || op is ScW || op is ScD) <==> 100 <= encoded(op).0 <= 109,
        (op is AmoSwap || op is AmoAdd || op is AmoXor || op is AmoAnd || op is AmoOr
            || op is AmoMin || op is AmoMax || op is AmoMinu || op is AmoMaxu) <==> 110
            <= encoded(op).0 <= 119,
        op is Fence <==> encoded(op).0 == 254,
{
}

/// The packed form of each instruction in turn.
pub open spec fn packs(packed: Seq<SerializedMicroOp>, code: Seq<MicroOp>) -> bool {
    &&& packed.len() == code.len()
    &&& forall|i: int|
        0 <= i < code.len() ==> ((#[trigger] packed[i]).tag, packed[i].data@) == encoded(code[i])
}

impl CompileRequest {
    /// The request to compile a block.
    pub fn from_block(block: &Block) -> (request: Self)
        requires
            block.wf(),
        ensures
            request.pc == block.start_pc,
            request.pa == block.start_pa,
            request.byte_len == block.byte_len,
            packs(request.ops@, block.code()),
    {
        let code: &[MicroOp] = block.ops();
        let mut ops: Vec<SerializedMicroOp> = Vec::new();
        let mut i: usize = 0;
        while i < code.len()
            invariant
                i <= code.len(),
                packs(ops@, code@.take(i as int)),
            decreases code.len() - i,
        {
            ops.push(SerializedMicroOp::from_microop(&code[i]));
            i = i + 1;
        }
        assert(code@.take(i as int) =~= code@);
        Self { pc: block.start_pc, pa: block.start_pa, ops, byte_len: block.byte_len }
    }
}

impl CompileResponse {
    pub fn success(pc: u64, wasm_bytes: Vec<u8>, compile_time_us: u64) -> (r: Self)
        ensures
            r == (CompileResponse {
                pc,
                status: CompileStatus::Success,
                wasm_bytes,
                compile_time_us,
            }),
    {
        Self { pc, status: CompileStatus::Success, wasm_bytes, compile_time_us }
    }

    pub fn unsuitable(pc: u64) -> (r: Self)
        ensures
            r.pc == pc,
            r.status == CompileStatus::Unsuitable,
            r.wasm_bytes@ == Seq::<u8>::empty(),
            r.compile_time_us == 0,
    {
        Self { pc, status: CompileStatus::Unsuitable, wasm_bytes: Vec::new(), compile_time_us: 0 }
    }

    pub fn error(pc: u64) -> (r: Self)
        ensures
            r.pc == pc,
            r.status == CompileStatus::Error,
            r.wasm_bytes@ == Seq::<u8>::empty(),
            r.compile_time_us == 0,
    {
        Self { pc, status: CompileStatus::Error, wasm_bytes: Vec::new(), compile_time_us: 0 }
    }
}

// Where the operands stand.

proof fn lemma_layout_three(a: u8, b: u8, c: u8)
    ensures
        ({
            let d = layout_three(a, b, c);
            &&& d.len() == 16
            &&& d[0] == a
            &&& d[1] == b
            &&& d[2] == c
        }),
{
    let d = layout_three(a, b, c);
}

proof fn lemma_layout_with_imm(a: u8, b: u8, imm: i64)
    ensures
        ({
            let d = layout_with_imm(a, b, imm);
            &&& d.len() == 16
            &&& d[0] == a
            &&& d[1] == b
            &&& is_cut(number_at(d, 2, 8), imm as int)
        }),
{
    let d = layout_with_imm(a, b, imm);
    bytes::lemma_pow256_values();
    bytes::lemma_le_bytes_len((imm as u64) as nat, 8);
    bytes::lemma_le_round_trip((imm as u64) as nat, 8);
    vstd::arithmetic::div_mod::lemma_small_mod((imm as u64) as nat, bytes::pow256(8));
    assert(d.subrange(2, 10) =~= le64(imm));
    crate::meaning::lemma_casts(0, imm);
}

proof fn lemma_layout_with_imm32(a: u8, b: u8, imm: i32)
    ensures
        ({
            let d = layout_with_imm32(a, b, imm);
            &&& d.len() == 16
            &&& d[0] == a
            &&& d[1] == b
            &&& (number_at(d, 2, 4) - imm) % 0x1_0000_0000 == 0
        }),
{
    let d = layout_with_imm32(a, b, imm);
    bytes::lemma_pow256_values();
    bytes::lemma_le_bytes_len(((imm as u32) as u64) as nat, 4);
    bytes::lemma_le_round_trip(((imm as u32) as u64) as nat, 4);
    vstd::arithmetic::div_mod::lemma_small_mod(((imm as u32) as u64) as nat, bytes::pow256(4));
    assert(d.subrange(2, 6) =~= le32(imm));
    crate::meaning::lemma_casts(0, imm as i64);
    crate::meaning::lemma_word_casts(0, 0, imm);
}

proof fn lemma_layout_with_place(a: u8, b: u8, imm: i64, place: u16)
    ensures
        ({
            let d = layout_with_place(a, b, imm, place);
            &&& d.len() == 16
            &&& d[0] == a
            &&& d[1] == b
            &&& is_cut(number_at(d, 2, 8), imm as int)
            &&& number_at(d, 10, 2) == place
        }),
{
    let d = layout_with_place(a, b, imm, place);
    bytes::lemma_pow256_values();
    bytes::lemma_le_bytes_len((imm as u64) as nat, 8);
    bytes::lemma_le_round_trip((imm as u64) as nat, 8);
    vstd::arithmetic::div_mod::lemma_small_mod((imm as u64) as nat, bytes::pow256(8));
    bytes::lemma_le_bytes_len((place as u64) as nat, 2);
    bytes::lemma_le_round_trip((place as u64) as nat, 2);
    vstd::arithmetic::div_mod::lemma_small_mod((place as u64) as nat, bytes::pow256(2));
    assert(d.subrange(2, 10) =~= le64(imm));
    assert(d.subrange(10, 12) =~= le16(place));
    crate::meaning::lemma_casts(0, imm);
}

proof fn lemma_layout_with_len(a: u8, b: u8, imm: i64, place: u16, len: u8)
    ensures
        ({
            let d = layout_with_len(a, b, imm, place, len);
            &&& d.len() == 16
            &&& d[0] == a
            &&& d[1] == b
            &&& is_cut(number_at(d, 2, 8), imm as int)
            &&& number_at(d, 10, 2) == place
            &&& d[12] == len
        }),
{
    let d = layout_with_len(a, b, imm, place, len);
    bytes::lemma_pow256_values();
    bytes::lemma_le_bytes_len((imm as u64) as nat, 8);
    bytes::lemma_le_round_trip((imm as u64) as nat, 8);
    vstd::arithmetic::div_mod::lemma_small_mod((imm as u64) as nat, bytes::pow256(8));
    bytes::lemma_le_bytes_len((place as u64) as nat, 2);
    bytes::lemma_le_round_trip((place as u64) as nat, 2);
    vstd::arithmetic::div_mod::lemma_small_mod((place as u64) as nat, bytes::pow256(2));
    assert(d.subrange(2, 10) =~= le64(imm));
    assert(d.subrange(10, 12) =~= le16(place));
    crate::meaning::lemma_casts(0, imm);
}

proof fn lemma_layout_csr(a: u8, b: u8, csr: u16, place: u16)
    ensures
        ({
            let d = layout_csr(a, b, csr, place);
            &&& d.len() == 16
            &&& d[0] == a
            &&& d[1] == b
            &&& number_at(d, 2, 2) == csr
            &&& number_at(d, 4, 2) == place
        }),
{
    let d = layout_csr(a, b, csr, place);
    bytes::lemma_pow256_values();
    bytes::lemma_le_bytes_len((csr as u64) as nat, 2);
    bytes::lemma_le_round_trip((csr as u64) as nat, 2);
    vstd::arithmetic::div_mod::lemma_small_mod((csr as u64) as nat, bytes::pow256(2));
    bytes::lemma_le_bytes_len((place as u64) as nat, 2);
    bytes::lemma_le_round_trip((place as u64) as nat, 2);
    vstd::arithmetic::div_mod::lemma_small_mod((place as u64) as nat, bytes::pow256(2));
    assert(d.subrange(2, 4) =~= le16(csr));
    assert(d.subrange(4, 6) =~= le16(place));
}

proof fn lemma_layout_place(place: u16)
    ensures
        ({
            let d = layout_place(place);
            &&& d.len() == 16
            &&& number_at(d, 0, 2) == place
        }),
{
    let d = layout_place(place);
    bytes::lemma_pow256_values();
    bytes::lemma_le_bytes_len((place as u64) as nat, 2);
    bytes::lemma_le_round_trip((place as u64) as nat, 2);
    vstd::arithmetic::div_mod::lemma_small_mod((place as u64) as nat, bytes::pow256(2));
    assert(d.subrange(0, 2) =~= le16(place));
}

proof fn lemma_layout_two_place(a: u8, b: u8, place: u16)
    ensures
        ({
            let d = layout_two_place(a, b, place);
            &&& d.len() == 16
            &&& d[0] == a
            &&& d[1] == b
            &&& number_at(d, 2, 2) == place
        }),
{
    let d = layout_two_place(a, b, place);
    bytes::lemma_pow256_values();
    bytes::lemma_le_bytes_len((place as u64) as nat, 2);
    bytes::lemma_le_round_trip((place as u64) as nat, 2);
    vstd::arithmetic::div_mod::lemma_small_mod((place as u64) as nat, bytes::pow256(2));
    assert(d.subrange(2, 4) =~= le16(place));
}

proof fn lemma_layout_three_place(a: u8, b: u8, c: u8, place: u16)
    ensures
        ({
            let d = layout_three_place(a, b, c, place);
            &&& d.len() == 16
            &&& d[0] == a
            &&& d[1] == b
            &&& d[2] == c
            &&& number_at(d, 3, 2) == place
        }),
{
    let d = layout_three_place(a, b, c, place);
    bytes::lemma_pow256_values();
    bytes::lemma_le_bytes_len((place as u64) as nat, 2);
    bytes::lemma_le_round_trip((place as u64) as nat, 2);
    vstd::arithmetic::div_mod::lemma_small_mod((place as u64) as nat, bytes::pow256(2));
    assert(d.subrange(3, 5) =~= le16(place));
}

proof fn lemma_layout_amo(a: u8, b: u8, c: u8, word: bool, place: u16)
    ensures
        ({
            let d = layout_amo(a, b, c, word, place);
            &&& d.len() == 16
            &&& d[0] == a
            &&& d[1] == b
            &&& d[2] == c
            &&& d[3] == 1 <==> word
            &&& d[3] == 0 <==> !word
            &&& number_at(d, 4, 2) == place
        }),
{
    let d = layout_amo(a, b, c, word, place);
    bytes::lemma_pow256_values();
    bytes::lemma_le_bytes_len((place as u64) as nat, 2);
    bytes::lemma_le_round_trip((place as u64) as nat, 2);
    vstd::arithmetic::div_mod::lemma_small_mod((place as u64) as nat, bytes::pow256(2));
    assert(d.subrange(4, 6) =~= le16(place));
}

/// That an instruction is packed under a tag, with its operands in their places.
pub open spec fn packed_imm(op: MicroOp, tag: u8, a: u8, b: u8, imm: i64) -> bool {
    let (t, d) = encoded(op);
    &&& t == tag
    &&& d.len() == 16
    &&& d[0] == a
    &&& d[1] == b
    &&& is_cut(number_at(d, 2, 8), imm as int)
}

/// Instructions on a constant have two registers and the constant in eight bytes.
#[verifier::spinoff_prover]
pub proof fn law_packed_imm(rd: u8, rs1: u8, imm: i64)
    ensures
        packed_imm(MicroOp::Addi { rd, rs1, imm }, 0, rd, rs1, imm),
        packed_imm(MicroOp::Xori { rd, rs1, imm }, 1, rd, rs1, imm),
        packed_imm(MicroOp::Ori { rd, rs1, imm }, 2, rd, rs1, imm),
        packed_imm(MicroOp::Andi { rd, rs1, imm }, 3, rd, rs1, imm),
        packed_imm(MicroOp::Slti { rd, rs1, imm }, 4, rd, rs1, imm),
        packed_imm(MicroOp::Sltiu { rd, rs1, imm }, 5, rd, rs1, imm),
        packed_imm(MicroOp::Lui { rd, imm }, 120, rd, 0, imm),
{
    lemma_layout_with_imm(rd, rs1, imm);
    lemma_layout_with_imm(rd, 0, imm);
}

/// That an instruction is packed under a tag, with its operands in their places.
pub open spec fn packed_three(op: MicroOp, tag: u8, a: u8, b: u8, c: u8) -> bool {
    let (t, d) = encoded(op);
    &&& t == tag
    &&& d.len() == 16
    &&& d[0] == a
    &&& d[1] == b
    &&& d[2] == c
}

/// Instructions on three registers have their numbers in the first bytes.
#[verifier::spinoff_prover]
pub proof fn law_packed_three(rd: u8, rs1: u8, shamt: u8, rs2: u8)
    ensures
        packed_three(MicroOp::Slli { rd, rs1, shamt }, 6, rd, rs1, shamt),
        packed_three(MicroOp::Srli { rd, rs1, shamt }, 7, rd, rs1, shamt),
        packed_three(MicroOp::Srai { rd, rs1, shamt }, 8, rd, rs1, shamt),
        packed_three(MicroOp::Add { rd, rs1, rs2 }, 10, rd, rs1, rs2),
        packed_three(MicroOp::Sub { rd, rs1, rs2 }, 11, rd, rs1, rs2),
        packed_three(MicroOp::Xor { rd, rs1, rs2 }, 12, rd, rs1, rs2),
        packed_three(MicroOp::Or { rd, rs1, rs2 }, 13, rd, rs1, rs2),
        packed_three(MicroOp::And { rd, rs1, rs2 }, 14, rd, rs1, rs2),
        packed_three(MicroOp::Sll { rd, rs1, rs2 }, 15, rd, rs1, rs2),
        packed_three(MicroOp::Srl { rd, rs1, rs2 }, 16, rd, rs1, rs2),
        packed_three(MicroOp::Sra { rd, rs1, rs2 }, 17, rd, rs1, rs2),
        packed_three(MicroOp::Slt { rd, rs1, rs2 }, 18, rd, rs1, rs2),
        packed_three(MicroOp::Sltu { rd, rs1, rs2 }, 19, rd, rs1, rs2),
        packed_three(MicroOp::Slliw { rd, rs1, shamt }, 21, rd, rs1, shamt),
        packed_three(MicroOp::Srliw { rd, rs1, shamt }, 22, rd, rs1, shamt),
        packed_three(MicroOp::Sraiw { rd, rs1, shamt }, 23, rd, rs1, shamt),
        packed_three(MicroOp::Addw { rd, rs1, rs2 }, 24, rd, rs1, rs2),
        packed_three(MicroOp::Subw { rd, rs1, rs2 }, 25, rd, rs1, rs2),
        packed_three(MicroOp::Sllw { rd, rs1, rs2 }, 26, rd, rs1, rs2),
        packed_three(MicroOp::Srlw { rd, rs1, rs2 }, 27, rd, rs1, rs2),
        packed_three(MicroOp::Sraw { rd, rs1, rs2 }, 28, rd, rs1, rs2),
        packed_three(MicroOp::Mul { rd, rs1, rs2 }, 30, rd, rs1, rs2),
        packed_three(MicroOp::Mulh { rd, rs1, rs2 }, 31, rd, rs1, rs2),
        packed_three(MicroOp::Mulhsu { rd, rs1, rs2 }, 32, rd, rs1, rs2),
        packed_three(MicroOp::Mulhu { rd, rs1, rs2 }, 33, rd, rs1, rs2),
        packed_three(MicroOp::Div { rd, rs1, rs2 }, 34, rd, rs1, rs2),
        packed_three(MicroOp::Divu { rd, rs1, rs2 }, 35, rd, rs1, rs2),
        packed_three(MicroOp::Rem { rd, rs1, rs2 }, 36, rd, rs1, rs2),
        packed_three(MicroOp::Remu { rd, rs1, rs2 }, 37, rd, rs1, rs2),
        packed_three(MicroOp::Mulw { rd, rs1, rs2 }, 38, rd, rs1, rs2),
        packed_three(MicroOp::Divw { rd, rs1, rs2 }, 39, rd, rs1, rs2),
        packed_three(MicroOp::Divuw { rd, rs1, rs2 }, 129, rd, rs1, rs2),
        packed_three(MicroOp::Remw { rd, rs1, rs2 }, 130, rd, rs1, rs2),
        packed_three(MicroOp::Remuw { rd, rs1, rs2 }, 131, rd, rs1, rs2),
{
    lemma_layout_three(rd, rs1, shamt);
    lemma_layout_three(rd, rs1, rs2);
}

/// That an instruction is packed under a tag, with its operands in their places.
pub open spec fn packed_imm32(op: MicroOp, tag: u8, a: u8, b: u8, imm: i32) -> bool {
    let (t, d) = encoded(op);
    &&& t == tag
    &&& d.len() == 16
    &&& d[0] == a
    &&& d[1] == b
    &&& (number_at(d, 2, 4) - imm) % 0x1_0000_0000 == 0
}

/// The sum of words has two registers and the constant in four bytes.
#[verifier::spinoff_prover]
pub proof fn law_packed_imm32(rd: u8, rs1: u8, imm: i32)
    ensures
        packed_imm32(MicroOp::Addiw { rd, rs1, imm }, 20, rd, rs1, imm),
{
    lemma_layout_with_imm32(rd, rs1, imm);
}

/// That an instruction is packed under a tag, with its operands in their places.
pub open spec fn packed_transfer(op: MicroOp, tag: u8, a: u8, b: u8, imm: i64, place: u16) -> bool {
    let (t, d) = encoded(op);
    &&& t == tag
    &&& d.len() == 16
    &&& d[0] == a
    &&& d[1] == b
    &&& is_cut(number_at(d, 2, 8), imm as int)
    &&& number_at(d, 10, 2) == place
}

/// Loads, stores and the like have two registers, the constant and the place.
#[verifier::spinoff_prover]
pub proof fn law_packed_transfer(rd: u8, imm: i64, pc_offset: u16, rs1: u8, rs2: u8)
    ensures
        packed_transfer(MicroOp::Auipc { rd, imm, pc_offset }, 121, rd, 0, imm, pc_offset),
        packed_transfer(MicroOp::Lb { rd, rs1, imm, pc_offset }, 40, rd, rs1, imm, pc_offset),
        packed_transfer(MicroOp::Lbu { rd, rs1, imm, pc_offset }, 41, rd, rs1, imm, pc_offset),
        packed_transfer(MicroOp::Lh { rd, rs1, imm, pc_offset }, 42, rd, rs1, imm, pc_offset),
        packed_transfer(MicroOp::Lhu { rd, rs1, imm, pc_offset }, 43, rd, rs1, imm, pc_offset),
        packed_transfer(MicroOp::Lw { rd, rs1, imm, pc_offset }, 44, rd, rs1, imm, pc_offset),
        packed_transfer(MicroOp::Lwu { rd, rs1, imm, pc_offset }, 45, rd, rs1, imm, pc_offset),
        packed_transfer(MicroOp::Ld { rd, rs1, imm, pc_offset }, 46, rd, rs1, imm, pc_offset),
        packed_transfer(MicroOp::Sb { rs1, rs2, imm, pc_offset }, 50, rs1, rs2, imm, pc_offset),
        packed_transfer(MicroOp::Sh { rs1, rs2, imm, pc_offset }, 51, rs1, rs2, imm, pc_offset),
        packed_transfer(MicroOp::Sw { rs1, rs2, imm, pc_offset }, 52, rs1, rs2, imm, pc_offset),
        packed_transfer(MicroOp::Sd { rs1, rs2, imm, pc_offset }, 53, rs1, rs2, imm, pc_offset),
{
    lemma_layout_with_place(rd, 0, imm, pc_offset);
    lemma_layout_with_place(rd, rs1, imm, pc_offset);
    lemma_layout_with_place(rs1, rs2, imm, pc_offset);
}

/// That an instruction is packed under a tag, with its operands in their places.
pub open spec fn packed_len(op: MicroOp, tag: u8, a: u8, b: u8, imm: i64, place: u16, len: u8) -> bool {
    let (t, d) = encoded(op);
    &&& t == tag
    &&& d.len() == 16
    &&& d[0] == a
    &&& d[1] == b
    &&& is_cut(number_at(d, 2, 8), imm as int)
    &&& number_at(d, 10, 2) == place
    &&& d[12] == len
}

/// Branches and jumps have two registers, the distance, the place and the length.
#[verifier::spinoff_prover]
pub proof fn law_packed_len(rs1: u8, rs2: u8, imm: i64, pc_offset: u16, insn_len: u8, rd: u8)
    ensures
        packed_len(MicroOp::Beq { rs1, rs2, imm, pc_offset, insn_len }, 60, rs1, rs2, imm, pc_offset, insn_len),
        packed_len(MicroOp::Bne { rs1, rs2, imm, pc_offset, insn_len }, 61, rs1, rs2, imm, pc_offset, insn_len),
        packed_len(MicroOp::Blt { rs1, rs2, imm, pc_offset, insn_len }, 62, rs1, rs2, imm, pc_offset, insn_len),
        packed_len(MicroOp::Bge { rs1, rs2, imm, pc_offset, insn_len }, 63, rs1, rs2, imm, pc_offset, insn_len),
        packed_len(MicroOp::Bltu { rs1, rs2, imm, pc_offset, insn_len }, 64, rs1, rs2, imm, pc_offset, insn_len),
        packed_len(MicroOp::Bgeu { rs1, rs2, imm, pc_offset, insn_len }, 65, rs1, rs2, imm, pc_offset, insn_len),
        packed_len(MicroOp::Jal { rd, imm, pc_offset, insn_len }, 70, rd, 0, imm, pc_offset, insn_len),
        packed_len(MicroOp::Jalr { rd, rs1, imm, pc_offset, insn_len }, 71, rd, rs1, imm, pc_offset, insn_len),
{
    lemma_layout_with_len(rs1, rs2, imm, pc_offset, insn_len);
    lemma_layout_with_len(rd, 0, imm, pc_offset, insn_len);
    lemma_layout_with_len(rd, rs1, imm, pc_offset, insn_len);
}

/// That an instruction is packed under a tag, with its operands in their places.
pub open spec fn packed_csr(op: MicroOp, tag: u8, a: u8, b: u8, csr: u16, place: u16) -> bool {
    let (t, d) = encoded(op);
    &&& t == tag
    &&& d.len() == 16
    &&& d[0] == a
    &&& d[1] == b
    &&& number_at(d, 2, 2) == csr
    &&& number_at(d, 4, 2) == place
}

/// Instructions on control registers have a register, an operand, the number of the control
/// register and the place.
#[verifier::spinoff_prover]
pub proof fn law_packed_csr(rd: u8, rs1: u8, csr: u16, pc_offset: u16, zimm: u8)
    ensures
        packed_csr(MicroOp::Csrrw { rd, rs1, csr, pc_offset }, 80, rd, rs1, csr, pc_offset),
        packed_csr(MicroOp::Csrrs { rd, rs1, csr, pc_offset }, 81, rd, rs1, csr, pc_offset),
        packed_csr(MicroOp::Csrrc { rd, rs1, csr, pc_offset }, 82, rd, rs1, csr, pc_offset),
        packed_csr(MicroOp::Csrrwi { rd, zimm, csr, pc_offset }, 83, rd, zimm, csr, pc_offset),
        packed_csr(MicroOp::Csrrsi { rd, zimm, csr, pc_offset }, 84, rd, zimm, csr, pc_offset),
        packed_csr(MicroOp::Csrrci { rd, zimm, csr, pc_offset }, 85, rd, zimm, csr, pc_offset),
{
    lemma_layout_csr(rd, rs1, csr, pc_offset);
    lemma_layout_csr(rd, zimm, csr, pc_offset);
}

/// That an instruction is packed under a tag, with its operands in their places.
pub open spec fn packed_place(op: MicroOp, tag: u8, place: u16) -> bool {
    let (t, d) = encoded(op);
    &&& t == tag
    &&& d.len() == 16
    &&& number_at(d, 0, 2) == place
}

/// Instructions on the hart itself have their place alone.
#[verifier::spinoff_prover]
pub proof fn law_packed_place(pc_offset: u16)
    ensures
        packed_place(MicroOp::Ecall { pc_offset }, 90, pc_offset),
        packed_place(MicroOp::Ebreak { pc_offset }, 91, pc_offset),
        packed_place(MicroOp::Mret { pc_offset }, 92, pc_offset),
        packed_place(MicroOp::Sret { pc_offset }, 93, pc_offset),
        packed_place(MicroOp::Wfi { pc_offset }, 94, pc_offset),
        packed_place(MicroOp::SfenceVma { pc_offset }, 95, pc_offset),
{
    lemma_layout_place(pc_offset);
}

/// That an instruction is packed under a tag, with its operands in their places.
pub open spec fn packed_empty(op: MicroOp, tag: u8) -> bool {
    let (t, d) = encoded(op);
    &&& t == tag
    &&& d.len() == 16
}

/// The fence has no operands.
#[verifier::spinoff_prover]
pub proof fn law_packed_empty()
    ensures
        packed_empty(MicroOp::Fence, 254),
{
}

/// That an instruction is packed under a tag, with its operands in their places.
pub open spec fn packed_two_place(op: MicroOp, tag: u8, a: u8, b: u8, place: u16) -> bool {
    let (t, d) = encoded(op);
    &&& t == tag
    &&& d.len() == 16
    &&& d[0] == a
    &&& d[1] == b
    &&& number_at(d, 2, 2) == place
}

/// Loads that reserve have two registers and the place.
#[verifier::spinoff_prover]
pub proof fn law_packed_two_place(rd: u8, rs1: u8, pc_offset: u16)
    ensures
        packed_two_place(MicroOp::LrW { rd, rs1, pc_offset }, 100, rd, rs1, pc_offset),
        packed_two_place(MicroOp::LrD { rd, rs1, pc_offset }, 101, rd, rs1, pc_offset),
{
    lemma_layout_two_place(rd, rs1, pc_offset);
}

/// That an instruction is packed under a tag, with its operands in their places.
pub open spec fn packed_three_place(op: MicroOp, tag: u8, a: u8, b: u8, c: u8, place: u16) -> bool {
    let (t, d) = encoded(op);
    &&& t == tag
    &&& d.len() == 16
    &&& d[0] == a
    &&& d[1] == b
    &&& d[2] == c
    &&& number_at(d, 3, 2) == place
}

/// Conditional stores have three registers and the place.
#[verifier::spinoff_prover]
pub proof fn law_packed_three_place(rd: u8, rs1: u8, rs2: u8, pc_offset: u16)
    ensures
        packed_three_place(MicroOp::ScW { rd, rs1, rs2, pc_offset }, 102, rd, rs1, rs2, pc_offset),
        packed_three_place(MicroOp::ScD { rd, rs1, rs2, pc_offset }, 103, rd, rs1, rs2, pc_offset),
{
    lemma_layout_three_place(rd, rs1, rs2, pc_offset);
}

/// That an instruction is packed under a tag, with its operands in their places.
pub open spec fn packed_amo(op: MicroOp, tag: u8, a: u8, b: u8, c: u8, word: bool, place: u16) -> bool {
    let (t, d) = encoded(op);
    &&& t == tag
    &&& d.len() == 16
    &&& d[0] == a
    &&& d[1] == b
    &&& d[2] == c
    &&& d[3] == 1 <==> word
    &&& d[3] == 0 <==> !word
    &&& number_at(d, 4, 2) == place
}

/// Atomic updates have three registers, whether they are on words, and the place.
#[verifier::spinoff_prover]
pub proof fn law_packed_amo(rd: u8, rs1: u8, rs2: u8, is_word: bool, pc_offset: u16)
    ensures
        packed_amo(MicroOp::AmoSwap { rd, rs1, rs2, is_word, pc_offset }, 110, rd, rs1, rs2, is_word, pc_offset),
        packed_amo(MicroOp::AmoAdd { rd, rs1, rs2, is_word, pc_offset }, 111, rd, rs1, rs2, is_word, pc_offset),
        packed_amo(MicroOp::AmoXor { rd, rs1, rs2, is_word, pc_offset }, 112, rd, rs1, rs2, is_word, pc_offset),
        packed_amo(MicroOp::AmoAnd { rd, rs1, rs2, is_word, pc_offset }, 113, rd, rs1, rs2, is_word, pc_offset),
        packed_amo(MicroOp::AmoOr { rd, rs1, rs2, is_word, pc_offset }, 114, rd, rs1, rs2, is_word, pc_offset),
        packed_amo(MicroOp::AmoMin { rd, rs1, rs2, is_word, pc_offset }, 115, rd, rs1, rs2, is_word, pc_offset),
        packed_amo(MicroOp::AmoMax { rd, rs1, rs2, is_word, pc_offset }, 116, rd, rs1, rs2, is_word, pc_offset),
        packed_amo(MicroOp::AmoMinu { rd, rs1, rs2, is_word, pc_offset }, 117, rd, rs1, rs2, is_word, pc_offset),
        packed_amo(MicroOp::AmoMaxu { rd, rs1, rs2, is_word, pc_offset }, 118, rd, rs1, rs2, is_word, pc_offset),
{
    lemma_layout_amo(rd, rs1, rs2, is_word, pc_offset);
}

} // verus!
