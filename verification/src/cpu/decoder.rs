//! Decoded instructions, grouped by format.

use vstd::prelude::*;

verus! {

/// A decoded instruction. Immediates are sign-extended, and fields named `funct` tell
/// the instructions of a group apart.
#[derive(Debug, Clone, Copy, PartialEq, Eq, Structural)]
#[allow(inconsistent_fields)]
pub enum Op {
    Lui { rd: u8, imm: i64 },
    Auipc { rd: u8, imm: i64 },
    Jal { rd: u8, imm: i64 },
    Jalr { rd: u8, rs1: u8, imm: i64 },
    Branch { rs1: u8, rs2: u8, imm: i64, funct3: u8 },
    Load { rd: u8, rs1: u8, imm: i64, funct3: u8 },
    Store { rs1: u8, rs2: u8, imm: i64, funct3: u8 },
    OpImm { rd: u8, rs1: u8, imm: i64, funct3: u8, funct7: u8 },
    Op { rd: u8, rs1: u8, rs2: u8, funct3: u8, funct7: u8 },
    OpImm32 { rd: u8, rs1: u8, imm: i64, funct3: u8, funct7: u8 },
    Op32 { rd: u8, rs1: u8, rs2: u8, funct3: u8, funct7: u8 },
    Amo { rd: u8, rs1: u8, rs2: u8, funct3: u8, funct5: u8, aq: bool, rl: bool },
    System { rd: u8, rs1: u8, funct3: u8, imm: i64 },
    Fence,
}

impl Op {
    /// The instruction names registers that exist.
    pub open spec fn wf(self) -> bool {
        match self {
            Op::Lui { rd, .. } => rd < 32,
            Op::Auipc { rd, .. } => rd < 32,
            Op::Jal { rd, .. } => rd < 32,
            Op::Jalr { rd, rs1, .. } => rd < 32 && rs1 < 32,
            Op::Branch { rs1, rs2, .. } => rs1 < 32 && rs2 < 32,
            Op::Load { rd, rs1, .. } => rd < 32 && rs1 < 32,
            Op::Store { rs1, rs2, .. } => rs1 < 32 && rs2 < 32,
            Op::OpImm { rd, rs1, .. } => rd < 32 && rs1 < 32,
            Op::Op { rd, rs1, rs2, .. } => rd < 32 && rs1 < 32 && rs2 < 32,
            Op::OpImm32 { rd, rs1, .. } => rd < 32 && rs1 < 32,
            Op::Op32 { rd, rs1, rs2, .. } => rd < 32 && rs1 < 32 && rs2 < 32,
            Op::Amo { rd, rs1, rs2, .. } => rd < 32 && rs1 < 32 && rs2 < 32,
            Op::System { rd, rs1, .. } => rd < 32 && rs1 < 32,
            Op::Fence => true,
        }
    }
}

} // verus!
