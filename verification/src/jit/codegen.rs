//! The WebAssembly code of each instruction.

use crate::engine::microop::{op_may_trap, op_pc_offset, MicroOp};
use crate::jit::encoder::imports;
use crate::jit::state::{
    offsets, tlb_entry, DRAM_BASE, HEADER_SIZE, JIT_STATE_OFFSET, TLB_ENTRY_SIZE, TLB_MASK,
    TLB_REGION_OFFSET,
};
use crate::jit::types::{exit_codes, JitConfig};
use crate::jit::wasm::{
    Access, BlockType, Convert, I32Op, I64Op, I64Test, Instruction, MemArg, ValType,
};
use vstd::prelude::*;

verus! {

/// A run of code.
pub type Code = Seq<Instruction>;

/// A place in memory 0.
pub open spec fn mem(offset: u64, align: u32) -> MemArg {
    MemArg { offset, align, memory_index: 0 }
}

/// Where a register lies in the shared memory.
pub open spec fn reg_mem(reg: u8) -> MemArg {
    mem((JIT_STATE_OFFSET + offsets::reg_place(reg)) as u64, 3)
}

/// Where the program counter lies in the shared memory.
pub open spec fn pc_mem() -> MemArg {
    mem((JIT_STATE_OFFSET + offsets::PC) as u64, 3)
}

/// The local that holds a branch target.
pub const TARGET_LOCAL: u32 = 1;

/// The local through which a value goes to memory.
pub const VALUE_LOCAL: u32 = 2;

/// Pushes the value of a register: register 0 is the constant zero.
pub open spec fn load_reg(reg: u8) -> Code {
    if reg == 0 {
        seq![Instruction::I64Const(0)]
    } else {
        seq![Instruction::I32Const(0), Instruction::Memory(Access::I64Load, reg_mem(reg))]
    }
}

/// Pops a value into a register: a value for register 0 is dropped.
pub open spec fn store_reg(rd: u8) -> Code {
    if rd == 0 {
        seq![Instruction::Drop]
    } else {
        seq![
            Instruction::LocalSet(VALUE_LOCAL),
            Instruction::I32Const(0),
            Instruction::LocalGet(VALUE_LOCAL),
            Instruction::Memory(Access::I64Store, reg_mem(rd)),
        ]
    }
}

/// Code that leaves `value` in a register, or nothing where the register is 0.
#[verifier::opaque]
pub open spec fn to_reg(rd: u8, value: Code) -> Code {
    if rd == 0 {
        Seq::empty()
    } else {
        value + store_reg(rd)
    }
}

/// A register and a constant, and then an operation on both.
#[verifier::opaque]
pub open spec fn with_imm(rs1: u8, imm: i64, tail: Code) -> Code {
    load_reg(rs1) + (seq![Instruction::I64Const(imm)] + tail)
}

/// Two registers, and then an operation on both.
#[verifier::opaque]
pub open spec fn with_reg(rs1: u8, rs2: u8, tail: Code) -> Code {
    load_reg(rs1) + (load_reg(rs2) + tail)
}

/// The low words of two registers, and then an operation on both.
#[verifier::opaque]
pub open spec fn with_words(rs1: u8, rs2: u8, tail: Code) -> Code {
    load_reg(rs1) + (seq![Instruction::Convert(Convert::I32WrapI64)] + (load_reg(rs2) + (seq![
        Instruction::Convert(Convert::I32WrapI64),
    ] + tail)))
}

/// The low word of a register shifted by a constant, widened again.
#[verifier::opaque]
pub open spec fn word_shift(rs1: u8, shamt: u8, op: I32Op) -> Code {
    load_reg(rs1) + seq![
        Instruction::Convert(Convert::I32WrapI64),
        Instruction::I32Const(shamt as i32),
        Instruction::I32(op),
        Instruction::Convert(Convert::I64ExtendI32S),
    ]
}

/// A shift by a register: the shift count is taken modulo 64.
pub open spec fn shift(op: I64Op) -> Code {
    seq![Instruction::I64Const(0x3f), Instruction::I64(I64Op::And), Instruction::I64(op)]
}

/// A 32-bit shift by a register: the shift count is taken modulo 32.
pub open spec fn shift_word(op: I32Op) -> Code {
    seq![
        Instruction::I32Const(0x1f),
        Instruction::I32(I32Op::And),
        Instruction::I32(op),
        Instruction::Convert(Convert::I64ExtendI32S),
    ]
}

pub open spec fn arith(op: I64Op) -> Code {
    seq![Instruction::I64(op)]
}

/// An operation whose 64-bit result is cut to a word and widened again.
pub open spec fn arith_cut(op: I64Op) -> Code {
    seq![
        Instruction::I64(op),
        Instruction::Convert(Convert::I32WrapI64),
        Instruction::Convert(Convert::I64ExtendI32S),
    ]
}

/// An operation on words whose result is widened.
pub open spec fn arith_word(op: I32Op) -> Code {
    seq![Instruction::I32(op), Instruction::Convert(Convert::I64ExtendI32S)]
}

/// A test whose truth value goes to a register.
pub open spec fn test_value(op: I64Test) -> Code {
    seq![Instruction::Test(op), Instruction::Convert(Convert::I64ExtendI32U)]
}

/// A choice between two values of 64 bits.
#[verifier::opaque]
pub open spec fn choose_i64(cond: Code, taken: Code, other: Code) -> Code {
    cond + (seq![Instruction::If(BlockType::Result(ValType::I64))] + (taken + (seq![
        Instruction::Else,
    ] + (other + seq![Instruction::End]))))
}

pub open spec fn const64(v: i64) -> Code {
    seq![Instruction::I64Const(v)]
}

/// Whether a register is zero.
pub open spec fn is_zero(reg: u8) -> Code {
    load_reg(reg) + seq![Instruction::Test(I64Test::Eqz)]
}

/// Whether the low word of a register is zero.
pub open spec fn is_zero_word(reg: u8) -> Code {
    load_reg(reg) + seq![
        Instruction::Convert(Convert::I32WrapI64),
        Instruction::I32(I32Op::Eqz),
    ]
}

/// Whether the value on the stack is `v`.
pub open spec fn equals(v: i64) -> Code {
    seq![Instruction::I64Const(v), Instruction::Test(I64Test::Eq)]
}

/// Whether the low word of the value on the stack is `v`.
pub open spec fn equals_word(v: i32) -> Code {
    seq![
        Instruction::Convert(Convert::I32WrapI64),
        Instruction::I32Const(v),
        Instruction::I32(I32Op::Eq),
    ]
}

/// Whether a division would overflow: the least number divided by -1.
pub open spec fn overflows(rs1: u8, rs2: u8) -> Code {
    load_reg(rs1) + (equals(i64::MIN) + (load_reg(rs2) + (equals((-1int) as i64) + seq![
        Instruction::I32(I32Op::And),
    ])))
}

/// Whether a 32-bit division would overflow.
pub open spec fn overflows_word(rs1: u8, rs2: u8) -> Code {
    load_reg(rs1) + (equals_word(i32::MIN) + (load_reg(rs2) + (equals_word((-1int) as i32) + seq![
        Instruction::I32(I32Op::And),
    ])))
}

/// The low word of a register, widened again.
pub open spec fn cut_word(reg: u8) -> Code {
    load_reg(reg) + seq![
        Instruction::Convert(Convert::I32WrapI64),
        Instruction::Convert(Convert::I64ExtendI32S),
    ]
}

/// What compiled code returns: why in the high word, and where in the low word.
pub open spec fn exit_value(code: u32, low: u32) -> i64 {
    (code * 0x1_0000_0000 + low) as i64
}

/// Returns an exit value.
pub open spec fn exit(code: u32, low: u32) -> Code {
    seq![Instruction::I64Const(exit_value(code, low)), Instruction::Return]
}

/// Returns early where the top of the stack is not zero.
pub open spec fn exit_if(code: u32, low: u32) -> Code {
    seq![
        Instruction::If(BlockType::Empty),
        Instruction::I64Const(exit_value(code, low)),
        Instruction::Return,
        Instruction::End,
    ]
}

/// Returns where a helper left a trap.
pub open spec fn trap_check(place: u16) -> Code {
    seq![
        Instruction::I32Const(0),
        Instruction::Memory(
            Access::I32Load,
            mem((JIT_STATE_OFFSET + offsets::TRAP_PENDING) as u64, 2),
        ),
    ] + exit_if(exit_codes::EXIT_TRAP, place as u32)
}

/// Returns where an interrupt is waiting.
pub open spec fn interrupt_check(place: u16) -> Code {
    seq![
        Instruction::I32Const(JIT_STATE_OFFSET as i32),
        Instruction::Memory(Access::I32Load, mem(offsets::INTERRUPT_PENDING as u64, 2)),
    ] + exit_if(exit_codes::EXIT_INTERRUPT_CHECK, place as u32)
}

/// The address of a memory access.
pub open spec fn address(rs1: u8, imm: i64) -> Code {
    with_imm(rs1, imm, arith(I64Op::Add))
}

/// A load through a helper, nothing at all where the register is 0.
#[verifier::opaque]
pub open spec fn load_code(rd: u8, rs1: u8, imm: i64, place: u16, helper: u32, widen: Code) -> Code {
    if rd == 0 {
        Seq::empty()
    } else {
        address(rs1, imm) + (seq![Instruction::Call(helper)] + (widen + (store_reg(rd) + trap_check(
            place,
        ))))
    }
}

/// Widens the low `32 - shift` bits of a word with their sign.
pub open spec fn sign_extend(shift: i32) -> Code {
    seq![
        Instruction::I32Const(shift),
        Instruction::I32(I32Op::Shl),
        Instruction::I32Const(shift),
        Instruction::I32(I32Op::ShrS),
        Instruction::Convert(Convert::I64ExtendI32S),
    ]
}

pub open spec fn extend_s() -> Code {
    seq![Instruction::Convert(Convert::I64ExtendI32S)]
}

pub open spec fn extend_u() -> Code {
    seq![Instruction::Convert(Convert::I64ExtendI32U)]
}

pub open spec fn wrap() -> Code {
    seq![Instruction::Convert(Convert::I32WrapI64)]
}

/// A store through a helper, which says whether it trapped.
#[verifier::opaque]
pub open spec fn store_code(rs1: u8, rs2: u8, imm: i64, place: u16, helper: u32, narrow: Code) -> Code {
    address(rs1, imm) + (load_reg(rs2) + (narrow + (seq![Instruction::Call(helper)] + exit_if(
        exit_codes::EXIT_TRAP,
        place as u32,
    ))))
}

/// Tells the target as the program counter, and returns its low word.
pub open spec fn exit_branch() -> Code {
    seq![
        Instruction::I32Const(0),
        Instruction::LocalGet(TARGET_LOCAL),
        Instruction::Memory(Access::I64Store, pc_mem()),
        Instruction::LocalGet(TARGET_LOCAL),
        Instruction::Convert(Convert::I32WrapI64),
        Instruction::Convert(Convert::I64ExtendI32U),
        Instruction::I64Const(exit_value(exit_codes::EXIT_BRANCH, 0)),
        Instruction::I64(I64Op::Or),
        Instruction::Return,
    ]
}

/// The address that lies `distance` from the instruction at `place` of a block.
pub open spec fn address_from(base_pc: u64, place: u16, distance: i64) -> i64 {
    (base_pc as i64).wrapping_add(place as i64).wrapping_add(distance)
}

/// The address that a jump leaves in its link register.
pub open spec fn link(base_pc: u64, place: u16, len: u8) -> i64 {
    address_from(base_pc, place, len as i64)
}

/// Compares, and keeps the one address or the other as the target.
pub open spec fn branch_target(test: I64Test, there: i64, next: i64) -> Code {
    seq![
        Instruction::Test(test),
        Instruction::If(BlockType::Result(ValType::I64)),
        Instruction::I64Const(there),
        Instruction::Else,
        Instruction::I64Const(next),
        Instruction::End,
        Instruction::LocalSet(TARGET_LOCAL),
    ]
}

/// A conditional branch: it returns in either case.
#[verifier::opaque]
pub open spec fn branch_code(
    rs1: u8,
    rs2: u8,
    imm: i64,
    place: u16,
    len: u8,
    test: I64Test,
    base_pc: u64,
) -> Code {
    with_reg(
        rs1,
        rs2,
        branch_target(test, address_from(base_pc, place, imm), link(base_pc, place, len)),
    ) + exit_branch()
}

/// Keeps an address as the target.
pub open spec fn jal_target(there: i64) -> Code {
    seq![Instruction::I64Const(there), Instruction::LocalSet(TARGET_LOCAL)]
}

#[verifier::opaque]
pub open spec fn jal_code(rd: u8, imm: i64, place: u16, len: u8, base_pc: u64) -> Code {
    to_reg(rd, const64(link(base_pc, place, len))) + (jal_target(
        address_from(base_pc, place, imm),
    ) + exit_branch())
}

/// Adds the two operands of an indirect jump, clears the lowest bit, and keeps the
/// result as the target.
pub open spec fn jalr_target() -> Code {
    seq![
        Instruction::I64(I64Op::Add),
        Instruction::I64Const((-2int) as i64),
        Instruction::I64(I64Op::And),
        Instruction::LocalSet(TARGET_LOCAL),
    ]
}

#[verifier::opaque]
pub open spec fn jalr_code(rd: u8, rs1: u8, imm: i64, place: u16, len: u8, base_pc: u64) -> Code {
    with_imm(rs1, imm, jalr_target()) + (to_reg(rd, const64(link(base_pc, place, len)))
        + exit_branch())
}

/// A constant straight into a register.
#[verifier::opaque]
pub open spec fn const_to_reg(rd: u8, v: i64) -> Code {
    if rd == 0 {
        Seq::empty()
    } else {
        seq![
            Instruction::I32Const(0),
            Instruction::I64Const(v),
            Instruction::Memory(Access::I64Store, reg_mem(rd)),
        ]
    }
}

pub open spec fn div_code(rs1: u8, rs2: u8) -> Code {
    choose_i64(
        is_zero(rs2),
        const64((-1int) as i64),
        choose_i64(
            overflows(rs1, rs2),
            const64(i64::MIN),
            with_reg(rs1, rs2, arith(I64Op::DivS)),
        ),
    )
}

pub open spec fn divu_code(rs1: u8, rs2: u8) -> Code {
    choose_i64(
        is_zero(rs2),
        const64((-1int) as i64),
        with_reg(rs1, rs2, arith(I64Op::DivU)),
    )
}

pub open spec fn rem_code(rs1: u8, rs2: u8) -> Code {
    choose_i64(
        is_zero(rs2),
        load_reg(rs1),
        choose_i64(overflows(rs1, rs2), const64(0), with_reg(rs1, rs2, arith(I64Op::RemS))),
    )
}

pub open spec fn remu_code(rs1: u8, rs2: u8) -> Code {
    choose_i64(is_zero(rs2), load_reg(rs1), with_reg(rs1, rs2, arith(I64Op::RemU)))
}

pub open spec fn divw_code(rs1: u8, rs2: u8) -> Code {
    choose_i64(
        is_zero_word(rs2),
        const64((-1int) as i64),
        choose_i64(
            overflows_word(rs1, rs2),
            const64(i32::MIN as i64),
            with_words(rs1, rs2, arith_word(I32Op::DivS)),
        ),
    )
}

pub open spec fn divuw_code(rs1: u8, rs2: u8) -> Code {
    choose_i64(
        is_zero_word(rs2),
        const64((-1int) as i64),
        with_words(rs1, rs2, arith_word(I32Op::DivU)),
    )
}

pub open spec fn remw_code(rs1: u8, rs2: u8) -> Code {
    choose_i64(
        is_zero_word(rs2),
        cut_word(rs1),
        choose_i64(
            overflows_word(rs1, rs2),
            const64(0),
            with_words(rs1, rs2, arith_word(I32Op::RemS)),
        ),
    )
}

pub open spec fn remuw_code(rs1: u8, rs2: u8) -> Code {
    choose_i64(
        is_zero_word(rs2),
        cut_word(rs1),
        with_words(rs1, rs2, arith_word(I32Op::RemU)),
    )
}

/// The value that an instruction without memory access or jump leaves in its
/// register, as code. `None` for all other instructions.
pub open spec fn value_code(op: MicroOp) -> Option<(u8, Code)> {
    match op {
        MicroOp::Addi { rd, rs1, imm } => Some((rd, with_imm(rs1, imm, arith(I64Op::Add)))),
        MicroOp::Xori { rd, rs1, imm } => Some((rd, with_imm(rs1, imm, arith(I64Op::Xor)))),
        MicroOp::Ori { rd, rs1, imm } => Some((rd, with_imm(rs1, imm, arith(I64Op::Or)))),
        MicroOp::Andi { rd, rs1, imm } => Some((rd, with_imm(rs1, imm, arith(I64Op::And)))),
        MicroOp::Slti { rd, rs1, imm } => Some((rd, with_imm(rs1, imm, test_value(I64Test::LtS)))),
        MicroOp::Sltiu { rd, rs1, imm } => Some((rd, with_imm(rs1, imm, test_value(I64Test::LtU)))),
        MicroOp::Slli { rd, rs1, shamt } => Some(
            (rd, with_imm(rs1, shamt as i64, arith(I64Op::Shl))),
        ),
        MicroOp::Srli { rd, rs1, shamt } => Some(
            (rd, with_imm(rs1, shamt as i64, arith(I64Op::ShrU))),
        ),
        MicroOp::Srai { rd, rs1, shamt } => Some(
            (rd, with_imm(rs1, shamt as i64, arith(I64Op::ShrS))),
        ),
        MicroOp::Add { rd, rs1, rs2 } => Some((rd, with_reg(rs1, rs2, arith(I64Op::Add)))),
        MicroOp::Sub { rd, rs1, rs2 } => Some((rd, with_reg(rs1, rs2, arith(I64Op::Sub)))),
        MicroOp::Xor { rd, rs1, rs2 } => Some((rd, with_reg(rs1, rs2, arith(I64Op::Xor)))),
        MicroOp::Or { rd, rs1, rs2 } => Some((rd, with_reg(rs1, rs2, arith(I64Op::Or)))),
        MicroOp::And { rd, rs1, rs2 } => Some((rd, with_reg(rs1, rs2, arith(I64Op::And)))),
        MicroOp::Sll { rd, rs1, rs2 } => Some((rd, with_reg(rs1, rs2, shift(I64Op::Shl)))),
        MicroOp::Srl { rd, rs1, rs2 } => Some((rd, with_reg(rs1, rs2, shift(I64Op::ShrU)))),
        MicroOp::Sra { rd, rs1, rs2 } => Some((rd, with_reg(rs1, rs2, shift(I64Op::ShrS)))),
        MicroOp::Slt { rd, rs1, rs2 } => Some((rd, with_reg(rs1, rs2, test_value(I64Test::LtS)))),
        MicroOp::Sltu { rd, rs1, rs2 } => Some((rd, with_reg(rs1, rs2, test_value(I64Test::LtU)))),
        MicroOp::Addiw { rd, rs1, imm } => Some(
            (rd, with_imm(rs1, imm as i64, arith_cut(I64Op::Add))),
        ),
        MicroOp::Slliw { rd, rs1, shamt } => Some((rd, word_shift(rs1, shamt, I32Op::Shl))),
        MicroOp::Srliw { rd, rs1, shamt } => Some((rd, word_shift(rs1, shamt, I32Op::ShrU))),
        MicroOp::Sraiw { rd, rs1, shamt } => Some((rd, word_shift(rs1, shamt, I32Op::ShrS))),
        MicroOp::Addw { rd, rs1, rs2 } => Some((rd, with_reg(rs1, rs2, arith_cut(I64Op::Add)))),
        MicroOp::Subw { rd, rs1, rs2 } => Some((rd, with_reg(rs1, rs2, arith_cut(I64Op::Sub)))),
        MicroOp::Sllw { rd, rs1, rs2 } => Some((rd, with_words(rs1, rs2, shift_word(I32Op::Shl)))),
        MicroOp::Srlw { rd, rs1, rs2 } => Some((rd, with_words(rs1, rs2, shift_word(I32Op::ShrU)))),
        MicroOp::Sraw { rd, rs1, rs2 } => Some((rd, with_words(rs1, rs2, shift_word(I32Op::ShrS)))),
        MicroOp::Mul { rd, rs1, rs2 } => Some((rd, with_reg(rs1, rs2, arith(I64Op::Mul)))),
        MicroOp::Mulw { rd, rs1, rs2 } => Some((rd, with_words(rs1, rs2, arith_word(I32Op::Mul)))),
        MicroOp::Div { rd, rs1, rs2 } => Some((rd, div_code(rs1, rs2))),
        MicroOp::Divu { rd, rs1, rs2 } => Some((rd, divu_code(rs1, rs2))),
        MicroOp::Rem { rd, rs1, rs2 } => Some((rd, rem_code(rs1, rs2))),
        MicroOp::Remu { rd, rs1, rs2 } => Some((rd, remu_code(rs1, rs2))),
        MicroOp::Divw { rd, rs1, rs2 } => Some((rd, divw_code(rs1, rs2))),
        MicroOp::Divuw { rd, rs1, rs2 } => Some((rd, divuw_code(rs1, rs2))),
        MicroOp::Remw { rd, rs1, rs2 } => Some((rd, remw_code(rs1, rs2))),
        MicroOp::Remuw { rd, rs1, rs2 } => Some((rd, remuw_code(rs1, rs2))),
        _ => None,
    }
}

/// The code of an instruction in a block that starts at `base_pc`. `None` where the
/// instruction cannot be compiled: the high halves of products, control registers,
/// system instructions, fences and atomics.
pub open spec fn op_code(op: MicroOp, base_pc: u64) -> Option<Code> {
    match value_code(op) {
        Some((rd, value)) => Some(to_reg(rd, value)),
        None => match op {
            MicroOp::Lui { rd, imm } => Some(const_to_reg(rd, imm)),
            MicroOp::Auipc { rd, imm, pc_offset } => Some(
                const_to_reg(
                    rd,
                    (base_pc as i64).wrapping_add(pc_offset as i64).wrapping_add(imm),
                ),
            ),
            MicroOp::Ld { rd, rs1, imm, pc_offset } => Some(
                load_code(rd, rs1, imm, pc_offset, imports::READ_U64, Seq::empty()),
            ),
            MicroOp::Lw { rd, rs1, imm, pc_offset } => Some(
                load_code(rd, rs1, imm, pc_offset, imports::READ_U32, extend_s()),
            ),
            MicroOp::Lwu { rd, rs1, imm, pc_offset } => Some(
                load_code(rd, rs1, imm, pc_offset, imports::READ_U32, extend_u()),
            ),
            MicroOp::Lh { rd, rs1, imm, pc_offset } => Some(
                load_code(rd, rs1, imm, pc_offset, imports::READ_U16, sign_extend(16)),
            ),
            MicroOp::Lhu { rd, rs1, imm, pc_offset } => Some(
                load_code(rd, rs1, imm, pc_offset, imports::READ_U16, extend_u()),
            ),
            MicroOp::Lb { rd, rs1, imm, pc_offset } => Some(
                load_code(rd, rs1, imm, pc_offset, imports::READ_U8, sign_extend(24)),
            ),
            MicroOp::Lbu { rd, rs1, imm, pc_offset } => Some(
                load_code(rd, rs1, imm, pc_offset, imports::READ_U8, extend_u()),
            ),
            MicroOp::Sd { rs1, rs2, imm, pc_offset } => Some(
                store_code(rs1, rs2, imm, pc_offset, imports::WRITE_U64, Seq::empty()),
            ),
            MicroOp::Sw { rs1, rs2, imm, pc_offset } => Some(
                store_code(rs1, rs2, imm, pc_offset, imports::WRITE_U32, wrap()),
            ),
            MicroOp::Sh { rs1, rs2, imm, pc_offset } => Some(
                store_code(rs1, rs2, imm, pc_offset, imports::WRITE_U16, wrap()),
            ),
            MicroOp::Sb { rs1, rs2, imm, pc_offset } => Some(
                store_code(rs1, rs2, imm, pc_offset, imports::WRITE_U8, wrap()),
            ),
            MicroOp::Beq { rs1, rs2, imm, pc_offset, insn_len } => Some(
                branch_code(rs1, rs2, imm, pc_offset, insn_len, I64Test::Eq, base_pc),
            ),
            MicroOp::Bne { rs1, rs2, imm, pc_offset, insn_len } => Some(
                branch_code(rs1, rs2, imm, pc_offset, insn_len, I64Test::Ne, base_pc),
            ),
            MicroOp::Blt { rs1, rs2, imm, pc_offset, insn_len } => Some(
                branch_code(rs1, rs2, imm, pc_offset, insn_len, I64Test::LtS, base_pc),
            ),
            MicroOp::Bge { rs1, rs2, imm, pc_offset, insn_len } => Some(
                branch_code(rs1, rs2, imm, pc_offset, insn_len, I64Test::GeS, base_pc),
            ),
            MicroOp::Bltu { rs1, rs2, imm, pc_offset, insn_len } => Some(
                branch_code(rs1, rs2, imm, pc_offset, insn_len, I64Test::LtU, base_pc),
            ),
            MicroOp::Bgeu { rs1, rs2, imm, pc_offset, insn_len } => Some(
                branch_code(rs1, rs2, imm, pc_offset, insn_len, I64Test::GeU, base_pc),
            ),
            MicroOp::Jal { rd, imm, pc_offset, insn_len } => Some(
                jal_code(rd, imm, pc_offset, insn_len, base_pc),
            ),
            MicroOp::Jalr { rd, rs1, imm, pc_offset, insn_len } => Some(
                jalr_code(rd, rs1, imm, pc_offset, insn_len, base_pc),
            ),
            _ => None,
        },
    }
}

/// Whether an instruction is a conditional branch back.
pub open spec fn backward_branch(op: MicroOp) -> bool {
    match op {
        MicroOp::Beq { imm, .. }
        | MicroOp::Bne { imm, .. }
        | MicroOp::Blt { imm, .. }
        | MicroOp::Bge { imm, .. }
        | MicroOp::Bltu { imm, .. }
        | MicroOp::Bgeu { imm, .. } => imm < 0,
        _ => false,
    }
}

/// Whether the instruction at `index` of a block of `len` is preceded by a check for
/// interrupts: at the start of a long block, at intervals in one twice as long, and
/// before every branch back.
pub open spec fn checks_interrupts(config: JitConfig, len: nat, index: int, op: MicroOp) -> bool {
    ||| index == 0 && config.interrupt_check_on_entry && len
        >= config.interrupt_check_block_threshold
    ||| config.interrupt_check_interval > 0 && index > 0 && index
        % config.interrupt_check_interval as int == 0 && len
        >= config.interrupt_check_block_threshold.wrapping_mul(2)
    ||| backward_branch(op)
}

/// The place of an instruction: the one that it knows, or else as if all before it
/// had four bytes.
pub open spec fn op_place(op: MicroOp, index: int) -> u16 {
    match op_pc_offset(op) {
        Some(place) => place,
        None => (index * 4) as u16,
    }
}

/// The code of the first `n` instructions of a block, or `None` where one of them
/// cannot be compiled.
pub open spec fn prefix_code(config: JitConfig, code: Seq<MicroOp>, base_pc: u64, n: nat) -> Option<
    Code,
>
    decreases n,
{
    if n == 0 {
        Some(Seq::empty())
    } else {
        let i = (n - 1) as int;
        match (prefix_code(config, code, base_pc, (n - 1) as nat), op_code(code[i], base_pc)) {
            (Some(before), Some(own)) => {
                let check: Code = if checks_interrupts(config, code.len(), i, code[i]) {
                    interrupt_check(op_place(code[i], i))
                } else {
                    Seq::empty()
                };
                Some(before + (check + own))
            },
            _ => None,
        }
    }
}

/// The code of a block, which ends by returning the length of the block. `None` where
/// an instruction cannot be compiled.
pub open spec fn block_code(config: JitConfig, code: Seq<MicroOp>, base_pc: u64, byte_len: u16) -> Option<
    Code,
> {
    match prefix_code(config, code, base_pc, code.len()) {
        Some(body) => Some(
            body + const64(exit_value(exit_codes::EXIT_NORMAL, byte_len as u32)),
        ),
        None => None,
    }
}

/// Whether a block needs the memory helpers.
pub open spec fn needs_helpers(code: Seq<MicroOp>) -> bool {
    exists|i: int| 0 <= i < code.len() && op_may_trap(#[trigger] code[i])
}

/// The two locals that every block has.
pub open spec fn block_locals() -> Seq<(u32, ValType)> {
    seq![(2u32, ValType::I64)]
}

// A load that looks its address up in the translation entries of the shared memory.

/// Finds the entry of the address in local `vaddr`, and leaves for the slow path where
/// it does not hold the translation.
pub open spec fn tlb_lookup(vaddr: u32, vpn: u32, index: u32, entry: u32) -> Code {
    seq![
        Instruction::LocalGet(vaddr),
        Instruction::I64Const(12),
        Instruction::I64(I64Op::ShrU),
        Instruction::LocalTee(vpn),
        Instruction::I64Const(TLB_MASK as i64),
        Instruction::I64(I64Op::And),
        Instruction::Convert(Convert::I32WrapI64),
        Instruction::LocalSet(index),
        Instruction::LocalGet(index),
        Instruction::I32Const(TLB_ENTRY_SIZE as i32),
        Instruction::I32(I32Op::Mul),
        Instruction::I32Const((JIT_STATE_OFFSET + TLB_REGION_OFFSET) as i32),
        Instruction::I32(I32Op::Add),
        Instruction::LocalTee(entry),
        Instruction::Memory(Access::I32Load8U, mem(tlb_entry::VALID as u64, 0)),
        Instruction::I32(I32Op::Eqz),
        Instruction::BrIf(0),
        Instruction::LocalGet(entry),
        Instruction::Memory(Access::I64Load, mem(tlb_entry::VPN as u64, 3)),
        Instruction::LocalGet(vpn),
        Instruction::Test(I64Test::Ne),
        Instruction::BrIf(0),
    ]
}

/// Pushes the place in the shared memory of the address in local `vaddr`, but for the
/// header, from the entry that was found.
pub open spec fn tlb_place(vaddr: u32, entry: u32) -> Code {
    seq![
        Instruction::LocalGet(entry),
        Instruction::Memory(Access::I64Load, mem(tlb_entry::PPN as u64, 3)),
        Instruction::I64Const(12),
        Instruction::I64(I64Op::Shl),
        Instruction::LocalGet(vaddr),
        Instruction::I64Const(0xfff),
        Instruction::I64(I64Op::And),
        Instruction::I64(I64Op::Or),
        Instruction::I64Const(DRAM_BASE as i64),
        Instruction::I64(I64Op::Sub),
        Instruction::Convert(Convert::I32WrapI64),
    ]
}

/// Skips the slow path, and opens it with the call of the helper.
pub open spec fn slow_path(vaddr: u32, helper: u32) -> Code {
    seq![
        Instruction::Br(1),
        Instruction::End,
        Instruction::LocalGet(vaddr),
        Instruction::Call(helper),
    ]
}

/// A load with a fast path: `access` with alignment `align` reads main memory where the
/// translation is known, and the helper is called where it is not.
pub open spec fn fast_load_code(
    vaddr: u32,
    vpn: u32,
    index: u32,
    entry: u32,
    rd: u8,
    place: u16,
    access: Access,
    align: u32,
    helper: u32,
    widen: Code,
) -> Code {
    seq![Instruction::Block(BlockType::Empty), Instruction::Block(BlockType::Empty)] + (tlb_lookup(
        vaddr,
        vpn,
        index,
        entry,
    ) + (tlb_place(vaddr, entry) + (seq![
        Instruction::Memory(access, mem(HEADER_SIZE as u64, align)),
    ] + (widen + (store_reg(rd) + (slow_path(vaddr, helper) + (widen + (store_reg(rd) + (trap_check(place) + seq![Instruction::End])))))))))
}

// Laws.

/// Every branch back is preceded by a check for interrupts.
pub proof fn law_branches_back_check_interrupts(
    config: JitConfig,
    len: nat,
    index: int,
    rs1: u8,
    rs2: u8,
    imm: i64,
    pc_offset: u16,
    insn_len: u8,
)
    requires
        imm < 0,
    ensures
        checks_interrupts(config, len, index, MicroOp::Beq { rs1, rs2, imm, pc_offset, insn_len }),
        checks_interrupts(config, len, index, MicroOp::Bne { rs1, rs2, imm, pc_offset, insn_len }),
        checks_interrupts(config, len, index, MicroOp::Blt { rs1, rs2, imm, pc_offset, insn_len }),
        checks_interrupts(config, len, index, MicroOp::Bge { rs1, rs2, imm, pc_offset, insn_len }),
        checks_interrupts(config, len, index, MicroOp::Bltu { rs1, rs2, imm, pc_offset, insn_len }),
        checks_interrupts(config, len, index, MicroOp::Bgeu { rs1, rs2, imm, pc_offset, insn_len }),
{
}

/// A block that is long enough begins with a check where the settings ask for one, and in a
/// block twice as long no stretch of instructions as long as the interval is without one.
/// Shorter blocks are checked before branches back only.
pub proof fn law_long_blocks_check_interrupts(
    config: JitConfig,
    len: nat,
    index: int,
    op: MicroOp,
    from: int,
)
    requires
        2 * config.interrupt_check_block_threshold <= u32::MAX,
        2 * config.interrupt_check_block_threshold <= usize::MAX,
        from > 0,
    ensures
        config.interrupt_check_on_entry && len >= config.interrupt_check_block_threshold
            ==> checks_interrupts(config, len, 0, op),
        config.interrupt_check_interval > 0 && len >= 2 * config.interrupt_check_block_threshold
            ==> exists|i: int|
            from <= i < from + config.interrupt_check_interval && #[trigger] checks_interrupts(
                config,
                len,
                i,
                op,
            ),
        len < config.interrupt_check_block_threshold && !backward_branch(op)
            ==> !checks_interrupts(config, len, index, op),
        op is Jal || op is Jalr ==> !backward_branch(op),
{
    let n = config.interrupt_check_interval as int;
    if n > 0 && len >= 2 * config.interrupt_check_block_threshold {
        let i = (from + n - 1) / n * n;
        assert(from <= i < from + n && i % n == 0) by (nonlinear_arith)
            requires
                n > 0,
                from > 0,
                i == (from + n - 1) / n * n,
        ;
        assert(checks_interrupts(config, len, i, op));
    }
}

/// Instructions that know their place are checked there; the others as if all before them had
/// four bytes.
pub proof fn law_places_of_checks(op: MicroOp, index: int)
    requires
        0 <= index < 0x4000,
    ensures
        op_pc_offset(op) matches Some(place) ==> op_place(op, index) == place,
        op_pc_offset(op) is None ==> op_place(op, index) == 4 * index,
{
}

/// Instructions on control registers and on the hart itself, and atomic ones, are not compiled:
/// a block with one of them is left to the interpreter.
pub proof fn law_what_is_not_compiled(
    base_pc: u64,
    rd: u8,
    rs1: u8,
    rs2: u8,
    csr: u16,
    pc_offset: u16,
    is_word: bool,
)
    ensures
        op_code(MicroOp::Csrrw { rd, rs1, csr, pc_offset }, base_pc) is None,
        op_code(MicroOp::Csrrs { rd, rs1, csr, pc_offset }, base_pc) is None,
        op_code(MicroOp::Csrrc { rd, rs1, csr, pc_offset }, base_pc) is None,
        op_code(MicroOp::Csrrwi { rd, zimm: rs1, csr, pc_offset }, base_pc) is None,
        op_code(MicroOp::Csrrsi { rd, zimm: rs1, csr, pc_offset }, base_pc) is None,
        op_code(MicroOp::Csrrci { rd, zimm: rs1, csr, pc_offset }, base_pc) is None,
        op_code(MicroOp::Ecall { pc_offset }, base_pc) is None,
        op_code(MicroOp::Ebreak { pc_offset }, base_pc) is None,
        op_code(MicroOp::Mret { pc_offset }, base_pc) is None,
        op_code(MicroOp::Sret { pc_offset }, base_pc) is None,
        op_code(MicroOp::SfenceVma { pc_offset }, base_pc) is None,
        op_code(MicroOp::LrW { rd, rs1, pc_offset }, base_pc) is None,
        op_code(MicroOp::LrD { rd, rs1, pc_offset }, base_pc) is None,
        op_code(MicroOp::ScW { rd, rs1, rs2, pc_offset }, base_pc) is None,
        op_code(MicroOp::ScD { rd, rs1, rs2, pc_offset }, base_pc) is None,
        op_code(MicroOp::AmoSwap { rd, rs1, rs2, is_word, pc_offset }, base_pc) is None,
        op_code(MicroOp::AmoAdd { rd, rs1, rs2, is_word, pc_offset }, base_pc) is None,
        op_code(MicroOp::AmoXor { rd, rs1, rs2, is_word, pc_offset }, base_pc) is None,
        op_code(MicroOp::AmoAnd { rd, rs1, rs2, is_word, pc_offset }, base_pc) is None,
        op_code(MicroOp::AmoOr { rd, rs1, rs2, is_word, pc_offset }, base_pc) is None,
        op_code(MicroOp::AmoMin { rd, rs1, rs2, is_word, pc_offset }, base_pc) is None,
        op_code(MicroOp::AmoMax { rd, rs1, rs2, is_word, pc_offset }, base_pc) is None,
        op_code(MicroOp::AmoMinu { rd, rs1, rs2, is_word, pc_offset }, base_pc) is None,
        op_code(MicroOp::AmoMaxu { rd, rs1, rs2, is_word, pc_offset }, base_pc) is None,
{
}

/// A block can be compiled just where each of its instructions can.
pub proof fn law_blocks_of_compiled_instructions(
    config: JitConfig,
    code: Seq<MicroOp>,
    base_pc: u64,
    byte_len: u16,
    n: nat,
)
    requires
        n <= code.len(),
    ensures
        prefix_code(config, code, base_pc, n) is Some <==> forall|i: int|
            0 <= i < n ==> (#[trigger] op_code(code[i], base_pc)) is Some,
        n == code.len() ==> (block_code(config, code, base_pc, byte_len) is Some <==> forall|i: int|
            0 <= i < n ==> (#[trigger] op_code(code[i], base_pc)) is Some),
    decreases n,
{
    if n > 0 {
        law_blocks_of_compiled_instructions(config, code, base_pc, byte_len, (n - 1) as nat);
        assert(op_code(code[n - 1], base_pc) is Some || op_code(code[n - 1], base_pc) is None);
    }
}

/// A block needs the services where an instruction of it reaches memory.
pub proof fn law_loads_need_helpers(
    code: Seq<MicroOp>,
    k: int,
    rd: u8,
    rs1: u8,
    imm: i64,
    pc_offset: u16,
)
    requires
        0 <= k < code.len(),
    ensures
        code[k] == (MicroOp::Lb { rd, rs1, imm, pc_offset }) ==> needs_helpers(code),
        code[k] == (MicroOp::Lbu { rd, rs1, imm, pc_offset }) ==> needs_helpers(code),
        code[k] == (MicroOp::Lh { rd, rs1, imm, pc_offset }) ==> needs_helpers(code),
        code[k] == (MicroOp::Lhu { rd, rs1, imm, pc_offset }) ==> needs_helpers(code),
        code[k] == (MicroOp::Lw { rd, rs1, imm, pc_offset }) ==> needs_helpers(code),
        code[k] == (MicroOp::Lwu { rd, rs1, imm, pc_offset }) ==> needs_helpers(code),
        code[k] == (MicroOp::Ld { rd, rs1, imm, pc_offset }) ==> needs_helpers(code),
        code[k] == (MicroOp::Sb { rs1: rd, rs2: rs1, imm, pc_offset }) ==> needs_helpers(code),
        code[k] == (MicroOp::Sh { rs1: rd, rs2: rs1, imm, pc_offset }) ==> needs_helpers(code),
        code[k] == (MicroOp::Sw { rs1: rd, rs2: rs1, imm, pc_offset }) ==> needs_helpers(code),
        code[k] == (MicroOp::Sd { rs1: rd, rs2: rs1, imm, pc_offset }) ==> needs_helpers(code),
        (forall|i: int| 0 <= i < code.len() ==> value_code(#[trigger] code[i]) is Some)
            ==> !needs_helpers(code),
{
    assert(op_may_trap(code[k]) ==> needs_helpers(code));
}

} // verus!
