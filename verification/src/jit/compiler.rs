//! From a block of instructions to a WebAssembly module.

use crate::engine::block::Block;
use crate::engine::microop::{op_may_trap, MicroOp};
use crate::jit::codegen;
use crate::jit::codegen::{Code, TARGET_LOCAL, VALUE_LOCAL};
use crate::jit::encoder;
use crate::jit::encoder::{imports, WasmModuleBuilder};
use crate::jit::state::{
    offsets, tlb_entry, DRAM_BASE, HEADER_SIZE, JIT_STATE_OFFSET, TLB_ENTRY_SIZE, TLB_MASK,
    TLB_REGION_OFFSET,
};
use crate::jit::types::{default_config, exit_codes, CompilationResult, JitConfig};
use crate::jit::wasm;
use crate::jit::wasm::{
    Access, BlockType, Convert, I32Op, I64Op, I64Test, Instruction, MemArg, ValType,
};
use vstd::prelude::*;

verus! {

/// Concatenation can be regrouped.
broadcast proof fn lemma_concat(a: Code, b: Code, c: Code)
    ensures
        #[trigger] ((a + b) + c) == a + (b + c),
{
    assert(((a + b) + c) =~= a + (b + c));
}

broadcast proof fn lemma_concat_empty(a: Code)
    ensures
        #[trigger] (a + Seq::<Instruction>::empty()) == a,
{
    assert((a + Seq::<Instruction>::empty()) =~= a);
}

broadcast proof fn lemma_empty_concat(a: Code)
    ensures
        #[trigger] (Seq::<Instruction>::empty() + a) == a,
{
    assert((Seq::<Instruction>::empty() + a) =~= a);
}

/// That `after` is `before` with `code` appended.
#[verifier::opaque]
pub open spec fn emitted(before: WasmModuleBuilder, after: WasmModuleBuilder, code: Code) -> bool {
    &&& after.code() == before.code() + code
    &&& after.locals() == before.locals()
    &&& after.local_count() == before.local_count()
    &&& before.wf() ==> after.wf()
}

/// That `after` is `before` with the code of one instruction appended, which is short.
#[verifier::opaque]
pub open spec fn op_emitted(before: WasmModuleBuilder, after: WasmModuleBuilder, code: Code) -> bool {
    &&& emitted(before, after, code)
    &&& after.code().len() <= before.code().len() + 70
}

/// What follows two operands of 64 bits.
pub enum Tail {
    Arith(I64Op),
    ArithCut(I64Op),
    Test(I64Test),
    Shift(I64Op),
}

pub open spec fn tail_code(tail: Tail) -> Code {
    match tail {
        Tail::Arith(op) => codegen::arith(op),
        Tail::ArithCut(op) => codegen::arith_cut(op),
        Tail::Test(op) => codegen::test_value(op),
        Tail::Shift(op) => codegen::shift(op),
    }
}

/// What follows two operands of 32 bits.
pub enum WordTail {
    Arith(I32Op),
    Shift(I32Op),
}

pub open spec fn word_tail_code(tail: WordTail) -> Code {
    match tail {
        WordTail::Arith(op) => codegen::arith_word(op),
        WordTail::Shift(op) => codegen::shift_word(op),
    }
}

/// How a helper's result becomes 64 bits wide.
pub enum Widen {
    Not,
    Signed,
    Unsigned,
    FromBits(i32),
}

pub open spec fn widen_code(widen: Widen) -> Code {
    match widen {
        Widen::Not => Seq::empty(),
        Widen::Signed => codegen::extend_s(),
        Widen::Unsigned => codegen::extend_u(),
        Widen::FromBits(shift) => codegen::sign_extend(shift),
    }
}

/// The divisions and remainders of 64 bits.
pub enum Division {
    Div,
    Divu,
    Rem,
    Remu,
}

pub open spec fn division_code(kind: Division, rs1: u8, rs2: u8) -> Code {
    match kind {
        Division::Div => codegen::div_code(rs1, rs2),
        Division::Divu => codegen::divu_code(rs1, rs2),
        Division::Rem => codegen::rem_code(rs1, rs2),
        Division::Remu => codegen::remu_code(rs1, rs2),
    }
}

pub open spec fn division_word_code(kind: Division, rs1: u8, rs2: u8) -> Code {
    match kind {
        Division::Div => codegen::divw_code(rs1, rs2),
        Division::Divu => codegen::divuw_code(rs1, rs2),
        Division::Rem => codegen::remw_code(rs1, rs2),
        Division::Remu => codegen::remuw_code(rs1, rs2),
    }
}

/// The forms that the code of an instruction can have.
#[allow(inconsistent_fields)]
pub enum Shape {
    Imm { rd: u8, rs1: u8, imm: i64, tail: Tail },
    Reg { rd: u8, rs1: u8, rs2: u8, tail: Tail },
    Words { rd: u8, rs1: u8, rs2: u8, tail: WordTail },
    WordShift { rd: u8, rs1: u8, shamt: u8, op: I32Op },
    Division { rd: u8, rs1: u8, rs2: u8, kind: Division },
    DivisionWord { rd: u8, rs1: u8, rs2: u8, kind: Division },
    Const { rd: u8, value: i64 },
    Load { rd: u8, rs1: u8, imm: i64, pc_offset: u16, helper: u32, widen: Widen },
    Store { rs1: u8, rs2: u8, imm: i64, pc_offset: u16, helper: u32, narrow: bool },
    Branch { rs1: u8, rs2: u8, imm: i64, pc_offset: u16, insn_len: u8, test: I64Test },
    Jal { rd: u8, imm: i64, pc_offset: u16, insn_len: u8 },
    Jalr { rd: u8, rs1: u8, imm: i64, pc_offset: u16, insn_len: u8 },
}

/// What a store does to the value before it hands it on.
pub open spec fn narrow_code(narrow: bool) -> Code {
    if narrow {
        codegen::wrap()
    } else {
        Seq::empty()
    }
}

pub open spec fn shape_code(shape: Shape, base_pc: u64) -> Code {
    match shape {
        Shape::Imm { rd, rs1, imm, tail } => codegen::to_reg(
            rd,
            codegen::with_imm(rs1, imm, tail_code(tail)),
        ),
        Shape::Reg { rd, rs1, rs2, tail } => codegen::to_reg(
            rd,
            codegen::with_reg(rs1, rs2, tail_code(tail)),
        ),
        Shape::Words { rd, rs1, rs2, tail } => codegen::to_reg(
            rd,
            codegen::with_words(rs1, rs2, word_tail_code(tail)),
        ),
        Shape::WordShift { rd, rs1, shamt, op } => codegen::to_reg(
            rd,
            codegen::word_shift(rs1, shamt, op),
        ),
        Shape::Division { rd, rs1, rs2, kind } => codegen::to_reg(
            rd,
            division_code(kind, rs1, rs2),
        ),
        Shape::DivisionWord { rd, rs1, rs2, kind } => codegen::to_reg(
            rd,
            division_word_code(kind, rs1, rs2),
        ),
        Shape::Const { rd, value } => codegen::const_to_reg(rd, value),
        Shape::Load { rd, rs1, imm, pc_offset, helper, widen } => codegen::load_code(
            rd,
            rs1,
            imm,
            pc_offset,
            helper,
            widen_code(widen),
        ),
        Shape::Store { rs1, rs2, imm, pc_offset, helper, narrow } => codegen::store_code(
            rs1,
            rs2,
            imm,
            pc_offset,
            helper,
            narrow_code(narrow),
        ),
        Shape::Branch { rs1, rs2, imm, pc_offset, insn_len, test } => codegen::branch_code(
            rs1,
            rs2,
            imm,
            pc_offset,
            insn_len,
            test,
            base_pc,
        ),
        Shape::Jal { rd, imm, pc_offset, insn_len } => codegen::jal_code(
            rd,
            imm,
            pc_offset,
            insn_len,
            base_pc,
        ),
        Shape::Jalr { rd, rs1, imm, pc_offset, insn_len } => codegen::jalr_code(
            rd,
            rs1,
            imm,
            pc_offset,
            insn_len,
            base_pc,
        ),
    }
}

/// The form of an instruction, or `None` where it cannot be compiled.
fn shape_of(op: &MicroOp, base_pc: u64) -> (shape: Option<Shape>)
    ensures
        match shape {
            Some(s) => codegen::op_code(*op, base_pc) == Some(shape_code(s, base_pc)),
            None => codegen::op_code(*op, base_pc) is None,
        },
{
    match *op {
        MicroOp::Addi { rd, rs1, imm } => Some(Shape::Imm { rd, rs1, imm, tail: Tail::Arith(I64Op::Add) }),
        MicroOp::Xori { rd, rs1, imm } => Some(Shape::Imm { rd, rs1, imm, tail: Tail::Arith(I64Op::Xor) }),
        MicroOp::Ori { rd, rs1, imm } => Some(Shape::Imm { rd, rs1, imm, tail: Tail::Arith(I64Op::Or) }),
        MicroOp::Andi { rd, rs1, imm } => Some(Shape::Imm { rd, rs1, imm, tail: Tail::Arith(I64Op::And) }),
        MicroOp::Slti { rd, rs1, imm } => Some(Shape::Imm { rd, rs1, imm, tail: Tail::Test(I64Test::LtS) }),
        MicroOp::Sltiu { rd, rs1, imm } => Some(Shape::Imm { rd, rs1, imm, tail: Tail::Test(I64Test::LtU) }),
        MicroOp::Slli { rd, rs1, shamt } => Some(Shape::Imm { rd, rs1, imm: shamt as i64, tail: Tail::Arith(I64Op::Shl) }),
        MicroOp::Srli { rd, rs1, shamt } => Some(Shape::Imm { rd, rs1, imm: shamt as i64, tail: Tail::Arith(I64Op::ShrU) }),
        MicroOp::Srai { rd, rs1, shamt } => Some(Shape::Imm { rd, rs1, imm: shamt as i64, tail: Tail::Arith(I64Op::ShrS) }),
        MicroOp::Add { rd, rs1, rs2 } => Some(Shape::Reg { rd, rs1, rs2, tail: Tail::Arith(I64Op::Add) }),
        MicroOp::Sub { rd, rs1, rs2 } => Some(Shape::Reg { rd, rs1, rs2, tail: Tail::Arith(I64Op::Sub) }),
        MicroOp::Xor { rd, rs1, rs2 } => Some(Shape::Reg { rd, rs1, rs2, tail: Tail::Arith(I64Op::Xor) }),
        MicroOp::Or { rd, rs1, rs2 } => Some(Shape::Reg { rd, rs1, rs2, tail: Tail::Arith(I64Op::Or) }),
        MicroOp::And { rd, rs1, rs2 } => Some(Shape::Reg { rd, rs1, rs2, tail: Tail::Arith(I64Op::And) }),
        MicroOp::Sll { rd, rs1, rs2 } => Some(Shape::Reg { rd, rs1, rs2, tail: Tail::Shift(I64Op::Shl) }),
        MicroOp::Srl { rd, rs1, rs2 } => Some(Shape::Reg { rd, rs1, rs2, tail: Tail::Shift(I64Op::ShrU) }),
        MicroOp::Sra { rd, rs1, rs2 } => Some(Shape::Reg { rd, rs1, rs2, tail: Tail::Shift(I64Op::ShrS) }),
        MicroOp::Slt { rd, rs1, rs2 } => Some(Shape::Reg { rd, rs1, rs2, tail: Tail::Test(I64Test::LtS) }),
        MicroOp::Sltu { rd, rs1, rs2 } => Some(Shape::Reg { rd, rs1, rs2, tail: Tail::Test(I64Test::LtU) }),
        MicroOp::Addiw { rd, rs1, imm } => Some(Shape::Imm { rd, rs1, imm: imm as i64, tail: Tail::ArithCut(I64Op::Add) }),
        MicroOp::Slliw { rd, rs1, shamt } => Some(Shape::WordShift { rd, rs1, shamt, op: I32Op::Shl }),
        MicroOp::Srliw { rd, rs1, shamt } => Some(Shape::WordShift { rd, rs1, shamt, op: I32Op::ShrU }),
        MicroOp::Sraiw { rd, rs1, shamt } => Some(Shape::WordShift { rd, rs1, shamt, op: I32Op::ShrS }),
        MicroOp::Addw { rd, rs1, rs2 } => Some(Shape::Reg { rd, rs1, rs2, tail: Tail::ArithCut(I64Op::Add) }),
        MicroOp::Subw { rd, rs1, rs2 } => Some(Shape::Reg { rd, rs1, rs2, tail: Tail::ArithCut(I64Op::Sub) }),
        MicroOp::Sllw { rd, rs1, rs2 } => Some(Shape::Words { rd, rs1, rs2, tail: WordTail::Shift(I32Op::Shl) }),
        MicroOp::Srlw { rd, rs1, rs2 } => Some(Shape::Words { rd, rs1, rs2, tail: WordTail::Shift(I32Op::ShrU) }),
        MicroOp::Sraw { rd, rs1, rs2 } => Some(Shape::Words { rd, rs1, rs2, tail: WordTail::Shift(I32Op::ShrS) }),
        MicroOp::Mul { rd, rs1, rs2 } => Some(Shape::Reg { rd, rs1, rs2, tail: Tail::Arith(I64Op::Mul) }),
        MicroOp::Mulw { rd, rs1, rs2 } => Some(Shape::Words { rd, rs1, rs2, tail: WordTail::Arith(I32Op::Mul) }),
        MicroOp::Div { rd, rs1, rs2 } => Some(Shape::Division { rd, rs1, rs2, kind: Division::Div }),
        MicroOp::Divu { rd, rs1, rs2 } => Some(Shape::Division { rd, rs1, rs2, kind: Division::Divu }),
        MicroOp::Rem { rd, rs1, rs2 } => Some(Shape::Division { rd, rs1, rs2, kind: Division::Rem }),
        MicroOp::Remu { rd, rs1, rs2 } => Some(Shape::Division { rd, rs1, rs2, kind: Division::Remu }),
        MicroOp::Divw { rd, rs1, rs2 } => Some(Shape::DivisionWord { rd, rs1, rs2, kind: Division::Div }),
        MicroOp::Divuw { rd, rs1, rs2 } => Some(Shape::DivisionWord { rd, rs1, rs2, kind: Division::Divu }),
        MicroOp::Remw { rd, rs1, rs2 } => Some(Shape::DivisionWord { rd, rs1, rs2, kind: Division::Rem }),
        MicroOp::Remuw { rd, rs1, rs2 } => Some(Shape::DivisionWord { rd, rs1, rs2, kind: Division::Remu }),
        MicroOp::Lui { rd, imm } => Some(Shape::Const { rd, value: imm }),
        MicroOp::Auipc { rd, imm, pc_offset } => Some(Shape::Const { rd, value: (base_pc as i64).wrapping_add(pc_offset as i64).wrapping_add(imm) }),
        MicroOp::Ld { rd, rs1, imm, pc_offset } => Some(Shape::Load { rd, rs1, imm, pc_offset, helper: imports::READ_U64, widen: Widen::Not }),
        MicroOp::Lw { rd, rs1, imm, pc_offset } => Some(Shape::Load { rd, rs1, imm, pc_offset, helper: imports::READ_U32, widen: Widen::Signed }),
        MicroOp::Lwu { rd, rs1, imm, pc_offset } => Some(Shape::Load { rd, rs1, imm, pc_offset, helper: imports::READ_U32, widen: Widen::Unsigned }),
        MicroOp::Lh { rd, rs1, imm, pc_offset } => Some(Shape::Load { rd, rs1, imm, pc_offset, helper: imports::READ_U16, widen: Widen::FromBits(16) }),
        MicroOp::Lhu { rd, rs1, imm, pc_offset } => Some(Shape::Load { rd, rs1, imm, pc_offset, helper: imports::READ_U16, widen: Widen::Unsigned }),
        MicroOp::Lb { rd, rs1, imm, pc_offset } => Some(Shape::Load { rd, rs1, imm, pc_offset, helper: imports::READ_U8, widen: Widen::FromBits(24) }),
        MicroOp::Lbu { rd, rs1, imm, pc_offset } => Some(Shape::Load { rd, rs1, imm, pc_offset, helper: imports::READ_U8, widen: Widen::Unsigned }),
        MicroOp::Sd { rs1, rs2, imm, pc_offset } => Some(Shape::Store { rs1, rs2, imm, pc_offset, helper: imports::WRITE_U64, narrow: false }),
        MicroOp::Sw { rs1, rs2, imm, pc_offset } => Some(Shape::Store { rs1, rs2, imm, pc_offset, helper: imports::WRITE_U32, narrow: true }),
        MicroOp::Sh { rs1, rs2, imm, pc_offset } => Some(Shape::Store { rs1, rs2, imm, pc_offset, helper: imports::WRITE_U16, narrow: true }),
        MicroOp::Sb { rs1, rs2, imm, pc_offset } => Some(Shape::Store { rs1, rs2, imm, pc_offset, helper: imports::WRITE_U8, narrow: true }),
        MicroOp::Beq { rs1, rs2, imm, pc_offset, insn_len } => Some(Shape::Branch { rs1, rs2, imm, pc_offset, insn_len, test: I64Test::Eq }),
        MicroOp::Bne { rs1, rs2, imm, pc_offset, insn_len } => Some(Shape::Branch { rs1, rs2, imm, pc_offset, insn_len, test: I64Test::Ne }),
        MicroOp::Blt { rs1, rs2, imm, pc_offset, insn_len } => Some(Shape::Branch { rs1, rs2, imm, pc_offset, insn_len, test: I64Test::LtS }),
        MicroOp::Bge { rs1, rs2, imm, pc_offset, insn_len } => Some(Shape::Branch { rs1, rs2, imm, pc_offset, insn_len, test: I64Test::GeS }),
        MicroOp::Bltu { rs1, rs2, imm, pc_offset, insn_len } => Some(Shape::Branch { rs1, rs2, imm, pc_offset, insn_len, test: I64Test::LtU }),
        MicroOp::Bgeu { rs1, rs2, imm, pc_offset, insn_len } => Some(Shape::Branch { rs1, rs2, imm, pc_offset, insn_len, test: I64Test::GeU }),
        MicroOp::Jal { rd, imm, pc_offset, insn_len } => Some(Shape::Jal { rd, imm, pc_offset, insn_len }),
        MicroOp::Jalr { rd, rs1, imm, pc_offset, insn_len } => Some(Shape::Jalr { rd, rs1, imm, pc_offset, insn_len }),
        _ => None,
    }
}

/// What compiling a block gives: a module, or that the block is unsuitable, because it is
/// too short or because an instruction cannot be compiled.
pub open spec fn compiles_to(config: JitConfig, block: Block, result: CompilationResult) -> bool {
    match codegen::block_code(config, block.code(), block.start_pc, block.byte_len) {
        Some(code) if block.len >= config.min_block_size => {
            &&& result matches CompilationResult::Success(bytes)
            &&& bytes@ == wasm::module_bytes(
                if codegen::needs_helpers(block.code()) {
                    encoder::helper_module(codegen::block_locals(), code)
                } else {
                    encoder::simple_module(codegen::block_locals(), code)
                },
            )
            &&& bytes@.len() >= 8
            &&& bytes@.take(8) == encoder::module_header()
        },
        _ => result == CompilationResult::Unsuitable,
    }
}

/// Compiles blocks.
pub struct JitCompiler {
    config: JitConfig,
    /// Whether the block last compiled needs the memory helpers.
    uses_memory_ops: bool,
}

impl JitCompiler {
    /// The settings.
    pub closed spec fn settings(&self) -> JitConfig {
        self.config
    }

    pub fn new(config: JitConfig) -> (compiler: Self)
        ensures
            compiler.settings() == config,
    {
        Self { config, uses_memory_ops: false }
    }

    /// Compiles a block into a module that exports one function.
    pub fn compile(&mut self, block: &Block) -> (result: CompilationResult)
        requires
            block.wf(),
        ensures
            final(self).settings() == old(self).settings(),
            compiles_to(old(self).settings(), *block, result),
    {
        broadcast use {lemma_concat, lemma_concat_empty, lemma_empty_concat};

        self.uses_memory_ops = false;
        if (block.len as usize) < self.config.min_block_size {
            return CompilationResult::Unsuitable;
        }
        let mut builder = WasmModuleBuilder::new();
        let _temp_addr: u32 = builder.add_local(ValType::I64);
        let _temp_val: u32 = builder.add_local(ValType::I64);
        assert(builder.locals() =~= codegen::block_locals());
        let ops: &[MicroOp] = block.ops();
        let mut i: usize = 0;
        assert(!codegen::needs_helpers(ops@.take(0)));
        while i < ops.len()
            invariant
                i <= ops.len(),
                ops@ == block.code(),
                self.config == old(self).config,
                self.uses_memory_ops == codegen::needs_helpers(ops@.take(i as int)),
            decreases ops.len() - i,
        {
            if ops[i].may_trap() {
                self.uses_memory_ops = true;
            }
            proof {
                lemma_needs_helpers_step(ops@, i as int);
            }
            i = i + 1;
        }
        assert(ops@.take(i as int) =~= ops@);
        let mut i: usize = 0;
        while i < ops.len()
            invariant
                i <= ops.len() <= 64,
                ops@ == block.code(),
                block.wf(),
                ops.len() == block.len,
                self.config == old(self).config,
                self.uses_memory_ops == codegen::needs_helpers(block.code()),
                builder.wf(),
                builder.locals() == codegen::block_locals(),
                builder.local_count() == 2,
                builder.code().len() <= i * 80,
                codegen::prefix_code(self.config, ops@, block.start_pc, i as nat) == Some(
                    builder.code(),
                ),
            decreases ops.len() - i,
        {
            broadcast use {lemma_concat, lemma_concat_empty, lemma_empty_concat};

            reveal(emitted);
            reveal(op_emitted);
            let op: MicroOp = ops[i];
            let pc_offset: u16 = match op.pc_offset() {
                Some(place) => place,
                None => i as u16 * 4,
            };
            if self.should_check_interrupts(block, i, &op) {
                Self::emit_interrupt_check(&mut builder, pc_offset);
            }
            if !Self::compile_microop(&mut builder, &op, block.start_pc) {
                proof {
                    lemma_prefix_stops(
                        self.config,
                        ops@,
                        block.start_pc,
                        (i + 1) as nat,
                        ops@.len(),
                    );
                }
                return CompilationResult::Unsuitable;
            }
            i = i + 1;
        }
        reveal(emitted);
        Self::emit_exit_normal(&mut builder, block.byte_len);
        let bytes: Vec<u8> = if self.uses_memory_ops {
            builder.build_with_imports()
        } else {
            builder.build()
        };
        CompilationResult::Success(bytes)
    }

    /// Appends the code of one instruction, or gives `false` where it cannot be
    /// compiled.
    fn compile_microop(builder: &mut WasmModuleBuilder, op: &MicroOp, base_pc: u64) -> (done: bool)
        ensures
            done == codegen::op_code(*op, base_pc) is Some,
            done ==> op_emitted(*old(builder), *final(builder), codegen::op_code(*op, base_pc)->0),
            !done ==> *final(builder) == *old(builder),
    {
        match shape_of(op, base_pc) {
            Some(shape) => {
                Self::emit_shape(builder, shape, base_pc);
                true
            },
            None => false,
        }
    }

    /// Appends the code of one instruction.
    fn emit_shape(builder: &mut WasmModuleBuilder, shape: Shape, base_pc: u64)
        ensures
            op_emitted(*old(builder), *final(builder), shape_code(shape, base_pc)),
    {
        match shape {
            Shape::Imm { rd, rs1, imm, tail } => Self::emit_imm(builder, rd, rs1, imm, tail),
            Shape::Reg { rd, rs1, rs2, tail } => Self::emit_reg(builder, rd, rs1, rs2, tail),
            Shape::Words { rd, rs1, rs2, tail } => Self::emit_words(builder, rd, rs1, rs2, tail),
            Shape::WordShift { rd, rs1, shamt, op } => Self::emit_word_shift(builder, rd, rs1, shamt, op),
            Shape::Division { rd, rs1, rs2, kind } => Self::emit_division(builder, rd, rs1, rs2, kind),
            Shape::DivisionWord { rd, rs1, rs2, kind } => Self::emit_division_word(builder, rd, rs1, rs2, kind),
            Shape::Const { rd, value } => Self::emit_const_to_reg(builder, rd, value),
            Shape::Load { rd, rs1, imm, pc_offset, helper, widen } => Self::emit_load(builder, rd, rs1, imm, pc_offset, helper, widen),
            Shape::Store { rs1, rs2, imm, pc_offset, helper, narrow } => Self::emit_store(builder, rs1, rs2, imm, pc_offset, helper, narrow),
            Shape::Branch { rs1, rs2, imm, pc_offset, insn_len, test } => Self::emit_branch(builder, rs1, rs2, imm, pc_offset, insn_len, test, base_pc),
            Shape::Jal { rd, imm, pc_offset, insn_len } => Self::emit_jal(builder, rd, imm, pc_offset, insn_len, base_pc),
            Shape::Jalr { rd, rs1, imm, pc_offset, insn_len } => Self::emit_jalr(builder, rd, rs1, imm, pc_offset, insn_len, base_pc),
        }
    }

    fn reg_mem(reg: u8) -> (m: MemArg)
        ensures
            m == codegen::reg_mem(reg),
    {
        MemArg {
            offset: JIT_STATE_OFFSET as u64 + offsets::reg(reg) as u64,
            align: 3,
            memory_index: 0,
        }
    }

    /// Pushes the value of a register.
    fn emit_load_reg(builder: &mut WasmModuleBuilder, reg: u8)
        ensures
            emitted(*old(builder), *final(builder), codegen::load_reg(reg)),
    {
        reveal(emitted);
        if reg == 0 {
            builder.emit(Instruction::I64Const(0));
        } else {
            builder.emit(Instruction::I32Const(0));
            builder.emit(Instruction::Memory(Access::I64Load, Self::reg_mem(reg)));
            assert(builder.code() =~= old(builder).code() + codegen::load_reg(reg));
        }
    }

    /// Pops a value into a register.
    fn emit_store_reg(builder: &mut WasmModuleBuilder, rd: u8)
        ensures
            emitted(*old(builder), *final(builder), codegen::store_reg(rd)),
    {
        reveal(emitted);
        if rd == 0 {
            builder.emit(Instruction::Drop);
        } else {
            builder.emit(Instruction::LocalSet(VALUE_LOCAL));
            builder.emit(Instruction::I32Const(0));
            builder.emit(Instruction::LocalGet(VALUE_LOCAL));
            builder.emit(Instruction::Memory(Access::I64Store, Self::reg_mem(rd)));
            assert(builder.code() =~= old(builder).code() + codegen::store_reg(rd));
        }
    }

    fn emit_tail(builder: &mut WasmModuleBuilder, tail: Tail)
        ensures
            emitted(*old(builder), *final(builder), tail_code(tail)),
    {
        reveal(emitted);
        let ghost code = tail_code(tail);
        match tail {
            Tail::Arith(op) => {
                builder.emit(Instruction::I64(op));
            },
            Tail::ArithCut(op) => {
                builder.emit(Instruction::I64(op));
                builder.emit(Instruction::Convert(Convert::I32WrapI64));
                builder.emit(Instruction::Convert(Convert::I64ExtendI32S));
            },
            Tail::Test(op) => {
                builder.emit(Instruction::Test(op));
                builder.emit(Instruction::Convert(Convert::I64ExtendI32U));
            },
            Tail::Shift(op) => {
                builder.emit(Instruction::I64Const(0x3f));
                builder.emit(Instruction::I64(I64Op::And));
                builder.emit(Instruction::I64(op));
            },
        }
        assert(builder.code() =~= old(builder).code() + code);
    }

    fn emit_word_tail(builder: &mut WasmModuleBuilder, tail: WordTail)
        ensures
            emitted(*old(builder), *final(builder), word_tail_code(tail)),
    {
        reveal(emitted);
        let ghost code = word_tail_code(tail);
        match tail {
            WordTail::Arith(op) => {
                builder.emit(Instruction::I32(op));
            },
            WordTail::Shift(op) => {
                builder.emit(Instruction::I32Const(0x1f));
                builder.emit(Instruction::I32(I32Op::And));
                builder.emit(Instruction::I32(op));
            },
        }
        builder.emit(Instruction::Convert(Convert::I64ExtendI32S));
        assert(builder.code() =~= old(builder).code() + code);
    }

    /// An operation on a register and a constant.
    fn emit_imm(builder: &mut WasmModuleBuilder, rd: u8, rs1: u8, imm: i64, tail: Tail)
        ensures
            op_emitted(
                *old(builder),
                *final(builder),
                codegen::to_reg(rd, codegen::with_imm(rs1, imm, tail_code(tail))),
            ),
    {
        broadcast use {lemma_concat, lemma_concat_empty};

        reveal(op_emitted);
        reveal(emitted);
        reveal(codegen::to_reg);
        reveal(codegen::with_imm);
        if rd == 0 {
            return ;
        }
        Self::emit_load_reg(builder, rs1);
        builder.emit(Instruction::I64Const(imm));
        Self::emit_tail(builder, tail);
        Self::emit_store_reg(builder, rd);
    }

    /// An operation on two registers.
    fn emit_reg(builder: &mut WasmModuleBuilder, rd: u8, rs1: u8, rs2: u8, tail: Tail)
        ensures
            op_emitted(
                *old(builder),
                *final(builder),
                codegen::to_reg(rd, codegen::with_reg(rs1, rs2, tail_code(tail))),
            ),
    {
        broadcast use {lemma_concat, lemma_concat_empty};

        reveal(op_emitted);
        reveal(emitted);
        reveal(codegen::to_reg);
        reveal(codegen::with_reg);
        if rd == 0 {
            return ;
        }
        Self::emit_load_reg(builder, rs1);
        Self::emit_load_reg(builder, rs2);
        Self::emit_tail(builder, tail);
        Self::emit_store_reg(builder, rd);
    }

    /// Pushes the low words of two registers.
    fn emit_load_words(builder: &mut WasmModuleBuilder, rs1: u8, rs2: u8)
        ensures
            final(builder).code().len() <= old(builder).code().len() + 6,
            emitted(
                *old(builder),
                *final(builder),
                codegen::load_reg(rs1) + (codegen::wrap() + (codegen::load_reg(rs2)
                    + codegen::wrap())),
            ),
    {
        broadcast use lemma_concat;

        reveal(emitted);
        Self::emit_load_reg(builder, rs1);
        builder.emit(Instruction::Convert(Convert::I32WrapI64));
        Self::emit_load_reg(builder, rs2);
        builder.emit(Instruction::Convert(Convert::I32WrapI64));
    }

    /// An operation on the low words of two registers.
    fn emit_words(builder: &mut WasmModuleBuilder, rd: u8, rs1: u8, rs2: u8, tail: WordTail)
        ensures
            op_emitted(
                *old(builder),
                *final(builder),
                codegen::to_reg(rd, codegen::with_words(rs1, rs2, word_tail_code(tail))),
            ),
    {
        broadcast use {lemma_concat, lemma_concat_empty};

        reveal(op_emitted);
        reveal(emitted);
        reveal(codegen::to_reg);
        reveal(codegen::with_words);
        if rd == 0 {
            return ;
        }
        Self::emit_load_words(builder, rs1, rs2);
        Self::emit_word_tail(builder, tail);
        Self::emit_store_reg(builder, rd);
    }

    /// A shift of the low word of a register by a constant.
    fn emit_word_shift(builder: &mut WasmModuleBuilder, rd: u8, rs1: u8, shamt: u8, op: I32Op)
        ensures
            op_emitted(
                *old(builder),
                *final(builder),
                codegen::to_reg(rd, codegen::word_shift(rs1, shamt, op)),
            ),
    {
        broadcast use {lemma_concat, lemma_concat_empty};

        reveal(op_emitted);
        reveal(emitted);
        reveal(codegen::to_reg);
        reveal(codegen::word_shift);
        if rd == 0 {
            return ;
        }
        Self::emit_load_reg(builder, rs1);
        let ghost loaded = builder.code();
        builder.emit(Instruction::Convert(Convert::I32WrapI64));
        builder.emit(Instruction::I32Const(shamt as i32));
        builder.emit(Instruction::I32(op));
        builder.emit(Instruction::Convert(Convert::I64ExtendI32S));
        assert(builder.code() =~= loaded + seq![
            Instruction::Convert(Convert::I32WrapI64),
            Instruction::I32Const(shamt as i32),
            Instruction::I32(op),
            Instruction::Convert(Convert::I64ExtendI32S),
        ]);
        Self::emit_store_reg(builder, rd);
    }

    /// Tests whether a register is zero.
    fn emit_is_zero(builder: &mut WasmModuleBuilder, reg: u8)
        ensures
            final(builder).code().len() <= old(builder).code().len() + 4,
            emitted(*old(builder), *final(builder), codegen::is_zero(reg)),
    {
        broadcast use lemma_concat;

        reveal(emitted);
        Self::emit_load_reg(builder, reg);
        builder.emit(Instruction::Test(I64Test::Eqz));
    }

    /// Tests whether the low word of a register is zero.
    fn emit_is_zero_word(builder: &mut WasmModuleBuilder, reg: u8)
        ensures
            final(builder).code().len() <= old(builder).code().len() + 5,
            emitted(*old(builder), *final(builder), codegen::is_zero_word(reg)),
    {
        broadcast use lemma_concat;

        reveal(emitted);
        Self::emit_load_reg(builder, reg);
        let ghost loaded = builder.code();
        builder.emit(Instruction::Convert(Convert::I32WrapI64));
        builder.emit(Instruction::I32(I32Op::Eqz));
        assert(builder.code() =~= loaded + seq![
            Instruction::Convert(Convert::I32WrapI64),
            Instruction::I32(I32Op::Eqz),
        ]);
    }

    /// Tests whether the value on the stack is `value`.
    fn emit_equals(builder: &mut WasmModuleBuilder, value: i64)
        ensures
            emitted(*old(builder), *final(builder), codegen::equals(value)),
    {
        reveal(emitted);
        builder.emit(Instruction::I64Const(value));
        builder.emit(Instruction::Test(I64Test::Eq));
        assert(builder.code() =~= old(builder).code() + codegen::equals(value));
    }

    /// Tests whether the low word of the value on the stack is `value`.
    fn emit_equals_word(builder: &mut WasmModuleBuilder, value: i32)
        ensures
            emitted(*old(builder), *final(builder), codegen::equals_word(value)),
    {
        reveal(emitted);
        builder.emit(Instruction::Convert(Convert::I32WrapI64));
        builder.emit(Instruction::I32Const(value));
        builder.emit(Instruction::I32(I32Op::Eq));
        assert(builder.code() =~= old(builder).code() + codegen::equals_word(value));
    }

    /// Tests whether a division would overflow.
    fn emit_overflows(builder: &mut WasmModuleBuilder, rs1: u8, rs2: u8)
        ensures
            final(builder).code().len() <= old(builder).code().len() + 12,
            emitted(*old(builder), *final(builder), codegen::overflows(rs1, rs2)),
    {
        broadcast use lemma_concat;

        reveal(emitted);
        Self::emit_load_reg(builder, rs1);
        Self::emit_equals(builder, i64::MIN);
        Self::emit_load_reg(builder, rs2);
        Self::emit_equals(builder, -1);
        builder.emit(Instruction::I32(I32Op::And));
    }

    /// Tests whether a 32-bit division would overflow.
    fn emit_overflows_word(builder: &mut WasmModuleBuilder, rs1: u8, rs2: u8)
        ensures
            final(builder).code().len() <= old(builder).code().len() + 12,
            emitted(*old(builder), *final(builder), codegen::overflows_word(rs1, rs2)),
    {
        broadcast use lemma_concat;

        reveal(emitted);
        Self::emit_load_reg(builder, rs1);
        Self::emit_equals_word(builder, i32::MIN);
        Self::emit_load_reg(builder, rs2);
        Self::emit_equals_word(builder, -1);
        builder.emit(Instruction::I32(I32Op::And));
    }

    /// A signed division or remainder whose divisor is not zero: `on_overflow` is the
    /// result where it would overflow.
    fn emit_checked(
        builder: &mut WasmModuleBuilder,
        rs1: u8,
        rs2: u8,
        on_overflow: i64,
        op: I64Op,
    )
        ensures
            final(builder).code().len() <= old(builder).code().len() + 40,
            emitted(
                *old(builder),
                *final(builder),
                codegen::choose_i64(
                    codegen::overflows(rs1, rs2),
                    codegen::const64(on_overflow),
                    codegen::with_reg(rs1, rs2, codegen::arith(op)),
                ),
            ),
    {
        broadcast use lemma_concat;

        reveal(emitted);
        reveal(codegen::choose_i64);
        Self::emit_overflows(builder, rs1, rs2);
        builder.emit(Instruction::If(BlockType::Result(ValType::I64)));
        builder.emit(Instruction::I64Const(on_overflow));
        builder.emit(Instruction::Else);
        Self::emit_operation(builder, rs1, rs2, op);
        builder.emit(Instruction::End);
    }

    /// An operation on two registers that leaves its result on the stack.
    fn emit_operation(builder: &mut WasmModuleBuilder, rs1: u8, rs2: u8, op: I64Op)
        ensures
            final(builder).code().len() <= old(builder).code().len() + 8,
            emitted(
                *old(builder),
                *final(builder),
                codegen::with_reg(rs1, rs2, codegen::arith(op)),
            ),
    {
        broadcast use lemma_concat;

        reveal(emitted);
        reveal(codegen::with_reg);
        Self::emit_load_reg(builder, rs1);
        Self::emit_load_reg(builder, rs2);
        builder.emit(Instruction::I64(op));
    }

    /// A division or remainder of two registers that leaves its result on the stack,
    /// with the results that RISC-V gives for a zero divisor and for an overflow.
    fn emit_division_value(builder: &mut WasmModuleBuilder, rs1: u8, rs2: u8, kind: Division)
        ensures
            final(builder).code().len() <= old(builder).code().len() + 60,
            emitted(*old(builder), *final(builder), division_code(kind, rs1, rs2)),
    {
        broadcast use lemma_concat;

        reveal(emitted);
        reveal(codegen::choose_i64);
        Self::emit_is_zero(builder, rs2);
        builder.emit(Instruction::If(BlockType::Result(ValType::I64)));
        match kind {
            Division::Div => {
                builder.emit(Instruction::I64Const(-1));
                builder.emit(Instruction::Else);
                Self::emit_checked(builder, rs1, rs2, i64::MIN, I64Op::DivS);
            },
            Division::Divu => {
                builder.emit(Instruction::I64Const(-1));
                builder.emit(Instruction::Else);
                Self::emit_operation(builder, rs1, rs2, I64Op::DivU);
            },
            Division::Rem => {
                Self::emit_load_reg(builder, rs1);
                builder.emit(Instruction::Else);
                Self::emit_checked(builder, rs1, rs2, 0, I64Op::RemS);
            },
            Division::Remu => {
                Self::emit_load_reg(builder, rs1);
                builder.emit(Instruction::Else);
                Self::emit_operation(builder, rs1, rs2, I64Op::RemU);
            },
        }
        builder.emit(Instruction::End);
    }

    /// A division or remainder of two registers.
    fn emit_division(builder: &mut WasmModuleBuilder, rd: u8, rs1: u8, rs2: u8, kind: Division)
        ensures
            op_emitted(
                *old(builder),
                *final(builder),
                codegen::to_reg(rd, division_code(kind, rs1, rs2)),
            ),
    {
        broadcast use {lemma_concat, lemma_concat_empty};

        reveal(op_emitted);
        reveal(emitted);
        reveal(codegen::to_reg);
        if rd == 0 {
            return ;
        }
        Self::emit_division_value(builder, rs1, rs2, kind);
        Self::emit_store_reg(builder, rd);
    }

    /// Pushes the low word of a register, widened again.
    fn emit_cut_word(builder: &mut WasmModuleBuilder, reg: u8)
        ensures
            final(builder).code().len() <= old(builder).code().len() + 4,
            emitted(*old(builder), *final(builder), codegen::cut_word(reg)),
    {
        broadcast use lemma_concat;

        reveal(emitted);
        Self::emit_load_reg(builder, reg);
        let ghost loaded = builder.code();
        builder.emit(Instruction::Convert(Convert::I32WrapI64));
        builder.emit(Instruction::Convert(Convert::I64ExtendI32S));
        assert(builder.code() =~= loaded + seq![
            Instruction::Convert(Convert::I32WrapI64),
            Instruction::Convert(Convert::I64ExtendI32S),
        ]);
    }

    /// A signed 32-bit division or remainder whose divisor is not zero: `on_overflow` is the
    /// result where it would overflow.
    fn emit_checked_word(
        builder: &mut WasmModuleBuilder,
        rs1: u8,
        rs2: u8,
        on_overflow: i64,
        op: I32Op,
    )
        ensures
            final(builder).code().len() <= old(builder).code().len() + 40,
            emitted(
                *old(builder),
                *final(builder),
                codegen::choose_i64(
                    codegen::overflows_word(rs1, rs2),
                    codegen::const64(on_overflow),
                    codegen::with_words(rs1, rs2, codegen::arith_word(op)),
                ),
            ),
    {
        broadcast use lemma_concat;

        reveal(emitted);
        reveal(codegen::choose_i64);
        Self::emit_overflows_word(builder, rs1, rs2);
        builder.emit(Instruction::If(BlockType::Result(ValType::I64)));
        builder.emit(Instruction::I64Const(on_overflow));
        builder.emit(Instruction::Else);
        Self::emit_operation_word(builder, rs1, rs2, op);
        builder.emit(Instruction::End);
    }

    /// An operation on the low words of two registers that leaves its result on the stack.
    fn emit_operation_word(builder: &mut WasmModuleBuilder, rs1: u8, rs2: u8, op: I32Op)
        ensures
            final(builder).code().len() <= old(builder).code().len() + 8,
            emitted(
                *old(builder),
                *final(builder),
                codegen::with_words(rs1, rs2, codegen::arith_word(op)),
            ),
    {
        broadcast use lemma_concat;

        reveal(emitted);
        reveal(codegen::with_words);
        Self::emit_load_words(builder, rs1, rs2);
        Self::emit_word_tail(builder, WordTail::Arith(op));
    }

    /// A division or remainder of the low words of two registers that leaves its result on the stack,
    /// with the results that RISC-V gives for a zero divisor and for an overflow.
    fn emit_division_word_value(builder: &mut WasmModuleBuilder, rs1: u8, rs2: u8, kind: Division)
        ensures
            final(builder).code().len() <= old(builder).code().len() + 60,
            emitted(*old(builder), *final(builder), division_word_code(kind, rs1, rs2)),
    {
        broadcast use lemma_concat;

        reveal(emitted);
        reveal(codegen::choose_i64);
        Self::emit_is_zero_word(builder, rs2);
        builder.emit(Instruction::If(BlockType::Result(ValType::I64)));
        match kind {
            Division::Div => {
                builder.emit(Instruction::I64Const(-1));
                builder.emit(Instruction::Else);
                Self::emit_checked_word(builder, rs1, rs2, i32::MIN as i64, I32Op::DivS);
            },
            Division::Divu => {
                builder.emit(Instruction::I64Const(-1));
                builder.emit(Instruction::Else);
                Self::emit_operation_word(builder, rs1, rs2, I32Op::DivU);
            },
            Division::Rem => {
                Self::emit_cut_word(builder, rs1);
                builder.emit(Instruction::Else);
                Self::emit_checked_word(builder, rs1, rs2, 0, I32Op::RemS);
            },
            Division::Remu => {
                Self::emit_cut_word(builder, rs1);
                builder.emit(Instruction::Else);
                Self::emit_operation_word(builder, rs1, rs2, I32Op::RemU);
            },
        }
        builder.emit(Instruction::End);
    }

    /// A division or remainder of the low words of two registers.
    fn emit_division_word(builder: &mut WasmModuleBuilder, rd: u8, rs1: u8, rs2: u8, kind: Division)
        ensures
            op_emitted(
                *old(builder),
                *final(builder),
                codegen::to_reg(rd, division_word_code(kind, rs1, rs2)),
            ),
    {
        broadcast use {lemma_concat, lemma_concat_empty};

        reveal(op_emitted);
        reveal(emitted);
        reveal(codegen::to_reg);
        if rd == 0 {
            return ;
        }
        Self::emit_division_word_value(builder, rs1, rs2, kind);
        Self::emit_store_reg(builder, rd);
    }

    /// A constant straight into a register.
    fn emit_const_to_reg(builder: &mut WasmModuleBuilder, rd: u8, value: i64)
        ensures
            op_emitted(*old(builder), *final(builder), codegen::const_to_reg(rd, value)),
    {
        broadcast use lemma_concat_empty;

        reveal(op_emitted);
        reveal(emitted);
        reveal(codegen::const_to_reg);
        if rd == 0 {
            return ;
        }
        builder.emit(Instruction::I32Const(0));
        builder.emit(Instruction::I64Const(value));
        builder.emit(Instruction::Memory(Access::I64Store, Self::reg_mem(rd)));
        assert(builder.code() =~= old(builder).code() + codegen::const_to_reg(rd, value));
    }

    /// Pushes the address of a memory access.
    fn emit_address(builder: &mut WasmModuleBuilder, rs1: u8, imm: i64)
        ensures
            emitted(*old(builder), *final(builder), codegen::address(rs1, imm)),
    {
        broadcast use lemma_concat;

        reveal(emitted);
        reveal(codegen::with_imm);
        Self::emit_load_reg(builder, rs1);
        builder.emit(Instruction::I64Const(imm));
        builder.emit(Instruction::I64(I64Op::Add));
    }

    fn emit_widen(builder: &mut WasmModuleBuilder, widen: &Widen)
        ensures
            emitted(*old(builder), *final(builder), widen_code(*widen)),
    {
        broadcast use lemma_concat_empty;

        reveal(emitted);
        match widen {
            Widen::Not => {},
            Widen::Signed => builder.emit(Instruction::Convert(Convert::I64ExtendI32S)),
            Widen::Unsigned => builder.emit(Instruction::Convert(Convert::I64ExtendI32U)),
            Widen::FromBits(shift) => {
                builder.emit(Instruction::I32Const(*shift));
                builder.emit(Instruction::I32(I32Op::Shl));
                builder.emit(Instruction::I32Const(*shift));
                builder.emit(Instruction::I32(I32Op::ShrS));
                builder.emit(Instruction::Convert(Convert::I64ExtendI32S));
                assert(builder.code() =~= old(builder).code() + codegen::sign_extend(*shift));
            },
        }
    }

    /// A load through a helper.
    fn emit_load(
        builder: &mut WasmModuleBuilder,
        rd: u8,
        rs1: u8,
        imm: i64,
        pc_offset: u16,
        helper: u32,
        widen: Widen,
    )
        ensures
            op_emitted(
                *old(builder),
                *final(builder),
                codegen::load_code(rd, rs1, imm, pc_offset, helper, widen_code(widen)),
            ),
    {
        broadcast use {lemma_concat, lemma_concat_empty};

        reveal(codegen::with_imm);
        reveal(op_emitted);
        reveal(emitted);
        reveal(codegen::load_code);
        if rd == 0 {
            return ;
        }
        Self::emit_address(builder, rs1, imm);
        builder.emit(Instruction::Call(helper));
        Self::emit_widen(builder, &widen);
        Self::emit_store_reg(builder, rd);
        Self::emit_trap_check(builder, pc_offset);
    }

    /// A store through a helper. A narrow one gets the low word.
    fn emit_store(
        builder: &mut WasmModuleBuilder,
        rs1: u8,
        rs2: u8,
        imm: i64,
        pc_offset: u16,
        helper: u32,
        narrow: bool,
    )
        ensures
            op_emitted(
                *old(builder),
                *final(builder),
                codegen::store_code(rs1, rs2, imm, pc_offset, helper, narrow_code(narrow)),
            ),
    {
        broadcast use {lemma_concat, lemma_empty_concat};

        reveal(codegen::with_imm);
        reveal(op_emitted);
        reveal(emitted);
        reveal(codegen::store_code);
        Self::emit_address(builder, rs1, imm);
        Self::emit_load_reg(builder, rs2);
        if narrow {
            builder.emit(Instruction::Convert(Convert::I32WrapI64));
        }
        builder.emit(Instruction::Call(helper));
        Self::emit_exit_if(builder, exit_codes::EXIT_TRAP, pc_offset as u32);
    }

    /// A conditional branch.
    fn emit_branch(
        builder: &mut WasmModuleBuilder,
        rs1: u8,
        rs2: u8,
        imm: i64,
        pc_offset: u16,
        insn_len: u8,
        test: I64Test,
        base_pc: u64,
    )
        ensures
            op_emitted(
                *old(builder),
                *final(builder),
                codegen::branch_code(rs1, rs2, imm, pc_offset, insn_len, test, base_pc),
            ),
    {
        broadcast use lemma_concat;

        reveal(op_emitted);
        reveal(emitted);
        reveal(codegen::branch_code);
        reveal(codegen::with_reg);
        Self::emit_load_reg(builder, rs1);
        Self::emit_load_reg(builder, rs2);
        Self::emit_branch_result(builder, test, pc_offset, imm, insn_len, base_pc);
        Self::emit_exit_branch(builder);
    }

    /// Compares, and keeps the target of a branch where the test holds, and else the address
    /// of the next instruction.
    fn emit_branch_result(
        builder: &mut WasmModuleBuilder,
        test: I64Test,
        pc_offset: u16,
        imm: i64,
        insn_len: u8,
        base_pc: u64,
    )
        ensures
            emitted(
                *old(builder),
                *final(builder),
                codegen::branch_target(
                    test,
                    codegen::address_from(base_pc, pc_offset, imm),
                    codegen::link(base_pc, pc_offset, insn_len),
                ),
            ),
    {
        reveal(emitted);
        let there: i64 = Self::address_from(base_pc, pc_offset, imm);
        let next: i64 = Self::address_from(base_pc, pc_offset, insn_len as i64);
        builder.emit(Instruction::Test(test));
        builder.emit(Instruction::If(BlockType::Result(ValType::I64)));
        builder.emit(Instruction::I64Const(there));
        builder.emit(Instruction::Else);
        builder.emit(Instruction::I64Const(next));
        builder.emit(Instruction::End);
        builder.emit(Instruction::LocalSet(TARGET_LOCAL));
        assert(builder.code() =~= old(builder).code() + codegen::branch_target(test, there, next));
    }

    /// The address that lies `distance` from the instruction at `pc_offset`.
    fn address_from(base_pc: u64, pc_offset: u16, distance: i64) -> (address: i64)
        ensures
            address == codegen::address_from(base_pc, pc_offset, distance),
    {
        (base_pc as i64).wrapping_add(pc_offset as i64).wrapping_add(distance)
    }

    /// Leaves the address of the next instruction in a register.
    fn emit_link(
        builder: &mut WasmModuleBuilder,
        rd: u8,
        pc_offset: u16,
        insn_len: u8,
        base_pc: u64,
    )
        ensures
            emitted(
                *old(builder),
                *final(builder),
                codegen::to_reg(rd, codegen::const64(codegen::link(base_pc, pc_offset, insn_len))),
            ),
    {
        broadcast use {lemma_concat, lemma_concat_empty};

        reveal(emitted);
        reveal(codegen::to_reg);
        if rd != 0 {
            let link: i64 = Self::address_from(base_pc, pc_offset, insn_len as i64);
            builder.emit(Instruction::I64Const(link));
            Self::emit_store_reg(builder, rd);
        }
    }

    /// A jump to a place relative to the block.
    fn emit_jal(
        builder: &mut WasmModuleBuilder,
        rd: u8,
        imm: i64,
        pc_offset: u16,
        insn_len: u8,
        base_pc: u64,
    )
        ensures
            op_emitted(
                *old(builder),
                *final(builder),
                codegen::jal_code(rd, imm, pc_offset, insn_len, base_pc),
            ),
    {
        broadcast use lemma_concat;

        reveal(codegen::to_reg);
        reveal(op_emitted);
        reveal(emitted);
        reveal(codegen::jal_code);
        Self::emit_link(builder, rd, pc_offset, insn_len, base_pc);
        Self::emit_jal_target(builder, pc_offset, imm, base_pc);
        Self::emit_exit_branch(builder);
    }

    /// Keeps the address of a jump as the target.
    fn emit_jal_target(builder: &mut WasmModuleBuilder, pc_offset: u16, imm: i64, base_pc: u64)
        ensures
            emitted(
                *old(builder),
                *final(builder),
                codegen::jal_target(codegen::address_from(base_pc, pc_offset, imm)),
            ),
    {
        reveal(emitted);
        let there: i64 = Self::address_from(base_pc, pc_offset, imm);
        builder.emit(Instruction::I64Const(there));
        builder.emit(Instruction::LocalSet(TARGET_LOCAL));
        assert(builder.code() =~= old(builder).code() + codegen::jal_target(there));
    }

    /// A jump to an address in a register.
    fn emit_jalr(
        builder: &mut WasmModuleBuilder,
        rd: u8,
        rs1: u8,
        imm: i64,
        pc_offset: u16,
        insn_len: u8,
        base_pc: u64,
    )
        ensures
            op_emitted(
                *old(builder),
                *final(builder),
                codegen::jalr_code(rd, rs1, imm, pc_offset, insn_len, base_pc),
            ),
    {
        broadcast use lemma_concat;

        reveal(codegen::to_reg);
        reveal(op_emitted);
        reveal(emitted);
        reveal(codegen::jalr_code);
        reveal(codegen::with_imm);
        Self::emit_load_reg(builder, rs1);
        builder.emit(Instruction::I64Const(imm));
        Self::emit_jalr_target(builder);
        Self::emit_link(builder, rd, pc_offset, insn_len, base_pc);
        Self::emit_exit_branch(builder);
    }

    /// Adds the two operands, clears the lowest bit, and keeps the result as the target.
    fn emit_jalr_target(builder: &mut WasmModuleBuilder)
        ensures
            emitted(*old(builder), *final(builder), codegen::jalr_target()),
    {
        reveal(emitted);
        builder.emit(Instruction::I64(I64Op::Add));
        builder.emit(Instruction::I64Const(-2));
        builder.emit(Instruction::I64(I64Op::And));
        builder.emit(Instruction::LocalSet(TARGET_LOCAL));
        assert(builder.code() =~= old(builder).code() + codegen::jalr_target());
    }

    fn exit_value(code: u32, low: u32) -> (v: i64)
        requires
            code <= exit_codes::EXIT_BRANCH,
        ensures
            v == codegen::exit_value(code, low),
    {
        code as i64 * 0x1_0000_0000 + low as i64
    }

    fn emit_exit(builder: &mut WasmModuleBuilder, code: u32, low: u32)
        requires
            code <= exit_codes::EXIT_BRANCH,
        ensures
            emitted(*old(builder), *final(builder), codegen::exit(code, low)),
    {
        reveal(emitted);
        builder.emit(Instruction::I64Const(Self::exit_value(code, low)));
        builder.emit(Instruction::Return);
        assert(builder.code() =~= old(builder).code() + codegen::exit(code, low));
    }

    fn emit_exit_if(builder: &mut WasmModuleBuilder, code: u32, low: u32)
        requires
            code <= exit_codes::EXIT_BRANCH,
        ensures
            emitted(*old(builder), *final(builder), codegen::exit_if(code, low)),
    {
        reveal(emitted);
        builder.emit(Instruction::If(BlockType::Empty));
        Self::emit_exit(builder, code, low);
        builder.emit(Instruction::End);
        assert(builder.code() =~= old(builder).code() + codegen::exit_if(code, low));
    }

    /// Returns where a helper left a trap.
    fn emit_trap_check(builder: &mut WasmModuleBuilder, pc_offset: u16)
        ensures
            emitted(*old(builder), *final(builder), codegen::trap_check(pc_offset)),
    {
        reveal(emitted);
        builder.emit(Instruction::I32Const(0));
        builder.emit(
            Instruction::Memory(
                Access::I32Load,
                MemArg {
                    offset: JIT_STATE_OFFSET as u64 + offsets::TRAP_PENDING as u64,
                    align: 2,
                    memory_index: 0,
                },
            ),
        );
        Self::emit_exit_if(builder, exit_codes::EXIT_TRAP, pc_offset as u32);
        assert(builder.code() =~= old(builder).code() + codegen::trap_check(pc_offset));
    }

    /// Leaves the exit value of the end of the block on the stack.
    fn emit_exit_normal(builder: &mut WasmModuleBuilder, total_bytes: u16)
        ensures
            emitted(
                *old(builder),
                *final(builder),
                codegen::const64(
                    codegen::exit_value(exit_codes::EXIT_NORMAL, total_bytes as u32),
                ),
            ),
    {
        reveal(emitted);
        builder.emit(
            Instruction::I64Const(Self::exit_value(exit_codes::EXIT_NORMAL, total_bytes as u32)),
        );
    }

    /// Tells the target as the program counter, and returns its low word.
    fn emit_exit_branch(builder: &mut WasmModuleBuilder)
        ensures
            emitted(*old(builder), *final(builder), codegen::exit_branch()),
    {
        reveal(emitted);
        builder.emit(Instruction::I32Const(0));
        builder.emit(Instruction::LocalGet(TARGET_LOCAL));
        builder.emit(
            Instruction::Memory(
                Access::I64Store,
                MemArg {
                    offset: JIT_STATE_OFFSET as u64 + offsets::PC as u64,
                    align: 3,
                    memory_index: 0,
                },
            ),
        );
        builder.emit(Instruction::LocalGet(TARGET_LOCAL));
        builder.emit(Instruction::Convert(Convert::I32WrapI64));
        builder.emit(Instruction::Convert(Convert::I64ExtendI32U));
        builder.emit(Instruction::I64Const(Self::exit_value(exit_codes::EXIT_BRANCH, 0)));
        builder.emit(Instruction::I64(I64Op::Or));
        builder.emit(Instruction::Return);
        assert(builder.code() =~= old(builder).code() + codegen::exit_branch());
    }

    /// Returns where an interrupt is waiting.
    fn emit_interrupt_check(builder: &mut WasmModuleBuilder, pc_offset: u16)
        ensures
            emitted(*old(builder), *final(builder), codegen::interrupt_check(pc_offset)),
            codegen::interrupt_check(pc_offset).len() <= 10,
    {
        reveal(emitted);
        builder.emit(Instruction::I32Const(JIT_STATE_OFFSET as i32));
        builder.emit(
            Instruction::Memory(
                Access::I32Load,
                MemArg { offset: offsets::INTERRUPT_PENDING as u64, align: 2, memory_index: 0 },
            ),
        );
        Self::emit_exit_if(builder, exit_codes::EXIT_INTERRUPT_CHECK, pc_offset as u32);
        assert(builder.code() =~= old(builder).code() + codegen::interrupt_check(pc_offset));
    }

    /// Whether a check for interrupts comes before the instruction at `op_index`.
    fn should_check_interrupts(&self, block: &Block, op_index: usize, op: &MicroOp) -> (b: bool)
        ensures
            b == codegen::checks_interrupts(
                self.settings(),
                block.len as nat,
                op_index as int,
                *op,
            ),
    {
        let len: usize = block.len as usize;
        if op_index == 0 && self.config.interrupt_check_on_entry && len
            >= self.config.interrupt_check_block_threshold {
            return true;
        }
        if self.config.interrupt_check_interval > 0 && op_index > 0 && op_index
            % self.config.interrupt_check_interval == 0 && len
            >= self.config.interrupt_check_block_threshold.wrapping_mul(2) {
            return true;
        }
        is_backward_branch(op)
    }

    /// Appends the common part of the loads with a fast path, up to the access.
    fn emit_tlb_hit(
        builder: &mut WasmModuleBuilder,
        vaddr_local: u32,
        vpn_local: u32,
        tlb_idx_local: u32,
        entry_ptr_local: u32,
    )
        ensures
            emitted(
                *old(builder),
                *final(builder),
                seq![
                    Instruction::Block(BlockType::Empty),
                    Instruction::Block(BlockType::Empty),
                ] + (codegen::tlb_lookup(vaddr_local, vpn_local, tlb_idx_local, entry_ptr_local)
                    + codegen::tlb_place(vaddr_local, entry_ptr_local)),
            ),
    {
        broadcast use lemma_concat;

        reveal(emitted);
        builder.emit(Instruction::Block(BlockType::Empty));
        builder.emit(Instruction::Block(BlockType::Empty));
        assert(builder.code() =~= old(builder).code() + seq![
            Instruction::Block(BlockType::Empty),
            Instruction::Block(BlockType::Empty),
        ]);
        Self::emit_tlb_lookup(builder, vaddr_local, vpn_local, tlb_idx_local, entry_ptr_local);
        Self::emit_tlb_place(builder, vaddr_local, entry_ptr_local);
    }

    /// Finds the entry of an address, and leaves for the slow path where it does not
    /// hold the translation.
    fn emit_tlb_lookup(
        builder: &mut WasmModuleBuilder,
        vaddr_local: u32,
        vpn_local: u32,
        tlb_idx_local: u32,
        entry_ptr_local: u32,
    )
        ensures
            emitted(
                *old(builder),
                *final(builder),
                codegen::tlb_lookup(vaddr_local, vpn_local, tlb_idx_local, entry_ptr_local),
            ),
    {
        reveal(emitted);
        builder.emit(Instruction::LocalGet(vaddr_local));
        builder.emit(Instruction::I64Const(12));
        builder.emit(Instruction::I64(I64Op::ShrU));
        builder.emit(Instruction::LocalTee(vpn_local));
        builder.emit(Instruction::I64Const(TLB_MASK as i64));
        builder.emit(Instruction::I64(I64Op::And));
        builder.emit(Instruction::Convert(Convert::I32WrapI64));
        builder.emit(Instruction::LocalSet(tlb_idx_local));
        builder.emit(Instruction::LocalGet(tlb_idx_local));
        builder.emit(Instruction::I32Const(TLB_ENTRY_SIZE as i32));
        builder.emit(Instruction::I32(I32Op::Mul));
        builder.emit(Instruction::I32Const((JIT_STATE_OFFSET + TLB_REGION_OFFSET) as i32));
        builder.emit(Instruction::I32(I32Op::Add));
        builder.emit(Instruction::LocalTee(entry_ptr_local));
        builder.emit(
            Instruction::Memory(
                Access::I32Load8U,
                MemArg { offset: tlb_entry::VALID as u64, align: 0, memory_index: 0 },
            ),
        );
        builder.emit(Instruction::I32(I32Op::Eqz));
        builder.emit(Instruction::BrIf(0));
        builder.emit(Instruction::LocalGet(entry_ptr_local));
        builder.emit(
            Instruction::Memory(
                Access::I64Load,
                MemArg { offset: tlb_entry::VPN as u64, align: 3, memory_index: 0 },
            ),
        );
        builder.emit(Instruction::LocalGet(vpn_local));
        builder.emit(Instruction::Test(I64Test::Ne));
        builder.emit(Instruction::BrIf(0));
        assert(builder.code() =~= old(builder).code() + codegen::tlb_lookup(
            vaddr_local,
            vpn_local,
            tlb_idx_local,
            entry_ptr_local,
        ));
    }

    /// Pushes the place of an address in the shared memory, but for the header.
    fn emit_tlb_place(builder: &mut WasmModuleBuilder, vaddr_local: u32, entry_ptr_local: u32)
        ensures
            emitted(
                *old(builder),
                *final(builder),
                codegen::tlb_place(vaddr_local, entry_ptr_local),
            ),
    {
        reveal(emitted);
        builder.emit(Instruction::LocalGet(entry_ptr_local));
        builder.emit(
            Instruction::Memory(
                Access::I64Load,
                MemArg { offset: tlb_entry::PPN as u64, align: 3, memory_index: 0 },
            ),
        );
        builder.emit(Instruction::I64Const(12));
        builder.emit(Instruction::I64(I64Op::Shl));
        builder.emit(Instruction::LocalGet(vaddr_local));
        builder.emit(Instruction::I64Const(0xfff));
        builder.emit(Instruction::I64(I64Op::And));
        builder.emit(Instruction::I64(I64Op::Or));
        builder.emit(Instruction::I64Const(DRAM_BASE as i64));
        builder.emit(Instruction::I64(I64Op::Sub));
        builder.emit(Instruction::Convert(Convert::I32WrapI64));
        assert(builder.code() =~= old(builder).code() + codegen::tlb_place(
            vaddr_local,
            entry_ptr_local,
        ));
    }

    /// Skips the slow path, and opens it with the call of the helper.
    fn emit_slow_path(builder: &mut WasmModuleBuilder, vaddr_local: u32, helper: u32)
        ensures
            emitted(*old(builder), *final(builder), codegen::slow_path(vaddr_local, helper)),
    {
        reveal(emitted);
        builder.emit(Instruction::Br(1));
        builder.emit(Instruction::End);
        builder.emit(Instruction::LocalGet(vaddr_local));
        builder.emit(Instruction::Call(helper));
        assert(builder.code() =~= old(builder).code() + codegen::slow_path(vaddr_local, helper));
    }

    /// Appends the access of a load with a fast path, and its slow path.
    fn emit_fast_load(
        builder: &mut WasmModuleBuilder,
        vaddr_local: u32,
        rd: u8,
        pc_offset: u16,
        access: Access,
        align: u32,
        helper: u32,
        widen: Widen,
    )
        requires
            old(builder).wf(),
            old(builder).local_count() < u32::MAX - 3,
        ensures
            final(builder).wf(),
            fast_load_emitted(
                *old(builder),
                *final(builder),
                vaddr_local,
                rd,
                pc_offset,
                access,
                align,
                helper,
                widen_code(widen),
            ),
    {
        broadcast use lemma_concat;

        reveal(emitted);
        let vpn_local: u32 = builder.add_local(ValType::I64);
        let tlb_idx_local: u32 = builder.add_local(ValType::I32);
        let entry_ptr_local: u32 = builder.add_local(ValType::I32);
        Self::emit_tlb_hit(builder, vaddr_local, vpn_local, tlb_idx_local, entry_ptr_local);
        builder.emit(
            Instruction::Memory(
                access,
                MemArg { offset: HEADER_SIZE as u64, align, memory_index: 0 },
            ),
        );
        Self::emit_widen(builder, &widen);
        Self::emit_store_reg(builder, rd);
        Self::emit_slow_path(builder, vaddr_local, helper);
        Self::emit_widen(builder, &widen);
        Self::emit_store_reg(builder, rd);
        Self::emit_trap_check(builder, pc_offset);
        builder.emit(Instruction::End);
    }

    /// A 64-bit load of the address in a local that looks the translation up itself, and
    /// calls the helper where it does not find it.
    pub fn emit_tlb_fast_path_load(
        &self,
        builder: &mut WasmModuleBuilder,
        vaddr_local: u32,
        rd: u8,
        pc_offset: u16,
    )
        requires
            old(builder).wf(),
            old(builder).local_count() < u32::MAX - 3,
        ensures
            final(builder).wf(),
            fast_load_emitted(
                *old(builder),
                *final(builder),
                vaddr_local,
                rd,
                pc_offset,
                Access::I64Load,
                3,
                imports::READ_U64,
                Seq::empty(),
            ),
    {
        reveal(emitted);
        Self::emit_fast_load(
            builder,
            vaddr_local,
            rd,
            pc_offset,
            Access::I64Load,
            3,
            imports::READ_U64,
            Widen::Not,
        );
    }

    /// A 32-bit load of the address in a local that looks the translation up itself, and
    /// calls the helper where it does not find it.
    pub fn emit_tlb_fast_path_load_w(
        &self,
        builder: &mut WasmModuleBuilder,
        vaddr_local: u32,
        rd: u8,
        pc_offset: u16,
        sign_extend: bool,
    )
        requires
            old(builder).wf(),
            old(builder).local_count() < u32::MAX - 3,
        ensures
            final(builder).wf(),
            fast_load_emitted(
                *old(builder),
                *final(builder),
                vaddr_local,
                rd,
                pc_offset,
                Access::I32Load,
                2,
                imports::READ_U32,
                if sign_extend {
                    codegen::extend_s()
                } else {
                    codegen::extend_u()
                },
            ),
    {
        reveal(emitted);
        let widen: Widen = if sign_extend {
            Widen::Signed
        } else {
            Widen::Unsigned
        };
        Self::emit_fast_load(
            builder,
            vaddr_local,
            rd,
            pc_offset,
            Access::I32Load,
            2,
            imports::READ_U32,
            widen,
        );
    }
}

/// That `after` is `before` with three more locals and a load with a fast path.
pub open spec fn fast_load_emitted(
    before: WasmModuleBuilder,
    after: WasmModuleBuilder,
    vaddr: u32,
    rd: u8,
    place: u16,
    access: Access,
    align: u32,
    helper: u32,
    widen: Code,
) -> bool {
    let n = before.local_count();
    &&& after.code() == before.code() + codegen::fast_load_code(
        vaddr,
        (n + 1) as u32,
        (n + 2) as u32,
        (n + 3) as u32,
        rd,
        place,
        access,
        align,
        helper,
        widen,
    )
    &&& after.local_count() == n + 3
    &&& after.locals() == encoder::with_local(
        encoder::with_local(
            encoder::with_local(before.locals(), ValType::I64),
            ValType::I32,
        ),
        ValType::I32,
    )
}

impl Default for JitCompiler {
    fn default() -> (compiler: Self)
        ensures
            default_config(compiler.settings()),
    {
        Self::new(JitConfig::default())
    }
}

/// Whether an instruction is a conditional branch back, as at the end of a loop.
pub fn is_backward_branch(op: &MicroOp) -> (b: bool)
    ensures
        b == codegen::backward_branch(*op),
{
    match *op {
        MicroOp::Beq { imm, .. }
        | MicroOp::Bne { imm, .. }
        | MicroOp::Blt { imm, .. }
        | MicroOp::Bge { imm, .. }
        | MicroOp::Bltu { imm, .. }
        | MicroOp::Bgeu { imm, .. } => imm < 0,
        _ => false,
    }
}

/// Once an instruction cannot be compiled, no longer part of the block can be.
proof fn lemma_prefix_stops(config: JitConfig, code: Seq<MicroOp>, base_pc: u64, n: nat, m: nat)
    requires
        n <= m,
        codegen::prefix_code(config, code, base_pc, n) is None,
    ensures
        codegen::prefix_code(config, code, base_pc, m) is None,
    decreases m,
{
    if n < m {
        lemma_prefix_stops(config, code, base_pc, n, (m - 1) as nat);
    }
}

proof fn lemma_needs_helpers_step(code: Seq<MicroOp>, i: int)
    requires
        0 <= i < code.len(),
    ensures
        codegen::needs_helpers(code.take(i + 1)) == (codegen::needs_helpers(code.take(i))
            || op_may_trap(code[i])),
{
    let longer = code.take(i + 1);
    let shorter = code.take(i);
    if op_may_trap(code[i]) {
        assert(op_may_trap(longer[i]));
    }
    if codegen::needs_helpers(shorter) {
        let j = choose|j: int| 0 <= j < shorter.len() && op_may_trap(#[trigger] shorter[j]);
        assert(op_may_trap(longer[j]));
    }
    if codegen::needs_helpers(longer) {
        let j = choose|j: int| 0 <= j < longer.len() && op_may_trap(#[trigger] longer[j]);
        if j < i {
            assert(op_may_trap(shorter[j]));
        }
    }
}

} // verus!
