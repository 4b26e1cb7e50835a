//! Compiled blocks, run on a small evaluator of WebAssembly and held against the interpreter.

use riscv_vm::bus::SystemBus;
use riscv_vm::cpu::blocks::JitBlockResult;
use riscv_vm::cpu::decoder::Op;
use riscv_vm::cpu::execution::{Effect, Insn, Step};
use riscv_vm::cpu::hart::Cpu;
use riscv_vm::cpu::types::Mode;
use riscv_vm::engine::block::Block;
use riscv_vm::engine::microop::MicroOp;
use riscv_vm::jit::compiler::JitCompiler;
use riscv_vm::jit::runtime::{
    host_read_u16, host_read_u32, host_read_u64, host_read_u8, host_write_u16, host_write_u32,
    host_write_u64, host_write_u8, JitExecResult,
};
use riscv_vm::jit::state::{set_interrupt_pending, sync_from_shared, sync_to_shared, HEADER_SIZE};
use riscv_vm::jit::types::{CompilationResult, JitConfig};
use riscv_vm::mmu::Tlb;

const BASE: u64 = 0x8000_0000;

/// Reads numbers of variable length.
struct Reader<'a> {
    bytes: &'a [u8],
    at: usize,
}

impl<'a> Reader<'a> {
    fn byte(&mut self) -> u8 {
        let byte = self.bytes[self.at];
        self.at += 1;
        byte
    }

    fn unsigned(&mut self) -> u64 {
        let mut value = 0u64;
        let mut shift = 0;
        loop {
            let byte = self.byte();
            value |= ((byte & 0x7f) as u64) << shift;
            shift += 7;
            if byte & 0x80 == 0 {
                return value;
            }
        }
    }

    fn signed(&mut self) -> i64 {
        let mut value = 0i64;
        let mut shift = 0;
        loop {
            let byte = self.byte();
            value |= ((byte & 0x7f) as i64) << shift;
            shift += 7;
            if byte & 0x80 == 0 {
                if shift < 64 && byte & 0x40 != 0 {
                    value |= -1i64 << shift;
                }
                return value;
            }
        }
    }
}

/// An instruction with its operands.
#[derive(Debug, Clone, Copy)]
struct Insn32 {
    opcode: u8,
    a: i64,
    b: u64,
}

/// The code of the only function of a module.
fn code_of(module: &[u8]) -> (usize, Vec<Insn32>) {
    let mut r = Reader { bytes: module, at: 8 };
    loop {
        let id = r.byte();
        let size = r.unsigned() as usize;
        if id == 10 {
            break;
        }
        r.at += size;
    }
    assert_eq!(r.unsigned(), 1);
    let size = r.unsigned() as usize;
    let end = r.at + size;
    let mut locals = 0;
    for _ in 0..r.unsigned() {
        locals += r.unsigned() as usize;
        r.byte();
    }
    let mut code = Vec::new();
    while r.at < end {
        let opcode = r.byte();
        let (a, b) = match opcode {
            0x41 | 0x42 => (r.signed(), 0),
            0x02 | 0x04 => (r.byte() as i64, 0),
            0x0c | 0x0d | 0x10 | 0x20 | 0x21 | 0x22 => (r.unsigned() as i64, 0),
            0x28 | 0x29 | 0x2d | 0x36 | 0x37 => {
                r.unsigned();
                (0, r.unsigned())
            }
            _ => (0, 0),
        };
        code.push(Insn32 { opcode, a, b });
    }
    (locals, code)
}

/// What a block runs on.
struct World {
    bus: SystemBus,
    tlb: Tlb,
    shared: Vec<u8>,
}

/// The place behind the end of the block that starts at `at`, or behind its `else`.
fn skip_block(code: &[Insn32], mut at: usize, to_else: bool) -> usize {
    let mut depth = 0;
    loop {
        match code[at].opcode {
            0x02 | 0x04 => depth += 1,
            0x05 if depth == 0 && to_else => return at + 1,
            0x0b if depth == 0 => return at + 1,
            0x0b => depth -= 1,
            _ => {}
        }
        at += 1;
    }
}

/// Runs a module and gives what it returns.
fn evaluate(module: &[u8], world: &mut World) -> i64 {
    let (count, code) = code_of(module);
    let mut locals = vec![0u64; count + 1];
    let mut stack: Vec<u64> = Vec::new();
    let mut at = 0;
    while at < code.len() {
        let insn = code[at];
        at += 1;
        match insn.opcode {
            0x0f => break,
            0x04 => {
                if stack.pop().unwrap() as u32 == 0 {
                    at = skip_block(&code, at, true);
                }
            }
            0x05 => at = skip_block(&code, at, false),
            0x0b => {}
            0x10 => call(insn.a as u32, &mut stack, world),
            0x1a => {
                stack.pop().unwrap();
            }
            0x20 => stack.push(locals[insn.a as usize]),
            0x21 => locals[insn.a as usize] = stack.pop().unwrap(),
            0x22 => locals[insn.a as usize] = *stack.last().unwrap(),
            0x41 => stack.push(insn.a as i32 as u32 as u64),
            0x42 => stack.push(insn.a as u64),
            0x28 | 0x29 | 0x2d => {
                let from = (stack.pop().unwrap() + insn.b) as usize;
                let size = match insn.opcode {
                    0x28 => 4,
                    0x29 => 8,
                    _ => 1,
                };
                let mut bytes = [0u8; 8];
                bytes[..size].copy_from_slice(&world.shared[from..from + size]);
                stack.push(u64::from_le_bytes(bytes));
            }
            0x36 | 0x37 => {
                let value = stack.pop().unwrap();
                let to = (stack.pop().unwrap() + insn.b) as usize;
                let size = if insn.opcode == 0x36 { 4 } else { 8 };
                world.shared[to..to + size].copy_from_slice(&value.to_le_bytes()[..size]);
            }
            0x45 | 0x50 => {
                let value = stack.pop().unwrap();
                stack.push((value == 0) as u64);
            }
            0xa7 => {
                let value = stack.pop().unwrap();
                stack.push(value as u32 as u64);
            }
            0xac => {
                let value = stack.pop().unwrap();
                stack.push(value as u32 as i32 as i64 as u64);
            }
            0xad => {}
            opcode => {
                let b = stack.pop().unwrap();
                let a = stack.pop().unwrap();
                stack.push(binary(opcode, a, b));
            }
        }
    }
    stack.pop().unwrap() as i64
}

/// An operation on two numbers.
fn binary(opcode: u8, a: u64, b: u64) -> u64 {
    let (sa, sb) = (a as i64, b as i64);
    let (wa, wb) = (a as u32, b as u32);
    match opcode {
        0x51 => (a == b) as u64,
        0x52 => (a != b) as u64,
        0x53 => (sa < sb) as u64,
        0x54 => (a < b) as u64,
        0x59 => (sa >= sb) as u64,
        0x5a => (a >= b) as u64,
        0x7c => a.wrapping_add(b),
        0x7d => a.wrapping_sub(b),
        0x7e => a.wrapping_mul(b),
        0x7f => sa.checked_div(sb).unwrap() as u64,
        0x80 => a / b,
        0x81 => sa.wrapping_rem(sb) as u64,
        0x82 => a % b,
        0x83 => a & b,
        0x84 => a | b,
        0x85 => a ^ b,
        0x86 => a.wrapping_shl(b as u32),
        0x87 => sa.wrapping_shr(b as u32) as u64,
        0x88 => a.wrapping_shr(b as u32),
        0x46 => (wa == wb) as u64,
        0x6a => wa.wrapping_add(wb) as u64,
        0x6c => wa.wrapping_mul(wb) as u64,
        0x6d => (wa as i32).checked_div(wb as i32).unwrap() as u32 as u64,
        0x6e => (wa / wb) as u64,
        0x6f => (wa as i32).wrapping_rem(wb as i32) as u32 as u64,
        0x70 => (wa % wb) as u64,
        0x71 => (wa & wb) as u64,
        0x74 => wa.wrapping_shl(wb) as u64,
        0x75 => (wa as i32).wrapping_shr(wb) as u32 as u64,
        0x76 => wa.wrapping_shr(wb) as u64,
        other => panic!("no such instruction: {:#x}", other),
    }
}

/// Calls a service.
fn call(index: u32, stack: &mut Vec<u64>, world: &mut World) {
    let mode = Mode::Machine;
    let value = if index >= 4 { stack.pop().unwrap() } else { 0 };
    let vaddr = stack.pop().unwrap() as i64;
    let World { bus, tlb, shared } = world;
    let answer = match index {
        0 => host_read_u64(bus, tlb, mode, 0, 0, shared, vaddr) as u64,
        1 => host_read_u32(bus, tlb, mode, 0, 0, shared, vaddr) as u32 as u64,
        2 => host_read_u16(bus, tlb, mode, 0, 0, shared, vaddr) as u32 as u64,
        3 => host_read_u8(bus, tlb, mode, 0, 0, shared, vaddr) as u32 as u64,
        4 => host_write_u64(bus, tlb, mode, 0, 0, shared, vaddr, value as i64) as u32 as u64,
        5 => host_write_u32(bus, tlb, mode, 0, 0, shared, vaddr, value as i32) as u32 as u64,
        6 => host_write_u16(bus, tlb, mode, 0, 0, shared, vaddr, value as i32) as u32 as u64,
        7 => host_write_u8(bus, tlb, mode, 0, 0, shared, vaddr, value as i32) as u32 as u64,
        other => panic!("no such service: {}", other),
    };
    stack.push(answer);
}

/// A hart with three values in `x1` to `x3`.
fn hart(a: u64, b: u64, c: u64) -> Cpu {
    let mut cpu = Cpu::new(BASE, 0, !0x3f, JitConfig::default());
    cpu.write_reg(1, a);
    cpu.write_reg(2, b);
    cpu.write_reg(3, c);
    cpu
}

fn memory() -> SystemBus {
    let mut bus = SystemBus::new(BASE, 0x1000);
    bus.write64(BASE + 0x100, 0x8899_aabb_ccdd_eeff).unwrap();
    bus
}

/// Compiles and runs instructions on the state of a hart: the hart after it, memory, what the
/// code told as a trap, and what it returned.
fn run_compiled(ops: &[MicroOp], cpu: &Cpu) -> ([u64; 32], SystemBus, Option<(u32, u64)>, i64) {
    let config = JitConfig { min_block_size: 1, ..JitConfig::default() };
    let mut block = Block::new(BASE, BASE, 0);
    for op in ops {
        block.push(*op, 4);
    }
    let module = match JitCompiler::new(config).compile(&block) {
        CompilationResult::Success(bytes) => bytes,
        other => panic!("Expected Success, got {:?}", other),
    };
    let mut shared = vec![0; HEADER_SIZE];
    sync_to_shared(cpu, &mut shared);
    set_interrupt_pending(&mut shared, false);
    let mut world = World { bus: memory(), tlb: Tlb::new(), shared };
    let value = evaluate(&module, &mut world);
    let mut after = hart(0, 0, 0);
    let trap = sync_from_shared(&mut after, &world.shared);
    (after.regs, world.bus, trap, value)
}

/// Holds an instruction against the interpreter.
fn compare(op: MicroOp, decoded: Op, a: u64, b: u64) {
    let mut cpu = hart(a, b, 0x33);
    let (regs, bus, trap, value) = run_compiled(&[op], &cpu);
    let mut own = memory();
    let step = cpu.execute_on(&mut own, Insn { raw: 0, len: 4 }, decoded);
    assert_eq!(step, Step::Retire(Effect::Nothing), "{:?}", op);
    assert_eq!(trap, None, "{:?}", op);
    assert_eq!(regs, cpu.regs, "{:?} of {:#x} and {:#x}", op, a, b);
    assert_eq!(bus.read64(BASE + 0x100), own.read64(BASE + 0x100), "{:?}", op);
    assert_eq!(JitExecResult::from_i64(value, BASE), JitExecResult::Continue(BASE + 4));
}

/// Numbers at which instructions differ.
const SAMPLES: [u64; 9] = [
    0,
    1,
    7,
    0x3f,
    0x7fff_ffff,
    0x8000_0000,
    0x8000_0000_0000_0000,
    0xffff_ffff_ffff_fff9,
    0xffff_ffff_ffff_ffff,
];

#[test]
fn compiled_register_operations_compute_as_interpreted() {
    let (rd, rs1, rs2) = (4, 1, 2);
    let op = |funct3: u8, funct7: u8| Op::Op { rd, rs1, rs2, funct3, funct7 };
    let op32 = |funct3: u8, funct7: u8| Op::Op32 { rd, rs1, rs2, funct3, funct7 };
    let pairs = [
        (MicroOp::Add { rd, rs1, rs2 }, op(0, 0)),
        (MicroOp::Sub { rd, rs1, rs2 }, op(0, 0x20)),
        (MicroOp::Sll { rd, rs1, rs2 }, op(1, 0)),
        (MicroOp::Slt { rd, rs1, rs2 }, op(2, 0)),
        (MicroOp::Sltu { rd, rs1, rs2 }, op(3, 0)),
        (MicroOp::Xor { rd, rs1, rs2 }, op(4, 0)),
        (MicroOp::Srl { rd, rs1, rs2 }, op(5, 0)),
        (MicroOp::Sra { rd, rs1, rs2 }, op(5, 0x20)),
        (MicroOp::Or { rd, rs1, rs2 }, op(6, 0)),
        (MicroOp::And { rd, rs1, rs2 }, op(7, 0)),
        (MicroOp::Mul { rd, rs1, rs2 }, op(0, 1)),
        (MicroOp::Div { rd, rs1, rs2 }, op(4, 1)),
        (MicroOp::Divu { rd, rs1, rs2 }, op(5, 1)),
        (MicroOp::Rem { rd, rs1, rs2 }, op(6, 1)),
        (MicroOp::Remu { rd, rs1, rs2 }, op(7, 1)),
        (MicroOp::Addw { rd, rs1, rs2 }, op32(0, 0)),
        (MicroOp::Subw { rd, rs1, rs2 }, op32(0, 0x20)),
        (MicroOp::Sllw { rd, rs1, rs2 }, op32(1, 0)),
        (MicroOp::Srlw { rd, rs1, rs2 }, op32(5, 0)),
        (MicroOp::Sraw { rd, rs1, rs2 }, op32(5, 0x20)),
        (MicroOp::Mulw { rd, rs1, rs2 }, op32(0, 1)),
        (MicroOp::Divw { rd, rs1, rs2 }, op32(4, 1)),
        (MicroOp::Divuw { rd, rs1, rs2 }, op32(5, 1)),
        (MicroOp::Remw { rd, rs1, rs2 }, op32(6, 1)),
        (MicroOp::Remuw { rd, rs1, rs2 }, op32(7, 1)),
    ];
    for (micro, decoded) in pairs {
        for a in SAMPLES {
            for b in SAMPLES {
                compare(micro, decoded, a, b);
            }
        }
    }
}

#[test]
fn compiled_operations_with_constants_compute_as_interpreted() {
    let (rd, rs1) = (5, 1);
    for imm in [0i64, 1, -1, 2047, -2048] {
        let op = |funct3: u8| Op::OpImm { rd, rs1, imm, funct3, funct7: 0 };
        let pairs = [
            (MicroOp::Addi { rd, rs1, imm }, op(0)),
            (MicroOp::Slti { rd, rs1, imm }, op(2)),
            (MicroOp::Sltiu { rd, rs1, imm }, op(3)),
            (MicroOp::Xori { rd, rs1, imm }, op(4)),
            (MicroOp::Ori { rd, rs1, imm }, op(6)),
            (MicroOp::Andi { rd, rs1, imm }, op(7)),
            (
                MicroOp::Addiw { rd, rs1, imm: imm as i32 },
                Op::OpImm32 { rd, rs1, imm, funct3: 0, funct7: 0 },
            ),
            (MicroOp::Lui { rd, imm: imm << 12 }, Op::Lui { rd, imm: imm << 12 }),
            (
                MicroOp::Auipc { rd, imm: imm << 12, pc_offset: 0 },
                Op::Auipc { rd, imm: imm << 12 },
            ),
        ];
        for (micro, decoded) in pairs {
            for a in SAMPLES {
                compare(micro, decoded, a, 0);
            }
        }
    }
    for shamt in [0u8, 1, 31] {
        let imm = shamt as i64;
        let op = |funct3: u8, funct7: u8| Op::OpImm { rd, rs1, imm, funct3, funct7 };
        let op32 = |funct3: u8, funct7: u8| Op::OpImm32 { rd, rs1, imm, funct3, funct7 };
        let pairs = [
            (MicroOp::Slli { rd, rs1, shamt }, op(1, 0)),
            (MicroOp::Srli { rd, rs1, shamt }, op(5, 0)),
            (MicroOp::Srai { rd, rs1, shamt }, op(5, 0x20)),
            (MicroOp::Slliw { rd, rs1, shamt }, op32(1, 0)),
            (MicroOp::Srliw { rd, rs1, shamt }, op32(5, 0)),
            (MicroOp::Sraiw { rd, rs1, shamt }, op32(5, 0x20)),
        ];
        for (micro, decoded) in pairs {
            for a in SAMPLES {
                compare(micro, decoded, a, 0);
            }
        }
    }
}

#[test]
fn compiled_transfers_do_as_interpreted() {
    let (rd, rs1, rs2, pc_offset) = (6, 1, 2, 0);
    for imm in [0i64, 1, 2] {
        let load = |funct3: u8| Op::Load { rd, rs1, imm, funct3 };
        let store = |funct3: u8| Op::Store { rs1, rs2, imm, funct3 };
        let pairs = [
            (MicroOp::Lb { rd, rs1, imm, pc_offset }, load(0)),
            (MicroOp::Lh { rd, rs1, imm, pc_offset }, load(1)),
            (MicroOp::Lw { rd, rs1, imm, pc_offset }, load(2)),
            (MicroOp::Ld { rd, rs1, imm, pc_offset }, load(3)),
            (MicroOp::Lbu { rd, rs1, imm, pc_offset }, load(4)),
            (MicroOp::Lhu { rd, rs1, imm, pc_offset }, load(5)),
            (MicroOp::Lwu { rd, rs1, imm, pc_offset }, load(6)),
            (MicroOp::Sb { rs1, rs2, imm, pc_offset }, store(0)),
            (MicroOp::Sh { rs1, rs2, imm, pc_offset }, store(1)),
            (MicroOp::Sw { rs1, rs2, imm, pc_offset }, store(2)),
            (MicroOp::Sd { rs1, rs2, imm, pc_offset }, store(3)),
        ];
        for (micro, decoded) in pairs {
            compare(micro, decoded, BASE + 0x100, 0x1122_3344_5566_7788);
        }
    }
}

#[test]
fn compiled_transfers_outside_memory_tell_a_trap() {
    let load = MicroOp::Ld { rd: 6, rs1: 1, imm: 8, pc_offset: 12 };
    let (_, _, trap, value) = run_compiled(&[load], &hart(0x40, 0, 0));
    assert_eq!(trap, Some((5, 0x48)));
    assert_eq!(value, (1 << 32) | 12);
    let store = MicroOp::Sb { rs1: 1, rs2: 2, imm: 0, pc_offset: 8 };
    let (_, _, trap, value) = run_compiled(&[store], &hart(0x40, 9, 0));
    assert_eq!(trap, Some((7, 0x40)));
    assert_eq!(value, (1 << 32) | 8);
}

/// Compiles and runs a block at `start` on a hart there, and lets the hart take the outcome in.
fn run_block(start: u64, ops: &[MicroOp], cpu: &mut Cpu) {
    let config = JitConfig { min_block_size: 1, ..JitConfig::default() };
    let mut block = Block::new(start, start, 0);
    for op in ops {
        block.push(*op, 4);
    }
    let module = match JitCompiler::new(config).compile(&block) {
        CompilationResult::Success(bytes) => bytes,
        other => panic!("Expected Success, got {:?}", other),
    };
    cpu.pc = start;
    let mut shared = vec![0; HEADER_SIZE];
    assert_eq!(cpu.prepare_jit_block(true, &mut shared), None);
    let mut world = World { bus: memory(), tlb: Tlb::new(), shared };
    let value = evaluate(&module, &mut world);
    let result = JitExecResult::from_i64(value, start);
    let left = cpu.finish_jit_block(&world.shared, Some(result));
    assert_eq!(left, Ok(JitBlockResult::Continue));
}

#[test]
fn compiled_transfers_trap_as_interpreted() {
    let (rs1, rs2, pc_offset) = (1, 2, 4);
    let pairs = [
        (
            MicroOp::Lw { rd: 6, rs1, imm: 8, pc_offset },
            Op::Load { rd: 6, rs1, imm: 8, funct3: 2 },
        ),
        (
            MicroOp::Sh { rs1, rs2, imm: -8, pc_offset },
            Op::Store { rs1, rs2, imm: -8, funct3: 1 },
        ),
    ];
    for (op, decoded) in pairs {
        let first = MicroOp::Addi { rd: 4, rs1: 0, imm: 5 };
        let (regs, bus, trap, value) = run_compiled(&[first, op], &hart(0x4000, 7, 9));
        assert_eq!(value, (1 << 32) | 4);
        let (code, at) = trap.unwrap();
        let mut own = hart(0x4000, 7, 9);
        let mut own_bus = memory();
        let insn = Insn { raw: 0, len: 4 };
        let add = Op::OpImm { rd: 4, rs1: 0, imm: 5, funct3: 0, funct7: 0 };
        own.execute_on(&mut own_bus, insn, add);
        match own.execute_on(&mut own_bus, insn, decoded) {
            Step::Raise(expected) => assert_eq!(own.trap_from_code(code, at), expected),
            other => panic!("{:?}", other),
        }
        for i in (0..32).filter(|i| *i != 6) {
            assert_eq!(regs[i], own.regs[i]);
        }
        assert_eq!(bus.read64(BASE + 0x100), own_bus.read64(BASE + 0x100));
    }
}

#[test]
fn compiled_branches_go_where_the_interpreter_goes() {
    let (rs1, rs2, pc_offset, insn_len) = (1, 2, 4, 4);
    for start in [BASE, 0xffff_ffc0_8000_0000, 0xffff_ffff_ffff_fff0] {
        for imm in [16i64, -64, 0x1_0000] {
            let branches = [
                (MicroOp::Beq { rs1, rs2, imm, pc_offset, insn_len }, 0),
                (MicroOp::Bne { rs1, rs2, imm, pc_offset, insn_len }, 1),
                (MicroOp::Blt { rs1, rs2, imm, pc_offset, insn_len }, 4),
                (MicroOp::Bge { rs1, rs2, imm, pc_offset, insn_len }, 5),
                (MicroOp::Bltu { rs1, rs2, imm, pc_offset, insn_len }, 6),
                (MicroOp::Bgeu { rs1, rs2, imm, pc_offset, insn_len }, 7),
            ];
            for (op, funct3) in branches {
                let first = MicroOp::Addi { rd: 4, rs1: 0, imm: 5 };
                let mut cpu = hart(u64::MAX, 1, 0);
                run_block(start, &[first, op], &mut cpu);
                let mut own = hart(u64::MAX, 1, 0);
                own.pc = start;
                let insn = Insn { raw: 0, len: 4 };
                let add = Op::OpImm { rd: 4, rs1: 0, imm: 5, funct3: 0, funct7: 0 };
                own.execute_on(&mut memory(), insn, add);
                own.execute_on(&mut memory(), insn, Op::Branch { rs1, rs2, imm, funct3 });
                assert_eq!(cpu.pc, own.pc, "{:?} at {:#x}", op, start);
                assert_eq!(cpu.regs, own.regs);
            }
        }
    }
}

#[test]
fn compiled_branches_tell_the_program_counter() {
    let op = MicroOp::Beq { rs1: 0, rs2: 0, imm: 16, pc_offset: 4, insn_len: 4 };
    let (_, _, trap, value) = run_compiled(&[op], &hart(0, 0, 0));
    assert_eq!(trap, None);
    assert_eq!(value, (4 << 32) | 0x8000_0014);
    assert_eq!(
        JitExecResult::from_i64(value, BASE),
        JitExecResult::Branch { new_pc: BASE + 20 }
    );
}

#[test]
fn compiled_jumps_link() {
    let jump = MicroOp::Jal { rd: 7, imm: 0x2_0000, pc_offset: 8, insn_len: 2 };
    let mut cpu = hart(0, 0, 0);
    run_block(BASE, &[jump], &mut cpu);
    assert_eq!(cpu.regs[7], BASE + 10);
    assert_eq!(cpu.pc, BASE + 0x2_0008);
    let jump = MicroOp::Jalr { rd: 1, rs1: 1, imm: 5, pc_offset: 0, insn_len: 4 };
    let mut cpu = hart(0xffff_ffc0_0000_0100, 0, 0);
    run_block(BASE, &[jump], &mut cpu);
    assert_eq!(cpu.regs[1], BASE + 4);
    assert_eq!(cpu.pc, 0xffff_ffc0_0000_0104);
}

#[test]
fn blocks_without_branches_go_on_behind_their_end() {
    let mut cpu = hart(3, 4, 0);
    run_block(BASE, &[MicroOp::Add { rd: 5, rs1: 1, rs2: 2 }], &mut cpu);
    assert_eq!(cpu.regs[5], 7);
    assert_eq!(cpu.pc, BASE + 4);
}

#[test]
fn compiled_blocks_run_in_order() {
    let ops = [
        MicroOp::Addi { rd: 4, rs1: 0, imm: 5 },
        MicroOp::Sd { rs1: 1, rs2: 4, imm: 0, pc_offset: 4 },
        MicroOp::Addi { rd: 4, rs1: 4, imm: 1 },
        MicroOp::Ld { rd: 5, rs1: 1, imm: 0, pc_offset: 12 },
        MicroOp::Mul { rd: 6, rs1: 4, rs2: 5 },
        MicroOp::Add { rd: 0, rs1: 4, rs2: 5 },
    ];
    let (regs, bus, trap, value) = run_compiled(&ops, &hart(BASE + 0x200, 0, 0));
    assert_eq!((regs[4], regs[5], regs[6], regs[0]), (6, 5, 30, 0));
    assert_eq!(bus.read64(BASE + 0x200), Ok(5));
    assert_eq!(trap, None);
    assert_eq!(value, 24);
}
