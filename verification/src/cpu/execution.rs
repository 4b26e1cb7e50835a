//! One instruction after another. What an instruction needs of memory and of the control
//! registers it asks for, and goes on with the answer.

use crate::cpu::alu;
use crate::cpu::csr::{CSR_MEPC, CSR_MSTATUS, CSR_SATP, CSR_SEPC, CSR_TIME};
use crate::cpu::decoder::Op;
use crate::cpu::hart::Cpu;
use crate::cpu::types::{environment_call_trap, AccessType, Mode, Trap};
use vstd::prelude::*;

verus! {

use crate::cpu::hart::{same_setup, with_reg, without_reservation, HartState};
use crate::cpu::types::environment_call;
use crate::mmu::empty_entry;

/// A fetched instruction: its bits, in the form of four bytes, and its length in memory.
#[derive(Debug, Clone, Copy, PartialEq, Eq, Structural)]
pub struct Insn {
    pub raw: u32,
    pub len: u8,
}

/// The updates that memory makes in one step.
#[derive(Debug, Clone, Copy, PartialEq, Eq, Structural)]
pub enum AtomicOp {
    Swap,
    Plus,
    Xor,
    And,
    Or,
    Min,
    Max,
    Minu,
    Maxu,
}

/// What an instruction asks for.
#[derive(Debug, Clone, Copy, PartialEq, Eq, Structural)]
#[allow(inconsistent_fields)]
pub enum Request {
    /// The physical address of `vaddr`.
    Translate { vaddr: u64, access: AccessType },
    /// The `size` bytes at `pa`, zero-extended.
    Read { pa: u64, size: u64 },
    /// That the `size` low-order bytes of `value` be stored at `pa`.
    Write { pa: u64, size: u64, value: u64 },
    /// An update in one step; the answer is the old value.
    Atomic { op: AtomicOp, pa: u64, value: u64, is_word: bool },
    /// The time of the timer device.
    ReadTime,
    ReadCsr { csr: u16 },
    WriteCsr { csr: u16, value: u64 },
}

/// Where an instruction stopped to ask.
#[derive(Debug, Clone, Copy, PartialEq, Eq, Structural)]
#[allow(inconsistent_fields)]
pub enum Pending {
    LoadAddress { rd: u8, funct3: u8, size: u64 },
    LoadData { rd: u8, funct3: u8 },
    StoreAddress { vaddr: u64, rs2: u8, funct3: u8 },
    StoreDone,
    AmoAddress { rd: u8, vaddr: u64, rs2: u8, funct3: u8, funct5: u8 },
    ReservedData { rd: u8, vaddr: u64, is_word: bool },
    ConditionalDone { rd: u8 },
    AmoData { rd: u8 },
    CsrOld { rd: u8, rs1: u8, funct3: u8, csr: u16 },
    CsrDone { rd: u8, csr: u16, old_value: u64 },
}

impl Pending {
    /// The registers named exist.
    pub open spec fn wf(self) -> bool {
        match self {
            Pending::LoadAddress { rd, .. } => rd < 32,
            Pending::LoadData { rd, .. } => rd < 32,
            Pending::StoreAddress { rs2, .. } => rs2 < 32,
            Pending::StoreDone => true,
            Pending::AmoAddress { rd, rs2, .. } => rd < 32 && rs2 < 32,
            Pending::ReservedData { rd, .. } => rd < 32,
            Pending::ConditionalDone { rd } => rd < 32,
            Pending::AmoData { rd } => rd < 32,
            Pending::CsrOld { rd, rs1, .. } => rd < 32 && rs1 < 32,
            Pending::CsrDone { rd, .. } => rd < 32,
        }
    }
}

/// What an instruction leaves to do once it is complete.
#[derive(Debug, Clone, Copy, PartialEq, Eq, Structural)]
pub enum Effect {
    Nothing,
    /// Decoded instructions may be out of date.
    Redecode,
    /// The hart waits for an interrupt.
    Pause,
}

/// How far an instruction has come.
#[derive(Debug, Clone, Copy, PartialEq, Eq, Structural)]
pub enum Step {
    /// It is complete.
    Retire(Effect),
    /// It ends in a trap, which is to be delivered.
    Raise(Trap),
    /// It has no address to work at, and ends in the trap of the translation, which is to be
    /// delivered.
    Abort(Trap),
    /// It waits for an answer.
    Ask(Request, Pending),
}

/// The state and the step of an instruction that is complete, with `pc` the next.
pub open spec fn retired(s: HartState, pc: u64) -> (HartState, Step) {
    (HartState { pc, ..s }, Step::Retire(Effect::Nothing))
}

/// An instruction that ends with `value` in register `rd`.
pub open spec fn result_in(s: HartState, insn: Insn, rd: u8, value: u64) -> (HartState, Step) {
    retired(with_reg(s, rd, value), after(s, insn))
}

/// The address of the instruction that follows.
pub open spec fn after(s: HartState, insn: Insn) -> u64 {
    s.pc.wrapping_add(insn.len as u64)
}

/// The trap of an instruction that does not exist.
pub open spec fn illegal(insn: Insn) -> Step {
    Step::Raise(Trap::IllegalInstruction(insn.raw as u64))
}

/// An instruction that goes on at `target`, which has to be even.
pub open spec fn jump(s: HartState, target: u64) -> (HartState, Step) {
    if target % 2 != 0 {
        (s, Step::Raise(Trap::InstructionAddressMisaligned(target)))
    } else {
        retired(s, target)
    }
}

/// An instruction whose result may not exist.
pub open spec fn compute(s: HartState, insn: Insn, rd: u8, value: Option<u64>) -> (HartState, Step) {
    match value {
        Some(value) => result_in(s, insn, rd, value),
        None => (s, illegal(insn)),
    }
}

/// Whether the bits are those of an SFENCE.VMA, whatever registers it names.
pub open spec fn is_sfence(raw: u32) -> bool {
    raw & 0xfe00_707f == 0x1200_0073
}

/// The status register after a return from machine mode: interrupts are enabled as they
/// were before the trap, and user mode is the previous mode.
pub open spec fn mstatus_after_mret(mstatus: u64) -> u64 {
    (((mstatus & !(1u64 << 3)) | (((mstatus >> 7) & 1) << 3)) | (1u64 << 7)) & !(3u64 << 11)
}

/// The status register after a return from supervisor mode.
pub open spec fn mstatus_after_sret(mstatus: u64) -> u64 {
    (((mstatus & !(1u64 << 1)) | (((mstatus >> 5) & 1) << 1)) | (1u64 << 5)) & !(1u64 << 8)
}

/// The state with one control register changed.
pub open spec fn with_csr(s: HartState, csr: u16, value: u64) -> HartState {
    HartState { csrs: s.csrs.update(csr as int, value), ..s }
}

/// The state with no translations cached.
pub open spec fn without_translations(s: HartState) -> HartState {
    HartState { tlb: Seq::new(64, |i: int| empty_entry()), ..s }
}

/// The instructions on the hart itself.
pub open spec fn privileged(s: HartState, insn: Insn) -> (HartState, Step) {
    if is_sfence(insn.raw) {
        if s.mode == Mode::User {
            (s, illegal(insn))
        } else {
            (
                HartState { pc: after(s, insn), ..without_translations(s) },
                Step::Retire(Effect::Redecode),
            )
        }
    } else {
        match insn.raw {
            0x0010_0073 => (s, Step::Raise(Trap::Breakpoint)),
            0x1050_0073 => (HartState { pc: after(s, insn), ..s }, Step::Retire(Effect::Pause)),
            0x0000_0073 => (s, Step::Raise(environment_call(s.mode))),
            0x3020_0073 => if s.mode != Mode::Machine {
                (s, illegal(insn))
            } else {
                let mstatus = s.csrs[CSR_MSTATUS as int];
                retired(
                    HartState {
                        mode: Mode::of_mpp((mstatus >> 11) & 3),
                        ..with_csr(s, CSR_MSTATUS, mstatus_after_mret(mstatus))
                    },
                    s.csrs[CSR_MEPC as int],
                )
            },
            0x1020_0073 => if s.mode != Mode::Supervisor {
                (s, illegal(insn))
            } else {
                let mstatus = s.csrs[CSR_MSTATUS as int];
                retired(
                    HartState {
                        mode: if (mstatus >> 8) & 1 == 0 {
                            Mode::User
                        } else {
                            Mode::Supervisor
                        },
                        ..with_csr(s, CSR_MSTATUS, mstatus_after_sret(mstatus))
                    },
                    s.csrs[CSR_SEPC as int],
                )
            },
            _ => (s, illegal(insn)),
        }
    }
}

/// An instruction that asks before anything else.
pub open spec fn ask(s: HartState, request: Request, pending: Pending) -> (HartState, Step) {
    (s, Step::Ask(request, pending))
}

/// How an instruction begins.
pub open spec fn begun(s: HartState, insn: Insn, op: Op) -> (HartState, Step) {
    match op {
        Op::Lui { rd, imm } => result_in(s, insn, rd, imm as u64),
        Op::Auipc { rd, imm } => result_in(s, insn, rd, s.pc.wrapping_add(imm as u64)),
        Op::Jal { rd, imm } => jump(
            with_reg(s, rd, after(s, insn)),
            s.pc.wrapping_add(imm as u64),
        ),
        Op::Jalr { rd, rs1, imm } => jump(
            with_reg(s, rd, after(s, insn)),
            s.regs[rs1 as int].wrapping_add(imm as u64) & !1,
        ),
        Op::Branch { rs1, rs2, imm, funct3 } => match alu::branch_taken(
            funct3,
            s.regs[rs1 as int],
            s.regs[rs2 as int],
        ) {
            Some(true) => jump(s, s.pc.wrapping_add(imm as u64)),
            Some(false) => retired(s, after(s, insn)),
            None => (s, illegal(insn)),
        },
        Op::Load { rd, rs1, imm, funct3 } => match alu::load_size(funct3) {
            Some(size) => ask(
                s,
                Request::Translate {
                    vaddr: s.regs[rs1 as int].wrapping_add(imm as u64),
                    access: AccessType::Load,
                },
                Pending::LoadAddress { rd, funct3, size },
            ),
            None => (s, illegal(insn)),
        },
        Op::Store { rs1, rs2, imm, funct3 } => {
            let vaddr = s.regs[rs1 as int].wrapping_add(imm as u64);
            ask(
                s,
                Request::Translate { vaddr, access: AccessType::Store },
                Pending::StoreAddress { vaddr, rs2, funct3 },
            )
        },
        Op::OpImm { rd, rs1, imm, funct3, funct7 } => compute(
            s,
            insn,
            rd,
            alu::imm_result(funct3, funct7, s.regs[rs1 as int], imm),
        ),
        Op::Op { rd, rs1, rs2, funct3, funct7 } => compute(
            s,
            insn,
            rd,
            alu::reg_result(funct3, funct7, s.regs[rs1 as int], s.regs[rs2 as int]),
        ),
        Op::OpImm32 { rd, rs1, imm, funct3, funct7 } => compute(
            s,
            insn,
            rd,
            alu::imm_result_32(funct3, funct7, s.regs[rs1 as int], imm),
        ),
        Op::Op32 { rd, rs1, rs2, funct3, funct7 } => compute(
            s,
            insn,
            rd,
            alu::reg_result_32(funct3, funct7, s.regs[rs1 as int], s.regs[rs2 as int]),
        ),
        Op::Amo { rd, rs1, rs2, funct3, funct5, .. } => {
            let vaddr = s.regs[rs1 as int];
            ask(
                s,
                Request::Translate { vaddr, access: AccessType::Load },
                Pending::AmoAddress { rd, vaddr, rs2, funct3, funct5 },
            )
        },
        Op::System { rd, rs1, funct3, imm } => match funct3 {
            0 => privileged(s, insn),
            4 => (s, illegal(insn)),
            1 | 2 | 3 | 5 | 6 | 7 => {
                let csr = (imm & 0xfff) as u16;
                ask(
                    s,
                    if csr == CSR_TIME {
                        Request::ReadTime
                    } else {
                        Request::ReadCsr { csr }
                    },
                    Pending::CsrOld { rd, rs1, funct3, csr },
                )
            },
            _ => (s, illegal(insn)),
        },
        Op::Fence => retired(s, after(s, insn)),
    }
}

/// What a control-register instruction writes, given the old value and its operand: the
/// number of `rs1` stands for itself in the immediate forms. Those that set or clear bits
/// write nothing where they name `x0` or zero.
pub open spec fn csr_next(funct3: u8, rs1: u8, rs1_value: u64, old_value: u64) -> Option<u64> {
    match funct3 {
        1 => Some(rs1_value),
        2 => if rs1 != 0 {
            Some(old_value | rs1_value)
        } else {
            None
        },
        3 => if rs1 != 0 {
            Some(old_value & !rs1_value)
        } else {
            None
        },
        5 => Some(rs1 as u64),
        6 => if rs1 != 0 {
            Some(old_value | (rs1 as u64))
        } else {
            None
        },
        7 => if rs1 != 0 {
            Some(old_value & !(rs1 as u64))
        } else {
            None
        },
        _ => None,
    }
}

/// The update that an atomic instruction makes.
pub open spec fn atomic_op(funct5: u8) -> Option<AtomicOp> {
    match funct5 {
        0b00001 => Some(AtomicOp::Swap),
        0b00000 => Some(AtomicOp::Plus),
        0b00100 => Some(AtomicOp::Xor),
        0b01000 => Some(AtomicOp::Or),
        0b01100 => Some(AtomicOp::And),
        0b10000 => Some(AtomicOp::Min),
        0b10100 => Some(AtomicOp::Max),
        0b11000 => Some(AtomicOp::Minu),
        0b11100 => Some(AtomicOp::Maxu),
        _ => None,
    }
}

/// How many bytes an atomic instruction accesses.
pub open spec fn amo_size(is_word: bool) -> u64 {
    if is_word {
        4
    } else {
        8
    }
}

/// An atomic instruction that knows its physical address.
pub open spec fn amo_at(
    s: HartState,
    mask: u64,
    insn: Insn,
    pa: u64,
    rd: u8,
    vaddr: u64,
    rs2: u8,
    is_word: bool,
    funct5: u8,
) -> (HartState, Step) {
    let size = amo_size(is_word);
    let value = s.regs[rs2 as int];
    match funct5 {
        0b00010 => ask(
            s,
            Request::Read { pa, size },
            Pending::ReservedData { rd, vaddr, is_word },
        ),
        0b00011 => if vaddr % size != 0 {
            (s, Step::Raise(Trap::StoreAddressMisaligned(vaddr)))
        } else if s.reservation == Some(vaddr & mask) {
            ask(s, Request::Write { pa, size, value }, Pending::ConditionalDone { rd })
        } else {
            result_in(s, insn, rd, 1)
        },
        _ => match atomic_op(funct5) {
            Some(op) => ask(
                without_reservation(s, mask, vaddr),
                Request::Atomic { op, pa, value, is_word },
                Pending::AmoData { rd },
            ),
            None => (s, illegal(insn)),
        },
    }
}

/// A control-register instruction that knows the old value.
pub open spec fn csr_read(
    s: HartState,
    insn: Insn,
    rd: u8,
    rs1: u8,
    funct3: u8,
    csr: u16,
    old_value: u64,
) -> (HartState, Step) {
    match csr_next(funct3, rs1, s.regs[rs1 as int], old_value) {
        Some(value) => ask(
            s,
            Request::WriteCsr { csr, value },
            Pending::CsrDone { rd, csr, old_value },
        ),
        None => result_in(s, insn, rd, old_value),
    }
}

/// How an instruction goes on with an answer. A change of the address space drops the
/// cached translations.
pub open spec fn resumed(
    s: HartState,
    mask: u64,
    insn: Insn,
    pending: Pending,
    reply: Result<u64, Trap>,
) -> (HartState, Step) {
    match (pending, reply) {
        (Pending::LoadAddress { rd, funct3, size }, Ok(pa)) => ask(
            s,
            Request::Read { pa, size },
            Pending::LoadData { rd, funct3 },
        ),
        (Pending::LoadData { rd, funct3 }, Ok(value)) => result_in(
            s,
            insn,
            rd,
            alu::load_value(funct3, value),
        ),
        (Pending::StoreAddress { vaddr, rs2, funct3 }, Ok(pa)) => {
            let cleared = without_reservation(s, mask, vaddr);
            match alu::store_size(funct3) {
                Some(size) => ask(
                    cleared,
                    Request::Write { pa, size, value: s.regs[rs2 as int] },
                    Pending::StoreDone,
                ),
                None => (cleared, illegal(insn)),
            }
        },
        (Pending::StoreDone, Ok(_)) => retired(s, after(s, insn)),
        (Pending::AmoAddress { rd, vaddr, rs2, funct3, funct5 }, Ok(pa)) => match funct3 {
            2 => amo_at(s, mask, insn, pa, rd, vaddr, rs2, true, funct5),
            3 => amo_at(s, mask, insn, pa, rd, vaddr, rs2, false, funct5),
            _ => (s, illegal(insn)),
        },
        (Pending::ReservedData { rd, vaddr, is_word }, Ok(value)) => result_in(
            HartState { reservation: Some(vaddr & mask), ..s },
            insn,
            rd,
            if is_word {
                (value as i32) as i64 as u64
            } else {
                value
            },
        ),
        (Pending::ConditionalDone { rd }, Ok(_)) => result_in(
            HartState { reservation: None, ..s },
            insn,
            rd,
            0,
        ),
        (Pending::AmoData { rd }, Ok(value)) => result_in(s, insn, rd, value),
        (Pending::CsrOld { rd, rs1, funct3, csr }, Ok(value)) => csr_read(
            s,
            insn,
            rd,
            rs1,
            funct3,
            csr,
            value,
        ),
        (Pending::CsrDone { rd, csr, old_value }, Ok(_)) => if csr == CSR_SATP {
            (
                result_in(without_translations(s), insn, rd, old_value).0,
                Step::Retire(Effect::Redecode),
            )
        } else {
            result_in(s, insn, rd, old_value)
        },
        (Pending::CsrOld { rd, rs1, funct3, csr }, Err(trap)) => if csr == CSR_TIME {
            csr_read(s, insn, rd, rs1, funct3, csr, 0)
        } else {
            (s, Step::Raise(trap))
        },
        (Pending::LoadAddress { .. }, Err(trap)) => (s, Step::Abort(trap)),
        (Pending::StoreAddress { .. }, Err(trap)) => (s, Step::Abort(trap)),
        (Pending::AmoAddress { .. }, Err(trap)) => (s, Step::Abort(trap)),
        (_, Err(trap)) => (s, Step::Raise(trap)),
    }
}

/// That a step which asks names registers that exist.
pub open spec fn asks_well(step: Step) -> bool {
    match step {
        Step::Ask(_, pending) => pending.wf(),
        _ => true,
    }
}

impl Cpu {
    /// Ends an instruction, with `pc` the next.
    fn retire(&mut self, pc: u64) -> (step: Step)
        ensures
            (final(self)@, step) == retired(old(self)@, pc),
            same_setup(*final(self), *old(self)),
    {
        self.pc = pc;
        Step::Retire(Effect::Nothing)
    }

    /// Ends an instruction with a result.
    fn retire_with(&mut self, insn: Insn, rd: u8, value: u64) -> (step: Step)
        requires
            rd < 32,
        ensures
            (final(self)@, step) == result_in(old(self)@, insn, rd, value),
            same_setup(*final(self), *old(self)),
    {
        let pc: u64 = self.pc.wrapping_add(insn.len as u64);
        self.write_reg(rd, value);
        self.retire(pc)
    }

    /// Ends an instruction whose result may not exist.
    fn retire_computed(&mut self, insn: Insn, rd: u8, value: Option<u64>) -> (step: Step)
        requires
            rd < 32,
        ensures
            (final(self)@, step) == compute(old(self)@, insn, rd, value),
            same_setup(*final(self), *old(self)),
    {
        match value {
            Some(value) => self.retire_with(insn, rd, value),
            None => Step::Raise(Trap::IllegalInstruction(insn.raw as u64)),
        }
    }

    /// Ends an instruction that goes on at `target`.
    fn jump_to(&mut self, target: u64) -> (step: Step)
        ensures
            (final(self)@, step) == jump(old(self)@, target),
            same_setup(*final(self), *old(self)),
    {
        if target % 2 != 0 {
            Step::Raise(Trap::InstructionAddressMisaligned(target))
        } else {
            self.retire(target)
        }
    }

    /// Executes an instruction on the hart itself.
    fn execute_privileged(&mut self, insn: Insn) -> (step: Step)
        requires
            old(self)@.wf(),
        ensures
            (final(self)@, step) == privileged(old(self)@, insn),
            same_setup(*final(self), *old(self)),
            asks_well(step),
    {
        let next: u64 = self.pc.wrapping_add(insn.len as u64);
        if insn.raw & 0xfe00_707f == 0x1200_0073 {
            if self.mode == Mode::User {
                return Step::Raise(Trap::IllegalInstruction(insn.raw as u64));
            }
            self.tlb.flush();
            self.pc = next;
            assert(self@ =~= privileged(old(self)@, insn).0);
            return Step::Retire(Effect::Redecode);
        }
        match insn.raw {
            0x0010_0073 => Step::Raise(Trap::Breakpoint),
            0x1050_0073 => {
                self.pc = next;
                Step::Retire(Effect::Pause)
            },
            0x0000_0073 => Step::Raise(environment_call_trap(self.mode)),
            0x3020_0073 => {
                if self.mode != Mode::Machine {
                    return Step::Raise(Trap::IllegalInstruction(insn.raw as u64));
                }
                let mstatus: u64 = self.csrs[CSR_MSTATUS as usize];
                let mepc: u64 = self.csrs[CSR_MEPC as usize];
                let mpie: u64 = (mstatus >> 7) & 1;
                self.mode = Mode::from_mpp((mstatus >> 11) & 3);
                let enabled: u64 = (mstatus & !(1u64 << 3)) | (mpie << 3);
                self.csrs[CSR_MSTATUS as usize] = (enabled | (1u64 << 7)) & !(3u64 << 11);
                self.retire(mepc)
            },
            0x1020_0073 => {
                if self.mode != Mode::Supervisor {
                    return Step::Raise(Trap::IllegalInstruction(insn.raw as u64));
                }
                let mstatus: u64 = self.csrs[CSR_MSTATUS as usize];
                let sepc: u64 = self.csrs[CSR_SEPC as usize];
                let spp: u64 = (mstatus >> 8) & 1;
                let spie: u64 = (mstatus >> 5) & 1;
                self.mode = if spp == 0 {
                    Mode::User
                } else {
                    Mode::Supervisor
                };
                let enabled: u64 = (mstatus & !(1u64 << 1)) | (spie << 1);
                self.csrs[CSR_MSTATUS as usize] = (enabled | (1u64 << 5)) & !(1u64 << 8);
                self.retire(sepc)
            },
            _ => Step::Raise(Trap::IllegalInstruction(insn.raw as u64)),
        }
    }

    /// Begins a decoded instruction.
    pub fn step_single_inner(&mut self, insn: Insn, op: Op) -> (step: Step)
        requires
            old(self)@.wf(),
            op.wf(),
        ensures
            (final(self)@, step) == begun(old(self)@, insn, op),
            same_setup(*final(self), *old(self)),
            final(self)@.wf(),
            asks_well(step),
    {
        let pc: u64 = self.pc;
        let next: u64 = pc.wrapping_add(insn.len as u64);
        match op {
            Op::Lui { rd, imm } => self.retire_with(insn, rd, imm as u64),
            Op::Auipc { rd, imm } => self.retire_with(insn, rd, pc.wrapping_add(imm as u64)),
            Op::Jal { rd, imm } => {
                self.write_reg(rd, next);
                self.jump_to(pc.wrapping_add(imm as u64))
            },
            Op::Jalr { rd, rs1, imm } => {
                let target: u64 = self.read_reg(rs1).wrapping_add(imm as u64) & !1;
                self.write_reg(rd, next);
                self.jump_to(target)
            },
            Op::Branch { rs1, rs2, imm, funct3 } => {
                match alu::compare(funct3, self.read_reg(rs1), self.read_reg(rs2)) {
                    Some(taken) => {
                        if taken {
                            self.jump_to(pc.wrapping_add(imm as u64))
                        } else {
                            self.retire(next)
                        }
                    },
                    None => Step::Raise(Trap::IllegalInstruction(insn.raw as u64)),
                }
            },
            Op::Load { rd, rs1, imm, funct3 } => {
                let vaddr: u64 = self.read_reg(rs1).wrapping_add(imm as u64);
                match alu::size_of_load(funct3) {
                    Some(size) => Step::Ask(
                        Request::Translate { vaddr, access: AccessType::Load },
                        Pending::LoadAddress { rd, funct3, size },
                    ),
                    None => Step::Raise(Trap::IllegalInstruction(insn.raw as u64)),
                }
            },
            Op::Store { rs1, rs2, imm, funct3 } => {
                let vaddr: u64 = self.read_reg(rs1).wrapping_add(imm as u64);
                Step::Ask(
                    Request::Translate { vaddr, access: AccessType::Store },
                    Pending::StoreAddress { vaddr, rs2, funct3 },
                )
            },
            Op::OpImm { rd, rs1, imm, funct3, funct7 } => {
                let value = alu::apply_imm(funct3, funct7, self.read_reg(rs1), imm);
                self.retire_computed(insn, rd, value)
            },
            Op::Op { rd, rs1, rs2, funct3, funct7 } => {
                let value = alu::apply_reg(funct3, funct7, self.read_reg(rs1), self.read_reg(rs2));
                self.retire_computed(insn, rd, value)
            },
            Op::OpImm32 { rd, rs1, imm, funct3, funct7 } => {
                let value = alu::apply_imm_32(funct3, funct7, self.read_reg(rs1), imm);
                self.retire_computed(insn, rd, value)
            },
            Op::Op32 { rd, rs1, rs2, funct3, funct7 } => {
                let value = alu::apply_reg_32(
                    funct3,
                    funct7,
                    self.read_reg(rs1),
                    self.read_reg(rs2),
                );
                self.retire_computed(insn, rd, value)
            },
            Op::Amo { rd, rs1, rs2, funct3, funct5, .. } => {
                let vaddr: u64 = self.read_reg(rs1);
                Step::Ask(
                    Request::Translate { vaddr, access: AccessType::Load },
                    Pending::AmoAddress { rd, vaddr, rs2, funct3, funct5 },
                )
            },
            Op::System { rd, rs1, funct3, imm } => {
                if funct3 == 0 {
                    return self.execute_privileged(insn);
                }
                if funct3 == 4 || funct3 > 7 {
                    return Step::Raise(Trap::IllegalInstruction(insn.raw as u64));
                }
                let csr: u16 = (imm & 0xfff) as u16;
                let request = if csr == CSR_TIME {
                    Request::ReadTime
                } else {
                    Request::ReadCsr { csr }
                };
                Step::Ask(request, Pending::CsrOld { rd, rs1, funct3, csr })
            },
            Op::Fence => self.retire(next),
        }
    }

    /// Goes on with an atomic instruction at `pa`.
    fn amo(
        &mut self,
        insn: Insn,
        pa: u64,
        rd: u8,
        vaddr: u64,
        rs2: u8,
        is_word: bool,
        funct5: u8,
    ) -> (step: Step)
        requires
            old(self)@.wf(),
            rd < 32,
            rs2 < 32,
        ensures
            (final(self)@, step) == amo_at(
                old(self)@,
                old(self).reservation_mask,
                insn,
                pa,
                rd,
                vaddr,
                rs2,
                is_word,
                funct5,
            ),
            same_setup(*final(self), *old(self)),
            asks_well(step),
    {
        let size: u64 = if is_word {
            4
        } else {
            8
        };
        let value: u64 = self.read_reg(rs2);
        if funct5 == 0b00010 {
            return Step::Ask(
                Request::Read { pa, size },
                Pending::ReservedData { rd, vaddr, is_word },
            );
        }
        if funct5 == 0b00011 {
            if vaddr % size != 0 {
                return Step::Raise(Trap::StoreAddressMisaligned(vaddr));
            }
            let granule: u64 = self.reservation_granule(vaddr);
            let held: bool = match self.reservation {
                Some(reserved) => reserved == granule,
                None => false,
            };
            return if held {
                Step::Ask(Request::Write { pa, size, value }, Pending::ConditionalDone { rd })
            } else {
                self.retire_with(insn, rd, 1)
            };
        }
        let op = match funct5 {
            0b00001 => AtomicOp::Swap,
            0b00000 => AtomicOp::Plus,
            0b00100 => AtomicOp::Xor,
            0b01000 => AtomicOp::Or,
            0b01100 => AtomicOp::And,
            0b10000 => AtomicOp::Min,
            0b10100 => AtomicOp::Max,
            0b11000 => AtomicOp::Minu,
            0b11100 => AtomicOp::Maxu,
            _ => {
                return Step::Raise(Trap::IllegalInstruction(insn.raw as u64));
            },
        };
        self.clear_reservation_if_conflict(vaddr);
        Step::Ask(Request::Atomic { op, pa, value, is_word }, Pending::AmoData { rd })
    }

    /// Goes on with a control-register instruction that knows the old value.
    fn csr_known(
        &mut self,
        insn: Insn,
        rd: u8,
        rs1: u8,
        funct3: u8,
        csr: u16,
        old_value: u64,
    ) -> (step: Step)
        requires
            old(self)@.wf(),
            rd < 32,
            rs1 < 32,
        ensures
            (final(self)@, step) == csr_read(old(self)@, insn, rd, rs1, funct3, csr, old_value),
            same_setup(*final(self), *old(self)),
            asks_well(step),
    {
        let rs1_value: u64 = self.read_reg(rs1);
        let new_value: Option<u64> = match funct3 {
            1 => Some(rs1_value),
            2 => if rs1 != 0 {
                Some(old_value | rs1_value)
            } else {
                None
            },
            3 => if rs1 != 0 {
                Some(old_value & !rs1_value)
            } else {
                None
            },
            5 => Some(rs1 as u64),
            6 => if rs1 != 0 {
                Some(old_value | (rs1 as u64))
            } else {
                None
            },
            7 => if rs1 != 0 {
                Some(old_value & !(rs1 as u64))
            } else {
                None
            },
            _ => None,
        };
        match new_value {
            Some(value) => Step::Ask(
                Request::WriteCsr { csr, value },
                Pending::CsrDone { rd, csr, old_value },
            ),
            None => self.retire_with(insn, rd, old_value),
        }
    }

    /// Goes on with an instruction that failed to get what it asked for.
    fn resume_failed(&mut self, insn: Insn, pending: Pending, trap: Trap) -> (step: Step)
        requires
            old(self)@.wf(),
            pending.wf(),
        ensures
            (final(self)@, step) == resumed(
                old(self)@,
                old(self).reservation_mask,
                insn,
                pending,
                Err(trap),
            ),
            same_setup(*final(self), *old(self)),
            asks_well(step),
    {
        match pending {
            Pending::CsrOld { rd, rs1, funct3, csr } => {
                if csr == CSR_TIME {
                    self.csr_known(insn, rd, rs1, funct3, csr, 0)
                } else {
                    Step::Raise(trap)
                }
            },
            Pending::LoadAddress { .. } => Step::Abort(trap),
            Pending::StoreAddress { .. } => Step::Abort(trap),
            Pending::AmoAddress { .. } => Step::Abort(trap),
            _ => Step::Raise(trap),
        }
    }

    /// Goes on with an instruction that got what it asked for.
    fn resume_answered(&mut self, insn: Insn, pending: Pending, value: u64) -> (step: Step)
        requires
            old(self)@.wf(),
            pending.wf(),
        ensures
            (final(self)@, step) == resumed(
                old(self)@,
                old(self).reservation_mask,
                insn,
                pending,
                Ok(value),
            ),
            same_setup(*final(self), *old(self)),
            asks_well(step),
    {
        match pending {
            Pending::LoadAddress { rd, funct3, size } => Step::Ask(
                Request::Read { pa: value, size },
                Pending::LoadData { rd, funct3 },
            ),
            Pending::LoadData { rd, funct3 } => self.retire_with(
                insn,
                rd,
                alu::widen(funct3, value),
            ),
            Pending::StoreAddress { vaddr, rs2, funct3 } => {
                self.clear_reservation_if_conflict(vaddr);
                let stored: u64 = self.read_reg(rs2);
                match alu::size_of_store(funct3) {
                    Some(size) => Step::Ask(
                        Request::Write { pa: value, size, value: stored },
                        Pending::StoreDone,
                    ),
                    None => Step::Raise(Trap::IllegalInstruction(insn.raw as u64)),
                }
            },
            Pending::StoreDone => {
                let next: u64 = self.pc.wrapping_add(insn.len as u64);
                self.retire(next)
            },
            Pending::AmoAddress { rd, vaddr, rs2, funct3, funct5 } => {
                if funct3 == 2 {
                    self.amo(insn, value, rd, vaddr, rs2, true, funct5)
                } else if funct3 == 3 {
                    self.amo(insn, value, rd, vaddr, rs2, false, funct5)
                } else {
                    Step::Raise(Trap::IllegalInstruction(insn.raw as u64))
                }
            },
            Pending::ReservedData { rd, vaddr, is_word } => {
                let granule: u64 = self.reservation_granule(vaddr);
                self.reservation = Some(granule);
                let loaded: u64 = if is_word {
                    (value as i32) as i64 as u64
                } else {
                    value
                };
                self.retire_with(insn, rd, loaded)
            },
            Pending::ConditionalDone { rd } => {
                self.reservation = None;
                self.retire_with(insn, rd, 0)
            },
            Pending::AmoData { rd } => self.retire_with(insn, rd, value),
            Pending::CsrOld { rd, rs1, funct3, csr } => self.csr_known(
                insn,
                rd,
                rs1,
                funct3,
                csr,
                value,
            ),
            Pending::CsrDone { rd, csr, old_value } => {
                if csr == CSR_SATP {
                    self.tlb.flush();
                    assert(self@ =~= without_translations(old(self)@));
                    let _ = self.retire_with(insn, rd, old_value);
                    Step::Retire(Effect::Redecode)
                } else {
                    self.retire_with(insn, rd, old_value)
                }
            },
        }
    }

    /// Goes on with an instruction that waits for an answer.
    pub fn resume(&mut self, insn: Insn, pending: Pending, reply: Result<u64, Trap>) -> (step: Step)
        requires
            old(self)@.wf(),
            pending.wf(),
        ensures
            (final(self)@, step) == resumed(
                old(self)@,
                old(self).reservation_mask,
                insn,
                pending,
                reply,
            ),
            same_setup(*final(self), *old(self)),
            final(self)@.wf(),
            asks_well(step),
    {
        match reply {
            Ok(value) => self.resume_answered(insn, pending, value),
            Err(trap) => self.resume_failed(insn, pending, trap),
        }
    }
}

/// Whether an instruction waits for an address.
pub open spec fn wants_address(pending: Pending) -> bool {
    pending is LoadAddress || pending is StoreAddress || pending is AmoAddress
}

/// An instruction that begins by asking has changed nothing, and asks for an address where
/// it waits for one.
pub proof fn lemma_beginning_asks(s: HartState, insn: Insn, op: Op)
    ensures
        !(begun(s, insn, op).1 is Abort),
        begun(s, insn, op).1 matches Step::Ask(request, pending) ==> begun(s, insn, op).0 == s && (
        wants_address(pending) ==> request is Translate),
{
}

/// An instruction ends in the trap of a translation only where it waited for an address, and
/// it waits for none a second time.
pub proof fn lemma_going_on_asks(
    s: HartState,
    mask: u64,
    insn: Insn,
    pending: Pending,
    reply: Result<u64, Trap>,
)
    ensures
        resumed(s, mask, insn, pending, reply).1 is Abort ==> wants_address(pending) && resumed(
            s,
            mask,
            insn,
            pending,
            reply,
        ).0 == s,
        resumed(s, mask, insn, pending, reply).1 matches Step::Ask(_, next) ==> !wants_address(
            next,
        ),
{
}

// Laws.

/// An instruction that begins keeps a state valid; `x0` in particular stays zero.
pub proof fn law_beginning_keeps_state_valid(s: HartState, insn: Insn, op: Op)
    requires
        s.wf(),
        op.wf(),
    ensures
        begun(s, insn, op).0.wf(),
        asks_well(begun(s, insn, op).1),
{
    match op {
        Op::System { funct3, .. } => {
            lemma_privileged_keeps_state_valid(s, insn);
        },
        Op::OpImm { rd, rs1, imm, funct3, funct7 } => {
            let value = alu::imm_result(funct3, funct7, s.regs[rs1 as int], imm);
            assert(compute(s, insn, rd, value).0.wf());
        },
        Op::Op { rd, rs1, rs2, funct3, funct7 } => {
            let value = alu::reg_result(funct3, funct7, s.regs[rs1 as int], s.regs[rs2 as int]);
            assert(compute(s, insn, rd, value).0.wf());
        },
        Op::OpImm32 { rd, rs1, imm, funct3, funct7 } => {
            let value = alu::imm_result_32(funct3, funct7, s.regs[rs1 as int], imm);
            assert(compute(s, insn, rd, value).0.wf());
        },
        Op::Op32 { rd, rs1, rs2, funct3, funct7 } => {
            let value = alu::reg_result_32(funct3, funct7, s.regs[rs1 as int], s.regs[rs2 as int]);
            assert(compute(s, insn, rd, value).0.wf());
        },
        _ => {},
    }
}

proof fn lemma_privileged_keeps_state_valid(s: HartState, insn: Insn)
    requires
        s.wf(),
    ensures
        privileged(s, insn).0.wf(),
        asks_well(privileged(s, insn).1),
{
}

/// An instruction that goes on keeps a state valid; `x0` in particular stays zero.
pub proof fn law_going_on_keeps_state_valid(
    s: HartState,
    mask: u64,
    insn: Insn,
    pending: Pending,
    reply: Result<u64, Trap>,
)
    requires
        s.wf(),
        pending.wf(),
    ensures
        resumed(s, mask, insn, pending, reply).0.wf(),
        asks_well(resumed(s, mask, insn, pending, reply).1),
{
}

/// An instruction that is not complete, or ends in a trap, has not moved the program
/// counter, nor changed the mode or a control register.
pub proof fn law_incomplete_instruction_stays_put(
    s: HartState,
    mask: u64,
    insn: Insn,
    op: Op,
    pending: Pending,
    reply: Result<u64, Trap>,
)
    ensures
        !(begun(s, insn, op).1 is Retire) ==> ({
            let next = begun(s, insn, op).0;
            next.pc == s.pc && next.mode == s.mode && next.csrs == s.csrs && next.tlb == s.tlb
        }),
        !(resumed(s, mask, insn, pending, reply).1 is Retire) ==> ({
            let next = resumed(s, mask, insn, pending, reply).0;
            next.pc == s.pc && next.mode == s.mode && next.csrs == s.csrs && next.tlb == s.tlb
                && next.regs == s.regs
        }),
{
}

/// A conditional store without a reservation of its granule stores nothing and says so.
pub proof fn law_conditional_store_needs_reservation(
    s: HartState,
    mask: u64,
    insn: Insn,
    pa: u64,
    rd: u8,
    vaddr: u64,
    rs2: u8,
    is_word: bool,
)
    requires
        s.reservation != Some(vaddr & mask),
        vaddr % amo_size(is_word) == 0,
    ensures
        amo_at(s, mask, insn, pa, rd, vaddr, rs2, is_word, 0b00011) == result_in(s, insn, rd, 1),
{
}

/// A conditional store right after a load that reserved its granule is carried out.
pub proof fn law_conditional_store_after_reservation(
    s: HartState,
    mask: u64,
    load: Insn,
    load_rd: u8,
    load_vaddr: u64,
    load_is_word: bool,
    loaded: u64,
    insn: Insn,
    pa: u64,
    rd: u8,
    vaddr: u64,
    rs2: u8,
    is_word: bool,
)
    requires
        vaddr & mask == load_vaddr & mask,
        vaddr % amo_size(is_word) == 0,
    ensures
        ({
            let (reserved, _) = resumed(
                s,
                mask,
                load,
                Pending::ReservedData {
                    rd: load_rd,
                    vaddr: load_vaddr,
                    is_word: load_is_word,
                },
                Ok(loaded),
            );
            let (asked, step) = amo_at(
                reserved,
                mask,
                insn,
                pa,
                rd,
                vaddr,
                rs2,
                is_word,
                0b00011,
            );
            &&& asked == reserved
            &&& step == Step::Ask(
                Request::Write {
                    pa,
                    size: amo_size(is_word),
                    value: reserved.regs[rs2 as int],
                },
                Pending::ConditionalDone { rd },
            )
        }),
{
}

/// A store or an atomic update takes away the reservation of its granule, and a
/// conditional store that was carried out takes away any.
pub proof fn law_stores_end_reservations(
    s: HartState,
    mask: u64,
    insn: Insn,
    vaddr: u64,
    rs2: u8,
    rd: u8,
    funct3: u8,
    funct5: u8,
    pa: u64,
    is_word: bool,
)
    requires
        s.reservation == Some(vaddr & mask),
    ensures
        resumed(
            s,
            mask,
            insn,
            Pending::StoreAddress { vaddr, rs2, funct3 },
            Ok(pa),
        ).0.reservation is None,
        atomic_op(funct5) is Some ==> amo_at(
            s,
            mask,
            insn,
            pa,
            rd,
            vaddr,
            rs2,
            is_word,
            funct5,
        ).0.reservation is None,
        resumed(s, mask, insn, Pending::ConditionalDone { rd }, Ok(0)).0.reservation is None,
{
}

/// A return from machine mode goes back to the previous mode, enables interrupts as they
/// were before, and leaves user mode as the previous one.
pub proof fn law_return_from_machine_mode(s: HartState, len: u8)
    requires
        s.wf(),
        s.mode == Mode::Machine,
    ensures
        ({
            let (next, step) = privileged(s, (Insn { raw: 0x3020_0073, len }));
            let before = s.csrs[CSR_MSTATUS as int];
            let after = next.csrs[CSR_MSTATUS as int];
            &&& step == Step::Retire(Effect::Nothing)
            &&& next.pc == s.csrs[CSR_MEPC as int]
            &&& next.mode == Mode::of_mpp((before >> 11) & 3)
            &&& (after >> 3) & 1 == (before >> 7) & 1
            &&& (after >> 7) & 1 == 1
            &&& (after >> 11) & 3 == 0
            &&& after & !0x1888 == before & !0x1888
        }),
{
    lemma_privileged_codes();
    let m = s.csrs[CSR_MSTATUS as int];
    lemma_mret_bits(m);
}

proof fn lemma_mret_bits(m: u64)
    by (bit_vector)
    ensures
        (mstatus_after_mret(m) >> 3) & 1 == (m >> 7) & 1,
        (mstatus_after_mret(m) >> 7) & 1 == 1,
        (mstatus_after_mret(m) >> 11) & 3 == 0,
        mstatus_after_mret(m) & !0x1888u64 == m & !0x1888u64,
{
}

/// A return from supervisor mode goes back to the previous mode, enables interrupts as
/// they were before, and leaves user mode as the previous one.
pub proof fn law_return_from_supervisor_mode(s: HartState, len: u8)
    requires
        s.wf(),
        s.mode == Mode::Supervisor,
    ensures
        ({
            let (next, step) = privileged(s, (Insn { raw: 0x1020_0073, len }));
            let before = s.csrs[CSR_MSTATUS as int];
            let after = next.csrs[CSR_MSTATUS as int];
            &&& step == Step::Retire(Effect::Nothing)
            &&& next.pc == s.csrs[CSR_SEPC as int]
            &&& next.mode == (if (before >> 8) & 1 == 0 {
                Mode::User
            } else {
                Mode::Supervisor
            })
            &&& (after >> 1) & 1 == (before >> 5) & 1
            &&& (after >> 5) & 1 == 1
            &&& (after >> 8) & 1 == 0
            &&& after & !0x122 == before & !0x122
        }),
{
    lemma_privileged_codes();
    let m = s.csrs[CSR_MSTATUS as int];
    lemma_sret_bits(m);
}

proof fn lemma_sret_bits(m: u64)
    by (bit_vector)
    ensures
        (mstatus_after_sret(m) >> 1) & 1 == (m >> 5) & 1,
        (mstatus_after_sret(m) >> 5) & 1 == 1,
        (mstatus_after_sret(m) >> 8) & 1 == 0,
        mstatus_after_sret(m) & !0x122u64 == m & !0x122u64,
{
}

/// The instructions of higher modes do not exist for lower ones.
pub proof fn law_modes_are_guarded(s: HartState, len: u8)
    ensures
        s.mode != Mode::Machine ==> privileged(s, (Insn { raw: 0x3020_0073, len })) == (
            s,
            Step::Raise(Trap::IllegalInstruction(0x3020_0073)),
        ),
        s.mode != Mode::Supervisor ==> privileged(s, (Insn { raw: 0x1020_0073, len })) == (
            s,
            Step::Raise(Trap::IllegalInstruction(0x1020_0073)),
        ),
        s.mode == Mode::User ==> privileged(s, (Insn { raw: 0x1200_0073, len })) == (
            s,
            Step::Raise(Trap::IllegalInstruction(0x1200_0073)),
        ),
{
    lemma_privileged_codes();
}

/// Which of the instructions on the hart itself are an SFENCE.VMA.
pub proof fn lemma_privileged_codes()
    by (bit_vector)
    ensures
        0x3020_0073u32 & 0xfe00_707f != 0x1200_0073,
        0x1020_0073u32 & 0xfe00_707f != 0x1200_0073,
        0x1050_0073u32 & 0xfe00_707f != 0x1200_0073,
        0x0010_0073u32 & 0xfe00_707f != 0x1200_0073,
        0x0000_0073u32 & 0xfe00_707f != 0x1200_0073,
        0x1200_0073u32 & 0xfe00_707f == 0x1200_0073,
{
}

/// A control-register instruction that sets or clears bits and names no register only
/// reads: it asks for no write.
pub proof fn law_reading_writes_nothing(
    s: HartState,
    mask: u64,
    insn: Insn,
    rd: u8,
    funct3: u8,
    csr: u16,
    value: u64,
)
    requires
        funct3 == 2 || funct3 == 3 || funct3 == 6 || funct3 == 7,
    ensures
        resumed(s, mask, insn, Pending::CsrOld { rd, rs1: 0, funct3, csr }, Ok(value)) == result_in(
            s,
            insn,
            rd,
            value,
        ),
{
}

} // verus!
