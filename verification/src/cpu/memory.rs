//! Instructions on memory, carried out on a bus.

use crate::bus::SystemBus;
use crate::cpu::csr::{CSR_MSTATUS, CSR_SATP};
use crate::cpu::decoder::Op;
use crate::cpu::execution::{AtomicOp, Insn, Request, Step};
use crate::cpu::hart::Cpu;
use crate::cpu::types::Trap;
use crate::mmu;
use vstd::prelude::*;

verus! {

use crate::bytes;
use crate::cpu::alu;
use crate::cpu::execution::{after as after_insn, Effect};
use crate::cpu::hart::without_reservation;
use crate::cpu::types::AccessType;
use crate::vm::dram;
use crate::bus::{read_result, write_result, SystemState};
use crate::cpu::execution::{
    asks_well, begun, lemma_beginning_asks, lemma_going_on_asks, resumed,
};
use crate::cpu::hart::{same_setup, HartState};
use crate::mmu::translation;

/// The value that an atomic update leaves in a doubleword.
pub open spec fn updated(op: AtomicOp, a: u64, b: u64) -> u64 {
    match op {
        AtomicOp::Swap => b,
        AtomicOp::Plus => a.wrapping_add(b),
        AtomicOp::Xor => a ^ b,
        AtomicOp::And => a & b,
        AtomicOp::Or => a | b,
        AtomicOp::Min => if (a as i64) < (b as i64) {
            a
        } else {
            b
        },
        AtomicOp::Max => if (a as i64) > (b as i64) {
            a
        } else {
            b
        },
        AtomicOp::Minu => if a < b {
            a
        } else {
            b
        },
        AtomicOp::Maxu => if a > b {
            a
        } else {
            b
        },
    }
}

fn update(op: AtomicOp, a: u64, b: u64) -> (r: u64)
    ensures
        r == updated(op, a, b),
{
    match op {
        AtomicOp::Swap => b,
        AtomicOp::Plus => a.wrapping_add(b),
        AtomicOp::Xor => a ^ b,
        AtomicOp::And => a & b,
        AtomicOp::Or => a | b,
        AtomicOp::Min => if (a as i64) < (b as i64) {
            a
        } else {
            b
        },
        AtomicOp::Max => if (a as i64) > (b as i64) {
            a
        } else {
            b
        },
        AtomicOp::Minu => if a < b {
            a
        } else {
            b
        },
        AtomicOp::Maxu => if a > b {
            a
        } else {
            b
        },
    }
}

/// The value that an atomic update leaves in a word.
pub open spec fn updated_word(op: AtomicOp, a: u32, b: u32) -> u32 {
    match op {
        AtomicOp::Swap => b,
        AtomicOp::Plus => a.wrapping_add(b),
        AtomicOp::Xor => a ^ b,
        AtomicOp::And => a & b,
        AtomicOp::Or => a | b,
        AtomicOp::Min => if (a as i32) < (b as i32) {
            a
        } else {
            b
        },
        AtomicOp::Max => if (a as i32) > (b as i32) {
            a
        } else {
            b
        },
        AtomicOp::Minu => if a < b {
            a
        } else {
            b
        },
        AtomicOp::Maxu => if a > b {
            a
        } else {
            b
        },
    }
}

fn update_word(op: AtomicOp, a: u32, b: u32) -> (r: u32)
    ensures
        r == updated_word(op, a, b),
{
    match op {
        AtomicOp::Swap => b,
        AtomicOp::Plus => a.wrapping_add(b),
        AtomicOp::Xor => a ^ b,
        AtomicOp::And => a & b,
        AtomicOp::Or => a | b,
        AtomicOp::Min => if (a as i32) < (b as i32) {
            a
        } else {
            b
        },
        AtomicOp::Max => if (a as i32) > (b as i32) {
            a
        } else {
            b
        },
        AtomicOp::Minu => if a < b {
            a
        } else {
            b
        },
        AtomicOp::Maxu => if a > b {
            a
        } else {
            b
        },
    }
}

/// The bus after an atomic update, and the old value; a word is sign-extended.
pub open spec fn atomic_result(
    bus: SystemState,
    op: AtomicOp,
    pa: u64,
    value: u64,
    is_word: bool,
) -> (SystemState, Result<u64, Trap>) {
    if is_word {
        match read_result(bus, pa, 4) {
            Ok(read) => {
                let a = read as u32;
                let (after, done) = write_result(
                    bus,
                    pa,
                    4,
                    updated_word(op, a, value as u32) as u64,
                );
                match done {
                    Ok(_) => (after, Ok(a as i32 as i64 as u64)),
                    Err(trap) => (after, Err(trap)),
                }
            },
            Err(trap) => (bus, Err(trap)),
        }
    } else {
        match read_result(bus, pa, 8) {
            Ok(a) => {
                let (after, done) = write_result(bus, pa, 8, updated(op, a, value));
                match done {
                    Ok(_) => (after, Ok(a)),
                    Err(trap) => (after, Err(trap)),
                }
            },
            Err(trap) => (bus, Err(trap)),
        }
    }
}

fn atomic(bus: &mut SystemBus, op: AtomicOp, pa: u64, value: u64, is_word: bool) -> (r: Result<
    u64,
    Trap,
>)
    ensures
        (final(bus)@, r) == atomic_result(old(bus)@, op, pa, value, is_word),
{
    if is_word {
        let a: u32 = match bus.read32(pa) {
            Ok(a) => a,
            Err(trap) => {
                return Err(trap);
            },
        };
        match bus.write32(pa, update_word(op, a, value as u32)) {
            Ok(_) => Ok(a as i32 as i64 as u64),
            Err(trap) => Err(trap),
        }
    } else {
        let a: u64 = match bus.read64(pa) {
            Ok(a) => a,
            Err(trap) => {
                return Err(trap);
            },
        };
        match bus.write64(pa, update(op, a, value)) {
            Ok(_) => Ok(a),
            Err(trap) => Err(trap),
        }
    }
}

/// Whether a request goes to memory, with a size that an instruction can have.
pub open spec fn for_memory(request: Request) -> bool {
    match request {
        Request::Translate { .. } => true,
        Request::Read { size, .. } => size == 1 || size == 2 || size == 4 || size == 8,
        Request::Write { size, .. } => size == 1 || size == 2 || size == 4 || size == 8,
        Request::Atomic { .. } => true,
        _ => false,
    }
}

/// The hart and the bus after a request to memory, and the answer.
pub open spec fn served(s: HartState, bus: SystemState, request: Request) -> (
    HartState,
    SystemState,
    Result<u64, Trap>,
) {
    match request {
        Request::Translate { vaddr, access } => {
            let (tlb, r) = translation(
                bus,
                s.tlb,
                s.mode,
                s.csrs[CSR_SATP as int],
                s.csrs[CSR_MSTATUS as int],
                vaddr,
                access,
            );
            (HartState { tlb, ..s }, bus, r)
        },
        Request::Read { pa, size } => (s, bus, read_result(bus, pa, size)),
        Request::Write { pa, size, value } => {
            let (after, done) = write_result(bus, pa, size, value);
            (
                s,
                after,
                match done {
                    Ok(_) => Ok(0),
                    Err(trap) => Err(trap),
                },
            )
        },
        Request::Atomic { op, pa, value, is_word } => {
            let (after, r) = atomic_result(bus, op, pa, value, is_word);
            (s, after, r)
        },
        _ => (s, bus, Err(Trap::Breakpoint)),
    }
}

/// An instruction that has come to `step`, carried on for `rounds` answers from memory.
pub open spec fn carried_on(
    s: HartState,
    mask: u64,
    bus: SystemState,
    insn: Insn,
    step: Step,
    rounds: nat,
) -> (HartState, SystemState, Step)
    decreases rounds,
{
    match step {
        Step::Ask(request, pending) => if rounds > 0 && for_memory(request) {
            let (asked, after, reply) = served(s, bus, request);
            let (next, step) = resumed(asked, mask, insn, pending, reply);
            carried_on(next, mask, after, insn, step, (rounds - 1) as nat)
        } else {
            (s, bus, step)
        },
        _ => (s, bus, step),
    }
}

/// An instruction asks memory twice at most: for an address, and for what is there.
pub open spec fn executed(s: HartState, mask: u64, bus: SystemState, insn: Insn, op: Op) -> (
    HartState,
    SystemState,
    Step,
) {
    let (next, step) = begun(s, insn, op);
    carried_on(next, mask, bus, insn, step, 2)
}

impl Cpu {
    /// Answers a request to memory.
    fn serve(&mut self, bus: &mut SystemBus, request: Request) -> (reply: Result<u64, Trap>)
        requires
            old(self)@.wf(),
            for_memory(request),
        ensures
            (final(self)@, final(bus)@, reply) == served(old(self)@, old(bus)@, request),
            same_setup(*final(self), *old(self)),
            final(self)@.wf(),
    {
        match request {
            Request::Translate { vaddr, access } => {
                let satp: u64 = self.csrs[CSR_SATP as usize];
                let mstatus: u64 = self.csrs[CSR_MSTATUS as usize];
                let mode = self.mode;
                let r = mmu::translate(bus, &mut self.tlb, mode, satp, mstatus, vaddr, access);
                proof {
                    self.tlb.lemma_len();
                }
                r
            },
            Request::Read { pa, size } => bus.read(pa, size),
            Request::Write { pa, size, value } => match bus.write(pa, size, value) {
                Ok(_) => Ok(0),
                Err(trap) => Err(trap),
            },
            Request::Atomic { op, pa, value, is_word } => atomic(bus, op, pa, value, is_word),
            _ => Err(Trap::Breakpoint),
        }
    }

    /// Carries an instruction on with the answers of memory.
    fn carry_on(&mut self, bus: &mut SystemBus, insn: Insn, step: Step, rounds: u8) -> (r: Step)
        requires
            old(self)@.wf(),
            asks_well(step),
        ensures
            (final(self)@, final(bus)@, r) == carried_on(
                old(self)@,
                old(self).reservation_mask,
                old(bus)@,
                insn,
                step,
                rounds as nat,
            ),
            same_setup(*final(self), *old(self)),
            final(self)@.wf(),
            asks_well(r),
        decreases rounds,
    {
        match step {
            Step::Ask(request, pending) => {
                let memory: bool = match request {
                    Request::Translate { .. } => true,
                    Request::Read { size, .. } => size == 1 || size == 2 || size == 4 || size == 8,
                    Request::Write { size, .. } => size == 1 || size == 2 || size == 4 || size == 8,
                    Request::Atomic { .. } => true,
                    _ => false,
                };
                if rounds > 0 && memory {
                    let reply = self.serve(bus, request);
                    let next = self.resume(insn, pending, reply);
                    self.carry_on(bus, insn, next, rounds - 1)
                } else {
                    step
                }
            },
            _ => step,
        }
    }

    /// Executes a decoded instruction as far as memory can answer it. What is left to ask
    /// are control registers and the time. The trap of an address that has no translation
    /// ends the instruction early and is still to be delivered.
    pub fn execute_on(&mut self, bus: &mut SystemBus, insn: Insn, op: Op) -> (step: Step)
        requires
            old(self)@.wf(),
            op.wf(),
        ensures
            (final(self)@, final(bus)@, step) == executed(
                old(self)@,
                old(self).reservation_mask,
                old(bus)@,
                insn,
                op,
            ),
            same_setup(*final(self), *old(self)),
            final(self)@.wf(),
            asks_well(step),
    {
        let step = self.step_single_inner(insn, op);
        self.carry_on(bus, insn, step, 2)
    }
}

// Laws.

/// Without page tables, a load gives back what a store of the same width left at the same
/// address, widened as the load does.
pub proof fn law_load_after_store(
    s: HartState,
    mask: u64,
    bus: SystemState,
    store: Insn,
    load: Insn,
    rs1: u8,
    rs2: u8,
    rd: u8,
    imm: i64,
    funct3: u8,
)
    requires
        s.wf(),
        rs1 < 32,
        rs2 < 32,
        0 < rd < 32,
        funct3 < 4,
        s.csrs[CSR_SATP as int] == 0,
        ({
            let pa = s.regs[rs1 as int].wrapping_add(imm as u64);
            bus.base <= pa && pa - bus.base + alu::store_size(funct3)->0 <= bus.mem.len()
        }),
    ensures
        ({
            let (stored, after, first) = executed(
                s,
                mask,
                bus,
                store,
                Op::Store { rs1, rs2, imm, funct3 },
            );
            let (loaded, _, second) = executed(
                stored,
                mask,
                after,
                load,
                Op::Load { rd, rs1, imm, funct3 },
            );
            let size = alu::store_size(funct3)->0;
            &&& first == Step::Retire(Effect::Nothing)
            &&& second == Step::Retire(Effect::Nothing)
            &&& loaded.regs[rd as int] == alu::load_value(
                funct3,
                (s.regs[rs2 as int] as nat % bytes::pow256(size as nat)) as u64,
            )
        }),
{
    let vaddr = s.regs[rs1 as int].wrapping_add(imm as u64);
    let size = alu::store_size(funct3)->0;
    let value = s.regs[rs2 as int];
    let mstatus = s.csrs[CSR_MSTATUS as int];
    reveal_with_fuel(carried_on, 4);
    let cleared = without_reservation(s, mask, vaddr);
    mmu::law_untranslated_addresses(bus, s.tlb, s.mode, 0, mstatus, vaddr, AccessType::Store);
    let (after, done) = write_result(bus, vaddr, size, value);
    bytes::lemma_le_bytes_len(value as nat, size as nat);
    assert(done is Ok);
    let stored = HartState { pc: after_insn(s, store), ..cleared };
    assert(executed(s, mask, bus, store, Op::Store { rs1, rs2, imm, funct3 }) == (
        stored,
        after,
        Step::Retire(Effect::Nothing),
    ));
    mmu::law_untranslated_addresses(after, s.tlb, s.mode, 0, mstatus, vaddr, AccessType::Load);
    dram::law_load_after_store(bus.mem, (vaddr - bus.base) as u64, size, value);
    let read = read_result(after, vaddr, size);
    assert(read == Ok::<u64, Trap>((value as nat % bytes::pow256(size as nat)) as u64));
    assert(alu::load_size(funct3) == Some(size));
}

/// A load that the page tables do not allow reads nothing, and a store writes nothing.
pub proof fn law_refused_access_leaves_memory(
    s: HartState,
    mask: u64,
    bus: SystemState,
    insn: Insn,
    op: Op,
)
    requires
        executed(s, mask, bus, insn, op).2 is Abort,
    ensures
        executed(s, mask, bus, insn, op).1 == bus,
        executed(s, mask, bus, insn, op).0.pc == s.pc,
        executed(s, mask, bus, insn, op).0.regs == s.regs,
{
    let (s0, step0) = begun(s, insn, op);
    lemma_beginning_asks(s, insn, op);
    if let Step::Ask(request, pending) = step0 {
        if for_memory(request) {
            let (asked, bus1, reply) = served(s0, bus, request);
            let (s1, step1) = resumed(asked, mask, insn, pending, reply);
            lemma_going_on_asks(asked, mask, insn, pending, reply);
            assert(executed(s, mask, bus, insn, op) == carried_on(s1, mask, bus1, insn, step1, 1));
            if let Step::Ask(request1, pending1) = step1 {
                if for_memory(request1) {
                    let (asked1, bus2, reply1) = served(s1, bus1, request1);
                    let (s2, step2) = resumed(asked1, mask, insn, pending1, reply1);
                    lemma_going_on_asks(asked1, mask, insn, pending1, reply1);
                    assert(carried_on(s1, mask, bus1, insn, step1, 1) == carried_on(
                        s2,
                        mask,
                        bus2,
                        insn,
                        step2,
                        0,
                    ));
                    assert(carried_on(s2, mask, bus2, insn, step2, 0).2 == step2);
                }
            }
        }
    }
}

} // verus!
