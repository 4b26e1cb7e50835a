//! Steps of a hart: when it looks at the interrupts, and what it executes.

use crate::cpu::csr::{CSR_MENVCFG, CSR_MHARTID, CSR_MIP, CSR_STIMECMP};
use crate::cpu::hart::Cpu;
use crate::cpu::types::Trap;
use vstd::prelude::*;

verus! {

use crate::cpu::hart::{same_setup, HartState};

/// What happens to a hart during a step.
#[derive(Debug, Clone, Copy, PartialEq, Eq, Structural)]
pub enum StepEvent {
    /// The step begins.
    Begin,
    /// The interrupt lines were looked at, and the clock where it was asked for and there is
    /// one.
    Polled { lines: u64, now: Option<u64> },
    /// The interrupt that is to be taken, if there is one.
    Checked(Option<Trap>),
    /// There is no block to execute.
    NoBlock,
}

/// What a hart does next.
#[derive(Debug, Clone, Copy, PartialEq, Eq, Structural)]
pub enum StepAction {
    /// It looks at the interrupt lines of a hart, and at the clock if it wants the time.
    Poll { hart_id: u64, wants_time: bool },
    /// It sees whether an interrupt is to be taken.
    CheckInterrupts,
    /// It delivers a trap.
    Deliver(Trap),
    /// It executes the block at the program counter.
    RunBlock,
    /// It interprets one instruction.
    Interpret,
}

/// The lines that hardware drives: software, timer and external interrupts of machine
/// mode, and external ones of supervisor mode.
pub const HARDWARE_LINES: u64 = 0xa88;

/// The timer interrupt of supervisor mode.
pub const SUPERVISOR_TIMER: u64 = 0x20;

/// Whether the supervisor has a timer of its own.
pub open spec fn has_supervisor_timer(menvcfg: u64) -> bool {
    (menvcfg >> 63) & 1 == 1
}

/// Whether the time matters for the interrupts.
pub open spec fn watches_time(s: HartState) -> bool {
    has_supervisor_timer(s.csrs[CSR_MENVCFG as int]) && s.csrs[CSR_STIMECMP as int] != 0
}

/// The waiting interrupts after a look at the lines, which are `lines`, and at the time.
/// Those that hardware drives come from there, and the others stay.
pub open spec fn interrupts_after(s: HartState, lines: u64, now: Option<u64>) -> u64 {
    let due = watches_time(s) && now is Some && now->0 >= s.csrs[CSR_STIMECMP as int];
    let driven = if due {
        lines | SUPERVISOR_TIMER
    } else {
        lines
    };
    let mask = if has_supervisor_timer(s.csrs[CSR_MENVCFG as int]) {
        HARDWARE_LINES | SUPERVISOR_TIMER
    } else {
        HARDWARE_LINES
    };
    (s.csrs[CSR_MIP as int] & !mask) | (driven & mask)
}

/// What a hart does once no interrupt keeps it.
pub open spec fn runs(blocks: bool) -> StepAction {
    if blocks {
        StepAction::RunBlock
    } else {
        StepAction::Interpret
    }
}

/// The hart after an event, how many instructions it counts, and what it does next. `blocks`
/// tells whether it may execute blocks.
pub open spec fn stepped(s: HartState, counter: u8, blocks: bool, event: StepEvent) -> (
    HartState,
    u8,
    StepAction,
) {
    match event {
        StepEvent::Begin => {
            let count = counter.wrapping_add(1);
            let action = if count == 0 {
                StepAction::Poll {
                    hart_id: s.csrs[CSR_MHARTID as int],
                    wants_time: watches_time(s),
                }
            } else {
                runs(blocks)
            };
            (s, count, action)
        },
        StepEvent::Polled { lines, now } => (
            HartState {
                csrs: s.csrs.update(CSR_MIP as int, interrupts_after(s, lines, now)),
                ..s
            },
            counter,
            StepAction::CheckInterrupts,
        ),
        StepEvent::Checked(Some(trap)) => (s, counter, StepAction::Deliver(trap)),
        StepEvent::Checked(None) => (s, counter, runs(blocks)),
        StepEvent::NoBlock => (s, counter, StepAction::Interpret),
    }
}

impl Cpu {
    /// Counts an instruction, and says whether the interrupt lines are to be looked at:
    /// they are at every 256th.
    fn poll_due(&mut self) -> (due: bool)
        ensures
            final(self).poll_counter == old(self).poll_counter.wrapping_add(1),
            due == (final(self).poll_counter == 0),
            final(self)@ == old(self)@,
            same_setup(
                *final(self),
                (Cpu { poll_counter: old(self).poll_counter.wrapping_add(1), ..*old(self) }),
            ),
    {
        self.poll_counter = self.poll_counter.wrapping_add(1);
        self.poll_counter == 0
    }

    /// The number of the hart whose lines are to be looked at.
    fn hart_id(&self) -> (id: u64)
        ensures
            id == self@.csrs[CSR_MHARTID as int],
    {
        self.csrs[CSR_MHARTID as usize]
    }

    /// Whether a look at the interrupts needs the time.
    fn needs_time(&self) -> (needed: bool)
        ensures
            needed == watches_time(self@),
    {
        let menvcfg: u64 = self.csrs[CSR_MENVCFG as usize];
        (menvcfg >> 63) & 1 == 1 && self.csrs[CSR_STIMECMP as usize] != 0
    }

    /// Takes in the interrupt lines and the time, where it could be read.
    pub fn update_interrupts(&mut self, lines: u64, now: Option<u64>)
        ensures
            final(self)@ == (HartState {
                csrs: old(self)@.csrs.update(
                    CSR_MIP as int,
                    interrupts_after(old(self)@, lines, now),
                ),
                ..old(self)@
            }),
            same_setup(*final(self), *old(self)),
    {
        let menvcfg: u64 = self.csrs[CSR_MENVCFG as usize];
        let own_timer: bool = (menvcfg >> 63) & 1 == 1;
        let deadline: u64 = self.csrs[CSR_STIMECMP as usize];
        let due: bool = own_timer && deadline != 0 && match now {
            Some(time) => time >= deadline,
            None => false,
        };
        let driven: u64 = if due {
            lines | SUPERVISOR_TIMER
        } else {
            lines
        };
        let mask: u64 = if own_timer {
            HARDWARE_LINES | SUPERVISOR_TIMER
        } else {
            HARDWARE_LINES
        };
        let waiting: u64 = self.csrs[CSR_MIP as usize];
        self.csrs[CSR_MIP as usize] = (waiting & !mask) | (driven & mask);
    }

    /// Goes on with a step after an event, and says what comes next. `blocks` tells whether
    /// blocks may be executed.
    fn go_on(&mut self, blocks: bool, event: StepEvent) -> (action: StepAction)
        ensures
            (final(self)@, final(self).poll_counter, action) == stepped(
                old(self)@,
                old(self).poll_counter,
                blocks,
                event,
            ),
            same_setup(
                *final(self),
                (Cpu { poll_counter: final(self).poll_counter, ..*old(self) }),
            ),
    {
        match event {
            StepEvent::Begin => {
                if self.poll_due() {
                    return StepAction::Poll {
                        hart_id: self.hart_id(),
                        wants_time: self.needs_time(),
                    };
                }
            },
            StepEvent::Polled { lines, now } => {
                self.update_interrupts(lines, now);
                return StepAction::CheckInterrupts;
            },
            StepEvent::Checked(Some(trap)) => {
                return StepAction::Deliver(trap);
            },
            StepEvent::Checked(None) => {},
            StepEvent::NoBlock => {
                return StepAction::Interpret;
            },
        }
        if blocks {
            StepAction::RunBlock
        } else {
            StepAction::Interpret
        }
    }

    /// Goes on with a step after an event, and says what comes next. Every 256th step looks
    /// at the interrupts first; then a block is executed where the hart uses blocks and has
    /// one, and one instruction otherwise.
    pub fn step(&mut self, event: StepEvent) -> (action: StepAction)
        ensures
            (final(self)@, final(self).poll_counter, action) == stepped(
                old(self)@,
                old(self).poll_counter,
                old(self).use_blocks,
                event,
            ),
            same_setup(
                *final(self),
                (Cpu { poll_counter: final(self).poll_counter, ..*old(self) }),
            ),
    {
        self.go_on(self.use_blocks, event)
    }

    /// Goes on with a step that executes no blocks after an event, and says what comes next.
    pub fn step_single(&mut self, event: StepEvent) -> (action: StepAction)
        ensures
            (final(self)@, final(self).poll_counter, action) == stepped(
                old(self)@,
                old(self).poll_counter,
                false,
                event,
            ),
            same_setup(
                *final(self),
                (Cpu { poll_counter: final(self).poll_counter, ..*old(self) }),
            ),
    {
        self.go_on(false, event)
    }
}

// Laws.

/// The count of instructions after `n` steps have begun.
pub open spec fn counted(counter: u8, n: nat) -> u8
    decreases n,
{
    if n == 0 {
        counter
    } else {
        counted(counter, (n - 1) as nat).wrapping_add(1)
    }
}

/// Of any 256 steps in a row exactly one looks at the interrupts: step `n` does if and only
/// if the count that it starts from and `n` make a multiple of 256.
pub proof fn law_interrupts_are_looked_at_regularly(
    s: HartState,
    counter: u8,
    blocks: bool,
    n: nat,
)
    requires
        n >= 1,
    ensures
        counted(counter, n) == (counter + n) % 256,
        stepped(s, counted(counter, (n - 1) as nat), blocks, StepEvent::Begin).1 == counted(
            counter,
            n,
        ),
        stepped(s, counted(counter, (n - 1) as nat), blocks, StepEvent::Begin).2 is Poll <==> (
        counter + n) % 256 == 0,
    decreases n,
{
    if n > 1 {
        law_interrupts_are_looked_at_regularly(s, counter, blocks, (n - 1) as nat);
    }
}

/// A look at the lines leaves alone the interrupts that hardware does not drive, and sets
/// those that it drives to what the lines say.
pub proof fn law_hardware_drives_its_lines(
    s: HartState,
    counter: u8,
    blocks: bool,
    lines: u64,
    now: Option<u64>,
)
    requires
        s.csrs.len() == 4096,
    ensures
        ({
            let after = stepped(s, counter, blocks, StepEvent::Polled { lines, now }).0;
            let before = s.csrs[CSR_MIP as int];
            let waiting = after.csrs[CSR_MIP as int];
            let supervised = has_supervisor_timer(s.csrs[CSR_MENVCFG as int]);
            &&& waiting & HARDWARE_LINES == lines & HARDWARE_LINES
            &&& waiting & !(HARDWARE_LINES | SUPERVISOR_TIMER) == before & !(HARDWARE_LINES
                | SUPERVISOR_TIMER)
            &&& !supervised ==> waiting & SUPERVISOR_TIMER == before & SUPERVISOR_TIMER
            &&& supervised && watches_time(s) && now is Some && now->0
                >= s.csrs[CSR_STIMECMP as int] ==> waiting & SUPERVISOR_TIMER == SUPERVISOR_TIMER
            &&& forall|i: int|
                0 <= i < 4096 && i != CSR_MIP ==> #[trigger] after.csrs[i] == s.csrs[i]
            &&& after.regs == s.regs
            &&& after.pc == s.pc
            &&& after.mode == s.mode
        }),
{
    lemma_lines(s.csrs[CSR_MIP as int], lines);
}

proof fn lemma_lines(before: u64, lines: u64)
    by (bit_vector)
    ensures
        ((before & !0xa88u64) | (lines & 0xa88u64)) & 0xa88u64 == lines & 0xa88u64,
        ((before & !0xa88u64) | (lines & 0xa88u64)) & !(0xa88u64 | 0x20u64) == before & !(0xa88u64
            | 0x20u64),
        ((before & !0xa88u64) | (lines & 0xa88u64)) & 0x20u64 == before & 0x20u64,
        ((before & !(0xa88u64 | 0x20u64)) | (lines & (0xa88u64 | 0x20u64))) & 0xa88u64 == lines
            & 0xa88u64,
        ((before & !(0xa88u64 | 0x20u64)) | (lines & (0xa88u64 | 0x20u64))) & !(0xa88u64 | 0x20u64)
            == before & !(0xa88u64 | 0x20u64),
        ((before & !(0xa88u64 | 0x20u64)) | ((lines | 0x20u64) & (0xa88u64 | 0x20u64))) & 0xa88u64
            == lines & 0xa88u64,
        ((before & !(0xa88u64 | 0x20u64)) | ((lines | 0x20u64) & (0xa88u64 | 0x20u64))) & !(0xa88u64
            | 0x20u64) == before & !(0xa88u64 | 0x20u64),
        ((before & !(0xa88u64 | 0x20u64)) | ((lines | 0x20u64) & (0xa88u64 | 0x20u64))) & 0x20u64
            == 0x20u64,
        ((before & !(0xa88u64 | 0x20u64)) | (lines & (0xa88u64 | 0x20u64))) & 0x20u64 == lines
            & 0x20u64,
        (before >> 63) & 1 == 1 <==> before >= 0x8000_0000_0000_0000,
{
}

/// A hart that looks at the lines names itself, and asks for the time where the supervisor has a
/// timer that is set; a hart that does not look goes on.
pub proof fn law_looks_at_the_lines(s: HartState, counter: u8, blocks: bool)
    requires
        s.csrs.len() == 4096,
    ensures
        ({
            let (t, count, action) = stepped(s, counter, blocks, StepEvent::Begin);
            &&& t == s
            &&& count == (counter + 1) % 256
            &&& counter == 255 ==> (action matches StepAction::Poll { hart_id, wants_time }
                && hart_id == s.csrs[0xf14] && wants_time == (s.csrs[0x30a]
                >= 0x8000_0000_0000_0000 && s.csrs[0x14d] != 0))
            &&& counter != 255 && blocks ==> action is RunBlock
            &&& counter != 255 && !blocks ==> action is Interpret
        }),
{
    lemma_lines(s.csrs[0x30a], 0);
}

/// After the lines the interrupts are looked at: one that is to be taken is delivered, and
/// without one the hart goes on, with a block where it may and has one.
pub proof fn law_what_follows_the_lines(s: HartState, counter: u8, blocks: bool, lines: u64, trap: Trap)
    ensures
        stepped(s, counter, blocks, StepEvent::Polled { lines, now: None }).2
            == StepAction::CheckInterrupts,
        stepped(s, counter, blocks, StepEvent::Checked(Some(trap))) == (
            s,
            counter,
            StepAction::Deliver(trap),
        ),
        stepped(s, counter, true, StepEvent::Checked(None)) == (s, counter, StepAction::RunBlock),
        stepped(s, counter, false, StepEvent::Checked(None)) == (s, counter, StepAction::Interpret),
        stepped(s, counter, blocks, StepEvent::NoBlock) == (s, counter, StepAction::Interpret),
{
}

/// The timer of the supervisor, where there is one, interrupts from the time on that it is set
/// to, and before that only where the lines say so.
pub proof fn law_timer_interrupts(s: HartState, lines: u64, now: u64)
    requires
        s.csrs.len() == 4096,
        s.csrs[0x30a] >= 0x8000_0000_0000_0000,
        s.csrs[0x14d] != 0,
    ensures
        ({
            let after = interrupts_after(s, lines, Some(now));
            &&& now >= s.csrs[0x14d] ==> after & 0x20 == 0x20
            &&& now < s.csrs[0x14d] ==> after & 0x20 == lines & 0x20
        }),
{
    lemma_lines(s.csrs[0x344], lines);
    lemma_lines(s.csrs[0x30a], 0);
}

} // verus!
