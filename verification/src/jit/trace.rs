//! A record of the latest events of the compiler.

use crate::text;
use std::collections::VecDeque;
use vstd::prelude::*;
use vstd::string::StringExecFns;

verus! {

/// Something that happened.
#[derive(Debug, Clone)]
#[allow(inconsistent_fields)]
pub enum TraceEvent {
    /// A block started.
    BlockEnter { pc: u64, is_jit: bool, exec_count: u32 },
    /// A block ended.
    BlockExit { pc: u64, next_pc: u64, instructions: u32, cycles: u64 },
    /// A compilation started.
    JitCompileStart { pc: u64, ops: u32 },
    /// A compilation ended.
    JitCompileEnd { pc: u64, wasm_size: usize, time_us: u64, success: bool },
    /// Compiled code reached memory through a helper.
    MemoryAccess { vaddr: u64, paddr: u64, size: u8, is_write: bool, value: u64 },
    /// Compiled code trapped.
    Trap { pc: u64, cause: u64, tval: u64 },
    /// Compiled blocks were thrown out: one, or all of them.
    CacheInvalidate { pc: Option<u64>, reason: &'static str },
    /// A block was looked up.
    CacheLookup { pc: u64, hit: bool },
    /// Compiled code made way for an interrupt.
    InterruptExit { pc: u64, instructions_executed: u32 },
}

/// Sums over the events. They wrap around.
#[derive(Debug, Clone, Copy)]
pub struct TraceStats {
    pub jit_executions: u64,
    pub interp_executions: u64,
    pub compilations: u64,
    pub compilation_failures: u64,
    pub total_wasm_bytes: usize,
    pub total_compile_time_us: u64,
    pub traps: u64,
    pub invalidations: u64,
    pub cache_hits: u64,
    pub cache_misses: u64,
    pub interrupt_exits: u64,
}

/// All sums at zero.
pub open spec fn no_events() -> TraceStats {
    TraceStats {
        jit_executions: 0,
        interp_executions: 0,
        compilations: 0,
        compilation_failures: 0,
        total_wasm_bytes: 0,
        total_compile_time_us: 0,
        traps: 0,
        invalidations: 0,
        cache_hits: 0,
        cache_misses: 0,
        interrupt_exits: 0,
    }
}

/// The sums with one more event.
pub open spec fn counted(s: TraceStats, e: TraceEvent) -> TraceStats {
    match e {
        TraceEvent::BlockEnter { is_jit, .. } => if is_jit {
            TraceStats { jit_executions: s.jit_executions.wrapping_add(1), ..s }
        } else {
            TraceStats { interp_executions: s.interp_executions.wrapping_add(1), ..s }
        },
        TraceEvent::JitCompileEnd { success, wasm_size, time_us, .. } => if success {
            TraceStats {
                compilations: s.compilations.wrapping_add(1),
                total_wasm_bytes: s.total_wasm_bytes.wrapping_add(wasm_size),
                total_compile_time_us: s.total_compile_time_us.wrapping_add(time_us),
                ..s
            }
        } else {
            TraceStats { compilation_failures: s.compilation_failures.wrapping_add(1), ..s }
        },
        TraceEvent::Trap { .. } => TraceStats { traps: s.traps.wrapping_add(1), ..s },
        TraceEvent::CacheInvalidate { .. } => TraceStats {
            invalidations: s.invalidations.wrapping_add(1),
            ..s
        },
        TraceEvent::CacheLookup { hit, .. } => if hit {
            TraceStats { cache_hits: s.cache_hits.wrapping_add(1), ..s }
        } else {
            TraceStats { cache_misses: s.cache_misses.wrapping_add(1), ..s }
        },
        TraceEvent::InterruptExit { .. } => TraceStats {
            interrupt_exits: s.interrupt_exits.wrapping_add(1),
            ..s
        },
        _ => s,
    }
}

/// The sums over all events.
pub open spec fn tally(events: Seq<TraceEvent>) -> TraceStats
    decreases events.len(),
{
    if events.len() == 0 {
        no_events()
    } else {
        counted(tally(events.drop_last()), events.last())
    }
}

impl Default for TraceStats {
    fn default() -> (stats: Self)
        ensures
            stats == no_events(),
    {
        Self {
            jit_executions: 0,
            interp_executions: 0,
            compilations: 0,
            compilation_failures: 0,
            total_wasm_bytes: 0,
            total_compile_time_us: 0,
            traps: 0,
            invalidations: 0,
            cache_hits: 0,
            cache_misses: 0,
            interrupt_exits: 0,
        }
    }
}

/// The quotients in a summary, written out as decimal numbers.
#[derive(Debug, Clone)]
pub struct Quotients {
    /// How many of a hundred executions were of compiled code.
    pub jit_percent: String,
    /// The average time of a compilation in microseconds.
    pub compile_time: String,
    /// The average size of a module in bytes.
    pub wasm_size: String,
    /// How many of a hundred lookups found a compiled block.
    pub hit_percent: String,
}

/// The summary that `TraceStats::format` writes.
pub open spec fn summary(s: TraceStats, q: Quotients) -> Seq<char> {
    "JIT Stats:\n├─ Executions: "@ + num(s.jit_executions as int) + " JIT / "@ + num(
        s.interp_executions as int,
    ) + " interp ("@ + q.jit_percent@ + "% JIT)\n├─ Compilations: "@ + num(s.compilations as int)
        + " success / "@ + num(s.compilation_failures as int)
        + " failed\n├─ Avg compile time: "@ + q.compile_time@ + "μs\n├─ Avg WASM size: "@
        + q.wasm_size@ + " bytes\n├─ Cache: "@ + num(s.cache_hits as int) + " hits / "@ + num(
        s.cache_misses as int,
    ) + " misses ("@ + q.hit_percent@ + "% hit rate)\n├─ Traps: "@ + num(s.traps as int)
        + "\n├─ Invalidations: "@ + num(s.invalidations as int) + "\n└─ Interrupt exits: "@ + num(
        s.interrupt_exits as int,
    )
}

impl TraceStats {
    /// A summary of the sums and of the quotients formed from them.
    pub fn format(&self, quotients: &Quotients) -> (s: String)
        ensures
            s@ == summary(*self, *quotients),
    {
        broadcast use text::lemma_append;

        let mut out = String::from_str("JIT Stats:\n├─ Executions: ");
        text::push_dec(&mut out, self.jit_executions);
        out.append(" JIT / ");
        text::push_dec(&mut out, self.interp_executions);
        out.append(" interp (");
        out.append(quotients.jit_percent.as_str());
        out.append("% JIT)\n├─ Compilations: ");
        text::push_dec(&mut out, self.compilations);
        out.append(" success / ");
        text::push_dec(&mut out, self.compilation_failures);
        out.append(" failed\n├─ Avg compile time: ");
        out.append(quotients.compile_time.as_str());
        out.append("μs\n├─ Avg WASM size: ");
        out.append(quotients.wasm_size.as_str());
        out.append(" bytes\n├─ Cache: ");
        text::push_dec(&mut out, self.cache_hits);
        out.append(" hits / ");
        text::push_dec(&mut out, self.cache_misses);
        out.append(" misses (");
        out.append(quotients.hit_percent.as_str());
        out.append("% hit rate)\n├─ Traps: ");
        text::push_dec(&mut out, self.traps);
        out.append("\n├─ Invalidations: ");
        text::push_dec(&mut out, self.invalidations);
        out.append("\n└─ Interrupt exits: ");
        text::push_dec(&mut out, self.interrupt_exits);
        out
    }

    fn count(&mut self, event: &TraceEvent)
        ensures
            *final(self) == counted(*old(self), *event),
    {
        match event {
            TraceEvent::BlockEnter { is_jit, .. } => {
                if *is_jit {
                    self.jit_executions = self.jit_executions.wrapping_add(1);
                } else {
                    self.interp_executions = self.interp_executions.wrapping_add(1);
                }
            },
            TraceEvent::JitCompileEnd { success, wasm_size, time_us, .. } => {
                if *success {
                    self.compilations = self.compilations.wrapping_add(1);
                    self.total_wasm_bytes = self.total_wasm_bytes.wrapping_add(*wasm_size);
                    self.total_compile_time_us = self.total_compile_time_us.wrapping_add(*time_us);
                } else {
                    self.compilation_failures = self.compilation_failures.wrapping_add(1);
                }
            },
            TraceEvent::Trap { .. } => {
                self.traps = self.traps.wrapping_add(1);
            },
            TraceEvent::CacheInvalidate { .. } => {
                self.invalidations = self.invalidations.wrapping_add(1);
            },
            TraceEvent::CacheLookup { hit, .. } => {
                if *hit {
                    self.cache_hits = self.cache_hits.wrapping_add(1);
                } else {
                    self.cache_misses = self.cache_misses.wrapping_add(1);
                }
            },
            TraceEvent::InterruptExit { .. } => {
                self.interrupt_exits = self.interrupt_exits.wrapping_add(1);
            },
            _ => {},
        }
    }
}

/// The latest events, oldest first.
pub struct TraceBuffer {
    events: VecDeque<TraceEvent>,
    capacity: usize,
    enabled: bool,
    sequence: u64,
}

/// What the buffer holds.
#[verifier::ext_equal]
pub struct TraceState {
    pub events: Seq<TraceEvent>,
    pub capacity: usize,
    pub enabled: bool,
    /// How many events were recorded since the last clearing.
    pub sequence: u64,
}

impl View for TraceBuffer {
    type V = TraceState;

    closed spec fn view(&self) -> TraceState {
        TraceState {
            events: self.events@,
            capacity: self.capacity,
            enabled: self.enabled,
            sequence: self.sequence,
        }
    }
}

/// The buffer after an event: a buffer that is switched off forgets it, and one that is
/// full forgets its oldest event for it.
pub open spec fn recorded(s: TraceState, e: TraceEvent) -> TraceState {
    if !s.enabled {
        s
    } else {
        let kept = if s.events.len() >= s.capacity && s.events.len() > 0 {
            s.events.skip(1)
        } else {
            s.events
        };
        TraceState { events: kept.push(e), sequence: s.sequence.wrapping_add(1), ..s }
    }
}

/// Whether an event is about the block or the instruction at an address.
pub open spec fn is_about(e: TraceEvent, pc: u64) -> bool {
    match e {
        TraceEvent::BlockEnter { pc: p, .. } => p == pc,
        TraceEvent::BlockExit { pc: p, .. } => p == pc,
        TraceEvent::JitCompileStart { pc: p, .. } => p == pc,
        TraceEvent::JitCompileEnd { pc: p, .. } => p == pc,
        TraceEvent::MemoryAccess { .. } => false,
        TraceEvent::Trap { pc: p, .. } => p == pc,
        TraceEvent::CacheInvalidate { pc: p, .. } => p == Some(pc),
        TraceEvent::CacheLookup { pc: p, .. } => p == pc,
        TraceEvent::InterruptExit { pc: p, .. } => p == pc,
    }
}

/// The events that are marked, in order.
pub open spec fn picked(events: Seq<TraceEvent>, marks: Seq<bool>) -> Seq<TraceEvent>
    decreases events.len(),
{
    if events.len() == 0 {
        Seq::empty()
    } else {
        let rest = picked(events.drop_last(), marks.drop_last());
        if marks.last() {
            rest.push(events.last())
        } else {
            rest
        }
    }
}

/// The events that are about an address, in order.
pub open spec fn about(events: Seq<TraceEvent>, pc: u64) -> Seq<TraceEvent>
    decreases events.len(),
{
    if events.len() == 0 {
        Seq::empty()
    } else {
        let rest = about(events.drop_last(), pc);
        if is_about(events.last(), pc) {
            rest.push(events.last())
        } else {
            rest
        }
    }
}

/// That `refs` point to `events` one by one.
pub open spec fn point_to(refs: Seq<&TraceEvent>, events: Seq<TraceEvent>) -> bool {
    refs.len() == events.len() && forall|i: int|
        0 <= i < refs.len() ==> *(#[trigger] refs[i]) == events[i]
}

impl TraceBuffer {
    /// A buffer that is switched off.
    pub fn new(capacity: usize) -> (buffer: Self)
        requires
            capacity <= usize::MAX / 256,
        ensures
            buffer@ == (TraceState {
                events: Seq::empty(),
                capacity,
                enabled: false,
                sequence: 0,
            }),
    {
        Self { events: VecDeque::with_capacity(capacity), capacity, enabled: false, sequence: 0 }
    }

    pub fn enable(&mut self)
        ensures
            final(self)@ == (TraceState { enabled: true, ..old(self)@ }),
    {
        self.enabled = true;
    }

    pub fn disable(&mut self)
        ensures
            final(self)@ == (TraceState { enabled: false, ..old(self)@ }),
    {
        self.enabled = false;
    }

    pub fn is_enabled(&self) -> (b: bool)
        ensures
            b == self@.enabled,
    {
        self.enabled
    }

    /// Records an event.
    pub fn push(&mut self, event: TraceEvent)
        ensures
            final(self)@ == recorded(old(self)@, event),
    {
        if !self.enabled {
            return ;
        }
        if self.events.len() >= self.capacity {
            let _ = self.events.pop_front();
            assert(old(self)@.events.len() > 0 ==> self.events@ =~= old(self)@.events.skip(1));
        }
        self.events.push_back(event);
        self.sequence = self.sequence.wrapping_add(1);
        assert(self@ =~= recorded(old(self)@, event));
    }

    /// Forgets all events and starts counting again.
    pub fn clear(&mut self)
        ensures
            final(self)@ == (TraceState { events: Seq::empty(), sequence: 0, ..old(self)@ }),
    {
        self.events.clear();
        self.sequence = 0;
    }

    /// The events, oldest first.
    pub fn iter(&self) -> (r: Vec<&TraceEvent>)
        ensures
            point_to(r@, self@.events),
    {
        let mut out: Vec<&TraceEvent> = Vec::new();
        let mut i: usize = 0;
        while i < self.events.len()
            invariant
                i <= self.events.len(),
                point_to(out@, self.events@.take(i as int)),
            decreases self.events.len() - i,
        {
            out.push(&self.events[i]);
            i = i + 1;
        }
        assert(self.events@.take(i as int) =~= self.events@);
        out
    }

    pub fn len(&self) -> (n: usize)
        ensures
            n == self@.events.len(),
    {
        self.events.len()
    }

    pub fn is_empty(&self) -> (b: bool)
        ensures
            b == (self@.events.len() == 0),
    {
        self.events.len() == 0
    }

    /// How many events were recorded since the last clearing.
    pub fn sequence(&self) -> (n: u64)
        ensures
            n == self@.sequence,
    {
        self.sequence
    }

    /// The sums over the events.
    pub fn stats(&self) -> (stats: TraceStats)
        ensures
            stats == tally(self@.events),
    {
        let mut stats = TraceStats::default();
        let mut i: usize = 0;
        while i < self.events.len()
            invariant
                i <= self.events.len(),
                stats == tally(self.events@.take(i as int)),
            decreases self.events.len() - i,
        {
            stats.count(&self.events[i]);
            i = i + 1;
            assert(self.events@.take(i as int).drop_last() =~= self.events@.take(i - 1));
        }
        assert(self.events@.take(i as int) =~= self.events@);
        stats
    }

    /// The events that the predicate accepts, in order. It is asked once about each.
    pub fn filter<F: Fn(&TraceEvent) -> bool>(&self, predicate: F) -> (r: Vec<&TraceEvent>)
        requires
            forall|e: &TraceEvent| call_requires(predicate, (e,)),
        ensures
            exists|marks: Seq<bool>|
                {
                    &&& marks.len() == self@.events.len()
                    &&& forall|i: int|
                        0 <= i < marks.len() ==> call_ensures(
                            predicate,
                            (&self@.events[i],),
                            #[trigger] marks[i],
                        )
                    &&& #[trigger] point_to(r@, picked(self@.events, marks))
                },
    {
        let mut out: Vec<&TraceEvent> = Vec::new();
        let ghost mut marks = Seq::<bool>::empty();
        let mut i: usize = 0;
        while i < self.events.len()
            invariant
                i <= self.events.len(),
                forall|e: &TraceEvent| call_requires(predicate, (e,)),
                marks.len() == i,
                forall|j: int|
                    0 <= j < i ==> call_ensures(
                        predicate,
                        (&self.events@[j],),
                        #[trigger] marks[j],
                    ),
                point_to(out@, picked(self.events@.take(i as int), marks)),
            decreases self.events.len() - i,
        {
            let event: &TraceEvent = &self.events[i];
            let mark: bool = predicate(event);
            if mark {
                out.push(event);
            }
            proof {
                let longer = self.events@.take(i + 1);
                let more = marks.push(mark);
                assert(longer.drop_last() =~= self.events@.take(i as int));
                assert(more.drop_last() =~= marks);
                marks = more;
            }
            i = i + 1;
        }
        assert(self.events@.take(i as int) =~= self.events@);
        assert(point_to(out@, picked(self@.events, marks)));
        out
    }

    /// The events about the block or the instruction at an address.
    pub fn events_for_pc(&self, pc: u64) -> (r: Vec<&TraceEvent>)
        ensures
            point_to(r@, about(self@.events, pc)),
    {
        let mut out: Vec<&TraceEvent> = Vec::new();
        let mut i: usize = 0;
        while i < self.events.len()
            invariant
                i <= self.events.len(),
                point_to(out@, about(self.events@.take(i as int), pc)),
            decreases self.events.len() - i,
        {
            let event: &TraceEvent = &self.events[i];
            assert(self.events@.take(i + 1).drop_last() =~= self.events@.take(i as int));
            let concerned: bool = match event {
                TraceEvent::BlockEnter { pc: p, .. } => *p == pc,
                TraceEvent::BlockExit { pc: p, .. } => *p == pc,
                TraceEvent::JitCompileStart { pc: p, .. } => *p == pc,
                TraceEvent::JitCompileEnd { pc: p, .. } => *p == pc,
                TraceEvent::MemoryAccess { .. } => false,
                TraceEvent::Trap { pc: p, .. } => *p == pc,
                TraceEvent::CacheInvalidate { pc: Some(p), .. } => *p == pc,
                TraceEvent::CacheInvalidate { pc: None, .. } => false,
                TraceEvent::CacheLookup { pc: p, .. } => *p == pc,
                TraceEvent::InterruptExit { pc: p, .. } => *p == pc,
            };
            if concerned {
                out.push(event);
            }
            i = i + 1;
        }
        assert(self.events@.take(i as int) =~= self.events@);
        out
    }

    /// A heading, and the last `count` events as lines of text.
    pub fn dump_recent(&self, count: usize) -> (lines: Vec<String>)
        ensures
            ({
                let recent = last_events(self@.events, count as nat);
                &&& lines@.len() == recent.len() + 1
                &&& lines@[0]@ == recent_heading(count as nat)
                &&& forall|i: int|
                    0 <= i < recent.len() ==> (#[trigger] lines@[i + 1])@ == event_text(
                        i as nat,
                        recent[i],
                    )
            }),
    {
        let len: usize = self.events.len();
        let start: usize = if len > count {
            len - count
        } else {
            0
        };
        let mut heading = String::new();
        heading.append("═══ Recent ");
        text::push_dec(&mut heading, count as u64);
        heading.append(" JIT Events ═══");
        assert(heading@ =~= recent_heading(count as nat));
        let ghost recent = last_events(self.events@, count as nat);
        let mut lines: Vec<String> = Vec::new();
        lines.push(heading);
        let mut i: usize = 0;
        while i < len - start
            invariant
                i <= len - start,
                start <= len,
                len == self.events.len(),
                recent.len() == len - start,
                forall|j: int| 0 <= j < recent.len() ==> recent[j] == self.events@[start + j],
                lines@.len() == i + 1,
                lines@[0]@ == recent_heading(count as nat),
                forall|j: int|
                    0 <= j < i ==> (#[trigger] lines@[j + 1])@ == event_text(j as nat, recent[j]),
            decreases len - start - i,
        {
            assert(recent[i as int] == self.events@[start + i]);
            lines.push(format_event(i, &self.events[start + i]));
            i = i + 1;
        }
        lines
    }
}

/// The last `n` of the events, or all of them where there are no more.
pub open spec fn last_events(events: Seq<TraceEvent>, n: nat) -> Seq<TraceEvent> {
    if events.len() > n {
        events.skip(events.len() - n)
    } else {
        events
    }
}

pub open spec fn recent_heading(count: nat) -> Seq<char> {
    "═══ Recent "@ + text::dec(count) + " JIT Events ═══"@
}

/// An event as a line of text: its number, what happened, and where.
pub open spec fn event_text(index: nat, event: TraceEvent) -> Seq<char> {
    "["@ + text::pad_left(text::dec(index), 4, ' ') + event_words(event)
}

/// An address or a value, sixteen digits long.
pub open spec fn wide(n: u64) -> Seq<char> {
    text::hex_pad(n as nat, 16)
}

pub open spec fn num(n: int) -> Seq<char> {
    text::dec(n as nat)
}

pub open spec fn event_words(event: TraceEvent) -> Seq<char> {
    match event {
        TraceEvent::BlockEnter { pc, is_jit, exec_count } => "] ENTER "@ + wide(pc) + " ("@ + (
        if is_jit {
            "JIT"@
        } else {
            "INT"@
        }) + ") count="@ + num(exec_count as int),
        TraceEvent::BlockExit { pc, next_pc, instructions, cycles } => "] EXIT  "@ + wide(pc)
            + " → "@ + wide(next_pc) + " ("@ + num(instructions as int) + " insns, "@ + num(
            cycles as int,
        ) + " cycles)"@,
        TraceEvent::JitCompileStart { pc, ops } => "] COMPILE_START "@ + wide(pc) + " ("@ + num(
            ops as int,
        ) + " ops)"@,
        TraceEvent::JitCompileEnd { pc, wasm_size, time_us, success } => "] COMPILE_END "@ + wide(
            pc,
        ) + " "@ + (if success {
            "OK"@
        } else {
            "FAIL"@
        }) + " ("@ + num(wasm_size as int) + " bytes, "@ + num(time_us as int) + "μs)"@,
        TraceEvent::MemoryAccess { vaddr, paddr, size, is_write, value } => "] MEM "@ + (
        if is_write {
            "WRITE"@
        } else {
            "READ"@
        }) + " "@ + wide(vaddr) + "→"@ + wide(paddr) + " "@ + num(size as int) + "B val="@ + wide(
            value,
        ),
        TraceEvent::Trap { pc, cause, tval } => "] TRAP "@ + wide(pc) + " cause="@ + num(
            cause as int,
        ) + " tval="@ + wide(tval),
        TraceEvent::CacheInvalidate { pc, reason } => match pc {
            Some(addr) => "] INVALIDATE "@ + wide(addr) + " ("@ + reason@ + ")"@,
            None => "] INVALIDATE_ALL ("@ + reason@ + ")"@,
        },
        TraceEvent::CacheLookup { pc, hit } => "] CACHE "@ + (if hit {
            "HIT"@
        } else {
            "MISS"@
        }) + " "@ + wide(pc),
        TraceEvent::InterruptExit { pc, instructions_executed } => "] INT_EXIT "@ + wide(pc)
            + " after "@ + num(instructions_executed as int) + " insns"@,
    }
}

/// An event as a line of text.
pub fn format_event(index: usize, event: &TraceEvent) -> (s: String)
    ensures
        s@ == event_text(index as nat, *event),
{
    let mut out = String::new();
    out.append("[");
    text::push_dec_pad(&mut out, index as u64, 4);
    let ghost start = out@;
    assert(start =~= "["@ + text::pad_left(text::dec(index as nat), 4, ' '));
    push_words(&mut out, event);
    out
}

fn push_words(out: &mut String, event: &TraceEvent)
    ensures
        final(out)@ == old(out)@ + event_words(*event),
{
    broadcast use text::lemma_append;

    match event {
        TraceEvent::BlockEnter { pc, is_jit, exec_count } => {
            out.append("] ENTER ");
            text::push_hex_pad(out, *pc, 16);
            out.append(" (");
            if *is_jit {
                out.append("JIT");
            } else {
                out.append("INT");
            }
            out.append(") count=");
            text::push_dec(out, *exec_count as u64);
        },
        TraceEvent::BlockExit { pc, next_pc, instructions, cycles } => {
            out.append("] EXIT  ");
            text::push_hex_pad(out, *pc, 16);
            out.append(" → ");
            text::push_hex_pad(out, *next_pc, 16);
            out.append(" (");
            text::push_dec(out, *instructions as u64);
            out.append(" insns, ");
            text::push_dec(out, *cycles);
            out.append(" cycles)");
        },
        TraceEvent::JitCompileStart { pc, ops } => {
            out.append("] COMPILE_START ");
            text::push_hex_pad(out, *pc, 16);
            out.append(" (");
            text::push_dec(out, *ops as u64);
            out.append(" ops)");
        },
        TraceEvent::JitCompileEnd { pc, wasm_size, time_us, success } => {
            out.append("] COMPILE_END ");
            text::push_hex_pad(out, *pc, 16);
            out.append(" ");
            if *success {
                out.append("OK");
            } else {
                out.append("FAIL");
            }
            out.append(" (");
            text::push_dec(out, *wasm_size as u64);
            out.append(" bytes, ");
            text::push_dec(out, *time_us);
            out.append("μs)");
        },
        TraceEvent::MemoryAccess { vaddr, paddr, size, is_write, value } => {
            out.append("] MEM ");
            if *is_write {
                out.append("WRITE");
            } else {
                out.append("READ");
            }
            out.append(" ");
            text::push_hex_pad(out, *vaddr, 16);
            out.append("→");
            text::push_hex_pad(out, *paddr, 16);
            out.append(" ");
            text::push_dec(out, *size as u64);
            out.append("B val=");
            text::push_hex_pad(out, *value, 16);
        },
        TraceEvent::Trap { pc, cause, tval } => {
            out.append("] TRAP ");
            text::push_hex_pad(out, *pc, 16);
            out.append(" cause=");
            text::push_dec(out, *cause);
            out.append(" tval=");
            text::push_hex_pad(out, *tval, 16);
        },
        TraceEvent::CacheInvalidate { pc, reason } => {
            match pc {
                Some(addr) => {
                    out.append("] INVALIDATE ");
                    text::push_hex_pad(out, *addr, 16);
                    out.append(" (");
                },
                None => {
                    out.append("] INVALIDATE_ALL (");
                },
            }
            out.append(reason);
            out.append(")");
        },
        TraceEvent::CacheLookup { pc, hit } => {
            out.append("] CACHE ");
            if *hit {
                out.append("HIT");
            } else {
                out.append("MISS");
            }
            out.append(" ");
            text::push_hex_pad(out, *pc, 16);
        },
        TraceEvent::InterruptExit { pc, instructions_executed } => {
            out.append("] INT_EXIT ");
            text::push_hex_pad(out, *pc, 16);
            out.append(" after ");
            text::push_dec(out, *instructions_executed as u64);
            out.append(" insns");
        },
    }
}

/// The buffer after the first `n` of some events.
pub open spec fn recorded_all(s: TraceState, events: Seq<TraceEvent>, n: nat) -> TraceState
    decreases n,
{
    if n == 0 {
        s
    } else {
        recorded(recorded_all(s, events, (n - 1) as nat), events[n - 1])
    }
}

/// An empty buffer with room that is switched on holds the latest events: all of those
/// recorded, or as many of the last ones as there is room for. Its sequence number
/// counts them.
pub proof fn law_buffer_holds_latest(s: TraceState, events: Seq<TraceEvent>)
    requires
        s.enabled,
        s.capacity > 0,
        s.events.len() == 0,
        s.sequence == 0,
        events.len() < u64::MAX,
    ensures
        recorded_all(s, events, events.len()).events == last_events(events, s.capacity as nat),
        recorded_all(s, events, events.len()).sequence == events.len(),
        recorded_all(s, events, events.len()).capacity == s.capacity,
        recorded_all(s, events, events.len()).enabled,
    decreases events.len(),
{
    if events.len() > 0 {
        let before = events.drop_last();
        law_buffer_holds_latest(s, before);
        lemma_recorded_prefix(s, events, before.len());
        let t = recorded_all(s, before, before.len());
        assert(recorded(t, events.last()).events =~= last_events(events, s.capacity as nat));
    } else {
        assert(s.events =~= last_events(events, s.capacity as nat));
    }
}

proof fn lemma_recorded_prefix(s: TraceState, events: Seq<TraceEvent>, n: nat)
    requires
        n < events.len(),
    ensures
        recorded_all(s, events, n) == recorded_all(s, events.drop_last(), n),
    decreases n,
{
    if n > 0 {
        lemma_recorded_prefix(s, events, (n - 1) as nat);
    }
}

/// A buffer never holds more events than it has room for, but for the one that a buffer
/// without room holds.
pub proof fn law_buffer_is_bounded(s: TraceState, e: TraceEvent)
    requires
        s.events.len() <= s.capacity || s.events.len() <= 1,
    ensures
        recorded(s, e).events.len() <= s.capacity || recorded(s, e).events.len() <= 1,
{
}

/// What can be done to a buffer.
pub enum BufferOp {
    Push(TraceEvent),
    Enable,
    Disable,
    Clear,
}

/// The buffer after an operation.
pub open spec fn operated(s: TraceState, op: BufferOp) -> TraceState {
    match op {
        BufferOp::Push(e) => recorded(s, e),
        BufferOp::Enable => TraceState { enabled: true, ..s },
        BufferOp::Disable => TraceState { enabled: false, ..s },
        BufferOp::Clear => TraceState { events: Seq::empty(), sequence: 0, ..s },
    }
}

/// The buffer after all operations in turn.
pub open spec fn operated_all(s: TraceState, ops: Seq<BufferOp>) -> TraceState
    decreases ops.len(),
{
    if ops.len() == 0 {
        s
    } else {
        operated(operated_all(s, ops.drop_last()), ops.last())
    }
}

/// How many events were pushed into a buffer while it was switched on, since it was made
/// or last cleared.
pub open spec fn pushes(s: TraceState, ops: Seq<BufferOp>) -> nat
    decreases ops.len(),
{
    if ops.len() == 0 {
        0
    } else {
        let before = pushes(s, ops.drop_last());
        match ops.last() {
            BufferOp::Push(_) => if operated_all(s, ops.drop_last()).enabled {
                before + 1
            } else {
                before
            },
            BufferOp::Clear => 0,
            _ => before,
        }
    }
}

/// Whatever is done to a new buffer with room, it counts the events that were pushed while
/// it was switched on, and holds all of them or as many as it has room for. It is empty
/// exactly where it has counted none.
pub proof fn law_buffer_length_follows_the_count(s: TraceState, ops: Seq<BufferOp>)
    requires
        s.events.len() == 0,
        s.sequence == 0,
        s.capacity >= 1,
        ops.len() <= u64::MAX,
    ensures
        operated_all(s, ops).sequence == pushes(s, ops),
        operated_all(s, ops).events.len() == if pushes(s, ops) <= s.capacity {
            pushes(s, ops)
        } else {
            s.capacity as nat
        },
        operated_all(s, ops).events.len() == 0 <==> operated_all(s, ops).sequence == 0,
        operated_all(s, ops).capacity == s.capacity,
        pushes(s, ops) <= ops.len(),
    decreases ops.len(),
{
    if ops.len() > 0 {
        law_buffer_length_follows_the_count(s, ops.drop_last());
    }
}

/// A buffer that is switched off does not change.
pub proof fn law_disabled_buffer_keeps_still(s: TraceState, e: TraceEvent)
    requires
        !s.enabled,
    ensures
        recorded(s, e) == s,
{
}

/// How many events are of a kind.
pub open spec fn occurrences(events: Seq<TraceEvent>, kind: spec_fn(TraceEvent) -> bool) -> nat
    decreases events.len(),
{
    if events.len() == 0 {
        0
    } else {
        occurrences(events.drop_last(), kind) + if kind(events.last()) {
            1nat
        } else {
            0
        }
    }
}

/// How many bytes and microseconds the compilations that succeeded took.
pub open spec fn spent(events: Seq<TraceEvent>) -> (nat, nat)
    decreases events.len(),
{
    if events.len() == 0 {
        (0, 0)
    } else {
        let (bytes, us) = spent(events.drop_last());
        match events.last() {
            TraceEvent::JitCompileEnd { wasm_size, time_us, success: true, .. } => (
                bytes + wasm_size as nat,
                us + time_us as nat,
            ),
            _ => (bytes, us),
        }
    }
}

/// The sums are the numbers of events of each kind, and what compilations took.
pub proof fn law_sums_count_events(events: Seq<TraceEvent>)
    requires
        events.len() < u64::MAX,
        spent(events).0 <= usize::MAX,
        spent(events).1 <= u64::MAX,
    ensures
        ({
            let t = tally(events);
            let count = |kind: spec_fn(TraceEvent) -> bool| occurrences(events, kind);
            &&& t.jit_executions == count(
                |e: TraceEvent| e matches TraceEvent::BlockEnter { is_jit, .. } && is_jit,
            )
            &&& t.interp_executions == count(
                |e: TraceEvent| e matches TraceEvent::BlockEnter { is_jit, .. } && !is_jit,
            )
            &&& t.compilations == count(
                |e: TraceEvent| e matches TraceEvent::JitCompileEnd { success, .. } && success,
            )
            &&& t.compilation_failures == count(
                |e: TraceEvent| e matches TraceEvent::JitCompileEnd { success, .. } && !success,
            )
            &&& t.total_wasm_bytes == spent(events).0
            &&& t.total_compile_time_us == spent(events).1
            &&& t.traps == count(|e: TraceEvent| e is Trap)
            &&& t.invalidations == count(|e: TraceEvent| e is CacheInvalidate)
            &&& t.cache_hits == count(
                |e: TraceEvent| e matches TraceEvent::CacheLookup { hit, .. } && hit,
            )
            &&& t.cache_misses == count(
                |e: TraceEvent| e matches TraceEvent::CacheLookup { hit, .. } && !hit,
            )
            &&& t.interrupt_exits == count(|e: TraceEvent| e is InterruptExit)
        }),
    decreases events.len(),
{
    if events.len() > 0 {
        let rest = events.drop_last();
        law_sums_count_events(rest);
        lemma_occurrences(rest);
    }
}

proof fn lemma_occurrences(events: Seq<TraceEvent>)
    ensures
        forall|kind: spec_fn(TraceEvent) -> bool| #[trigger]
            occurrences(events, kind) <= events.len(),
    decreases events.len(),
{
    if events.len() > 0 {
        lemma_occurrences(events.drop_last());
    }
    assert forall|kind: spec_fn(TraceEvent) -> bool| #[trigger]
        occurrences(events, kind) <= events.len() by {
        if events.len() > 0 {
            assert(occurrences(events.drop_last(), kind) <= events.drop_last().len());
        }
    }
}

/// The address that an event is about, where it is about one.
pub open spec fn address_of(e: TraceEvent) -> Option<u64> {
    match e {
        TraceEvent::CacheInvalidate { pc, .. } => pc,
        TraceEvent::MemoryAccess { .. } => None,
        TraceEvent::BlockEnter { pc, .. }
        | TraceEvent::BlockExit { pc, .. }
        | TraceEvent::JitCompileStart { pc, .. }
        | TraceEvent::JitCompileEnd { pc, .. }
        | TraceEvent::Trap { pc, .. }
        | TraceEvent::CacheLookup { pc, .. }
        | TraceEvent::InterruptExit { pc, .. } => Some(pc),
    }
}

/// The events about an address are those of all events that tell it, each as often as it
/// came.
pub proof fn law_events_about_an_address(events: Seq<TraceEvent>, pc: u64, e: TraceEvent)
    ensures
        about(events, pc).contains(e) <==> events.contains(e) && address_of(e) == Some(pc),
        about(events, pc).len() == occurrences(
            events,
            |e: TraceEvent| address_of(e) == Some(pc),
        ),
    decreases events.len(),
{
    let r = about(events, pc);
    if events.len() > 0 {
        let rest = events.drop_last();
        let part = about(rest, pc);
        law_events_about_an_address(rest, pc, e);
        assert(is_about(events.last(), pc) == (address_of(events.last()) == Some(pc)));
        if r.contains(e) {
            let i = choose|i: int| 0 <= i < r.len() && r[i] == e;
            if i < part.len() {
                assert(part[i] == e);
                let k = choose|k: int| 0 <= k < rest.len() && rest[k] == e;
                assert(events[k] == e);
            } else {
                assert(events[events.len() - 1] == e);
            }
        }
        if events.contains(e) && address_of(e) == Some(pc) {
            let k = choose|k: int| 0 <= k < events.len() && events[k] == e;
            if k < rest.len() {
                assert(rest[k] == e);
                let i = choose|i: int| 0 <= i < part.len() && part[i] == e;
                assert(r[i] == e);
            } else {
                assert(r[part.len() as int] == e);
            }
        }
    }
}

/// That the sixteen characters of a text from `from` on are a number in hexadecimal.
pub open spec fn tells_at(text: Seq<char>, from: int, n: u64) -> bool {
    &&& from + 16 <= text.len()
    &&& text::read_off(text.subrange(from, from + 16), 16) == n
}

proof fn lemma_tells(text: Seq<char>, head: Seq<char>, n: u64, tail: Seq<char>)
    requires
        text == head + wide(n) + tail,
    ensures
        tells_at(text, head.len() as int, n),
{
    text::law_addresses_are_sixteen_digits(n);
    assert(text.subrange(head.len() as int, (head.len() + 16) as int) =~= wide(n));
}

/// The line of an event tells the address that the event is about, right behind what happened.
#[verifier::spinoff_prover]
pub proof fn law_lines_tell_addresses(
    at: u64,
    next_pc: u64,
    is_jit: bool,
    exec_count: u32,
    instructions: u32,
    cycles: u64,
    ops: u32,
    wasm_size: usize,
    time_us: u64,
    success: bool,
    cause: u64,
    tval: u64,
    instructions_executed: u32,
)
    ensures
        tells_at(event_words(TraceEvent::BlockEnter { pc: at, is_jit, exec_count }), 8, at),
        tells_at(event_words(TraceEvent::BlockExit { pc: at, next_pc, instructions, cycles }), 8, at),
        tells_at(event_words(TraceEvent::JitCompileStart { pc: at, ops }), 16, at),
        tells_at(event_words(TraceEvent::JitCompileEnd { pc: at, wasm_size, time_us, success }), 14, at),
        tells_at(event_words(TraceEvent::Trap { pc: at, cause, tval }), 7, at),
        tells_at(event_words(TraceEvent::InterruptExit { pc: at, instructions_executed }), 11, at),
        tells_at(
            event_words(TraceEvent::BlockExit { pc: at, next_pc, instructions, cycles }),
            27,
            next_pc,
        ),
{
    reveal_strlit("] ENTER ");
    reveal_strlit("] EXIT  ");
    reveal_strlit("] COMPILE_START ");
    reveal_strlit("] COMPILE_END ");
    reveal_strlit("] TRAP ");
    reveal_strlit("] INT_EXIT ");
    reveal_strlit(" → ");
    let text = event_words(TraceEvent::BlockEnter { pc: at, is_jit, exec_count });
    assert(text =~= "] ENTER "@ + wide(at) + text.skip((8 + wide(at).len()) as int));
    lemma_tells(text, "] ENTER "@, at, text.skip((8 + wide(at).len()) as int));
    let text = event_words(TraceEvent::BlockExit { pc: at, next_pc, instructions, cycles });
    assert(text =~= "] EXIT  "@ + wide(at) + text.skip((8 + wide(at).len()) as int));
    lemma_tells(text, "] EXIT  "@, at, text.skip((8 + wide(at).len()) as int));
    let text = event_words(TraceEvent::JitCompileStart { pc: at, ops });
    assert(text =~= "] COMPILE_START "@ + wide(at) + text.skip((16 + wide(at).len()) as int));
    lemma_tells(text, "] COMPILE_START "@, at, text.skip((16 + wide(at).len()) as int));
    let text = event_words(TraceEvent::JitCompileEnd { pc: at, wasm_size, time_us, success });
    assert(text =~= "] COMPILE_END "@ + wide(at) + text.skip((14 + wide(at).len()) as int));
    lemma_tells(text, "] COMPILE_END "@, at, text.skip((14 + wide(at).len()) as int));
    let text = event_words(TraceEvent::Trap { pc: at, cause, tval });
    assert(text =~= "] TRAP "@ + wide(at) + text.skip((7 + wide(at).len()) as int));
    lemma_tells(text, "] TRAP "@, at, text.skip((7 + wide(at).len()) as int));
    let text = event_words(TraceEvent::InterruptExit { pc: at, instructions_executed });
    assert(text =~= "] INT_EXIT "@ + wide(at) + text.skip((11 + wide(at).len()) as int));
    lemma_tells(text, "] INT_EXIT "@, at, text.skip((11 + wide(at).len()) as int));
    let text = event_words(TraceEvent::BlockExit { pc: at, next_pc, instructions, cycles });
    let head = "] EXIT  "@ + wide(at) + " → "@;
    text::law_addresses_are_sixteen_digits(at);
    assert(head.len() == 27);
    assert(text =~= head + wide(next_pc) + text.skip((27 + wide(next_pc).len()) as int));
    lemma_tells(text, head, next_pc, text.skip((27 + wide(next_pc).len()) as int));
}

/// The last events are the end of all events, as many as were asked for and are there.
pub proof fn law_last_events(events: Seq<TraceEvent>, n: nat)
    ensures
        last_events(events, n).len() == if events.len() < n {
            events.len()
        } else {
            n
        },
        forall|i: int|
            0 <= i < last_events(events, n).len() ==> last_events(events, n)[i] == events[events.len()
                - last_events(events, n).len() + i],
{
}

} // verus!
