//! Types of the block compiler.

use crate::engine::block::Block;
use crate::jit::cache;
use crate::jit::cache::{CacheState, CacheStats, JitCache};
use crate::jit::compiler;
use crate::jit::compiler::JitCompiler;
use crate::jit::trace;
use crate::jit::trace::{TraceBuffer, TraceEvent, TraceState, TraceStats};
use crate::text;
use std::collections::HashSet;
use std::time::Instant;
use vstd::prelude::*;
use vstd::std_specs::hash::group_hash_axioms;
use vstd::string::StringExecFns;

pub mod cpu_offsets;
pub mod exit_codes;

verus! {

/// How far a block was compiled.
#[derive(Debug, Clone, Copy, PartialEq, Eq, Structural)]
pub enum JitTier {
    /// Not at all.
    Interpreted,
    /// By itself.
    BlockJit,
    /// Together with its neighbours.
    TraceJit,
}

/// What became of a compilation.
#[derive(Debug, Clone)]
pub enum CompilationResult {
    /// A module.
    Success(Vec<u8>),
    /// The block is not worth compiling, or holds what cannot be compiled.
    Unsuitable,
    /// The compiler failed.
    Error(String),
}

/// Where a block is on its way to being compiled.
#[derive(Debug, Clone, Copy, PartialEq, Eq, Structural)]
pub enum BlockStatus {
    Pending,
    Compiling,
    Ready,
    Invalid,
    Blacklisted,
}

/// Counters of the execution.
#[derive(Debug, Clone, Default)]
pub struct JitStats {
    pub blocks_compiled: u64,
    pub jit_instructions: u64,
    pub interp_instructions: u64,
    pub cache_hits: u64,
    pub cache_misses: u64,
    pub compile_time_us: u64,
}

/// The settings of the compiler and its runtime.
#[derive(Debug)]
pub struct JitConfig {
    pub enabled: bool,
    /// How often a block runs before it is compiled.
    pub tier1_threshold: u32,
    /// Blocks with fewer instructions are not compiled.
    pub min_block_size: usize,
    /// Blocks with more instructions are not compiled.
    pub max_block_size: usize,
    /// Larger modules are thrown away.
    pub max_wasm_size: usize,
    /// How many modules the cache holds.
    pub max_cache_size: usize,
    /// How many bytes of modules the cache holds.
    pub cache_max_bytes: usize,
    pub debug_wat: bool,
    pub trace_enabled: bool,
    /// Compile in a worker, where there is one.
    pub async_compilation: bool,
    /// Look addresses up in the translation buffer without a call.
    pub enable_tlb_fast_path: bool,
    /// How often a block runs before it gets the fast path.
    pub tlb_fast_path_threshold: u32,
    /// Check for interrupts at the start of long blocks.
    pub interrupt_check_on_entry: bool,
    /// Check for interrupts after every so many instructions; 0 for never.
    pub interrupt_check_interval: usize,
    /// How many instructions make a block long.
    pub interrupt_check_block_threshold: usize,
    pub compile_timeout_ms: u32,
    /// Give up after so many failures in a row.
    pub max_consecutive_failures: u32,
    /// Give up after so many failures.
    pub max_total_failures: u32,
    /// Blocks that are not to be compiled.
    pub blacklist: Vec<u64>,
}

/// The settings that `JitConfig::default` gives.
pub open spec fn default_config(c: JitConfig) -> bool {
    &&& c.enabled
    &&& c.tier1_threshold == 50
    &&& c.min_block_size == 4
    &&& c.max_block_size == 256
    &&& c.max_wasm_size == 65536
    &&& c.max_cache_size == 1024
    &&& c.cache_max_bytes == 16777216
    &&& !c.debug_wat
    &&& !c.trace_enabled
    &&& c.async_compilation
    &&& !c.enable_tlb_fast_path
    &&& c.tlb_fast_path_threshold == 100
    &&& c.interrupt_check_on_entry
    &&& c.interrupt_check_interval == 32
    &&& c.interrupt_check_block_threshold == 16
    &&& c.compile_timeout_ms == 100
    &&& c.max_consecutive_failures == 10
    &&& c.max_total_failures == 100
    &&& c.blacklist@ == Seq::<u64>::empty()
}

/// That two settings are alike.
pub open spec fn same_config(a: JitConfig, b: JitConfig) -> bool {
    &&& a.enabled == b.enabled
    &&& a.tier1_threshold == b.tier1_threshold
    &&& a.min_block_size == b.min_block_size
    &&& a.max_block_size == b.max_block_size
    &&& a.max_wasm_size == b.max_wasm_size
    &&& a.max_cache_size == b.max_cache_size
    &&& a.cache_max_bytes == b.cache_max_bytes
    &&& a.debug_wat == b.debug_wat
    &&& a.trace_enabled == b.trace_enabled
    &&& a.async_compilation == b.async_compilation
    &&& a.enable_tlb_fast_path == b.enable_tlb_fast_path
    &&& a.tlb_fast_path_threshold == b.tlb_fast_path_threshold
    &&& a.interrupt_check_on_entry == b.interrupt_check_on_entry
    &&& a.interrupt_check_interval == b.interrupt_check_interval
    &&& a.interrupt_check_block_threshold == b.interrupt_check_block_threshold
    &&& a.compile_timeout_ms == b.compile_timeout_ms
    &&& a.max_consecutive_failures == b.max_consecutive_failures
    &&& a.max_total_failures == b.max_total_failures
    &&& a.blacklist@ == b.blacklist@
}

impl Clone for JitConfig {
    fn clone(&self) -> (copy: Self)
        ensures
            same_config(copy, *self),
    {
        let mut blacklist: Vec<u64> = Vec::new();
        let mut i: usize = 0;
        while i < self.blacklist.len()
            invariant
                i <= self.blacklist.len(),
                blacklist@ == self.blacklist@.take(i as int),
            decreases self.blacklist.len() - i,
        {
            blacklist.push(self.blacklist[i]);
            i = i + 1;
            assert(self.blacklist@.take(i as int) =~= self.blacklist@.take(i - 1).push(
                self.blacklist@[i - 1],
            ));
        }
        assert(blacklist@ =~= self.blacklist@);
        Self {
            enabled: self.enabled,
            tier1_threshold: self.tier1_threshold,
            min_block_size: self.min_block_size,
            max_block_size: self.max_block_size,
            max_wasm_size: self.max_wasm_size,
            max_cache_size: self.max_cache_size,
            cache_max_bytes: self.cache_max_bytes,
            debug_wat: self.debug_wat,
            trace_enabled: self.trace_enabled,
            async_compilation: self.async_compilation,
            enable_tlb_fast_path: self.enable_tlb_fast_path,
            tlb_fast_path_threshold: self.tlb_fast_path_threshold,
            interrupt_check_on_entry: self.interrupt_check_on_entry,
            interrupt_check_interval: self.interrupt_check_interval,
            interrupt_check_block_threshold: self.interrupt_check_block_threshold,
            compile_timeout_ms: self.compile_timeout_ms,
            max_consecutive_failures: self.max_consecutive_failures,
            max_total_failures: self.max_total_failures,
            blacklist,
        }
    }
}

impl Default for JitConfig {
    fn default() -> (config: Self)
        ensures
            default_config(config),
    {
        Self {
            enabled: true,
            tier1_threshold: 50,
            min_block_size: 4,
            max_block_size: 256,
            max_wasm_size: 64 * 1024,
            max_cache_size: 1024,
            cache_max_bytes: 16 * 1024 * 1024,
            debug_wat: false,
            trace_enabled: false,
            async_compilation: true,
            enable_tlb_fast_path: false,
            tlb_fast_path_threshold: 100,
            interrupt_check_on_entry: true,
            interrupt_check_interval: 32,
            interrupt_check_block_threshold: 16,
            compile_timeout_ms: 100,
            max_consecutive_failures: 10,
            max_total_failures: 100,
            blacklist: Vec::new(),
        }
    }
}

impl JitConfig {
    /// How often a block runs before it is compiled.
    pub fn compile_threshold(&self) -> (n: u32)
        ensures
            n == self.tier1_threshold,
    {
        self.tier1_threshold
    }

    /// How many modules the cache holds.
    pub fn cache_max_entries(&self) -> (n: usize)
        ensures
            n == self.max_cache_size,
    {
        self.max_cache_size
    }
}

/// A point in time.
#[verifier::external_type_specification]
#[verifier::external_body]
pub struct ExInstant(std::time::Instant);

/// `Instant::now` tells the time. Nothing is claimed of it.
#[verifier::external_body]
fn now() -> (t: Instant)
{
    Instant::now()
}

/// `Instant::elapsed` tells how much time has gone by, here in microseconds. Nothing is
/// claimed of it.
#[verifier::external_body]
fn elapsed_us(start: &Instant) -> (us: u64)
{
    start.elapsed().as_micros() as u64
}

/// The compiler, its cache, and what became of its work.
pub struct JitRuntime {
    pub config: JitConfig,
    pub cache: JitCache,
    compiler: JitCompiler,
    trace: TraceBuffer,
    pub consecutive_failures: u32,
    pub total_failures: u32,
    pub disabled_by_error: bool,
    pub disabled_reason: Option<String>,
    pub successful_compilations: u64,
    pub failed_blocks: HashSet<u64>,
}

/// What the runtime holds.
#[verifier::ext_equal]
pub struct RuntimeState {
    pub config: JitConfig,
    pub cache: CacheState,
    /// The settings of the compiler, which it got when it was made.
    pub compiler: JitConfig,
    pub trace: TraceState,
    pub consecutive_failures: u32,
    pub total_failures: u32,
    pub disabled_by_error: bool,
    pub disabled_reason: Option<Seq<char>>,
    pub successful_compilations: u64,
    pub failed_blocks: Set<u64>,
}

/// The text of an optional string.
pub open spec fn text_of(s: Option<String>) -> Option<Seq<char>> {
    match s {
        Some(s) => Some(s@),
        None => None,
    }
}

impl View for JitRuntime {
    type V = RuntimeState;

    closed spec fn view(&self) -> RuntimeState {
        RuntimeState {
            config: self.config,
            cache: self.cache@,
            compiler: self.compiler.settings(),
            trace: self.trace@,
            consecutive_failures: self.consecutive_failures,
            total_failures: self.total_failures,
            disabled_by_error: self.disabled_by_error,
            disabled_reason: text_of(self.disabled_reason),
            successful_compilations: self.successful_compilations,
            failed_blocks: self.failed_blocks@,
        }
    }
}

impl RuntimeState {
    pub open spec fn wf(self) -> bool {
        self.cache.wf()
    }

    /// Neither the settings nor errors keep blocks from being compiled.
    pub open spec fn enabled(self) -> bool {
        self.config.enabled && !self.disabled_by_error
    }

    /// Whether a block is to be compiled: it has a fitting size, ran often enough, and
    /// was neither compiled, nor refused, nor is it being compiled.
    pub open spec fn wants(self, block: Block) -> bool {
        &&& self.enabled()
        &&& self.config.min_block_size <= block.len <= self.config.max_block_size
        &&& block.exec_count >= self.config.tier1_threshold
        &&& !cache::has_key(self.cache.entries, block.start_pc)
        &&& !self.cache.compiling.contains(block.start_pc)
        &&& !self.config.blacklist@.contains(block.start_pc)
        &&& !self.failed_blocks.contains(block.start_pc)
        &&& !self.cache.blacklisted.contains(block.start_pc)
    }
}

/// A runtime that has not done anything yet.
pub open spec fn fresh_runtime(s: RuntimeState, config: JitConfig) -> bool {
    &&& same_config(s.config, config)
    &&& s.compiler == config
    &&& s.cache == (CacheState {
        entries: Seq::empty(),
        cap: if config.max_cache_size == 0 {
            1
        } else {
            config.max_cache_size as nat
        },
        max_bytes: config.cache_max_bytes,
        bytes: 0,
        stats: cache::no_stats(),
        generation: 0,
        compiling: Set::empty(),
        blacklisted: Set::empty(),
    })
    &&& s.trace == (TraceState {
        events: Seq::empty(),
        capacity: if config.trace_enabled {
            1000
        } else {
            0
        },
        enabled: config.trace_enabled,
        sequence: 0,
    })
    &&& s.consecutive_failures == 0
    &&& s.total_failures == 0
    &&& !s.disabled_by_error
    &&& s.disabled_reason is None
    &&& s.successful_compilations == 0
    &&& s.failed_blocks == Set::<u64>::empty()
}

/// The runtime with the end of a compilation in its trace.
pub open spec fn end_traced(
    s: RuntimeState,
    pc: u64,
    wasm_size: usize,
    time_us: u64,
    success: bool,
) -> RuntimeState {
    RuntimeState {
        trace: trace::recorded(
            s.trace,
            TraceEvent::JitCompileEnd { pc, wasm_size, time_us, success },
        ),
        ..s
    }
}

/// The runtime switched off.
pub open spec fn disabled(s: RuntimeState, reason: Seq<char>) -> RuntimeState {
    RuntimeState { disabled_by_error: true, disabled_reason: Some(reason), ..s }
}

/// The runtime after the compiler failed on a block: it is counted, and too many failures
/// in a row, or too many at all, switch the runtime off.
pub open spec fn failure_handled(s: RuntimeState, pc: u64, time_us: u64) -> RuntimeState {
    let t = end_traced(
        RuntimeState {
            consecutive_failures: s.consecutive_failures.wrapping_add(1),
            total_failures: s.total_failures.wrapping_add(1),
            failed_blocks: s.failed_blocks.insert(pc),
            ..s
        },
        pc,
        0,
        time_us,
        false,
    );
    if t.consecutive_failures >= t.config.max_consecutive_failures {
        disabled(
            t,
            text::dec(t.consecutive_failures as nat) + " consecutive failures (last at "@
                + text::hex0x(pc as nat) + ")"@,
        )
    } else if t.total_failures >= t.config.max_total_failures {
        disabled(t, text::dec(t.total_failures as nat) + " total failures"@)
    } else {
        t
    }
}

/// The runtime after a compilation, and the module where it can be used. A module that
/// is too large is as good as none, and a block that cannot be compiled is not tried
/// again; neither counts as a failure.
pub open spec fn finished(
    s: RuntimeState,
    pc: u64,
    result: CompilationResult,
    time_us: u64,
) -> (RuntimeState, Option<Vec<u8>>) {
    match result {
        CompilationResult::Success(bytes) => if bytes@.len() > s.config.max_wasm_size {
            let t = end_traced(s, pc, bytes@.len() as usize, time_us, false);
            (RuntimeState { failed_blocks: t.failed_blocks.insert(pc), ..t }, None)
        } else {
            (
                end_traced(
                    RuntimeState {
                        consecutive_failures: 0,
                        successful_compilations: s.successful_compilations.wrapping_add(1),
                        ..s
                    },
                    pc,
                    bytes@.len() as usize,
                    time_us,
                    true,
                ),
                Some(bytes),
            )
        },
        CompilationResult::Unsuitable => (
            end_traced(
                RuntimeState {
                    failed_blocks: s.failed_blocks.insert(pc),
                    cache: CacheState {
                        compiling: s.cache.compiling.remove(pc),
                        blacklisted: s.cache.blacklisted.insert(pc),
                        ..s.cache
                    },
                    ..s
                },
                pc,
                0,
                time_us,
                false,
            ),
            None,
        ),
        CompilationResult::Error(_) => (failure_handled(s, pc, time_us), None),
    }
}

/// The runtime with the start of a compilation in its trace.
pub open spec fn started(s: RuntimeState, block: Block) -> RuntimeState {
    RuntimeState {
        trace: trace::recorded(
            s.trace,
            TraceEvent::JitCompileStart { pc: block.start_pc, ops: block.len as u32 },
        ),
        ..s
    }
}

/// The start of the page of an address.
pub open spec fn page_of(addr: u64) -> u64 {
    (addr - addr % 0x1000) as u64
}

/// The runtime after code was changed: the blocks that start in the pages of the change
/// are thrown out.
pub open spec fn modification_handled(s: RuntimeState, addr: u64, size: usize) -> RuntimeState {
    let keys = cache::keys_in_range(
        s.cache.entries,
        page_of(addr),
        page_of((addr + size + 0xfff) as u64),
    );
    let t = RuntimeState { cache: cache::all_invalidated(s.cache, keys, keys.len()), ..s };
    if keys.len() > 0 {
        RuntimeState {
            trace: trace::recorded(
                s.trace,
                TraceEvent::CacheInvalidate { pc: Some(addr), reason: "code modification" },
            ),
            ..t
        }
    } else {
        t
    }
}

/// Whether an address is in a list.
fn listed(list: &Vec<u64>, pc: u64) -> (b: bool)
    ensures
        b == list@.contains(pc),
{
    let mut i: usize = 0;
    while i < list.len()
        invariant
            i <= list.len(),
            forall|j: int| 0 <= j < i ==> list@[j] != pc,
        decreases list.len() - i,
    {
        if list[i] == pc {
            assert(list@[i as int] == pc);
            return true;
        }
        i = i + 1;
    }
    false
}

impl JitRuntime {
    pub fn new(config: JitConfig) -> (runtime: Self)
        requires
            config.max_cache_size <= usize::MAX / 128,
        ensures
            fresh_runtime(runtime@, config),
            runtime@.wf(),
    {
        broadcast use group_hash_axioms;

        let cache = JitCache::new(config.max_cache_size, config.cache_max_bytes);
        let trace_capacity: usize = if config.trace_enabled {
            1000
        } else {
            0
        };
        let mut trace = TraceBuffer::new(trace_capacity);
        if config.trace_enabled {
            trace.enable();
        }
        Self {
            config: config.clone(),
            cache,
            compiler: JitCompiler::new(config),
            trace,
            consecutive_failures: 0,
            total_failures: 0,
            disabled_by_error: false,
            disabled_reason: None,
            successful_compilations: 0,
            failed_blocks: HashSet::new(),
        }
    }

    /// Whether a block is to be compiled.
    pub fn should_compile(&self, block: &Block) -> (b: bool)
        ensures
            b == self@.wants(*block),
    {
        broadcast use group_hash_axioms;

        if !self.config.enabled || self.disabled_by_error {
            return false;
        }
        let len: usize = block.len as usize;
        if len < self.config.min_block_size || len > self.config.max_block_size {
            return false;
        }
        if block.exec_count < self.config.tier1_threshold {
            return false;
        }
        if self.cache.contains(block.start_pc) || self.cache.is_compiling(block.start_pc) {
            return false;
        }
        if listed(&self.config.blacklist, block.start_pc) || self.failed_blocks.contains(
            &block.start_pc,
        ) {
            return false;
        }
        !self.cache.is_blacklisted(block.start_pc)
    }

    /// Compiles a block, and gives the module where it can be used. How long it took, which
    /// goes into the trace, is the clock's to say.
    pub fn try_compile(&mut self, block: &Block) -> (r: Option<Vec<u8>>)
        requires
            old(self)@.wf(),
            block.wf(),
        ensures
            final(self)@.wf(),
            exists|result: CompilationResult, time_us: u64|
                {
                    &&& compiler::compiles_to(old(self)@.compiler, *block, result)
                    &&& (final(self)@, r) == #[trigger] finished(
                        started(old(self)@, *block),
                        block.start_pc,
                        result,
                        time_us,
                    )
                },
    {
        let start = now();
        self.trace.push(
            TraceEvent::JitCompileStart { pc: block.start_pc, ops: block.len as u32 },
        );
        let result = self.compiler.compile(block);
        let time_us: u64 = elapsed_us(&start);
        self.finish_compile(block.start_pc, result, time_us)
    }

    /// Takes the outcome of a compilation that took `time_us`, and gives the module where
    /// it can be used.
    pub fn finish_compile(&mut self, pc: u64, result: CompilationResult, time_us: u64) -> (r: Option<
        Vec<u8>,
    >)
        requires
            old(self)@.wf(),
        ensures
            (final(self)@, r) == finished(old(self)@, pc, result, time_us),
            final(self)@.wf(),
    {
        broadcast use group_hash_axioms;

        match result {
            CompilationResult::Success(bytes) => {
                let wasm_size: usize = bytes.len();
                if wasm_size > self.config.max_wasm_size {
                    self.trace.push(
                        TraceEvent::JitCompileEnd { pc, wasm_size, time_us, success: false },
                    );
                    self.failed_blocks.insert(pc);
                    return None;
                }
                self.consecutive_failures = 0;
                self.successful_compilations = self.successful_compilations.wrapping_add(1);
                self.trace.push(
                    TraceEvent::JitCompileEnd { pc, wasm_size, time_us, success: true },
                );
                Some(bytes)
            },
            CompilationResult::Unsuitable => {
                self.failed_blocks.insert(pc);
                self.cache.blacklist(pc);
                self.trace.push(
                    TraceEvent::JitCompileEnd { pc, wasm_size: 0, time_us, success: false },
                );
                None
            },
            CompilationResult::Error(_) => {
                self.handle_compilation_error(pc, time_us);
                None
            },
        }
    }

    /// Takes note of a failure of the compiler.
    pub fn handle_compilation_error(&mut self, pc: u64, time_us: u64)
        requires
            old(self)@.wf(),
        ensures
            final(self)@ == failure_handled(old(self)@, pc, time_us),
            final(self)@.wf(),
    {
        broadcast use group_hash_axioms;

        self.consecutive_failures = self.consecutive_failures.wrapping_add(1);
        self.total_failures = self.total_failures.wrapping_add(1);
        self.failed_blocks.insert(pc);
        self.trace.push(
            TraceEvent::JitCompileEnd { pc, wasm_size: 0, time_us, success: false },
        );
        if self.consecutive_failures >= self.config.max_consecutive_failures {
            let mut reason = String::new();
            text::push_dec(&mut reason, self.consecutive_failures as u64);
            reason.append(" consecutive failures (last at ");
            text::push_hex0x(&mut reason, pc);
            reason.append(")");
            assert(reason@ =~= text::dec(self.consecutive_failures as nat)
                + " consecutive failures (last at "@ + text::hex0x(pc as nat) + ")"@);
            self.disable_jit(reason);
        } else if self.total_failures >= self.config.max_total_failures {
            let mut reason = String::new();
            text::push_dec(&mut reason, self.total_failures as u64);
            reason.append(" total failures");
            assert(reason@ =~= text::dec(self.total_failures as nat) + " total failures"@);
            self.disable_jit(reason);
        }
    }

    /// Switches the runtime off.
    fn disable_jit(&mut self, reason: String)
        ensures
            final(self)@ == disabled(old(self)@, reason@),
    {
        self.disabled_by_error = true;
        self.disabled_reason = Some(reason);
    }

    /// Switches the runtime on again after errors, and lets failed blocks be tried again.
    /// The number of all failures stays.
    pub fn reenable(&mut self)
        ensures
            final(self)@ == (RuntimeState {
                disabled_by_error: false,
                disabled_reason: None,
                consecutive_failures: 0,
                failed_blocks: Set::empty(),
                ..old(self)@
            }),
    {
        broadcast use group_hash_axioms;

        self.disabled_by_error = false;
        self.disabled_reason = None;
        self.consecutive_failures = 0;
        self.failed_blocks.clear();
    }

    /// Forgets all failures.
    pub fn reset_errors(&mut self)
        ensures
            final(self)@ == (RuntimeState {
                consecutive_failures: 0,
                total_failures: 0,
                disabled_by_error: false,
                disabled_reason: None,
                failed_blocks: Set::empty(),
                ..old(self)@
            }),
    {
        broadcast use group_hash_axioms;

        self.consecutive_failures = 0;
        self.total_failures = 0;
        self.disabled_by_error = false;
        self.disabled_reason = None;
        self.failed_blocks.clear();
    }

    /// Throws the blocks out that start in the pages where code was changed.
    pub fn handle_code_modification(&mut self, addr: u64, size: usize)
        requires
            old(self)@.wf(),
            addr + size + 0xfff <= u64::MAX,
        ensures
            final(self)@ == modification_handled(old(self)@, addr, size),
            final(self)@.wf(),
    {
        let start: u64 = addr - addr % 0x1000;
        let past: u64 = addr + size as u64 + 0xfff;
        let end: u64 = past - past % 0x1000;
        let count: usize = self.cache.invalidate_range(start, end);
        if count > 0 {
            self.trace.push(
                TraceEvent::CacheInvalidate { pc: Some(addr), reason: "code modification" },
            );
        }
    }

    /// Throws all blocks out because address translations changed.
    pub fn handle_tlb_flush(&mut self)
        requires
            old(self)@.wf(),
        ensures
            final(self)@ == (RuntimeState {
                cache: cache::cleared(
                    CacheState {
                        generation: old(self)@.cache.generation.wrapping_add(1),
                        ..old(self)@.cache
                    },
                ),
                trace: trace::recorded(
                    old(self)@.trace,
                    TraceEvent::CacheInvalidate { pc: None, reason: "TLB flush" },
                ),
                ..old(self)@
            }),
            final(self)@.wf(),
    {
        self.cache.flush();
        self.trace.push(TraceEvent::CacheInvalidate { pc: None, reason: "TLB flush" });
    }

    /// How the runtime fares.
    pub fn diagnostics(&self) -> (d: JitDiagnostics)
        ensures
            d.enabled == self@.enabled(),
            d.disabled_by_error == self@.disabled_by_error,
            text_of(d.disabled_reason) == self@.disabled_reason,
            d.consecutive_failures == self@.consecutive_failures,
            d.total_failures == self@.total_failures,
            d.successful_compilations == self@.successful_compilations,
            d.failed_blocks_count == self@.failed_blocks.len(),
            d.cache_entries == self@.cache.entries.len(),
            d.cache_bytes == self@.cache.bytes,
            d.cache_stats == self@.cache.stats,
            d.trace_stats == trace::tally(self@.trace.events),
    {
        broadcast use group_hash_axioms;

        let disabled_reason: Option<String> = match &self.disabled_reason {
            Some(reason) => Some(reason.clone()),
            None => None,
        };
        JitDiagnostics {
            enabled: self.config.enabled && !self.disabled_by_error,
            disabled_by_error: self.disabled_by_error,
            disabled_reason,
            consecutive_failures: self.consecutive_failures,
            total_failures: self.total_failures,
            successful_compilations: self.successful_compilations,
            failed_blocks_count: self.failed_blocks.len(),
            cache_entries: self.cache.entry_count(),
            cache_bytes: self.cache.memory_usage(),
            cache_stats: *self.cache.stats(),
            trace_stats: self.trace.stats(),
        }
    }

    pub fn is_enabled(&self) -> (b: bool)
        ensures
            b == self@.enabled(),
    {
        self.config.enabled && !self.disabled_by_error
    }

    pub fn is_disabled_by_error(&self) -> (b: bool)
        ensures
            b == self@.disabled_by_error,
    {
        self.disabled_by_error
    }

    /// Why the runtime was switched off.
    pub fn disabled_reason(&self) -> (r: Option<&str>)
        ensures
            match r {
                Some(s) => self@.disabled_reason == Some(s@),
                None => self@.disabled_reason is None,
            },
    {
        match &self.disabled_reason {
            Some(s) => Some(s.as_str()),
            None => None,
        }
    }

    pub fn failed_blocks_count(&self) -> (n: usize)
        ensures
            n == self@.failed_blocks.len(),
    {
        broadcast use group_hash_axioms;

        self.failed_blocks.len()
    }

    pub fn config(&self) -> (config: &JitConfig)
        ensures
            *config == self@.config,
    {
        &self.config
    }

    pub fn config_mut(&mut self) -> (config: &mut JitConfig)
        ensures
            *config == old(self)@.config,
            final(self)@ == (RuntimeState { config: *final(config), ..old(self)@ }),
    {
        &mut self.config
    }

    pub fn cache(&self) -> (cache: &JitCache)
        ensures
            cache@ == self@.cache,
    {
        &self.cache
    }

    pub fn cache_mut(&mut self) -> (cache: &mut JitCache)
        ensures
            cache@ == old(self)@.cache,
            final(self)@ == (RuntimeState { cache: final(cache)@, ..old(self)@ }),
    {
        &mut self.cache
    }

    pub fn trace(&self) -> (trace: &TraceBuffer)
        ensures
            trace@ == self@.trace,
    {
        &self.trace
    }

    pub fn trace_mut(&mut self) -> (trace: &mut TraceBuffer)
        ensures
            trace@ == old(self)@.trace,
            final(self)@ == (RuntimeState { trace: final(trace)@, ..old(self)@ }),
    {
        &mut self.trace
    }

    pub fn compiler(&self) -> (compiler: &JitCompiler)
        ensures
            compiler.settings() == self@.compiler,
    {
        &self.compiler
    }

    pub fn compiler_mut(&mut self) -> (compiler: &mut JitCompiler)
        ensures
            compiler.settings() == old(self)@.compiler,
            final(self)@ == (RuntimeState { compiler: final(compiler).settings(), ..old(self)@ }),
    {
        &mut self.compiler
    }
}

impl Default for JitRuntime {
    fn default() -> (runtime: Self)
        ensures
            exists|config: JitConfig|
                default_config(config) && #[trigger] fresh_runtime(runtime@, config),
            runtime@.wf(),
    {
        Self::new(JitConfig::default())
    }
}

/// How the runtime fares.
#[derive(Debug, Clone)]
pub struct JitDiagnostics {
    pub enabled: bool,
    pub disabled_by_error: bool,
    pub disabled_reason: Option<String>,
    pub consecutive_failures: u32,
    pub total_failures: u32,
    pub successful_compilations: u64,
    pub failed_blocks_count: usize,
    pub cache_entries: usize,
    pub cache_bytes: usize,
    pub cache_stats: CacheStats,
    pub trace_stats: TraceStats,
}

/// A block that could not be compiled, or whose module was too large, is not compiled
/// again.
pub proof fn law_refused_block_is_not_retried(
    s: RuntimeState,
    block: Block,
    result: CompilationResult,
    time_us: u64,
)
    ensures
        finished(s, block.start_pc, result, time_us).1 is None ==> !finished(
            s,
            block.start_pc,
            result,
            time_us,
        ).0.wants(block),
{
}

/// An unsuitable block is no failure of the compiler: the counts of failures stay, and so
/// does whether the runtime is switched on.
pub proof fn law_unsuitable_is_no_failure(s: RuntimeState, pc: u64, time_us: u64)
    ensures
        ({
            let t = finished(s, pc, CompilationResult::Unsuitable, time_us).0;
            &&& t.consecutive_failures == s.consecutive_failures
            &&& t.total_failures == s.total_failures
            &&& t.enabled() == s.enabled()
        }),
{
}

/// A runtime that errors switched off wants no block until it is switched on again.
pub proof fn law_disabled_runtime_wants_nothing(s: RuntimeState, block: Block)
    requires
        s.disabled_by_error,
    ensures
        !s.wants(block),
{
}

/// The failure that brings the number of failures in a row up to its limit switches the
/// runtime off.
pub proof fn law_failures_in_a_row_disable(s: RuntimeState, pc: u64, time_us: u64)
    requires
        s.consecutive_failures < u32::MAX,
        s.consecutive_failures + 1 >= s.config.max_consecutive_failures,
    ensures
        failure_handled(s, pc, time_us).disabled_by_error,
{
}

/// After code was changed, no cached block starts in a page that the change touches, and every
/// block of another page is cached as before. Nothing else changes but the trace, which notes
/// the change where a block had to go.
pub proof fn law_changed_code_is_thrown_out(s: RuntimeState, addr: u64, size: usize, pc: u64, a: u64)
    requires
        s.wf(),
        size > 0,
        addr + size + 0xfff <= u64::MAX,
    ensures
        ({
            let t = modification_handled(s, addr, size);
            let first = addr as int / 4096;
            let last = (addr + size - 1) / 4096;
            &&& addr <= a < addr + size && pc / 4096 == a / 4096 ==> !cache::has_key(
                t.cache.entries,
                pc,
            )
            &&& !(first <= pc as int / 4096 && pc as int / 4096 <= last) ==> cache::has_key(
                t.cache.entries,
                pc,
            ) == cache::has_key(s.cache.entries, pc)
            &&& cache::has_key(t.cache.entries, pc) ==> cache::has_key(s.cache.entries, pc)
                && cache::lookup(t.cache.entries, pc) == cache::lookup(s.cache.entries, pc)
            &&& t == (RuntimeState { cache: t.cache, trace: t.trace, ..s })
            &&& t.cache.entries.len() == s.cache.entries.len() ==> t.trace == s.trace
            &&& t.cache.entries.len() < s.cache.entries.len() ==> t.trace == trace::recorded(
                s.trace,
                TraceEvent::CacheInvalidate { pc: Some(addr), reason: "code modification" },
            )
        }),
{
    let start = page_of(addr);
    let end = page_of((addr + size + 0xfff) as u64);
    cache::law_range_is_thrown_out(s.cache, start, end, pc);
    cache::lemma_range_len(s.cache, start, end);
}

/// A change of no bytes at the start of a page touches no block.
pub proof fn law_no_change_keeps_blocks(s: RuntimeState, addr: u64)
    requires
        s.wf(),
        addr % 4096 == 0,
        addr + 0xfff <= u64::MAX,
    ensures
        modification_handled(s, addr, 0) == s,
{
    cache::lemma_range(s.cache.entries, addr, addr);
    let keys = cache::keys_in_range(s.cache.entries, addr, addr);
    if keys.len() > 0 {
        assert(keys.contains(keys[0]));
    }
}

/// A block is compiled once it ran as often as the threshold asks, where its size is within
/// the limits and nothing speaks against it; more runs and the largest and smallest sizes
/// make no difference.
pub proof fn law_blocks_within_the_limits_are_wanted(s: RuntimeState, config: JitConfig, block: Block)
    requires
        fresh_runtime(s, config),
        config.enabled,
        !config.blacklist@.contains(block.start_pc),
    ensures
        s.wants(block) <==> config.min_block_size <= block.len && block.len
            <= config.max_block_size && config.tier1_threshold <= block.exec_count,
{
}

/// A block that is cached, being compiled or listed as one that cannot be compiled is not
/// wanted, and neither is any block where the compiler is switched off.
pub proof fn law_what_speaks_against_a_block(s: RuntimeState, block: Block)
    ensures
        cache::has_key(s.cache.entries, block.start_pc) ==> !s.wants(block),
        s.cache.compiling.contains(block.start_pc) ==> !s.wants(block),
        s.cache.blacklisted.contains(block.start_pc) ==> !s.wants(block),
        s.config.blacklist@.contains(block.start_pc) ==> !s.wants(block),
        s.failed_blocks.contains(block.start_pc) ==> !s.wants(block),
        !s.config.enabled ==> !s.wants(block),
{
}

/// A module of ordinary size is handed out, counts as a success and ends a row of failures.
pub proof fn law_successes_are_counted(s: RuntimeState, pc: u64, bytes: Vec<u8>, time_us: u64)
    requires
        bytes@.len() <= s.config.max_wasm_size,
        s.successful_compilations < u64::MAX,
    ensures
        ({
            let (t, module) = finished(s, pc, CompilationResult::Success(bytes), time_us);
            &&& module == Some(bytes)
            &&& t.successful_compilations == s.successful_compilations + 1
            &&& t.consecutive_failures == 0
            &&& t.total_failures == s.total_failures
            &&& t.failed_blocks == s.failed_blocks
            &&& t.cache == s.cache
            &&& t.enabled() == s.enabled()
        }),
{
}

/// A module that is too large is not handed out; its block is listed, but no failure is
/// counted.
pub proof fn law_large_modules_are_dropped(s: RuntimeState, pc: u64, bytes: Vec<u8>, time_us: u64)
    requires
        bytes@.len() > s.config.max_wasm_size,
    ensures
        ({
            let (t, module) = finished(s, pc, CompilationResult::Success(bytes), time_us);
            &&& module is None
            &&& t.successful_compilations == s.successful_compilations
            &&& t.consecutive_failures == s.consecutive_failures
            &&& t.total_failures == s.total_failures
            &&& forall|k: u64| #[trigger]
                t.failed_blocks.contains(k) <==> k == pc || s.failed_blocks.contains(k)
            &&& t.cache == s.cache
            &&& t.enabled() == s.enabled()
        }),
{
}

/// A failure is counted in the row and in all, its block is listed, and the runtime is switched
/// off just where one of the two counts reaches its limit.
pub proof fn law_failures_are_counted(s: RuntimeState, pc: u64, time_us: u64)
    requires
        s.consecutive_failures < u32::MAX,
        s.total_failures < u32::MAX,
        !s.disabled_by_error,
    ensures
        ({
            let t = failure_handled(s, pc, time_us);
            &&& t.consecutive_failures == s.consecutive_failures + 1
            &&& t.total_failures == s.total_failures + 1
            &&& t.successful_compilations == s.successful_compilations
            &&& forall|k: u64| #[trigger]
                t.failed_blocks.contains(k) <==> k == pc || s.failed_blocks.contains(k)
            &&& t.disabled_by_error <==> s.consecutive_failures + 1
                >= s.config.max_consecutive_failures || s.total_failures + 1
                >= s.config.max_total_failures
            &&& t.disabled_by_error ==> t.disabled_reason is Some
            &&& !t.disabled_by_error ==> t.disabled_reason == s.disabled_reason
            &&& t.cache == s.cache
            &&& t.config == s.config
        }),
{
}

/// The trace notes when a compilation starts and how it ends.
pub proof fn law_compilations_are_traced(
    s: RuntimeState,
    block: Block,
    bytes: Vec<u8>,
    time_us: u64,
)
    ensures
        ({
            let ended = |wasm_size: usize, success: bool|
                trace::recorded(
                    s.trace,
                    TraceEvent::JitCompileEnd { pc: block.start_pc, wasm_size, time_us, success },
                );
            let done = |result: CompilationResult|
                finished(s, block.start_pc, result, time_us).0.trace;
            &&& started(s, block).trace == trace::recorded(
                s.trace,
                TraceEvent::JitCompileStart { pc: block.start_pc, ops: block.len as u32 },
            )
            &&& done(CompilationResult::Success(bytes)) == ended(
                bytes@.len() as usize,
                bytes@.len() <= s.config.max_wasm_size,
            )
            &&& done(CompilationResult::Unsuitable) == ended(0, false)
            &&& failure_handled(s, block.start_pc, time_us).trace == ended(0, false)
        }),
{
}

} // verus!
