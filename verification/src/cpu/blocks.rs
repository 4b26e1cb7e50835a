//! Blocks: when they are compiled, and how a hart goes on after compiled code ran.

use crate::cpu::hart::Cpu;
use crate::cpu::types::{environment_call_trap, Trap};
use crate::engine::block::Block;
use crate::jit::runtime::JitExecResult;
use crate::jit::state::{sync_from_shared, sync_to_shared, trap_codes};
use crate::jit::types::CompilationResult;
use crate::jit::worker::CompileRequest;
use vstd::prelude::*;

verus! {

use crate::cpu::hart::{same_setup, HartState};
use crate::cpu::types::{environment_call, Mode};
use crate::bus::SystemState;
use crate::cpu::types::AccessType;
use crate::jit::cache::{
    has_key, inserted, law_inserted_is_cached, lookup, touched, CacheState, JitFunction,
};
use crate::jit::helpers::{mmu_read, mmu_write};
use crate::jit::compiler::compiles_to;
use crate::jit::state::{describes_hart, hart_from, holds_state, tells_hart, trap_from};
use crate::jit::worker::packs;
use crate::mmu::{lemma_translation_faults, translation, TlbEntry};

/// How the hart goes on after compiled code.
#[derive(Debug, Clone, Copy, PartialEq, Eq, Structural)]
pub enum JitBlockResult {
    /// The program counter is up to date.
    Continue,
    /// The interpreter executes what follows.
    FallbackToInterpreter,
    /// The hart stops.
    Halt,
}

/// What is done with the block at the program counter.
#[derive(Debug, Clone, Copy, PartialEq, Eq, Structural)]
pub enum BlockAction {
    /// The block that is there is executed, and its count goes up.
    Execute,
    /// A block is put together first.
    Decode,
}

/// What putting a block together led to.
#[derive(Debug, Clone, Copy, PartialEq, Eq, Structural)]
pub enum DecodeResult {
    Block,
    Trap(Trap),
    Unsuitable,
}

/// What is done after a block was put together, or was not.
#[derive(Debug, Clone, Copy, PartialEq, Eq, Structural)]
pub enum DecodedAction {
    /// The block is kept and executed.
    KeepAndExecute,
    /// The trap is delivered.
    Raise(Trap),
    /// One instruction is interpreted.
    Interpret,
}

/// The trap that a code from compiled code stands for.
pub open spec fn trap_of(mode: Mode, code: u32, value: u64) -> Trap {
    if code == trap_codes::LOAD_PAGE_FAULT {
        Trap::LoadPageFault(value)
    } else if code == trap_codes::STORE_PAGE_FAULT {
        Trap::StorePageFault(value)
    } else if code == trap_codes::LOAD_ACCESS_FAULT {
        Trap::LoadAccessFault(value)
    } else if code == trap_codes::STORE_ACCESS_FAULT {
        Trap::StoreAccessFault(value)
    } else if code == trap_codes::ILLEGAL_INSTRUCTION {
        Trap::IllegalInstruction(value)
    } else if code == trap_codes::ECALL {
        environment_call(mode)
    } else if code == trap_codes::EBREAK {
        Trap::Breakpoint
    } else {
        Trap::IllegalInstruction(code as u64)
    }
}

/// Where a branch goes. Its target stands in the shared memory as the program counter, and
/// compiled code returns the low word of it. A word that is not that of the program counter
/// there stands for itself.
pub open spec fn branch_goal(told: u64, new_pc: u64) -> u64 {
    if told % 0x1_0000_0000 == new_pc {
        told
    } else {
        new_pc
    }
}

/// The hart after compiled code left `shared` and returned `result`, and how it goes on.
/// A trap that the shared memory tells comes before what the code returned.
pub open spec fn left_block(s: HartState, shared: Seq<u8>, result: Option<JitExecResult>) -> (
    HartState,
    Result<JitBlockResult, Trap>,
) {
    let read = hart_from(shared, s);
    match trap_from(shared) {
        Some((code, value)) => (read, Err(trap_of(s.mode, code, value))),
        None => match result {
            Some(JitExecResult::Continue(next_pc)) => (
                HartState { pc: next_pc, ..read },
                Ok(JitBlockResult::Continue),
            ),
            Some(JitExecResult::ExitToInterpreter { pc }) => (
                HartState { pc, ..read },
                Ok(JitBlockResult::FallbackToInterpreter),
            ),
            Some(JitExecResult::Trap { code, fault_pc }) => (
                HartState { pc: fault_pc, ..read },
                Err(trap_of(s.mode, code, fault_pc)),
            ),
            Some(JitExecResult::InterruptCheck { pc }) => (
                HartState { pc, ..read },
                Ok(JitBlockResult::FallbackToInterpreter),
            ),
            Some(JitExecResult::Branch { new_pc }) => (
                HartState { pc: branch_goal(read.pc, new_pc), ..read },
                Ok(JitBlockResult::Continue),
            ),
            None => (read, Ok(JitBlockResult::FallbackToInterpreter)),
        },
    }
}

// Compilation.

/// Whether the block at `pc`, executed `exec_count` times, is to be compiled.
pub open spec fn wants_compiling(cpu: Cpu, cache: CacheState, pc: u64, exec_count: u32) -> bool {
    &&& cpu.use_jit
    &&& exec_count >= cpu.jit_config.tier1_threshold
    &&& !cache.compiling.contains(pc)
    &&& !cache.blacklisted.contains(pc)
}

/// The cache after the hart looked for the block at `pc` in it.
pub open spec fn asked_for(cpu: Cpu, cache: CacheState, pc: u64) -> CacheState {
    if cpu.use_jit {
        touched(cache, pc)
    } else {
        cache
    }
}

/// That a request asks for a block.
pub open spec fn asks_for(request: CompileRequest, block: Block) -> bool {
    &&& request.pc == block.start_pc
    &&& request.pa == block.start_pa
    &&& request.byte_len == block.byte_len
    &&& packs(request.ops@, block.code())
}

/// A module as the cache keeps it.
pub open spec fn module_of(pc: u64, wasm_bytes: Vec<u8>) -> JitFunction {
    JitFunction {
        wasm_bytes,
        wasm_size: wasm_bytes@.len() as usize,
        exec_count: 0,
        pc,
        instruction_count: 0,
    }
}

/// The cache with the block at `pc` marked as being compiled.
pub open spec fn marked(s: CacheState, pc: u64) -> CacheState {
    CacheState { compiling: s.compiling.insert(pc), ..s }
}

/// The cache with the block at `pc` never to be compiled again.
pub open spec fn barred(s: CacheState, pc: u64) -> CacheState {
    CacheState {
        compiling: s.compiling.remove(pc),
        blacklisted: s.blacklisted.insert(pc),
        ..s
    }
}

/// Whether the size of a module can be counted in.
pub open spec fn has_room(s: CacheState, len: nat) -> bool {
    s.bytes + len <= usize::MAX
}

/// The cache after a compilation: a module is kept, and a block that has none is never
/// tried again.
pub open spec fn settled(s: CacheState, pc: u64, result: CompilationResult) -> CacheState {
    match result {
        CompilationResult::Success(bytes) => if has_room(s, bytes@.len()) {
            inserted(s, pc, module_of(pc, bytes))
        } else {
            s
        },
        _ => barred(s, pc),
    }
}

/// That nothing but the compiled blocks differs between two harts.
pub open spec fn same_but_blocks(a: Cpu, b: Cpu) -> bool {
    &&& a@ == b@
    &&& a.reservation_mask == b.reservation_mask
    &&& a.poll_counter == b.poll_counter
    &&& a.use_blocks == b.use_blocks
    &&& a.use_jit == b.use_jit
    &&& a.jit_config == b.jit_config
    &&& a.jit_compiler.settings() == b.jit_compiler.settings()
}

impl Cpu {
    /// The trap that a code from compiled code stands for.
    pub fn trap_from_code(&self, code: u32, value: u64) -> (trap: Trap)
        ensures
            trap == trap_of(self@.mode, code, value),
    {
        if code == trap_codes::LOAD_PAGE_FAULT {
            Trap::LoadPageFault(value)
        } else if code == trap_codes::STORE_PAGE_FAULT {
            Trap::StorePageFault(value)
        } else if code == trap_codes::LOAD_ACCESS_FAULT {
            Trap::LoadAccessFault(value)
        } else if code == trap_codes::STORE_ACCESS_FAULT {
            Trap::StoreAccessFault(value)
        } else if code == trap_codes::ILLEGAL_INSTRUCTION {
            Trap::IllegalInstruction(value)
        } else if code == trap_codes::ECALL {
            environment_call_trap(self.mode)
        } else if code == trap_codes::EBREAK {
            Trap::Breakpoint
        } else {
            Trap::IllegalInstruction(code as u64)
        }
    }

    /// Hands the state over to the compiled block at the program counter. Where its module
    /// is not at hand, nothing is handed over, and the result says how the hart goes on.
    pub fn prepare_jit_block(&self, at_hand: bool, shared: &mut Vec<u8>) -> (r: Option<
        JitBlockResult,
    >)
        requires
            holds_state(old(shared)@),
        ensures
            !at_hand ==> r == Some(JitBlockResult::FallbackToInterpreter) && final(shared)@ == old(
                shared,
            )@,
            at_hand ==> r is None && tells_hart(final(shared)@, self@) && final(shared)@.len()
                == old(shared)@.len(),
            forall|k: int|
                0 <= k < old(shared)@.len() && !describes_hart(k) ==> #[trigger] final(shared)@[k]
                    == old(shared)@[k],
    {
        if !at_hand {
            return Some(JitBlockResult::FallbackToInterpreter);
        }
        sync_to_shared(self, shared);
        None
    }

    /// Takes the state back after compiled code ran, and says how the hart goes on.
    pub fn finish_jit_block(&mut self, shared: &[u8], result: Option<JitExecResult>) -> (r: Result<
        JitBlockResult,
        Trap,
    >)
        requires
            holds_state(shared@),
        ensures
            (final(self)@, r) == left_block(old(self)@, shared@, result),
            same_setup(*final(self), *old(self)),
    {
        if let Some((code, value)) = sync_from_shared(self, shared) {
            return Err(self.trap_from_code(code, value));
        }
        match result {
            Some(JitExecResult::Continue(next_pc)) => {
                self.pc = next_pc;
                Ok(JitBlockResult::Continue)
            },
            Some(JitExecResult::ExitToInterpreter { pc }) => {
                self.pc = pc;
                Ok(JitBlockResult::FallbackToInterpreter)
            },
            Some(JitExecResult::Trap { code, fault_pc }) => {
                self.pc = fault_pc;
                Err(self.trap_from_code(code, fault_pc))
            },
            Some(JitExecResult::InterruptCheck { pc }) => {
                self.pc = pc;
                Ok(JitBlockResult::FallbackToInterpreter)
            },
            Some(JitExecResult::Branch { new_pc }) => {
                if self.pc % 0x1_0000_0000 != new_pc {
                    self.pc = new_pc;
                }
                Ok(JitBlockResult::Continue)
            },
            None => Ok(JitBlockResult::FallbackToInterpreter),
        }
    }

    /// Takes in how the compilation of the block at `pc` ended, and says whether that could
    /// be noted: a module whose size cannot be counted in is dropped.
    pub fn finish_jit_compilation(&mut self, pc: u64, result: CompilationResult) -> (noted: bool)
        requires
            old(self).jit_cache@.wf(),
        ensures
            final(self).jit_cache@ == settled(old(self).jit_cache@, pc, result),
            final(self).jit_cache@.wf(),
            noted == (result matches CompilationResult::Success(bytes) ==> has_room(
                old(self).jit_cache@,
                bytes@.len(),
            )),
            same_but_blocks(*final(self), *old(self)),
    {
        match result {
            CompilationResult::Success(wasm_bytes) => {
                if self.jit_cache.memory_usage() > usize::MAX - wasm_bytes.len() {
                    return false;
                }
                self.jit_cache.insert_bytes(pc, wasm_bytes);
            },
            _ => {
                self.jit_cache.blacklist(pc);
            },
        }
        true
    }

    /// Compiles the block at `pc`.
    pub fn trigger_jit_compilation(&mut self, pc: u64, block: &Block) -> (noted: bool)
        requires
            old(self).jit_cache@.wf(),
            block.wf(),
        ensures
            exists|result: CompilationResult|
                {
                    &&& #[trigger] compiles_to(old(self).jit_compiler.settings(), *block, result)
                    &&& final(self).jit_cache@ == settled(
                        marked(old(self).jit_cache@, pc),
                        pc,
                        result,
                    )
                    &&& noted == (result matches CompilationResult::Success(bytes) ==> has_room(
                        old(self).jit_cache@,
                        bytes@.len(),
                    ))
                },
            final(self).jit_cache@.wf(),
            same_but_blocks(*final(self), *old(self)),
    {
        self.jit_cache.mark_compiling(pc);
        let result = self.jit_compiler.compile(block);
        assert(compiles_to(old(self).jit_compiler.settings(), *block, result));
        self.finish_jit_compilation(pc, result)
    }

    /// Begins the block at the program counter, given the one that is known there. One that
    /// ran often enough is compiled.
    pub fn begin_block(&mut self, known: Option<&Block>) -> (action: BlockAction)
        requires
            old(self).jit_cache@.wf(),
            known is Some ==> known->0.wf(),
        ensures
            action == (if known is Some {
                BlockAction::Execute
            } else {
                BlockAction::Decode
            }),
            ({
                let pc = old(self)@.pc;
                let asked = asked_for(*old(self), old(self).jit_cache@, pc);
                if known is Some && wants_compiling(*old(self), asked, pc, known->0.exec_count) {
                    exists|result: CompilationResult|
                        #[trigger] compiles_to(
                            old(self).jit_compiler.settings(),
                            *known->0,
                            result,
                        ) && final(self).jit_cache@ == settled(marked(asked, pc), pc, result)
                } else {
                    final(self).jit_cache@ == asked
                }
            }),
            final(self).jit_cache@.wf(),
            same_but_blocks(*final(self), *old(self)),
    {
        let pc: u64 = self.pc;
        if self.use_jit {
            let _ = self.jit_cache.get(pc);
        }
        match known {
            Some(block) => {
                if self.use_jit && block.exec_count >= self.jit_config.tier1_threshold
                    && !self.jit_cache.is_compiling(pc) && !self.jit_cache.is_blacklisted(pc) {
                    let _ = self.trigger_jit_compilation(pc, block);
                }
                BlockAction::Execute
            },
            None => BlockAction::Decode,
        }
    }

    /// Begins the block at the program counter, given the one that is known there, where a
    /// worker may be running that compiles. A block that ran often enough is handed to it
    /// where the settings say so, and else compiled here.
    pub fn begin_block_with_worker(&mut self, known: Option<&Block>, worker: bool) -> (r: (
        BlockAction,
        Option<CompileRequest>,
    ))
        requires
            old(self).jit_cache@.wf(),
            known is Some ==> known->0.wf(),
        ensures
            r.0 == (if known is Some {
                BlockAction::Execute
            } else {
                BlockAction::Decode
            }),
            ({
                let pc = old(self)@.pc;
                let asked = asked_for(*old(self), old(self).jit_cache@, pc);
                let wanted = known is Some && wants_compiling(
                    *old(self),
                    asked,
                    pc,
                    known->0.exec_count,
                );
                let sent = wanted && old(self).jit_config.async_compilation && worker;
                &&& r.1 is Some <==> sent
                &&& sent ==> asks_for(r.1->0, *known->0) && final(self).jit_cache@ == marked(
                    asked,
                    pc,
                )
                &&& wanted && !sent ==> exists|result: CompilationResult|
                    #[trigger] compiles_to(
                        old(self).jit_compiler.settings(),
                        *known->0,
                        result,
                    ) && final(self).jit_cache@ == settled(marked(asked, pc), pc, result)
                &&& !wanted ==> final(self).jit_cache@ == asked
            }),
            final(self).jit_cache@.wf(),
            same_but_blocks(*final(self), *old(self)),
    {
        if !self.jit_config.async_compilation || !worker {
            return (self.begin_block(known), None);
        }
        let pc: u64 = self.pc;
        if self.use_jit {
            let _ = self.jit_cache.get(pc);
        }
        match known {
            Some(block) => {
                if self.use_jit && block.exec_count >= self.jit_config.tier1_threshold
                    && !self.jit_cache.is_compiling(pc) && !self.jit_cache.is_blacklisted(pc) {
                    let request = self.request_jit_compilation(pc, block);
                    (BlockAction::Execute, Some(request))
                } else {
                    (BlockAction::Execute, None)
                }
            },
            None => (BlockAction::Decode, None),
        }
    }

    /// The request to compile a block elsewhere, which is marked as being compiled.
    pub fn request_jit_compilation(&mut self, pc: u64, block: &Block) -> (request: CompileRequest)
        requires
            block.wf(),
        ensures
            final(self).jit_cache@ == marked(old(self).jit_cache@, pc),
            same_but_blocks(*final(self), *old(self)),
            asks_for(request, *block),
    {
        self.jit_cache.mark_compiling(pc);
        CompileRequest::from_block(block)
    }

    /// Takes in what became of a request: a module is kept, a success without one changes
    /// nothing, and after a failure the block is never tried again.
    pub fn handle_jit_compile_result(
        &mut self,
        pc: u64,
        success: bool,
        wasm_bytes: Option<Vec<u8>>,
    )
        requires
            old(self).jit_cache@.wf(),
            wasm_bytes is Some ==> has_room(old(self).jit_cache@, wasm_bytes->0@.len()),
        ensures
            final(self).jit_cache@ == (if !success {
                barred(old(self).jit_cache@, pc)
            } else {
                match wasm_bytes {
                    Some(bytes) => inserted(old(self).jit_cache@, pc, module_of(pc, bytes)),
                    None => old(self).jit_cache@,
                }
            }),
            final(self).jit_cache@.wf(),
            same_but_blocks(*final(self), *old(self)),
    {
        if success {
            if let Some(bytes) = wasm_bytes {
                self.jit_cache.insert_bytes(pc, bytes);
            }
        } else {
            self.jit_cache.blacklist(pc);
        }
    }
}

/// Counts an execution of a block, up to the largest count.
pub fn count_execution(block: &mut Block)
    ensures
        final(block).exec_count == (if old(block).exec_count < u32::MAX {
            (old(block).exec_count + 1) as u32
        } else {
            u32::MAX
        }),
        *final(block) == (Block { exec_count: final(block).exec_count, ..*old(block) }),
{
    block.exec_count = block.exec_count.saturating_add(1);
}

/// What is done after a block was put together, or was not.
pub fn after_decoding(result: DecodeResult) -> (action: DecodedAction)
    ensures
        action == (match result {
            DecodeResult::Block => DecodedAction::KeepAndExecute,
            DecodeResult::Trap(trap) => DecodedAction::Raise(trap),
            DecodeResult::Unsuitable => DecodedAction::Interpret,
        }),
{
    match result {
        DecodeResult::Block => DecodedAction::KeepAndExecute,
        DecodeResult::Trap(trap) => DecodedAction::Raise(trap),
        DecodeResult::Unsuitable => DecodedAction::Interpret,
    }
}

// Laws.

/// The codes of traps are those of the architecture; a code that is none of them is an illegal
/// instruction.
pub proof fn law_codes_of_traps(mode: Mode, code: u32, value: u64)
    ensures
        trap_of(mode, 2, value) == Trap::IllegalInstruction(value),
        trap_of(mode, 3, value) == Trap::Breakpoint,
        trap_of(mode, 5, value) == Trap::LoadAccessFault(value),
        trap_of(mode, 7, value) == Trap::StoreAccessFault(value),
        trap_of(mode, 13, value) == Trap::LoadPageFault(value),
        trap_of(mode, 15, value) == Trap::StorePageFault(value),
        trap_of(Mode::User, 8, value) == Trap::EnvironmentCallFromU,
        trap_of(Mode::Supervisor, 8, value) == Trap::EnvironmentCallFromS,
        trap_of(Mode::Machine, 8, value) == Trap::EnvironmentCallFromM,
        code != 2 && code != 3 && code != 5 && code != 7 && code != 8 && code != 13 && code != 15
            ==> trap_of(mode, code, value) == Trap::IllegalInstruction(code as u64),
{
}

/// The code that a service answers a fault with stands for that fault.
pub proof fn law_fault_codes_stand_for_faults(
    bus: SystemState,
    tlb: Seq<TlbEntry>,
    mode: Mode,
    satp: u64,
    mstatus: u64,
    vaddr: u64,
    size: u64,
    v: u64,
)
    ensures
        translation(bus, tlb, mode, satp, mstatus, vaddr, AccessType::Load).1 matches Err(trap) ==> {
            let (code, ok) = mmu_read(bus, tlb, mode, satp, mstatus, vaddr, size).1;
            !ok && trap_of(mode, code as u32, vaddr) == trap
        },
        translation(bus, tlb, mode, satp, mstatus, vaddr, AccessType::Store).1 matches Err(trap) ==> {
            let (code, ok) = mmu_write(bus, tlb, mode, satp, mstatus, vaddr, size, v).2;
            !ok && trap_of(mode, code, vaddr) == trap
        },
{
    lemma_translation_faults(bus, tlb, mode, satp, mstatus, vaddr, AccessType::Load);
    lemma_translation_faults(bus, tlb, mode, satp, mstatus, vaddr, AccessType::Store);
}

/// After compiled code the hart has the registers that the code left. A trap that was told is
/// raised; else the program counter is where the code says, and the interpreter goes on where
/// the code leaves the block to it.
pub proof fn law_hart_after_compiled_code(s: HartState, shared: Seq<u8>, at: u64, code: u32)
    requires
        s.wf(),
        trap_from(shared) is None,
    ensures
        ({
            let read = hart_from(shared, s);
            let on = |result: JitExecResult| left_block(s, shared, Some(result));
            &&& on(JitExecResult::Continue(at)) == (
                HartState { pc: at, ..read },
                Ok::<JitBlockResult, Trap>(JitBlockResult::Continue),
            )
            &&& on(JitExecResult::ExitToInterpreter { pc: at }) == (
                HartState { pc: at, ..read },
                Ok::<JitBlockResult, Trap>(JitBlockResult::FallbackToInterpreter),
            )
            &&& on(JitExecResult::InterruptCheck { pc: at }) == (
                HartState { pc: at, ..read },
                Ok::<JitBlockResult, Trap>(JitBlockResult::FallbackToInterpreter),
            )
            &&& on(JitExecResult::Trap { code, fault_pc: at }) == (
                HartState { pc: at, ..read },
                Err::<JitBlockResult, Trap>(trap_of(s.mode, code, at)),
            )
            &&& left_block(s, shared, None) == (
                read,
                Ok::<JitBlockResult, Trap>(JitBlockResult::FallbackToInterpreter),
            )
        }),
{
}

/// A trap that compiled code told comes before what it returned.
pub proof fn law_told_traps_come_first(
    s: HartState,
    shared: Seq<u8>,
    result: Option<JitExecResult>,
    code: u32,
    value: u64,
)
    requires
        trap_from(shared) == Some((code, value)),
    ensures
        left_block(s, shared, result) == (
            hart_from(shared, s),
            Err::<JitBlockResult, Trap>(trap_of(s.mode, code, value)),
        ),
{
}

/// A branch goes to the address that was told, of which its low word was returned.
pub proof fn law_branches_go_where_they_were_told(s: HartState, shared: Seq<u8>, target: u64)
    requires
        s.wf(),
        trap_from(shared) is None,
        hart_from(shared, s).pc == target,
    ensures
        left_block(
            s,
            shared,
            Some(JitExecResult::Branch { new_pc: (target % 0x1_0000_0000) as u64 }),
        ) == (hart_from(shared, s), Ok::<JitBlockResult, Trap>(JitBlockResult::Continue)),
{
}

/// A block is compiled from the run on that reaches the threshold, and not while it is being
/// compiled or after it could not be.
pub proof fn law_hot_blocks_are_compiled(
    cpu: Cpu,
    s: CacheState,
    pc: u64,
    count: u32,
    result: CompilationResult,
)
    ensures
        !cpu.use_jit ==> !wants_compiling(cpu, s, pc, count) && asked_for(cpu, s, pc) == s,
        count < cpu.jit_config.tier1_threshold ==> !wants_compiling(cpu, s, pc, count),
        !wants_compiling(cpu, marked(s, pc), pc, count),
        !(result is Success) ==> !wants_compiling(cpu, settled(marked(s, pc), pc, result), pc, count),
        cpu.use_jit && count >= cpu.jit_config.tier1_threshold && !s.compiling.contains(pc)
            && !s.blacklisted.contains(pc) ==> wants_compiling(cpu, s, pc, count),
{
}

/// A module that was compiled is found at the address of its block, with its bytes and its
/// size.
pub proof fn law_modules_are_kept(s: CacheState, pc: u64, bytes: Vec<u8>)
    requires
        s.wf(),
        s.bytes + bytes@.len() <= usize::MAX,
    ensures
        ({
            let t = settled(marked(s, pc), pc, CompilationResult::Success(bytes));
            &&& has_key(t.entries, pc)
            &&& lookup(t.entries, pc).wasm_bytes@ == bytes@
            &&& lookup(t.entries, pc).wasm_size == bytes@.len()
            &&& lookup(t.entries, pc).pc == pc
            &&& !t.compiling.contains(pc)
            &&& t.blacklisted == s.blacklisted
        }),
{
    law_inserted_is_cached(marked(s, pc), pc, module_of(pc, bytes));
}

/// A block that could not be compiled is listed as such and keeps the modules as they are.
pub proof fn law_failures_are_listed(s: CacheState, pc: u64, result: CompilationResult, other: u64)
    requires
        !(result is Success),
    ensures
        ({
            let t = settled(s, pc, result);
            &&& t.entries == s.entries
            &&& t.blacklisted.contains(other) <==> other == pc || s.blacklisted.contains(other)
            &&& t.compiling.contains(other) <==> other != pc && s.compiling.contains(other)
        }),
{
}

} // verus!
