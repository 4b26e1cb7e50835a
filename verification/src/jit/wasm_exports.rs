//! The compiling worker.

use crate::engine::block::{Block, MAX_BLOCK_SIZE};
use crate::engine::microop::MicroOp;
use crate::jit::compiler::JitCompiler;
use crate::jit::types::{CompilationResult, JitConfig};
use crate::jit::worker::{CompileRequest, CompileResponse, CompileStatus, SerializedMicroOp};
use vstd::prelude::*;

verus! {

use crate::cpu::blocks::asks_for;
use crate::jit::compiler::compiles_to;
use crate::jit::types::default_config;
use crate::jit::worker::{decoded, encoded, law_microop_round_trip, packs};

/// A worker that compiles the blocks it is sent.
pub struct JitWorkerContext {
    compiler: JitCompiler,
}

/// The instruction that an element of a request stands for.
pub open spec fn unpacked(op: SerializedMicroOp) -> Option<MicroOp> {
    decoded(op.tag, op.data@)
}

/// That every element of a request stands for an instruction.
pub open spec fn all_unpack(ops: Seq<SerializedMicroOp>) -> bool {
    forall|i: int| 0 <= i < ops.len() ==> #[trigger] unpacked(ops[i]) is Some
}

/// The first `n` instructions of a request.
pub open spec fn instructions(ops: Seq<SerializedMicroOp>, n: nat) -> Seq<MicroOp> {
    Seq::new(n, |i: int| unpacked(ops[i])->0)
}

/// How many instructions of a request go into its block.
pub open spec fn kept_instructions(count: nat) -> nat {
    if count < MAX_BLOCK_SIZE {
        count
    } else {
        MAX_BLOCK_SIZE as nat
    }
}

/// That a block is the one that a request describes.
pub open spec fn rebuilt(request: CompileRequest, block: Block) -> bool {
    &&& block.wf()
    &&& block.start_pc == request.pc
    &&& block.start_pa == request.pa
    &&& block.generation == 0
    &&& block.exec_count == 0
    &&& block.code() == instructions(request.ops@, kept_instructions(request.ops@.len()))
    &&& block.byte_len == request.byte_len
}

/// Puts the block of a request together; there is none where an element stands for no
/// instruction.
pub fn reconstruct_block(request: &CompileRequest) -> (block: Option<Block>)
    ensures
        block is Some <==> all_unpack(request.ops@),
        block is Some ==> rebuilt(*request, block->0),
{
    let mut block = Block::new(request.pc, request.pa, 0);
    let count: usize = request.ops.len();
    let mut i: usize = 0;
    assert(block.code() =~= instructions(request.ops@, 0));
    while i < count
        invariant
            i <= count,
            count == request.ops@.len(),
            block.wf(),
            block.start_pc == request.pc,
            block.start_pa == request.pa,
            block.generation == 0,
            block.exec_count == 0,
            block.len == kept_instructions(i as nat),
            block.code() == instructions(request.ops@, kept_instructions(i as nat)),
            forall|j: int| 0 <= j < i ==> #[trigger] unpacked(request.ops@[j]) is Some,
        decreases count - i,
    {
        let ghost len = block.len;
        match request.ops[i].to_microop() {
            Some(op) => {
                assert(unpacked(request.ops@[i as int]) == Some(op));
                let pushed: bool = block.push(op, 0);
                assert(pushed ==> block.code() =~= instructions(request.ops@, (len + 1) as nat));
            },
            None => {
                assert(unpacked(request.ops@[i as int]) is None);
                return None;
            },
        }
        i = i + 1;
    }
    block.byte_len = request.byte_len;
    Some(block)
}

/// What a request is answered: the module of its block, where it has one that can be
/// compiled, and why there is none otherwise.
pub open spec fn answers(config: JitConfig, request: CompileRequest, response: CompileResponse) -> bool {
    &&& response.pc == request.pc
    &&& response.compile_time_us == 0
    &&& if all_unpack(request.ops@) {
        exists|block: Block, result: CompilationResult|
            #![trigger rebuilt(request, block), compiles_to(config, block, result)]
            rebuilt(request, block) && compiles_to(config, block, result) && tells(response, result)
    } else {
        response.status == CompileStatus::Error && response.wasm_bytes@.len() == 0
    }
}

/// That a response tells how a compilation ended.
pub open spec fn tells(response: CompileResponse, result: CompilationResult) -> bool {
    match result {
        CompilationResult::Success(bytes) => response.status == CompileStatus::Success
            && response.wasm_bytes@ == bytes@,
        CompilationResult::Unsuitable => response.status == CompileStatus::Unsuitable
            && response.wasm_bytes@.len() == 0,
        CompilationResult::Error(_) => response.status == CompileStatus::Error
            && response.wasm_bytes@.len() == 0,
    }
}

impl JitWorkerContext {
    /// The settings of the compiler.
    pub closed spec fn settings(&self) -> JitConfig {
        self.compiler.settings()
    }

    /// A worker with the default settings.
    pub fn new() -> (context: Self)
        ensures
            default_config(context.settings()),
    {
        Self { compiler: JitCompiler::new(JitConfig::default()) }
    }

    /// A worker with the default settings but for two.
    pub fn new_with_config(min_block_size: usize, debug_wat: bool) -> (context: Self)
        ensures
            exists|default: JitConfig|
                #[trigger] default_config(default) && context.settings() == (JitConfig {
                    min_block_size,
                    debug_wat,
                    ..default
                }),
    {
        let config = JitConfig::default();
        let ghost default = config;
        let mut config = config;
        config.min_block_size = min_block_size;
        config.debug_wat = debug_wat;
        assert(default_config(default));
        Self { compiler: JitCompiler::new(config) }
    }

    /// Answers a request.
    pub fn compile(&mut self, request: &CompileRequest) -> (response: CompileResponse)
        ensures
            final(self).settings() == old(self).settings(),
            answers(old(self).settings(), *request, response),
    {
        let block = match reconstruct_block(request) {
            Some(block) => block,
            None => {
                return CompileResponse::error(request.pc);
            },
        };
        let result = self.compiler.compile(&block);
        let ghost outcome = result;
        assert(rebuilt(*request, block) && compiles_to(old(self).settings(), block, outcome));
        match result {
            CompilationResult::Success(wasm_bytes) => CompileResponse::success(
                request.pc,
                wasm_bytes,
                0,
            ),
            CompilationResult::Unsuitable => CompileResponse::unsuitable(request.pc),
            CompilationResult::Error(_) => CompileResponse::error(request.pc),
        }
    }

    /// The answer to a message that is no request.
    pub fn reject() -> (response: CompileResponse)
        ensures
            response.pc == 0,
            response.status == CompileStatus::Error,
            response.wasm_bytes@.len() == 0,
            response.compile_time_us == 0,
    {
        CompileResponse::error(0)
    }
}

impl Default for JitWorkerContext {
    fn default() -> (context: Self)
        ensures
            default_config(context.settings()),
    {
        Self::new()
    }
}

/// The request of a block describes its instructions: the worker that gets it puts
/// together a block with the same ones.
pub proof fn law_request_keeps_the_code(ops: Seq<SerializedMicroOp>, code: Seq<MicroOp>)
    requires
        packs(ops, code),
    ensures
        all_unpack(ops),
        instructions(ops, ops.len()) == code,
{
    assert forall|i: int| 0 <= i < ops.len() implies #[trigger] unpacked(ops[i]) == Some(
        code[i],
    ) by {
        law_microop_round_trip(code[i]);
        assert((ops[i].tag, ops[i].data@) == encoded(code[i]));
    }
    assert(instructions(ops, ops.len()) =~= code);
}

/// The worker that gets the request of a block puts the same block together, and compiles it to
/// what the block itself compiles to.
pub proof fn law_worker_compiles_the_same_block(
    config: JitConfig,
    block: Block,
    request: CompileRequest,
    again: Block,
    result: CompilationResult,
)
    requires
        block.wf(),
        asks_for(request, block),
        rebuilt(request, again),
    ensures
        again.code() == block.code(),
        again.start_pc == block.start_pc,
        again.start_pa == block.start_pa,
        again.byte_len == block.byte_len,
        compiles_to(config, again, result) == compiles_to(config, block, result),
{
    law_request_keeps_the_code(request.ops@, block.code());
    assert(again.code().len() == again.len);
    assert(block.code().len() == block.len);
}

/// A response to a request names its block, and carries a module just where the compilation
/// succeeded. The states of a response and the ends of a compilation belong together one by
/// one.
pub proof fn law_responses_tell_the_end(
    config: JitConfig,
    request: CompileRequest,
    response: CompileResponse,
    result: CompilationResult,
)
    ensures
        answers(config, request, response) ==> response.pc == request.pc,
        tells(response, result) ==> {
            &&& response.status == CompileStatus::Success <==> result is Success
            &&& response.status == CompileStatus::Unsuitable <==> result is Unsuitable
            &&& response.status == CompileStatus::Error <==> result is Error
            &&& result matches CompilationResult::Success(bytes) ==> response.wasm_bytes@ == bytes@
            &&& !(result is Success) ==> response.wasm_bytes@.len() == 0
        },
{
}

/// A request of at most 64 instructions is taken as a whole, and of a longer one the first 64.
pub proof fn law_long_requests_are_cut(ops: Seq<SerializedMicroOp>)
    ensures
        kept_instructions(ops.len()) <= 64,
        ops.len() <= 64 ==> kept_instructions(ops.len()) == ops.len(),
        ops.len() >= 64 ==> kept_instructions(ops.len()) == 64,
{
}

} // verus!
