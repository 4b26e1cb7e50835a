//! Compiled code outside a browser, where nothing can run it.

use crate::jit::runtime::JitExecResult;
use vstd::prelude::*;

verus! {

/// Leaves the block at `base_pc` to the interpreter.
pub fn execute_jit_module(_wasm_bytes: &[u8], base_pc: u64) -> (result: JitExecResult)
    ensures
        result == (JitExecResult::ExitToInterpreter { pc: base_pc }),
{
    JitExecResult::ExitToInterpreter { pc: base_pc }
}

/// Whether compiled code can be run.
pub fn is_available() -> (available: bool)
    ensures
        !available,
{
    false
}

} // verus!
