//! Why compiled code returned: the high word of the value that it returns.

use vstd::prelude::*;

verus! {

/// The end of the block: the low word is the distance from its start.
pub const EXIT_NORMAL: u32 = 0;

/// A trap.
pub const EXIT_TRAP: u32 = 1;

/// The interpreter has to go on.
pub const EXIT_INTERPRETER: u32 = 2;

/// An interrupt is waiting.
pub const EXIT_INTERRUPT_CHECK: u32 = 3;

/// A branch or a jump: the program counter stands in the shared memory, and the low word is
/// its low word.
pub const EXIT_BRANCH: u32 = 4;

} // verus!
