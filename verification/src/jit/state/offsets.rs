//! The places of a hart's state, relative to the start of the state region.

use vstd::prelude::*;

verus! {

pub const REGS_BASE: u32 = 0x0000;

pub const REG_SIZE: u32 = 8;

/// The size of all registers together.
pub const REGS_SIZE: u32 = 32 * REG_SIZE;

pub const PC: u32 = 0x0100;

/// The privilege mode: 0 for user, 1 for supervisor, 3 for machine.
pub const MODE: u32 = 0x0108;

/// Set where a trap occurred in compiled code.
pub const TRAP_PENDING: u32 = 0x0200;

/// The cause of the trap.
pub const TRAP_CODE: u32 = 0x0204;

/// The value that goes with the trap, such as the address that faulted.
pub const TRAP_VALUE: u32 = 0x0208;

pub const HELPER_RESULT: u32 = 0x0300;

pub const HELPER_RESULT_OK: u32 = 0x0304;

/// Set by the host where an interrupt is waiting.
pub const INTERRUPT_PENDING: u32 = 0x0310;

/// How many instructions compiled code executed.
pub const INSN_COUNT: u32 = 0x0318;

/// Where the block starts.
pub const ENTRY_PC: u32 = 0x0320;

/// What compiled code last returned.
pub const EXIT_CODE: u32 = 0x0328;

/// The place of a register.
pub open spec fn reg_place(idx: u8) -> u32 {
    (REGS_BASE + idx * REG_SIZE) as u32
}

/// The place of a register.
pub fn reg(idx: u8) -> (offset: u32)
    ensures
        offset == reg_place(idx),
        offset == REGS_BASE + idx * REG_SIZE,
{
    REGS_BASE + idx as u32 * REG_SIZE
}

} // verus!
