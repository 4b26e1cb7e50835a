//! Where a hart's registers lie relative to the pointer that compiled code gets.

use vstd::prelude::*;

verus! {

pub const REGS_BASE: u32 = 0;

pub const REG_SIZE: u32 = 8;

/// The program counter follows the 32 registers.
pub const PC_OFFSET: u32 = 256;

/// The place of a register.
pub fn reg_offset(reg: u8) -> (offset: u32)
    ensures
        offset == REGS_BASE + reg * REG_SIZE,
{
    REGS_BASE + reg as u32 * REG_SIZE
}

} // verus!
