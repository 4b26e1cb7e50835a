//! The causes of traps in compiled code.

use vstd::prelude::*;

verus! {

pub const NONE: u32 = 0;

pub const ILLEGAL_INSTRUCTION: u32 = 2;

pub const EBREAK: u32 = 3;

pub const LOAD_ACCESS_FAULT: u32 = 5;

pub const STORE_ACCESS_FAULT: u32 = 7;

/// From user mode; other modes count up from it.
pub const ECALL: u32 = 8;

pub const LOAD_PAGE_FAULT: u32 = 13;

pub const STORE_PAGE_FAULT: u32 = 15;

} // verus!
