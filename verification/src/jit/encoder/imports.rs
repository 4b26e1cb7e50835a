//! The indices of the functions of a module with memory helpers.

use vstd::prelude::*;

verus! {

pub const READ_U64: u32 = 0;

pub const READ_U32: u32 = 1;

pub const READ_U16: u32 = 2;

pub const READ_U8: u32 = 3;

pub const WRITE_U64: u32 = 4;

pub const WRITE_U32: u32 = 5;

pub const WRITE_U16: u32 = 6;

pub const WRITE_U8: u32 = 7;

/// The compiled function comes after the helpers.
pub const RUN_FUNC: u32 = 8;

} // verus!
