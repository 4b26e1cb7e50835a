//! The places of the host functions among the imports of a module.

use vstd::prelude::*;

verus! {

pub const READ_U64: u32 = 0;

pub const READ_U32: u32 = 1;

pub const READ_U16: u32 = 2;

pub const READ_U8: u32 = 3;

pub const WRITE_U64: u32 = 4;

pub const WRITE_U32: u32 = 5;

pub const WRITE_U16: u32 = 6;

pub const WRITE_U8: u32 = 7;

} // verus!
