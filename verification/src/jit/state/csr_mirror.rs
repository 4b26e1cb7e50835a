//! The places of the mirrored control registers, relative to the mirror region.

use vstd::prelude::*;

verus! {

pub const SATP: u32 = 0x00;

pub const MSTATUS: u32 = 0x08;

/// The privilege mode: 0 for user, 1 for supervisor, 3 for machine.
pub const PRIVILEGE: u32 = 0x10;

/// The address space that `SATP` names.
pub const CURRENT_ASID: u32 = 0x18;

pub const MEDELEG: u32 = 0x20;

pub const MIDELEG: u32 = 0x28;

pub const MIE: u32 = 0x30;

pub const MIP: u32 = 0x38;

} // verus!
