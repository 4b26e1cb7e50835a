//! The places of the fields of a translation entry, and its permission bits.

use vstd::prelude::*;

verus! {

/// The virtual page number, eight bytes.
pub const VPN: u32 = 0;

/// The physical page number, eight bytes.
pub const PPN: u32 = 8;

/// The address space, two bytes.
pub const ASID: u32 = 16;

/// The permission bits, one byte.
pub const PERM: u32 = 18;

/// The level of the page table, one byte.
pub const LEVEL: u32 = 19;

/// Whether the entry holds a translation, one byte.
pub const VALID: u32 = 20;

pub const PERM_READ: u8 = 1;

pub const PERM_WRITE: u8 = 2;

pub const PERM_EXEC: u8 = 4;

pub const PERM_USER: u8 = 8;

pub const PERM_ACCESSED: u8 = 16;

pub const PERM_DIRTY: u8 = 32;

/// The entry holds in every address space.
pub const PERM_GLOBAL: u8 = 64;

} // verus!
