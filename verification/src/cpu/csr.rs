//! The numbers of control registers.

use vstd::prelude::*;

verus! {

pub const CSR_SATP: u16 = 0x180;

pub const CSR_SEPC: u16 = 0x141;

pub const CSR_STIMECMP: u16 = 0x14d;

pub const CSR_MSTATUS: u16 = 0x300;

pub const CSR_MEDELEG: u16 = 0x302;

pub const CSR_MIDELEG: u16 = 0x303;

pub const CSR_MIE: u16 = 0x304;

pub const CSR_MENVCFG: u16 = 0x30a;

pub const CSR_MEPC: u16 = 0x341;

pub const CSR_MIP: u16 = 0x344;

/// The time, read from the timer device.
pub const CSR_TIME: u16 = 0xc01;

pub const CSR_MHARTID: u16 = 0xf14;

} // verus!
