//! What the computational instructions compute.

use crate::arith;
use vstd::prelude::*;

verus! {

use crate::meaning;

pub open spec fn flag(b: bool) -> u64 {
    if b {
        1
    } else {
        0
    }
}

/// Whether a branch is taken; `None` where no branch has that number.
pub open spec fn branch_taken(funct3: u8, a: u64, b: u64) -> Option<bool> {
    match funct3 {
        0 => Some(a == b),
        1 => Some(a != b),
        4 => Some((a as i64) < (b as i64)),
        5 => Some((a as i64) >= (b as i64)),
        6 => Some(a < b),
        7 => Some(a >= b),
        _ => None,
    }
}

pub fn compare(funct3: u8, a: u64, b: u64) -> (taken: Option<bool>)
    ensures
        taken == branch_taken(funct3, a, b),
{
    match funct3 {
        0 => Some(a == b),
        1 => Some(a != b),
        4 => Some((a as i64) < (b as i64)),
        5 => Some((a as i64) >= (b as i64)),
        6 => Some(a < b),
        7 => Some(a >= b),
        _ => None,
    }
}

/// The operations on a register and an immediate.
pub open spec fn imm_result(funct3: u8, funct7: u8, a: u64, imm: i64) -> Option<u64> {
    match funct3 {
        0 => Some(a.wrapping_add(imm as u64)),
        1 => Some(a << (imm & 0x3f)),
        2 => Some(flag((a as i64) < imm)),
        3 => Some(flag(a < imm as u64)),
        4 => Some(a ^ (imm as u64)),
        5 => if funct7 & 0x20 != 0 {
            Some(((a as i64) >> (imm & 0x3f)) as u64)
        } else {
            Some(a >> (imm & 0x3f))
        },
        6 => Some(a | (imm as u64)),
        7 => Some(a & (imm as u64)),
        _ => None,
    }
}

pub fn apply_imm(funct3: u8, funct7: u8, a: u64, imm: i64) -> (r: Option<u64>)
    ensures
        r == imm_result(funct3, funct7, a, imm),
{
    proof {
        meaning::lemma_casts(0, imm);
    }
    let shamt: i64 = imm & 0x3f;
    match funct3 {
        0 => Some(a.wrapping_add(imm as u64)),
        1 => Some(a << shamt),
        2 => Some(
            if (a as i64) < imm {
                1
            } else {
                0
            },
        ),
        3 => Some(
            if a < imm as u64 {
                1
            } else {
                0
            },
        ),
        4 => Some(a ^ (imm as u64)),
        5 => if funct7 & 0x20 != 0 {
            Some(((a as i64) >> shamt) as u64)
        } else {
            Some(a >> shamt)
        },
        6 => Some(a | (imm as u64)),
        7 => Some(a & (imm as u64)),
        _ => None,
    }
}

/// The operations on two registers.
pub open spec fn reg_result(funct3: u8, funct7: u8, a: u64, b: u64) -> Option<u64> {
    match (funct3, funct7) {
        (0, 0x00) => Some(a.wrapping_add(b)),
        (0, 0x20) => Some(a.wrapping_sub(b)),
        (0, 0x01) => Some(a.wrapping_mul(b)),
        (1, 0x00) => Some(a << (b & 0x3f)),
        (1, 0x01) => Some(arith::mulh_result(a as i64, b as i64) as u64),
        (2, 0x00) => Some(flag((a as i64) < (b as i64))),
        (2, 0x01) => Some(arith::mulhsu_result(a as i64, b) as u64),
        (3, 0x00) => Some(flag(a < b)),
        (3, 0x01) => Some(arith::mulhu_result(a, b)),
        (4, 0x00) => Some(a ^ b),
        (4, 0x01) => Some(arith::div_result(a as i64, b as i64) as u64),
        (5, 0x00) => Some(a >> (b & 0x3f)),
        (5, 0x01) => Some(arith::divu_result(a, b)),
        (5, 0x20) => Some(((a as i64) >> (b & 0x3f)) as u64),
        (6, 0x00) => Some(a | b),
        (6, 0x01) => Some(arith::rem_result(a as i64, b as i64) as u64),
        (7, 0x00) => Some(a & b),
        (7, 0x01) => Some(arith::remu_result(a, b)),
        _ => None,
    }
}

pub fn apply_reg(funct3: u8, funct7: u8, a: u64, b: u64) -> (r: Option<u64>)
    ensures
        r == reg_result(funct3, funct7, a, b),
{
    proof {
        meaning::lemma_casts(b, 0);
    }
    let shamt: u64 = b & 0x3f;
    match (funct3, funct7) {
        (0, 0x00) => Some(a.wrapping_add(b)),
        (0, 0x20) => Some(a.wrapping_sub(b)),
        (0, 0x01) => Some(a.wrapping_mul(b)),
        (1, 0x00) => Some(a << shamt),
        (1, 0x01) => Some(arith::mulh(a as i64, b as i64) as u64),
        (2, 0x00) => Some(
            if (a as i64) < (b as i64) {
                1
            } else {
                0
            },
        ),
        (2, 0x01) => Some(arith::mulhsu(a as i64, b) as u64),
        (3, 0x00) => Some(
            if a < b {
                1
            } else {
                0
            },
        ),
        (3, 0x01) => Some(arith::mulhu(a, b)),
        (4, 0x00) => Some(a ^ b),
        (4, 0x01) => Some(arith::div(a as i64, b as i64) as u64),
        (5, 0x00) => Some(a >> shamt),
        (5, 0x01) => Some(arith::divu(a, b)),
        (5, 0x20) => Some(((a as i64) >> shamt) as u64),
        (6, 0x00) => Some(a | b),
        (6, 0x01) => Some(arith::rem(a as i64, b as i64) as u64),
        (7, 0x00) => Some(a & b),
        (7, 0x01) => Some(arith::remu(a, b)),
        _ => None,
    }
}

/// The 32-bit operations on a register and an immediate, sign-extended.
pub open spec fn imm_result_32(funct3: u8, funct7: u8, a: u64, imm: i64) -> Option<u64> {
    match funct3 {
        0 => Some((a.wrapping_add(imm as u64) as i32) as i64 as u64),
        1 => Some(((a as u32) << (imm & 0x1f)) as i32 as i64 as u64),
        5 => if funct7 & 0x20 != 0 {
            Some(((a as i32) >> (imm & 0x1f)) as i64 as u64)
        } else {
            Some(((a as u32) >> (imm & 0x1f)) as i32 as i64 as u64)
        },
        _ => None,
    }
}

pub fn apply_imm_32(funct3: u8, funct7: u8, a: u64, imm: i64) -> (r: Option<u64>)
    ensures
        r == imm_result_32(funct3, funct7, a, imm),
{
    proof {
        meaning::lemma_casts(0, imm);
    }
    let shamt: i64 = imm & 0x1f;
    match funct3 {
        0 => Some((a.wrapping_add(imm as u64) as i32) as i64 as u64),
        1 => Some(((a as u32) << shamt) as i32 as i64 as u64),
        5 => if funct7 & 0x20 != 0 {
            Some(((a as i32) >> shamt) as i64 as u64)
        } else {
            Some(((a as u32) >> shamt) as i32 as i64 as u64)
        },
        _ => None,
    }
}

/// The 32-bit operations on two registers, sign-extended.
pub open spec fn reg_result_32(funct3: u8, funct7: u8, a: u64, b: u64) -> Option<u64> {
    match (funct3, funct7) {
        (0, 0x00) => Some((a.wrapping_add(b) as i32) as i64 as u64),
        (0, 0x20) => Some((a.wrapping_sub(b) as i32) as i64 as u64),
        (0, 0x01) => Some((a as i32).wrapping_mul(b as i32) as i64 as u64),
        (1, 0x00) => Some(((a as u32) << (b & 0x1f)) as i32 as i64 as u64),
        (4, 0x01) => Some(arith::divw_result(a as i32, b as i32) as i64 as u64),
        (5, 0x00) => Some(((a as u32) >> (b & 0x1f)) as i32 as i64 as u64),
        (5, 0x01) => Some(
            (arith::divu_result(a as u32 as u64, b as u32 as u64) as u32) as i32 as i64 as u64,
        ),
        (5, 0x20) => Some(((a as i32) >> (b & 0x1f)) as i64 as u64),
        (6, 0x01) => Some(arith::remw_result(a as i32, b as i32) as i64 as u64),
        (7, 0x01) => Some(
            (arith::remu_result(a as u32 as u64, b as u32 as u64) as u32) as i32 as i64 as u64,
        ),
        _ => None,
    }
}

pub fn apply_reg_32(funct3: u8, funct7: u8, a: u64, b: u64) -> (r: Option<u64>)
    ensures
        r == reg_result_32(funct3, funct7, a, b),
{
    proof {
        meaning::lemma_casts(b, 0);
    }
    let shamt: u64 = b & 0x1f;
    match (funct3, funct7) {
        (0, 0x00) => Some((a.wrapping_add(b) as i32) as i64 as u64),
        (0, 0x20) => Some((a.wrapping_sub(b) as i32) as i64 as u64),
        (0, 0x01) => Some((a as i32).wrapping_mul(b as i32) as i64 as u64),
        (1, 0x00) => Some(((a as u32) << shamt) as i32 as i64 as u64),
        (4, 0x01) => Some(arith::divw(a as i32, b as i32) as i64 as u64),
        (5, 0x00) => Some(((a as u32) >> shamt) as i32 as i64 as u64),
        (5, 0x01) => Some(
            (arith::divu(a as u32 as u64, b as u32 as u64) as u32) as i32 as i64 as u64,
        ),
        (5, 0x20) => Some(((a as i32) >> shamt) as i64 as u64),
        (6, 0x01) => Some(arith::remw(a as i32, b as i32) as i64 as u64),
        (7, 0x01) => Some(
            (arith::remu(a as u32 as u64, b as u32 as u64) as u32) as i32 as i64 as u64,
        ),
        _ => None,
    }
}

/// How many bytes a load reads.
pub open spec fn load_size(funct3: u8) -> Option<u64> {
    match funct3 {
        0 => Some(1),
        1 => Some(2),
        2 => Some(4),
        3 => Some(8),
        4 => Some(1),
        5 => Some(2),
        6 => Some(4),
        _ => None,
    }
}

pub fn size_of_load(funct3: u8) -> (size: Option<u64>)
    ensures
        size == load_size(funct3),
{
    match funct3 {
        0 => Some(1),
        1 => Some(2),
        2 => Some(4),
        3 => Some(8),
        4 => Some(1),
        5 => Some(2),
        6 => Some(4),
        _ => None,
    }
}

/// What a load puts into its register: the bytes read, sign-extended or zero-extended.
pub open spec fn load_value(funct3: u8, v: u64) -> u64 {
    match funct3 {
        0 => (v as i8) as i64 as u64,
        1 => (v as i16) as i64 as u64,
        2 => (v as i32) as i64 as u64,
        4 => v as u8 as u64,
        5 => v as u16 as u64,
        6 => v as u32 as u64,
        _ => v,
    }
}

pub fn widen(funct3: u8, v: u64) -> (value: u64)
    ensures
        value == load_value(funct3, v),
{
    match funct3 {
        0 => (v as i8) as i64 as u64,
        1 => (v as i16) as i64 as u64,
        2 => (v as i32) as i64 as u64,
        4 => v as u8 as u64,
        5 => v as u16 as u64,
        6 => v as u32 as u64,
        _ => v,
    }
}

/// How many bytes a store writes.
pub open spec fn store_size(funct3: u8) -> Option<u64> {
    match funct3 {
        0 => Some(1),
        1 => Some(2),
        2 => Some(4),
        3 => Some(8),
        _ => None,
    }
}

pub fn size_of_store(funct3: u8) -> (size: Option<u64>)
    ensures
        size == store_size(funct3),
{
    match funct3 {
        0 => Some(1),
        1 => Some(2),
        2 => Some(4),
        3 => Some(8),
        _ => None,
    }
}

} // verus!
