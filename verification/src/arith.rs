//! Integer arithmetic of the RV64 base set and its multiply extension.

use vstd::prelude::*;

verus! {

/// `v` as a two's complement number whose sign bit weighs `half`, widened to
/// 64 bits. It is meant for `v` below twice `half`.
pub open spec fn sext(v: u64, half: u64) -> u64 {
    if v < half {
        v
    } else {
        v.wrapping_sub(half).wrapping_sub(half)
    }
}

pub fn sign_extend(v: u64, half: u64) -> (r: u64)
    ensures
        r == sext(v, half),
{
    if v < half {
        v
    } else {
        v.wrapping_sub(half).wrapping_sub(half)
    }
}

/// The low byte, sign-extended.
pub open spec fn sext8(v: u64) -> u64 {
    (v as i8) as i64 as u64
}

/// The low half-word, sign-extended.
pub open spec fn sext16(v: u64) -> u64 {
    (v as i16) as i64 as u64
}

/// The low word, sign-extended.
pub open spec fn sext32(v: u64) -> u64 {
    (v as i32) as i64 as u64
}

pub open spec fn magnitude(a: int) -> int {
    if a < 0 {
        -a
    } else {
        a
    }
}

/// The quotient of `a` and `b`, rounded toward zero.
pub open spec fn quotient(a: int, b: int) -> int {
    if (a < 0) == (b < 0) {
        magnitude(a) / magnitude(b)
    } else {
        -(magnitude(a) / magnitude(b))
    }
}

/// The remainder that goes with `quotient`: it has the sign of `a`.
pub open spec fn remainder(a: int, b: int) -> int {
    if a < 0 {
        -(magnitude(a) % magnitude(b))
    } else {
        magnitude(a) % magnitude(b)
    }
}

/// Signed division: a zero divisor gives -1, and the one quotient that does not
/// fit gives the dividend.
pub open spec fn div_result(a: i64, b: i64) -> i64 {
    if b == 0 {
        (-1int) as i64
    } else if a == i64::MIN && b == -1 {
        a
    } else {
        quotient(a as int, b as int) as i64
    }
}

/// Signed remainder: a zero divisor gives the dividend, and the one quotient that
/// does not fit gives 0.
pub open spec fn rem_result(a: i64, b: i64) -> i64 {
    if b == 0 {
        a
    } else if a == i64::MIN && b == -1 {
        0
    } else {
        remainder(a as int, b as int) as i64
    }
}

/// Unsigned division: a zero divisor gives the largest number.
pub open spec fn divu_result(a: u64, b: u64) -> u64 {
    if b == 0 {
        u64::MAX
    } else {
        a / b
    }
}

/// Unsigned remainder: a zero divisor gives the dividend.
pub open spec fn remu_result(a: u64, b: u64) -> u64 {
    if b == 0 {
        a
    } else {
        a % b
    }
}

/// The high 64 bits of the unsigned product.
pub open spec fn mulhu_result(a: u64, b: u64) -> u64 {
    ((a * b) / 0x1_0000_0000_0000_0000) as u64
}

/// The high 64 bits of the product of two signed numbers.
pub open spec fn mulh_result(a: i64, b: i64) -> i64 {
    ((a * b) / 0x1_0000_0000_0000_0000) as i64
}

/// The high 64 bits of the product of a signed and an unsigned number.
pub open spec fn mulhsu_result(a: i64, b: u64) -> i64 {
    ((a * b) / 0x1_0000_0000_0000_0000) as i64
}

/// Signed 32-bit division.
pub open spec fn divw_result(a: i32, b: i32) -> i32 {
    if b == 0 {
        (-1int) as i32
    } else if a == i32::MIN && b == -1 {
        a
    } else {
        quotient(a as int, b as int) as i32
    }
}

/// Signed 32-bit remainder.
pub open spec fn remw_result(a: i32, b: i32) -> i32 {
    if b == 0 {
        a
    } else if a == i32::MIN && b == -1 {
        0
    } else {
        remainder(a as int, b as int) as i32
    }
}

proof fn lemma_signs(a: int, b: int)
    requires
        b != 0,
    ensures
        a >= 0 ==> a / b == quotient(a, b),
        a < 0 ==> -((-a) / b) == quotient(a, b),
        a >= 0 ==> a % b == remainder(a, b),
        a < 0 ==> -((-a) % b) == remainder(a, b),
        magnitude(quotient(a, b)) <= magnitude(a),
        magnitude(b) >= 2 ==> 2 * magnitude(quotient(a, b)) <= magnitude(a),
        magnitude(remainder(a, b)) < magnitude(b),
{
    let m = magnitude(a);
    let d = magnitude(b);
    let q = m / d;
    let r = m % d;
    vstd::arithmetic::div_mod::lemma_fundamental_div_mod(m, d);
    assert(0 <= q <= m && (d >= 2 ==> 2 * q <= m)) by (nonlinear_arith)
        requires
            m == d * q + r,
            0 <= r < d,
            d >= 1,
            m >= 0,
    ;
    if b < 0 {
        vstd::arithmetic::div_mod::lemma_fundamental_div_mod(m, b);
        assert(b * (-q) + r == m) by (nonlinear_arith)
            requires
                m == d * q + r,
                d == -b,
        ;
        let p = m / b;
        let t = m % b;
        assert(p == -q && t == r) by (nonlinear_arith)
            requires
                m == b * p + t,
                m == b * (-q) + r,
                0 <= t < d,
                0 <= r < d,
                d == -b,
        ;
    }
}

pub fn div(a: i64, b: i64) -> (r: i64)
    ensures
        r == div_result(a, b),
{
    if b == 0 {
        -1
    } else if a == i64::MIN && b == -1 {
        a
    } else {
        proof {
            lemma_signs(a as int, b as int);
        }
        a / b
    }
}

pub fn rem(a: i64, b: i64) -> (r: i64)
    ensures
        r == rem_result(a, b),
{
    if b == 0 {
        a
    } else if a == i64::MIN && b == -1 {
        0
    } else {
        proof {
            lemma_signs(a as int, b as int);
        }
        a % b
    }
}

pub fn divu(a: u64, b: u64) -> (r: u64)
    ensures
        r == divu_result(a, b),
{
    if b == 0 {
        u64::MAX
    } else {
        a / b
    }
}

pub fn remu(a: u64, b: u64) -> (r: u64)
    ensures
        r == remu_result(a, b),
{
    if b == 0 {
        a
    } else {
        a % b
    }
}

pub fn divw(a: i32, b: i32) -> (r: i32)
    ensures
        r == divw_result(a, b),
{
    if b == 0 {
        -1
    } else if a == i32::MIN && b == -1 {
        a
    } else {
        proof {
            lemma_signs(a as int, b as int);
        }
        a / b
    }
}

pub fn remw(a: i32, b: i32) -> (r: i32)
    ensures
        r == remw_result(a, b),
{
    if b == 0 {
        a
    } else if a == i32::MIN && b == -1 {
        0
    } else {
        proof {
            lemma_signs(a as int, b as int);
        }
        a % b
    }
}

pub fn mulhu(a: u64, b: u64) -> (r: u64)
    ensures
        r == mulhu_result(a, b),
{
    assert(0 <= a * b <= 0xffff_ffff_ffff_ffff * 0xffff_ffff_ffff_ffff) by (nonlinear_arith)
        requires
            0 <= a <= 0xffff_ffff_ffff_ffff,
            0 <= b <= 0xffff_ffff_ffff_ffff,
    ;
    let product: u128 = a as u128 * b as u128;
    (product / 0x1_0000_0000_0000_0000) as u64
}

pub fn mulh(a: i64, b: i64) -> (r: i64)
    ensures
        r == mulh_result(a, b),
{
    mulhsu_wide(a, b as i128)
}

pub fn mulhsu(a: i64, b: u64) -> (r: i64)
    ensures
        r == mulhsu_result(a, b),
{
    mulhsu_wide(a, b as i128)
}

/// The high half of `a * b`, rounded toward negative infinity.
fn mulhsu_wide(a: i64, b: i128) -> (r: i64)
    requires
        -0x8000_0000_0000_0000 <= b <= 0xffff_ffff_ffff_ffff,
    ensures
        r == ((a * b) / 0x1_0000_0000_0000_0000) as i64,
{
    assert(-0x8000_0000_0000_0000 * 0xffff_ffff_ffff_ffff <= a * b <= 0x8000_0000_0000_0000
        * 0xffff_ffff_ffff_ffff) by (nonlinear_arith)
        requires
            -0x8000_0000_0000_0000 <= a <= 0x7fff_ffff_ffff_ffff,
            -0x8000_0000_0000_0000 <= b <= 0xffff_ffff_ffff_ffff,
    ;
    let product: i128 = a as i128 * b;
    if product >= 0 {
        (product / 0x1_0000_0000_0000_0000) as i64
    } else {
        let up: i128 = -1 - product;
        (-1 - up / 0x1_0000_0000_0000_0000) as i64
    }
}

} // verus!
