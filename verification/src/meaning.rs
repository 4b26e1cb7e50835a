//! What the operations on numbers mean: relations between operands and results, over
//! integers and single bits.

use vstd::prelude::*;

verus! {

use crate::arith;
use crate::bytes;
use vstd::math::abs;

/// Whether bit number `i` of `x` is set.
pub open spec fn bit(x: u64, i: u64) -> bool {
    (x >> i) & 1 == 1
}

/// The number that `x` is in two's complement.
pub open spec fn signed(x: u64) -> int {
    if x < 0x8000_0000_0000_0000 {
        x as int
    } else {
        x - 0x1_0000_0000_0000_0000
    }
}

/// The low 32 bits of `x`.
pub open spec fn word(x: u64) -> int {
    x as int % 0x1_0000_0000
}

/// The number that the low 32 bits of `x` are in two's complement.
pub open spec fn signed_word(x: u64) -> int {
    if word(x) < 0x8000_0000 {
        word(x)
    } else {
        word(x) - 0x1_0000_0000
    }
}

/// That `r` is `n` modulo 2^64.
pub open spec fn is_cut(r: u64, n: int) -> bool {
    (r - n) % 0x1_0000_0000_0000_0000 == 0
}

/// That `r` holds a number of 32 bits, sign-extended, which is `n` modulo 2^32.
pub open spec fn is_cut_word(r: u64, n: int) -> bool {
    &&& -0x8000_0000 <= signed(r) < 0x8000_0000
    &&& (signed(r) - n) % 0x1_0000_0000 == 0
}

/// That `r` is the answer to a question: 1 for yes, 0 for no.
pub open spec fn is_answer(r: u64, yes: bool) -> bool {
    &&& yes ==> r == 1
    &&& !yes ==> r == 0
}

/// That a bit of `r` is set exactly where those of `a` and `b` differ.
#[verifier::opaque]
pub open spec fn differs(r: u64, a: u64, b: u64) -> bool {
    forall|i: u64| i < 64 ==> #[trigger] bit(r, i) == (bit(a, i) != bit(b, i))
}

/// That a bit of `r` is set exactly where that of `a` or that of `b` is.
#[verifier::opaque]
pub open spec fn unites(r: u64, a: u64, b: u64) -> bool {
    forall|i: u64| i < 64 ==> #[trigger] bit(r, i) == (bit(a, i) || bit(b, i))
}

/// That a bit of `r` is set exactly where those of `a` and `b` both are.
#[verifier::opaque]
pub open spec fn meets(r: u64, a: u64, b: u64) -> bool {
    forall|i: u64| i < 64 ==> #[trigger] bit(r, i) == (bit(a, i) && bit(b, i))
}

/// That a bit of `r` is set exactly where that of `a` is and that of `b` is not.
#[verifier::opaque]
pub open spec fn lacks(r: u64, a: u64, b: u64) -> bool {
    forall|i: u64| i < 64 ==> #[trigger] bit(r, i) == (bit(a, i) && !bit(b, i))
}

/// That `r` holds the bits of `a`, `n` places up, and zeros below.
#[verifier::opaque]
pub open spec fn moved_up(r: u64, a: u64, n: int) -> bool {
    forall|i: u64|
        i < 64 ==> #[trigger] bit(r, i) == (n <= i && bit(a, (i - n) as u64))
}

/// That `r` holds the bits of `a`, `n` places down, and zeros above.
#[verifier::opaque]
pub open spec fn moved_down(r: u64, a: u64, n: int) -> bool {
    forall|i: u64|
        i < 64 ==> #[trigger] bit(r, i) == (i + n < 64 && bit(a, (i + n) as u64))
}

/// That `r` holds the bits of `a`, `n` places down, and copies of the topmost above.
#[verifier::opaque]
pub open spec fn moved_down_signed(r: u64, a: u64, n: int) -> bool {
    forall|i: u64|
        i < 64 ==> #[trigger] bit(r, i) == bit(
            a,
            if i + n < 64 {
                (i + n) as u64
            } else {
                63
            },
        )
}

/// That `r` holds the low 32 bits of `a`, `n` places up, as a sign-extended word.
#[verifier::opaque]
pub open spec fn word_moved_up(r: u64, a: u64, n: int) -> bool {
    &&& forall|i: u64|
        i < 32 ==> #[trigger] bit(r, i) == (n <= i && bit(a, (i - n) as u64))
    &&& forall|i: u64| 32 <= i < 64 ==> #[trigger] bit(r, i) == bit(r, 31)
}

/// That `r` holds the low 32 bits of `a`, `n` places down and zeros above, as a sign-extended
/// word.
#[verifier::opaque]
pub open spec fn word_moved_down(r: u64, a: u64, n: int) -> bool {
    &&& forall|i: u64|
        i < 32 ==> #[trigger] bit(r, i) == (i + n < 32 && bit(a, (i + n) as u64))
    &&& forall|i: u64| 32 <= i < 64 ==> #[trigger] bit(r, i) == bit(r, 31)
}

/// That `r` holds the low 32 bits of `a`, `n` places down, and copies of their topmost above.
#[verifier::opaque]
pub open spec fn word_moved_down_signed(r: u64, a: u64, n: int) -> bool {
    forall|i: u64|
        i < 64 ==> #[trigger] bit(r, i) == bit(
            a,
            if i + n < 32 {
                (i + n) as u64
            } else {
                31
            },
        )
}

/// That `high` is how often 2^64 goes into `product`, rounded down.
pub open spec fn is_high_part(high: int, product: int) -> bool {
    0 <= product - high * 0x1_0000_0000_0000_0000 < 0x1_0000_0000_0000_0000
}

/// That `q` times `b` and `rest` make `a`, where the rest is smaller than `b` and has the sign
/// of `a`.
pub open spec fn divides(a: int, b: int, q: int, rest: int) -> bool {
    &&& a == q * b + rest
    &&& abs(rest) < abs(b)
    &&& rest < 0 ==> a < 0
    &&& rest > 0 ==> a > 0
}

/// That `q` and `rest` are what a signed division of `a` by `b` gives: where `b` is zero, -1
/// and `a`; where the quotient would be `limit`, which does not fit, `a` and zero.
pub open spec fn is_division(a: int, b: int, q: int, rest: int, limit: int) -> bool {
    &&& b != 0 && !(a == -limit && b == -1) ==> divides(a, b, q, rest)
    &&& b == 0 ==> q == -1 && rest == a
    &&& a == -limit && b == -1 ==> q == a && rest == 0
}

/// That `r` holds the low `8 * size` bits of `v`, and copies of their topmost above if
/// `extended`, else zeros.
#[verifier::opaque]
pub open spec fn is_widened(r: u64, v: u64, size: u64, extended: bool) -> bool {
    forall|i: u64|
        i < 64 ==> #[trigger] bit(r, i) == if i < 8 * size {
            bit(v, i)
        } else {
            extended && bit(v, (8 * size - 1) as u64)
        }
}

/// That the bytes of `mem` from `at` on are the `size` low-order ones of `r`, the least
/// significant first.
#[verifier::opaque]
pub open spec fn spells(mem: Seq<u8>, at: int, size: u64, r: u64) -> bool {
    forall|i: u64| i < 8 * size ==> #[trigger] bit(r, i) == bit(mem[at + i / 8] as u64, i % 8)
}

/// That `r` is what a load of `size` bytes at `at` gives.
#[verifier::opaque]
pub open spec fn is_loaded(r: u64, mem: Seq<u8>, at: int, size: u64, extended: bool) -> bool {
    &&& spells(mem, at, size, r)
    &&& forall|i: u64|
        8 * size <= i < 64 ==> #[trigger] bit(r, i) == (extended && bit(
            mem[at + size - 1] as u64,
            7,
        ))
}

/// That `after` is what a store of the `size` low-order bytes of `v` at `at` leaves of `mem`.
#[verifier::opaque]
pub open spec fn is_stored(after: Seq<u8>, mem: Seq<u8>, at: int, size: u64, v: u64) -> bool {
    &&& after.len() == mem.len()
    &&& spells(after, at, size, v)
    &&& forall|k: int| 0 <= k < mem.len() && !(at <= k < at + size) ==> after[k] == mem[k]
}

/// Casts keep the number modulo the width.
pub proof fn lemma_casts(a: u64, c: i64)
    by (bit_vector)
    ensures
        a as i64 == (if a < 0x8000_0000_0000_0000 {
            a as int
        } else {
            a - 0x1_0000_0000_0000_0000
        }),
        c as u64 == (if c >= 0 {
            c as int
        } else {
            c + 0x1_0000_0000_0000_0000
        }),
        a as u32 == a % 0x1_0000_0000,
        a as i32 == (if a % 0x1_0000_0000 < 0x8000_0000 {
            (a % 0x1_0000_0000) as int
        } else {
            (a % 0x1_0000_0000) - 0x1_0000_0000
        }),
        (a as u32) as i32 == a as i32,
        a & 0x3f == a % 64,
        a & 0x1f == a % 32,
        c & 0x3f == (c as u64) & 0x3f,
        c & 0x1f == (c as u64) & 0x1f,
        0 <= c & 0x3f < 64,
        0 <= c & 0x1f < 32,
        0 <= c & 0xfff < 4096,
        c & 0xfff == (c as u64) % 4096,
        0x20u8 & 0x20 == 0x20,
        0u8 & 0x20 == 0,
        0u64 >> 60 == 0,
        a & !1 == a - a % 2,
        (c as u64) as i64 == c,
        (a as i64) as u64 == a,
{
}

proof fn lemma_single_bits(a: u64, b: u64, i: u64)
    by (bit_vector)
    requires
        i < 64,
    ensures
        ((a ^ b) >> i) & 1 == ((a >> i) & 1) ^ ((b >> i) & 1),
        ((a | b) >> i) & 1 == ((a >> i) & 1) | ((b >> i) & 1),
        ((a & b) >> i) & 1 == ((a >> i) & 1) & ((b >> i) & 1),
        (a & !b) & b == 0,
        (a & !b) | (a & b) == a,
        ((a & !b) >> i) & 1 == ((a >> i) & 1) & (1 ^ ((b >> i) & 1)),
        (a >> i) & 1 == 0 || (a >> i) & 1 == 1,
        i < 8 ==> ((a % 256) >> i) & 1 == (a >> i) & 1,
        i >= 8 ==> ((a / 256) >> ((i - 8) as u64)) & 1 == (a >> i) & 1,
        0u64 ^ 0 == 0,
        1u64 ^ 0 == 1,
        0u64 ^ 1 == 1,
        1u64 ^ 1 == 0,
        0u64 | 0 == 0,
        1u64 | 0 == 1,
        0u64 | 1 == 1,
        1u64 | 1 == 1,
        0u64 & 0 == 0,
        1u64 & 0 == 0,
        0u64 & 1 == 0,
        1u64 & 1 == 1,
        (((a as i8) as i64 as u64) >> i) & 1 == (if i < 8 {
            (a >> i) & 1
        } else {
            (a >> 7) & 1
        }),
        (((a as i16) as i64 as u64) >> i) & 1 == (if i < 16 {
            (a >> i) & 1
        } else {
            (a >> 15) & 1
        }),
        (((a as i32) as i64 as u64) >> i) & 1 == (if i < 32 {
            (a >> i) & 1
        } else {
            (a >> 31) & 1
        }),
        ((a as u8 as u64) >> i) & 1 == (if i < 8 {
            (a >> i) & 1
        } else {
            0
        }),
        ((a as u16 as u64) >> i) & 1 == (if i < 16 {
            (a >> i) & 1
        } else {
            0
        }),
        ((a as u32 as u64) >> i) & 1 == (if i < 32 {
            (a >> i) & 1
        } else {
            0
        }),
{
}

proof fn lemma_moved_bits(a: u64, n: u64, i: u64)
    by (bit_vector)
    requires
        i < 64,
        n < 64,
    ensures
        ((a << n) >> i) & 1 == (if n <= i {
            (a >> ((i - n) as u64)) & 1
        } else {
            0
        }),
        ((a >> n) >> i) & 1 == (if i + n < 64 {
            (a >> ((i + n) as u64)) & 1
        } else {
            0
        }),
        ((((a as i64) >> n) as u64) >> i) & 1 == (if i + n < 64 {
            (a >> ((i + n) as u64)) & 1
        } else {
            (a >> 63) & 1
        }),
        n < 32 ==> ((((a as u32) << n) as i32 as i64 as u64) >> i) & 1 == (if i < 32 {
            if n <= i {
                (a >> ((i - n) as u64)) & 1
            } else {
                0
            }
        } else {
            (a >> ((31 - n) as u64)) & 1
        }),
        n < 32 ==> ((a as i32) << n) as i64 as u64 == ((a as u32) << n) as i32 as i64 as u64,
        n < 32 ==> ((((a as u32) >> n) as i32 as i64 as u64) >> i) & 1 == (if i < 32 {
            if i + n < 32 {
                (a >> ((i + n) as u64)) & 1
            } else {
                0
            }
        } else if n == 0 {
            (a >> 31) & 1
        } else {
            0
        }),
        n < 32 ==> ((((a as i32) >> n) as i64 as u64) >> i) & 1 == (if i + n < 32 {
            (a >> ((i + n) as u64)) & 1
        } else {
            (a >> 31) & 1
        }),
{
}

/// Sums, differences and products of machine numbers.
pub proof fn lemma_sums(a: u64, b: u64)
    ensures
        is_cut(a.wrapping_add(b), a + b),
        is_cut(a.wrapping_sub(b), a - b),
        is_cut(a.wrapping_mul(b), a * b),
{
}

/// Bits of machine numbers that are combined.
pub proof fn lemma_bits(a: u64, b: u64)
    ensures
        differs(a ^ b, a, b),
        unites(a | b, a, b),
        meets(a & b, a, b),
{
    reveal(differs);
    reveal(unites);
    reveal(meets);
    assert forall|i: u64| i < 64 implies #[trigger] bit(a ^ b, i) == (bit(a, i) != bit(b, i)) by {
        lemma_single_bits(a, b, i);
        lemma_single_bits(b, a, i);
    }
    assert forall|i: u64| i < 64 implies #[trigger] bit(a | b, i) == (bit(a, i) || bit(b, i)) by {
        lemma_single_bits(a, b, i);
        lemma_single_bits(b, a, i);
    }
    assert forall|i: u64| i < 64 implies #[trigger] bit(a & b, i) == (bit(a, i) && bit(b, i)) by {
        lemma_single_bits(a, b, i);
        lemma_single_bits(b, a, i);
    }
}

/// Machine numbers that are shifted.
pub proof fn lemma_shifts(a: u64, b: u64)
    ensures
        moved_up(a << (b & 0x3f), a, b as int % 64),
        moved_down(a >> (b & 0x3f), a, b as int % 64),
        moved_down_signed(((a as i64) >> (b & 0x3f)) as u64, a, b as int % 64),
        word_moved_up(((a as u32) << (b & 0x1f)) as i32 as i64 as u64, a, b as int % 32),
        word_moved_up(((a as i32) << (b & 0x1f)) as i64 as u64, a, b as int % 32),
        word_moved_down(((a as u32) >> (b & 0x1f)) as i32 as i64 as u64, a, b as int % 32),
        word_moved_down_signed(((a as i32) >> (b & 0x1f)) as i64 as u64, a, b as int % 32),
{
    reveal(moved_up);
    reveal(moved_down);
    reveal(moved_down_signed);
    reveal(word_moved_up);
    reveal(word_moved_down);
    reveal(word_moved_down_signed);
    lemma_casts(b, 0);
    let n = b & 0x3f;
    let up = a << n;
    let down = a >> n;
    let signed_down = ((a as i64) >> n) as u64;
    assert forall|i: u64| i < 64 implies #[trigger] bit(up, i) == (n <= i && bit(a, (i - n) as u64)) by {
        lemma_moved_bits(a, n, i);
    }
    assert forall|i: u64| i < 64 implies #[trigger] bit(down, i) == (i + n < 64 && bit(a, (i + n) as u64)) by {
        lemma_moved_bits(a, n, i);
    }
    assert forall|i: u64| i < 64 implies #[trigger] bit(signed_down, i) == bit(a, if i + n < 64 { (i + n) as u64 } else { 63 }) by {
        lemma_moved_bits(a, n, i);
    }
    let n = b & 0x1f;
    let up = ((a as u32) << n) as i32 as i64 as u64;
    let down = ((a as u32) >> n) as i32 as i64 as u64;
    let signed_down = ((a as i32) >> n) as i64 as u64;
    lemma_moved_bits(a, n, 31);
    assert forall|i: u64| i < 32 implies #[trigger] bit(up, i) == (n <= i && bit(a, (i - n) as u64)) by {
        lemma_moved_bits(a, n, i);
    }
    assert forall|i: u64| 32 <= i < 64 implies #[trigger] bit(up, i) == bit(up, 31) by {
        lemma_moved_bits(a, n, i);
    }
    assert forall|i: u64| i < 32 implies #[trigger] bit(down, i) == (i + n < 32 && bit(a, (i + n) as u64)) by {
        lemma_moved_bits(a, n, i);
    }
    assert forall|i: u64| 32 <= i < 64 implies #[trigger] bit(down, i) == bit(down, 31) by {
        lemma_moved_bits(a, n, i);
    }
    assert forall|i: u64| i < 64 implies #[trigger] bit(signed_down, i) == bit(a, if i + n < 32 { (i + n) as u64 } else { 31 }) by {
        lemma_moved_bits(a, n, i);
    }
}

/// Products of numbers that are equal modulo 2^32 are equal modulo 2^32.
proof fn lemma_congruent_products(a: int, b: int, x: int, y: int, p: int)
    requires
        (a - x) % 0x1_0000_0000 == 0,
        (b - y) % 0x1_0000_0000 == 0,
        (p - x * y) % 0x1_0000_0000 == 0,
    ensures
        (p - a * b) % 0x1_0000_0000 == 0,
{
    let j = (a - x) / 0x1_0000_0000;
    let k = (b - y) / 0x1_0000_0000;
    let m = (p - x * y) / 0x1_0000_0000;
    let n = m - x * k - j * y - 0x1_0000_0000 * (j * k);
    assert(p - a * b == 0x1_0000_0000 * n) by (nonlinear_arith)
        requires
            a == x + 0x1_0000_0000 * j,
            b == y + 0x1_0000_0000 * k,
            p - x * y == 0x1_0000_0000 * m,
            n == m - x * k - j * y - 0x1_0000_0000 * (j * k),
    ;
}

/// Products of words.
pub proof fn lemma_word_products(a: u64, b: u64)
    ensures
        is_cut_word((a as i32).wrapping_mul(b as i32) as i64 as u64, a * b),
{
    let p = (a as i32).wrapping_mul(b as i32);
    let x = (a as i32) as int;
    let y = (b as i32) as int;
    assert((a - x) % 0x1_0000_0000 == 0) by {
        lemma_casts(a, 0);
    }
    assert((b - y) % 0x1_0000_0000 == 0) by {
        lemma_casts(b, 0);
    }
    assert((p - x * y) % 0x1_0000_0000 == 0);
    lemma_congruent_products(a as int, b as int, x, y, p as int);
    assert(signed(p as i64 as u64) == p) by {
        lemma_casts(0, p as i64);
    }
}

/// Sums and differences of words.
pub proof fn lemma_words(a: u64, b: u64)
    ensures
        is_cut_word((a.wrapping_add(b) as i32) as i64 as u64, a + b),
        is_cut_word((a.wrapping_sub(b) as i32) as i64 as u64, a - b),
{
    lemma_extended(a.wrapping_add(b));
    lemma_extended(a.wrapping_sub(b));
}

/// A word that is sign-extended.
pub proof fn lemma_extended(a: u64)
    ensures
        is_cut_word((a as i32) as i64 as u64, a as int),
        (a as u32) as i32 as i64 as u64 == (a as i32) as i64 as u64,
        signed((a as i32) as i64 as u64) == signed_word(a),
{
    lemma_casts(a, (a as i32) as i64);
    lemma_casts((a as i32) as i64 as u64, 0);
}

/// The high halves of products.
pub proof fn lemma_high_parts(a: u64, b: u64)
    ensures
        is_high_part(
            signed(arith::mulh_result(a as i64, b as i64) as u64),
            signed(a) * signed(b),
        ),
        is_high_part(signed(arith::mulhsu_result(a as i64, b) as u64), signed(a) * b),
        is_high_part(arith::mulhu_result(a, b) as int, a * b),
{
    lemma_casts(a, 0);
    lemma_casts(b, 0);
    let x = signed(a);
    let y = signed(b);
    assert(0 <= a * b <= 0xffff_ffff_ffff_ffff * 0xffff_ffff_ffff_ffff) by (nonlinear_arith)
        requires
            0 <= a <= 0xffff_ffff_ffff_ffff,
            0 <= b <= 0xffff_ffff_ffff_ffff,
    ;
    assert(-0x8000_0000_0000_0000 * 0xffff_ffff_ffff_ffff <= x * b <= 0x8000_0000_0000_0000
        * 0xffff_ffff_ffff_ffff) by (nonlinear_arith)
        requires
            -0x8000_0000_0000_0000 <= x <= 0x7fff_ffff_ffff_ffff,
            0 <= b <= 0xffff_ffff_ffff_ffff,
    ;
    assert(-0x8000_0000_0000_0000 * 0xffff_ffff_ffff_ffff <= x * y <= 0x8000_0000_0000_0000
        * 0xffff_ffff_ffff_ffff) by (nonlinear_arith)
        requires
            -0x8000_0000_0000_0000 <= x <= 0x7fff_ffff_ffff_ffff,
            -0x8000_0000_0000_0000 <= y <= 0x7fff_ffff_ffff_ffff,
    ;
    let h = arith::mulh_result(a as i64, b as i64);
    let hsu = arith::mulhsu_result(a as i64, b);
    assert(h == (x * y) / 0x1_0000_0000_0000_0000);
    assert(hsu == (x * b) / 0x1_0000_0000_0000_0000);
    lemma_casts(0, h);
    lemma_casts(0, hsu);
}

/// Truncated division of integers.
pub proof fn lemma_divides(a: int, b: int)
    requires
        b != 0,
    ensures
        divides(a, b, arith::quotient(a, b), arith::remainder(a, b)),
        abs(arith::quotient(a, b)) <= abs(a),
        abs(b) >= 2 ==> 2 * abs(arith::quotient(a, b)) <= abs(a),
        abs(arith::remainder(a, b)) <= abs(a),
{
    let m = arith::magnitude(a);
    let d = arith::magnitude(b);
    vstd::arithmetic::div_mod::lemma_fundamental_div_mod(m, d);
    let q = m / d;
    let r = m % d;
    assert(0 <= q <= m && (d >= 2 ==> 2 * q <= m) && r <= m) by (nonlinear_arith)
        requires
            m == d * q + r,
            0 <= r < d,
            d >= 1,
            m >= 0,
    ;
    assert(q * d == d * q && (-q) * d == -(d * q) && q * (-d) == -(d * q) && (-q) * (-d) == d * q)
        by (nonlinear_arith);
}

/// Division of machine numbers.
pub proof fn lemma_divisions(a: u64, b: u64)
    ensures
        is_division(
            signed(a),
            signed(b),
            signed(arith::div_result(a as i64, b as i64) as u64),
            signed(arith::rem_result(a as i64, b as i64) as u64),
            0x8000_0000_0000_0000,
        ),
        b != 0 ==> divides(
            a as int,
            b as int,
            arith::divu_result(a, b) as int,
            arith::remu_result(a, b) as int,
        ),
{
    lemma_casts(a, arith::div_result(a as i64, b as i64));
    lemma_casts(b, arith::rem_result(a as i64, b as i64));
    if b != 0 {
        lemma_divides(signed(a), signed(b));
        lemma_divides(a as int, b as int);
    }
}

/// Division of words.
pub proof fn lemma_word_divisions(a: u64, b: u64)
    ensures
        is_division(
            signed_word(a),
            signed_word(b),
            signed(arith::divw_result(a as i32, b as i32) as i64 as u64),
            signed(arith::remw_result(a as i32, b as i32) as i64 as u64),
            0x8000_0000,
        ),
{
    lemma_casts(a, arith::divw_result(a as i32, b as i32) as i64);
    lemma_casts(b, arith::remw_result(a as i32, b as i32) as i64);
    if word(b) != 0 {
        lemma_divides(signed_word(a), signed_word(b));
    }
}

/// Values that are widened.
pub proof fn lemma_widened(v: u64)
    ensures
        is_widened((v as i8) as i64 as u64, v, 1, true),
        is_widened((v as i16) as i64 as u64, v, 2, true),
        is_widened((v as i32) as i64 as u64, v, 4, true),
        is_widened(v as u8 as u64, v, 1, false),
        is_widened(v as u16 as u64, v, 2, false),
        is_widened(v as u32 as u64, v, 4, false),
        is_widened(v, v, 8, true),
{
    reveal(is_widened);
    assert forall|i: u64| i < 64 implies {
        &&& #[trigger] bit((v as i8) as i64 as u64, i) == bit(v, if i < 8 { i } else { 7 })
    } by {
        lemma_single_bits(v, v, i);
    }
    assert forall|i: u64| i < 64 implies {
        &&& #[trigger] bit((v as i16) as i64 as u64, i) == bit(v, if i < 16 { i } else { 15 })
    } by {
        lemma_single_bits(v, v, i);
    }
    assert forall|i: u64| i < 64 implies {
        &&& #[trigger] bit((v as i32) as i64 as u64, i) == bit(v, if i < 32 { i } else { 31 })
    } by {
        lemma_single_bits(v, v, i);
    }
    assert forall|i: u64| i < 64 implies #[trigger] bit(v as u8 as u64, i) == (i < 8 && bit(
        v,
        i,
    )) by {
        lemma_single_bits(v, v, i);
    }
    assert forall|i: u64| i < 64 implies #[trigger] bit(v as u16 as u64, i) == (i < 16 && bit(
        v,
        i,
    )) by {
        lemma_single_bits(v, v, i);
    }
    assert forall|i: u64| i < 64 implies #[trigger] bit(v as u32 as u64, i) == (i < 32 && bit(
        v,
        i,
    )) by {
        lemma_single_bits(v, v, i);
    }
}

/// The bytes of a number, least significant first, hold its bits.
pub proof fn lemma_bytes_spell(v: u64, n: u64)
    requires
        n <= 8,
    ensures
        spells(bytes::le_bytes(v as nat, n as nat), 0, n, v),
    decreases n,
{
    reveal(spells);
    if n > 0 {
        let part = bytes::le_bytes(v as nat, n as nat);
        let rest = bytes::le_bytes(v as nat / 256, (n - 1) as nat);
        bytes::lemma_le_bytes_len(v as nat, n as nat);
        lemma_bytes_spell(v / 256, (n - 1) as u64);
        assert forall|i: u64| i < 8 * n implies #[trigger] bit(v, i) == bit(
            part[0 + i / 8] as u64,
            i % 8,
        ) by {
            lemma_single_bits(v, v, i);
            if i >= 8 {
                let j = (i - 8) as u64;
                assert(bit(v / 256, j) == bit(rest[0 + j / 8] as u64, j % 8));
                assert(part[(i / 8) as int] == rest[(j / 8) as int]);
            } else {
                assert(part[0] == (v % 256) as u8);
            }
        }
    }
}

/// What is read holds the bits of the bytes.
pub proof fn lemma_reading_spells(mem: Seq<u8>, at: int, size: u64)
    requires
        0 < size <= 8,
        0 <= at,
        at + size <= mem.len(),
    ensures
        spells(mem, at, size, bytes::le_u64(mem.subrange(at, at + size))),
        bytes::le_value(mem.subrange(at, at + size)) < bytes::pow256(size as nat),
        bytes::le_u64(mem.subrange(at, at + size)) == bytes::le_value(mem.subrange(at, at + size)),
{
    reveal(spells);
    let window = mem.subrange(at, at + size);
    let v = bytes::le_u64(window);
    bytes::lemma_le_value_bound(window);
    bytes::lemma_pow256_monotonic(size as nat, 8);
    bytes::lemma_pow256_values();
    bytes::lemma_le_bytes_of_value(window);
    lemma_bytes_spell(v, size);
    assert forall|i: u64| i < 8 * size implies #[trigger] bit(v, i) == bit(
        mem[at + i / 8] as u64,
        i % 8,
    ) by {
        assert(window[0 + i / 8] == mem[at + i / 8]);
    }
}

/// What is written holds the bits of the value.
pub proof fn lemma_writing_spells(mem: Seq<u8>, at: int, size: u64, v: u64)
    requires
        size <= 8,
        0 <= at,
        at + size <= mem.len(),
    ensures
        is_stored(
            bytes::splice(mem, at, bytes::le_bytes(v as nat, size as nat)),
            mem,
            at,
            size,
            v,
        ),
{
    reveal(spells);
    reveal(is_stored);
    let part = bytes::le_bytes(v as nat, size as nat);
    bytes::lemma_le_bytes_len(v as nat, size as nat);
    lemma_bytes_spell(v, size);
    let after = bytes::splice(mem, at, part);
    assert forall|i: u64| i < 8 * size implies #[trigger] bit(v, i) == bit(
        after[at + i / 8] as u64,
        i % 8,
    ) by {
        assert(after[at + i / 8] == part[0 + i / 8]);
    }
}

/// A number that was read and widened.
pub proof fn lemma_widened_reading(mem: Seq<u8>, at: int, size: u64, r: u64, extended: bool)
    requires
        0 < size <= 8,
        0 <= at,
        at + size <= mem.len(),
        is_widened(r, bytes::le_u64(mem.subrange(at, at + size)), size, extended),
    ensures
        is_loaded(r, mem, at, size, extended),
{
    reveal(spells);
    reveal(is_loaded);
    reveal(is_widened);
    let v = bytes::le_u64(mem.subrange(at, at + size));
    lemma_reading_spells(mem, at, size);
    let last = (8 * size - 1) as u64;
    assert(bit(v, last) == bit(mem[at + last / 8] as u64, last % 8));
    assert(last / 8 == size - 1 && last % 8 == 7);
}

/// Bits that are cleared.
pub proof fn lemma_cleared_bits(a: u64, b: u64)
    ensures
        lacks(a & !b, a, b),
        (a & !b) & b == 0,
        (a & !b) | (a & b) == a,
{
    lemma_single_bits(a, b, 0);
    reveal(lacks);
    assert forall|i: u64| i < 64 implies #[trigger] bit(a & !b, i) == (bit(a, i) && !bit(b, i)) by {
        lemma_single_bits(a, b, i);
        lemma_single_bits(b, a, i);
    }
}

/// A number that fits a smaller type.
pub proof fn lemma_fitting(v: u64)
    ensures
        v < 0x100 ==> v as u8 as u64 == v,
        v < 0x1_0000 ==> v as u16 as u64 == v,
        v < 0x1_0000_0000 ==> v as u32 as u64 == v,
{
}

/// Unsigned division of words.
pub proof fn lemma_unsigned_word_divisions(a: u64, b: u64)
    ensures
        ({
            let x = a as u32 as u64;
            let y = b as u32 as u64;
            let q = (arith::divu_result(x, y) as u32) as i32 as i64 as u64;
            let rest = (arith::remu_result(x, y) as u32) as i32 as i64 as u64;
            &&& is_cut_word(q, word(q))
            &&& is_cut_word(rest, word(rest))
            &&& word(b) == 0 ==> word(q) == 0xffff_ffff && word(rest) == word(a)
            &&& word(b) != 0 ==> divides(word(a), word(b), word(q), word(rest))
        }),
{
    lemma_casts(a, 0);
    lemma_casts(b, 0);
    let x = a as u32 as u64;
    let y = b as u32 as u64;
    let d = arith::divu_result(x, y);
    let m = arith::remu_result(x, y);
    lemma_extended(d);
    lemma_extended(m);
    lemma_casts(d, 0);
    lemma_casts(m, 0);
    if y != 0 {
        lemma_divides(x as int, y as int);
        assert(d <= x && m <= x);
    }
    assert(word(d) == word((d as i32) as i64 as u64)) by {
        lemma_same_words(d, (d as i32) as i64 as u64);
    }
    assert(word(m) == word((m as i32) as i64 as u64)) by {
        lemma_same_words(m, (m as i32) as i64 as u64);
    }
}

pub proof fn lemma_same_words(a: u64, r: u64)
    requires
        is_cut_word(r, a as int),
    ensures
        word(a) == word(r),
        is_cut_word(r, word(r)),
{
}

/// Machine numbers that are shifted by a constant.
pub proof fn lemma_constant_shifts(a: u64, imm: i64)
    ensures
        moved_up(a << (imm & 0x3f), a, imm as int % 64),
        moved_down(a >> (imm & 0x3f), a, imm as int % 64),
        moved_down_signed(((a as i64) >> (imm & 0x3f)) as u64, a, imm as int % 64),
        word_moved_up(((a as u32) << (imm & 0x1f)) as i32 as i64 as u64, a, imm as int % 32),
        word_moved_down(((a as u32) >> (imm & 0x1f)) as i32 as i64 as u64, a, imm as int % 32),
        word_moved_down_signed(((a as i32) >> (imm & 0x1f)) as i64 as u64, a, imm as int % 32),
{
    let c = imm as u64;
    assert(c == (if imm < 0 { imm + 0x1_0000_0000_0000_0000 } else { imm as int })
        && imm & 0x3f == c & 0x3f && imm & 0x1f == c & 0x1f) by {
        lemma_casts(c, imm);
    }
    assert(c as int % 64 == imm as int % 64);
    assert(c as int % 32 == imm as int % 32);
    lemma_shifts(a, c);
}

/// The three low bytes of a word.
pub proof fn lemma_low_bytes(n: u32)
    by (bit_vector)
    ensures
        (((n >> 16) & 0xff) as u8) * 0x1_0000 + (((n >> 8) & 0xff) as u8) * 0x100 + ((n
            & 0xff) as u8) == n % 0x100_0000,
        n & 3 == n % 4,
{
}

/// Casts of words.
pub proof fn lemma_word_casts(a: u32, b: u32, c: i32)
    by (bit_vector)
    ensures
        (a as u64) as i32 == a as i32,
        (a as u64) as u32 == a,
        a as i32 == (if a < 0x8000_0000 {
            a as int
        } else {
            a - 0x1_0000_0000
        }),
        b as i32 == (if b < 0x8000_0000 {
            b as int
        } else {
            b - 0x1_0000_0000
        }),
        c as u32 == (if c >= 0 {
            c as int
        } else {
            c + 0x1_0000_0000
        }),
        b & 0x1f == (b as u64) & 0x1f,
        b & 0x1f < 32,
        ((((a as i32) >> (b & 0x1f)) as u32) as i32) == (a as i32) >> (b & 0x1f),
{
}

/// A word that is cast to and fro.
pub proof fn lemma_word_signs(c: i32)
    ensures
        signed_word((c as u32) as u64) == c,
{
    lemma_word_casts(0, 0, c);
}

/// The two low bits of a word.
pub proof fn lemma_low_bits(n: u32)
    ensures
        n & 3 == n % 4,
{
    lemma_low_bytes(n);
}

/// The address space that stands in a number.
pub proof fn lemma_spaces(satp: u64)
    by (bit_vector)
    ensures
        (satp >> 44) & 0xffff == satp / 0x1000_0000_0000 % 0x1_0000,
        satp >> 12 == satp / 0x1000,
{
}

/// The number of the page of an address.
pub proof fn lemma_pages(addr: u64)
    ensures
        addr >> 12 == addr / 0x1000,
{
    lemma_spaces(addr);
}

/// An address in a page.
pub proof fn lemma_places(page: u64, v: u64)
    by (bit_vector)
    requires
        0x8_0000 <= page < 0x10_0000_0000_0000,
    ensures
        12u64 & 0x3f == 12,
        (page << 12) | (v & 0xfff) == page * 4096 + v % 4096,
        page * 4096 + v % 4096 >= 0x8000_0000,
        12i64 as u64 == 12,
        0xfffi64 as u64 == 0xfff,
        0x8000_0000i64 as u64 == 0x8000_0000,
        (((page << 12) | (v & 0xfff)) - 0x8000_0000) as u32 == (page * 4096 + v % 4096
            - 0x8000_0000) % 0x1_0000_0000,
{
}

} // verus!
