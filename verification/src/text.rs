//! Numbers as text, appended to strings.

use vstd::prelude::*;
use vstd::string::StringExecFns;

verus! {

/// `String::push` appends one character to the end of the string.
pub assume_specification[ String::push ](s: &mut String, c: char)
    ensures
        final(s)@ == old(s)@.push(c),
;

/// The digit that stands for `d` in bases up to sixteen.
pub open spec fn digit_char(d: nat) -> char {
    if d < 10 {
        (48 + d) as char
    } else {
        (87 + d) as char
    }
}

/// The digits of `n` in base `radix`, most significant first.
pub open spec fn digits(n: nat, radix: nat) -> Seq<char>
    decreases n,
{
    if n < radix || radix < 2 {
        seq![digit_char(n)]
    } else {
        proof {
            assert(n / radix < n) by (nonlinear_arith)
                requires
                    n >= radix,
                    radix >= 2,
            ;
        }
        digits(n / radix, radix).push(digit_char(n % radix))
    }
}

/// `n` in decimal.
pub open spec fn dec(n: nat) -> Seq<char> {
    digits(n, 10)
}

/// `n` in lower-case hexadecimal, without a prefix.
pub open spec fn hex(n: nat) -> Seq<char> {
    digits(n, 16)
}

/// `n` in lower-case hexadecimal, after `0x`.
pub open spec fn hex0x(n: nat) -> Seq<char> {
    "0x"@ + hex(n)
}

/// `i` in decimal, after a minus sign where it is negative.
pub open spec fn dec_signed(i: int) -> Seq<char> {
    if i < 0 {
        "-"@ + dec((-i) as nat)
    } else {
        dec(i as nat)
    }
}

/// `s` right-aligned in `width` places, the places before it holding `fill`.
pub open spec fn pad_left(s: Seq<char>, width: nat, fill: char) -> Seq<char> {
    if s.len() < width {
        Seq::new((width - s.len()) as nat, |i: int| fill) + s
    } else {
        s
    }
}

/// `n` in lower-case hexadecimal, with leading zeros up to `width` digits.
pub open spec fn hex_pad(n: nat, width: nat) -> Seq<char> {
    pad_left(hex(n), width, '0')
}

/// Text can be appended piece by piece.
pub broadcast proof fn lemma_append(a: Seq<char>, b: Seq<char>, c: Seq<char>)
    ensures
        #[trigger] (a + (b + c)) == (a + b) + c,
{
    assert((a + (b + c)) =~= (a + b) + c);
}

/// Appends `n` in base `radix`.
fn push_digits(out: &mut String, n: u64, radix: u64)
    requires
        2 <= radix <= 16,
    ensures
        final(out)@ == old(out)@ + digits(n as nat, radix as nat),
    decreases n,
{
    if n < radix {
        let c: char = if n < 10 {
            (48 + n as u8) as char
        } else {
            (87 + n as u8) as char
        };
        out.push(c);
    } else {
        assert(n / radix < n) by (nonlinear_arith)
            requires
                n >= radix,
                radix >= 2,
        ;
        push_digits(out, n / radix, radix);
        let d: u64 = n % radix;
        let c: char = if d < 10 {
            (48 + d as u8) as char
        } else {
            (87 + d as u8) as char
        };
        out.push(c);
    }
}

proof fn lemma_halves(shift: u64)
    by (bit_vector)
    ensures
        u64::MAX >> 0u64 == u64::MAX,
        0u64 <= shift <= 62 ==> (u64::MAX >> shift) / 2 == u64::MAX >> ((shift + 1) as u64),
        u64::MAX >> 63u64 == 1,
{
}

/// How many digits `n` has in base `radix`.
fn count_digits(n: u64, radix: u64) -> (count: usize)
    requires
        2 <= radix <= 16,
    ensures
        count == digits(n as nat, radix as nat).len(),
        count <= 64,
{
    let mut rest: u64 = n;
    let mut count: usize = 1;
    let ghost mut room: u64 = u64::MAX;
    proof {
        lemma_halves(0);
    }
    while rest >= radix
        invariant
            2 <= radix <= 16,
            1 <= count <= 64,
            digits(n as nat, radix as nat).len() == digits(rest as nat, radix as nat).len() + count - 1,
            rest <= room,
            count == 64 ==> room <= 1,
            room == u64::MAX >> ((count - 1) as u64),
        decreases rest,
    {
        assert(rest / radix < rest && rest / radix <= rest / 2) by (nonlinear_arith)
            requires
                rest >= radix,
                radix >= 2,
        ;
        proof {
            let shift: u64 = (count - 1) as u64;
            lemma_halves(shift);
            room = room / 2;
        }
        rest = rest / radix;
        count = count + 1;
    }
    count
}

/// Appends `n` in decimal.
pub fn push_dec(out: &mut String, n: u64)
    ensures
        final(out)@ == old(out)@ + dec(n as nat),
{
    push_digits(out, n, 10);
}

/// Appends `n` in hexadecimal.
pub fn push_hex(out: &mut String, n: u64)
    ensures
        final(out)@ == old(out)@ + hex(n as nat),
{
    push_digits(out, n, 16);
}

/// Appends `n` in hexadecimal after `0x`.
pub fn push_hex0x(out: &mut String, n: u64)
    ensures
        final(out)@ == old(out)@ + hex0x(n as nat),
{
    out.append("0x");
    push_hex(out, n);
    proof {
        assert(old(out)@ + "0x"@ + hex(n as nat) =~= old(out)@ + ("0x"@ + hex(n as nat)));
    }
}

/// Appends `i` in decimal.
pub fn push_dec_signed(out: &mut String, i: i64)
    ensures
        final(out)@ == old(out)@ + dec_signed(i as int),
{
    if i < 0 {
        out.append("-");
        let magnitude: u64 = if i == i64::MIN {
            0x8000_0000_0000_0000
        } else {
            (-i) as u64
        };
        push_dec(out, magnitude);
        proof {
            assert(old(out)@ + "-"@ + dec(magnitude as nat) =~= old(out)@ + ("-"@ + dec(
                magnitude as nat,
            )));
        }
    } else {
        push_dec(out, i as u64);
    }
}

/// Appends `count` copies of `c`.
fn push_repeated(out: &mut String, c: char, count: usize)
    ensures
        final(out)@ == old(out)@ + Seq::new(count as nat, |i: int| c),
{
    let ghost before = out@;
    let mut i: usize = 0;
    assert(before =~= before + Seq::new(0, |i: int| c));
    while i < count
        invariant
            i <= count,
            out@ == before + Seq::new(i as nat, |i: int| c),
        decreases count - i,
    {
        out.push(c);
        i = i + 1;
        assert(out@ =~= before + Seq::new(i as nat, |i: int| c));
    }
}

/// Appends `n` in hexadecimal with leading zeros up to `width` digits.
pub fn push_hex_pad(out: &mut String, n: u64, width: usize)
    ensures
        final(out)@ == old(out)@ + hex_pad(n as nat, width as nat),
{
    let count: usize = count_digits(n, 16);
    if count < width {
        push_repeated(out, '0', width - count);
    }
    push_hex(out, n);
    proof {
        assert(out@ =~= old(out)@ + hex_pad(n as nat, width as nat));
    }
}

/// Appends `n` in decimal, right-aligned in `width` places.
pub fn push_dec_pad(out: &mut String, n: u64, width: usize)
    ensures
        final(out)@ == old(out)@ + pad_left(dec(n as nat), width as nat, ' '),
{
    let count: usize = count_digits(n, 10);
    if count < width {
        push_repeated(out, ' ', width - count);
    }
    push_dec(out, n);
    proof {
        assert(out@ =~= old(out)@ + pad_left(dec(n as nat), width as nat, ' '));
    }
}

/// What a digit counts.
pub open spec fn digit_value(c: char) -> int {
    if c as u32 >= 97 {
        c as u32 - 87
    } else {
        c as u32 - 48
    }
}

/// The number that is read off digits, the most significant first.
pub open spec fn read_off(s: Seq<char>, radix: int) -> int
    decreases s.len(),
{
    if s.len() == 0 {
        0
    } else {
        read_off(s.drop_last(), radix) * radix + digit_value(s.last())
    }
}

/// Whether a character is a decimal digit, or one of the letters from a to f.
pub open spec fn is_digit(c: char) -> bool {
    48 <= c as u32 <= 57 || 97 <= c as u32 <= 102
}

proof fn lemma_read_digits(n: nat, radix: nat)
    requires
        2 <= radix <= 16,
    ensures
        read_off(digits(n, radix), radix as int) == n,
        digits(n, radix).len() >= 1,
        digits(n, radix)[0] == '0' ==> n == 0,
        forall|i: int|
            0 <= i < digits(n, radix).len() ==> is_digit(#[trigger] digits(n, radix)[i])
                && digit_value(digits(n, radix)[i]) < radix,
    decreases n,
{
    let s = digits(n, radix);
    if n < radix {
        assert(s.drop_last() =~= Seq::<char>::empty());
        assert(read_off(s.drop_last(), radix as int) == 0);
        assert(digit_value(s.last()) == n);
    } else {
        assert(0 < n / radix && n / radix < n && n == n / radix * radix + n % radix && 0 <= n
            % radix < radix) by (nonlinear_arith)
            requires
                n >= radix,
                radix >= 2,
        ;
        lemma_read_digits(n / radix, radix);
        assert(s.drop_last() =~= digits(n / radix, radix));
        assert(digit_value(s.last()) == n % radix);
        assert(s[0] == digits(n / radix, radix)[0]);
    }
}

/// Numbers can be read off their digits, and have no zeros before them.
pub proof fn law_numbers_read_back(n: nat)
    ensures
        read_off(dec(n), 10) == n,
        read_off(hex(n), 16) == n,
        dec(n)[0] == '0' ==> n == 0,
        hex(n)[0] == '0' ==> n == 0,
        forall|i: int| 0 <= i < dec(n).len() ==> 48 <= (#[trigger] dec(n)[i]) as u32 <= 57,
        forall|i: int| 0 <= i < hex(n).len() ==> is_digit(#[trigger] hex(n)[i]),
        hex0x(n).len() == 2 + hex(n).len(),
        hex0x(n)[0] == '0',
        hex0x(n)[1] == 'x',
        hex0x(n).skip(2) == hex(n),
{
    lemma_read_digits(n, 10);
    lemma_read_digits(n, 16);
    reveal_strlit("0x");
    assert(hex0x(n).skip(2) =~= hex(n));
}

/// Negative numbers have a sign before their digits, and others have none.
pub proof fn law_signs_read_back(i: int)
    ensures
        i < 0 ==> dec_signed(i)[0] == '-' && read_off(dec_signed(i).skip(1), 10) == -i,
        i >= 0 ==> dec_signed(i)[0] != '-' && read_off(dec_signed(i), 10) == i,
{
    reveal_strlit("-");
    if i < 0 {
        lemma_read_digits((-i) as nat, 10);
        assert(dec_signed(i).skip(1) =~= dec((-i) as nat));
    } else {
        lemma_read_digits(i as nat, 10);
        assert(is_digit(dec(i as nat)[0]));
    }
}

/// Text that is padded ends as it was and has what it is padded with before it, as much as
/// the width asks for.
pub proof fn law_padding(s: Seq<char>, width: nat, fill: char)
    ensures
        ({
            let p = pad_left(s, width, fill);
            &&& p.len() == if s.len() < width {
                width
            } else {
                s.len()
            }
            &&& p.skip(p.len() - s.len()) == s
            &&& forall|i: int| 0 <= i < p.len() - s.len() ==> p[i] == fill
        }),
{
    let p = pad_left(s, width, fill);
    assert(p.skip(p.len() - s.len()) =~= s);
}

/// Zeros before a hexadecimal number leave what is read off it.
pub proof fn law_padded_numbers_read_back(n: nat, width: nat)
    ensures
        read_off(hex_pad(n, width), 16) == n,
        hex_pad(n, width).len() >= width,
{
    lemma_read_digits(n, 16);
    lemma_leading_zeros(hex(n), (width - hex(n).len()) as nat);
}

proof fn lemma_leading_zeros(s: Seq<char>, count: nat)
    ensures
        read_off(Seq::new(count, |i: int| '0') + s, 16) == read_off(s, 16),
    decreases count + s.len(),
{
    let zeros = Seq::new(count, |i: int| '0');
    let t = zeros + s;
    if s.len() > 0 {
        lemma_leading_zeros(s.drop_last(), count);
        assert(t.drop_last() =~= zeros + s.drop_last());
    } else if count > 0 {
        lemma_leading_zeros(s, (count - 1) as nat);
        assert(t.drop_last() =~= Seq::new((count - 1) as nat, |i: int| '0') + s);
        assert(t.last() == '0');
    } else {
        assert(t =~= s);
    }
}

/// A number below 16 to the power `k` has at most `k` hexadecimal digits.
pub proof fn lemma_hex_len(n: nat, k: nat)
    requires
        k >= 1,
        n < vstd::arithmetic::power::pow(16, k),
    ensures
        hex(n).len() <= k,
    decreases k,
{
    reveal(vstd::arithmetic::power::pow);
    if n >= 16 {
        if k == 1 {
            assert(vstd::arithmetic::power::pow(16, 0) == 1);
            assert(vstd::arithmetic::power::pow(16, 1) == 16);
        } else {
            assert(vstd::arithmetic::power::pow(16, k) == 16 * vstd::arithmetic::power::pow(
                16,
                (k - 1) as nat,
            ));
            lemma_hex_len(n / 16, (k - 1) as nat);
        }
    }
}

/// A machine number takes sixteen hexadecimal digits when it is padded so, and is read off
/// them.
pub proof fn law_addresses_are_sixteen_digits(n: u64)
    ensures
        hex_pad(n as nat, 16).len() == 16,
        read_off(hex_pad(n as nat, 16), 16) == n,
{
    assert(vstd::arithmetic::power::pow(16, 16) == 0x1_0000_0000_0000_0000) by {
        reveal_with_fuel(vstd::arithmetic::power::pow, 17);
    }
    lemma_hex_len(n as nat, 16);
    law_padded_numbers_read_back(n as nat, 16);
}

} // verus!
