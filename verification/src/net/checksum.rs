//! The Internet checksum.

use vstd::prelude::*;

verus! {

/// The sum of the sixteen-bit words of `data`, most significant byte first; a byte left
/// over counts as the upper half of a word.
pub open spec fn word_sum(data: Seq<u8>) -> nat
    decreases data.len(),
{
    if data.len() == 0 {
        0
    } else if data.len() == 1 {
        data[0] as nat * 256
    } else {
        data[0] as nat * 256 + data[1] as nat + word_sum(data.skip(2))
    }
}

/// `n` as a one's complement number of sixteen bits: a multiple of 0xffff is 0xffff, but
/// zero is zero.
pub open spec fn ones_complement(n: nat) -> nat {
    if n == 0 {
        0
    } else {
        ((n - 1) % 0xffff + 1) as nat
    }
}

/// The checksum of `data`: the complement of its one's complement sum, which is kept in
/// 32 bits.
pub open spec fn checksum(data: Seq<u8>) -> u16 {
    (0xffff - ones_complement(word_sum(data) % 0x1_0000_0000)) as u16
}

/// The checksum of `data`.
pub fn compute_checksum(data: &[u8]) -> (sum: u16)
    ensures
        sum == checksum(data@),
{
    let mut sum: u32 = 0;
    let mut i: usize = 0;
    assert(data@.skip(0) =~= data@);
    while i < data.len() && data.len() - i >= 2
        invariant
            i <= data.len(),
            (sum + word_sum(data@.skip(i as int))) % 0x1_0000_0000 == word_sum(data@)
                % 0x1_0000_0000,
        decreases data.len() - i,
    {
        let word: u32 = data[i] as u32 * 256 + data[i + 1] as u32;
        assert(data@.skip(i as int).skip(2) =~= data@.skip(i + 2));
        sum = sum.wrapping_add(word);
        i = i + 2;
    }
    if i < data.len() {
        assert(data@.skip(i as int).len() == 1);
        sum = sum.wrapping_add(data[i] as u32 * 256);
    }
    assert(sum == word_sum(data@) % 0x1_0000_0000);
    let folded: u16 = fold(sum);
    0xffff - folded
}

/// Adds the carries of a sum to it until it fits sixteen bits.
fn fold(sum: u32) -> (folded: u16)
    ensures
        folded == ones_complement(sum as nat),
{
    let mut rest: u32 = sum;
    while rest > 0xffff
        invariant
            ones_complement(rest as nat) == ones_complement(sum as nat),
        decreases rest,
    {
        proof {
            let low = rest % 0x1_0000;
            let high = rest / 0x1_0000;
            assert(rest == high * 0x1_0000 + low);
            assert((rest - 1) % 0xffff == (high + low - 1) % 0xffff) by {
                assert(rest - 1 == high * 0xffff + (high + low - 1));
                vstd::arithmetic::div_mod::lemma_mod_multiples_vanish(
                    high as int,
                    high + low - 1,
                    0xffff,
                );
                assert(high * 0xffff == 0xffff * high);
            }
        }
        rest = rest % 0x1_0000 + rest / 0x1_0000;
    }
    rest as u16
}

/// `data` with its checksum in the two bytes from `at` on.
pub open spec fn with_checksum(data: Seq<u8>, at: int) -> Seq<u8> {
    data.update(at, (checksum(data) / 256) as u8).update(at + 1, (checksum(data) % 256) as u8)
}

/// Puts the checksum of `data` into the two bytes from `at` on.
pub fn set_checksum(data: &mut Vec<u8>, at: usize)
    requires
        at + 1 < old(data).len(),
    ensures
        final(data)@ == with_checksum(old(data)@, at as int),
{
    let sum: u16 = compute_checksum(data.as_slice());
    data[at] = (sum / 256) as u8;
    data[at + 1] = (sum % 256) as u8;
}

/// Bytes at an even place count for what they hold.
proof fn lemma_word_counts(data: Seq<u8>, at: int, hi: u8, lo: u8)
    requires
        0 <= at,
        at + 1 < data.len(),
        at % 2 == 0,
        data[at] == 0,
        data[at + 1] == 0,
    ensures
        word_sum(data.update(at, hi).update(at + 1, lo)) == word_sum(data) + hi as nat * 256
            + lo as nat,
    decreases data.len(),
{
    let changed = data.update(at, hi).update(at + 1, lo);
    if at == 0 {
        assert(changed.skip(2) =~= data.skip(2));
    } else {
        lemma_word_counts(data.skip(2), at - 2, hi, lo);
        assert(changed.skip(2) =~= data.skip(2).update(at - 2, hi).update(at - 1, lo));
    }
}

/// The sum of a frame of ordinary size fits 32 bits.
pub proof fn lemma_sum_bound(data: Seq<u8>)
    ensures
        word_sum(data) <= 0xffff * ((data.len() + 1) / 2),
    decreases data.len(),
{
    if data.len() > 1 {
        lemma_sum_bound(data.skip(2));
        assert((data.len() + 1) / 2 == (data.skip(2).len() + 1) / 2 + 1);
    }
}

/// Data that holds its checksum, in a place that held zero, has the checksum zero: this is
/// how the receiver tells that it arrived whole.
pub proof fn law_checksum_verifies(data: Seq<u8>, at: int)
    requires
        0 <= at,
        at + 1 < data.len() <= 0x2_0000,
        at % 2 == 0,
        data[at] == 0,
        data[at + 1] == 0,
    ensures
        checksum(with_checksum(data, at)) == 0,
{
    let n = word_sum(data);
    let f = ones_complement(n);
    lemma_sum_bound(data);
    assert(n % 0x1_0000_0000 == n);
    let sum = checksum(data);
    assert(sum == 0xffff - f);
    let hi = (sum / 256) as u8;
    let lo = (sum % 256) as u8;
    assert(hi as nat * 256 + lo as nat == sum);
    lemma_word_counts(data, at, hi, lo);
    let total = n + sum as nat;
    assert(total % 0x1_0000_0000 == total);
    if n > 0 {
        let q = (n - 1) / 0xffff;
        assert(n - 1 == 0xffff * q + (n - 1) % 0xffff);
        assert(total == 0xffff * (q + 1));
        assert((total - 1) % 0xffff == 0xfffe) by {
            vstd::arithmetic::div_mod::lemma_mod_multiples_vanish(q as int, 0xfffe, 0xffff);
        }
    }
    assert(ones_complement(total) == 0xffff);
}

} // verus!
