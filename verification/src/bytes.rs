//! Little-endian integers in byte sequences.

use vstd::arithmetic::div_mod::{lemma_mod_breakdown, lemma_small_mod};
use vstd::prelude::*;

verus! {

/// The number that `bytes` spells, least significant byte first.
pub open spec fn le_value(bytes: Seq<u8>) -> nat
    decreases bytes.len(),
{
    if bytes.len() == 0 {
        0
    } else {
        bytes[0] as nat + 256 * le_value(bytes.skip(1))
    }
}

/// The `n` low-order bytes of `value`, least significant byte first.
pub open spec fn le_bytes(value: nat, n: nat) -> Seq<u8>
    decreases n,
{
    if n == 0 {
        Seq::empty()
    } else {
        seq![(value % 256) as u8] + le_bytes(value / 256, (n - 1) as nat)
    }
}

/// 256 to the power `n`.
pub open spec fn pow256(n: nat) -> nat
    decreases n,
{
    if n == 0 {
        1
    } else {
        256 * pow256((n - 1) as nat)
    }
}

/// `target` with the bytes from `at` on replaced by `part`.
pub open spec fn splice(target: Seq<u8>, at: int, part: Seq<u8>) -> Seq<u8> {
    target.take(at) + part + target.skip(at + part.len())
}

pub proof fn lemma_pow256_values()
    ensures
        pow256(0) == 1,
        pow256(1) == 0x100,
        pow256(2) == 0x1_0000,
        pow256(4) == 0x1_0000_0000,
        pow256(8) == 0x1_0000_0000_0000_0000,
{
    reveal_with_fuel(pow256, 9);
}

pub proof fn lemma_pow256_monotonic(a: nat, b: nat)
    requires
        a <= b,
    ensures
        1 <= pow256(a) <= pow256(b),
    decreases b,
{
    if a < b {
        lemma_pow256_monotonic(a, (b - 1) as nat);
    } else if b > 0 {
        lemma_pow256_monotonic((a - 1) as nat, (b - 1) as nat);
    }
}

/// A number spelled by `n` bytes is below 256 to the power `n`.
pub proof fn lemma_le_value_bound(bytes: Seq<u8>)
    ensures
        le_value(bytes) < pow256(bytes.len()),
    decreases bytes.len(),
{
    if bytes.len() > 0 {
        lemma_le_value_bound(bytes.skip(1));
    }
}

pub proof fn lemma_le_bytes_len(value: nat, n: nat)
    ensures
        le_bytes(value, n).len() == n,
    decreases n,
{
    if n > 0 {
        lemma_le_bytes_len(value / 256, (n - 1) as nat);
    }
}

/// Spelling `value` in `n` bytes and reading the bytes gives back `value`
/// modulo 256 to the power `n`.
pub proof fn lemma_le_round_trip(value: nat, n: nat)
    ensures
        le_value(le_bytes(value, n)) == value % pow256(n),
    decreases n,
{
    if n > 0 {
        let rest = (n - 1) as nat;
        lemma_le_round_trip(value / 256, rest);
        lemma_le_bytes_len(value, n);
        assert(le_bytes(value, n).skip(1) =~= le_bytes(value / 256, rest));
        lemma_pow256_monotonic(0, rest);
        lemma_mod_breakdown(value as int, 256, pow256(rest) as int);
    }
}

/// Reading `n` bytes and spelling the number in `n` bytes gives back the bytes.
pub proof fn lemma_le_bytes_of_value(bytes: Seq<u8>)
    ensures
        le_bytes(le_value(bytes), bytes.len()) == bytes,
    decreases bytes.len(),
{
    if bytes.len() > 0 {
        lemma_le_bytes_of_value(bytes.skip(1));
        let rest = le_value(bytes.skip(1));
        assert((bytes[0] as nat + 256 * rest) % 256 == bytes[0] as nat);
        assert((bytes[0] as nat + 256 * rest) / 256 == rest);
        assert(seq![bytes[0]] + bytes.skip(1) =~= bytes);
    } else {
        assert(bytes =~= Seq::<u8>::empty());
    }
}

/// What `read_le` gives, as a `u64`.
pub open spec fn le_u64(bytes: Seq<u8>) -> u64 {
    le_value(bytes) as u64
}

/// Reads the `n` bytes of `data` from `at` on.
pub fn read_le(data: &[u8], at: usize, n: usize) -> (value: u64)
    requires
        n <= 8,
        at + n <= data.len(),
    ensures
        value == le_value(data@.subrange(at as int, at + n)),
{
    let mut value: u64 = 0;
    let mut i: usize = n;
    let ghost window = data@.subrange(at as int, at + n);
    while i > 0
        invariant
            i <= n <= 8,
            at + n <= data.len(),
            window == data@.subrange(at as int, at + n),
            value == le_value(window.skip(i as int)),
        decreases i,
    {
        i = i - 1;
        proof {
            assert(window.skip(i as int).skip(1) =~= window.skip(i + 1));
            lemma_le_value_bound(window.skip(i as int));
            lemma_pow256_monotonic((n - i) as nat, 8);
            lemma_pow256_values();
        }
        value = value * 256 + data[at + i] as u64;
    }
    assert(window.skip(0) =~= window);
    value
}

/// Writes the `n` low-order bytes of `value` over `data` from `at` on.
pub fn write_le(data: &mut Vec<u8>, at: usize, n: usize, value: u64)
    requires
        n <= 8,
        at + n <= old(data).len(),
    ensures
        final(data)@ == splice(old(data)@, at as int, le_bytes(value as nat, n as nat)),
{
    let mut rest: u64 = value;
    let mut i: usize = 0;
    let ghost before = data@;
    proof {
        lemma_le_bytes_len(value as nat, n as nat);
        assert(splice(before, at as int, le_bytes(value as nat, 0)) =~= before);
        assert(Seq::<u8>::empty() + le_bytes(value as nat, n as nat) =~= le_bytes(value as nat, n as nat));
    }
    let ghost mut done = Seq::<u8>::empty();
    while i < n
        invariant
            i <= n <= 8,
            at + n <= data.len(),
            data.len() == before.len(),
            done.len() == i,
            done + le_bytes(rest as nat, (n - i) as nat) == le_bytes(value as nat, n as nat),
            data@ == splice(before, at as int, done),
        decreases n - i,
    {
        let byte: u8 = (rest % 256) as u8;
        data[at + i] = byte;
        proof {
            let next = done.push(byte);
            assert(done + le_bytes(rest as nat, (n - i) as nat) =~= next + le_bytes(
                rest as nat / 256,
                (n - i - 1) as nat,
            ));
            assert(data@ =~= splice(before, at as int, next));
            done = next;
        }
        rest = rest / 256;
        i = i + 1;
    }
    assert(done + le_bytes(rest as nat, 0) =~= done);
}

/// The number that the `n` bytes from `at` on spell.
pub open spec fn number_at(data: Seq<u8>, at: int, n: int) -> u64 {
    le_u64(data.subrange(at, at + n))
}

/// That two byte sequences differ at most in the `n` bytes from `at` on.
pub open spec fn same_but(a: Seq<u8>, b: Seq<u8>, at: int, n: int) -> bool {
    &&& a.len() == b.len()
    &&& forall|k: int| 0 <= k < a.len() && !(at <= k < at + n) ==> a[k] == b[k]
}

/// A number is the same in sequences whose bytes agree there.
pub proof fn lemma_number_agrees(a: Seq<u8>, b: Seq<u8>, at: int, n: int)
    requires
        0 <= at,
        0 <= n,
        at + n <= a.len(),
        a.len() == b.len(),
        forall|k: int| at <= k < at + n ==> a[k] == b[k],
    ensures
        number_at(a, at, n) == number_at(b, at, n),
{
    assert(a.subrange(at, at + n) =~= b.subrange(at, at + n));
}

/// A number that was written over a run of bytes is read there, and the other bytes stay.
pub proof fn lemma_number_written(data: Seq<u8>, at: int, n: int, value: u64)
    requires
        0 <= at,
        0 <= n <= 8,
        at + n <= data.len(),
        value < pow256(n as nat),
    ensures
        number_at(splice(data, at, le_bytes(value as nat, n as nat)), at, n) == value,
        same_but(splice(data, at, le_bytes(value as nat, n as nat)), data, at, n),
{
    let part = le_bytes(value as nat, n as nat);
    lemma_le_bytes_len(value as nat, n as nat);
    lemma_le_round_trip(value as nat, n as nat);
    lemma_small_mod(value as nat, pow256(n as nat));
    assert(splice(data, at, part).subrange(at, at + n) =~= part);
}

/// Writes the `n` low-order bytes of `value`, which it fits, over `data` from `at` on.
pub fn put(data: &mut Vec<u8>, at: usize, n: usize, value: u64)
    requires
        n <= 8,
        at + n <= old(data).len(),
        value < pow256(n as nat),
    ensures
        final(data)@ == splice(old(data)@, at as int, le_bytes(value as nat, n as nat)),
        number_at(final(data)@, at as int, n as int) == value,
        same_but(final(data)@, old(data)@, at as int, n as int),
{
    proof {
        lemma_number_written(data@, at as int, n as int, value);
    }
    write_le(data, at, n, value);
}

} // verus!
