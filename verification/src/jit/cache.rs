//! Compiled blocks, kept until room is needed.

use lru::LruCache;
use std::collections::HashSet;
use std::num::NonZeroUsize;
use vstd::prelude::*;
use vstd::std_specs::hash::group_hash_axioms;

verus! {

/// A compiled block.
#[derive(Debug)]
pub struct JitFunction {
    pub wasm_bytes: Vec<u8>,
    pub wasm_size: usize,
    pub exec_count: u64,
    pub pc: u64,
    pub instruction_count: u32,
}

/// Counters of the cache. They wrap around.
#[derive(Debug, Clone, Copy)]
pub struct CacheStats {
    pub hits: u64,
    pub misses: u64,
    pub insertions: u64,
    pub evictions: u64,
    pub bytes_compiled: usize,
    pub invalidations: u64,
    pub blocks_compiled: u64,
    pub jit_instructions: u64,
    pub cache_hits: u64,
    pub cache_misses: u64,
}

/// All counters at zero.
pub open spec fn no_stats() -> CacheStats {
    CacheStats {
        hits: 0,
        misses: 0,
        insertions: 0,
        evictions: 0,
        bytes_compiled: 0,
        invalidations: 0,
        blocks_compiled: 0,
        jit_instructions: 0,
        cache_hits: 0,
        cache_misses: 0,
    }
}

/// The counters with those brought in line that go by two names.
pub open spec fn synced(s: CacheStats) -> CacheStats {
    CacheStats {
        cache_hits: s.hits,
        cache_misses: s.misses,
        blocks_compiled: s.insertions,
        ..s
    }
}

impl Default for CacheStats {
    fn default() -> (stats: Self)
        ensures
            stats == no_stats(),
    {
        Self {
            hits: 0,
            misses: 0,
            insertions: 0,
            evictions: 0,
            bytes_compiled: 0,
            invalidations: 0,
            blocks_compiled: 0,
            jit_instructions: 0,
            cache_hits: 0,
            cache_misses: 0,
        }
    }
}

impl CacheStats {
    fn sync_aliases(&mut self)
        ensures
            *final(self) == synced(*old(self)),
    {
        self.cache_hits = self.hits;
        self.cache_misses = self.misses;
        self.blocks_compiled = self.insertions;
    }
}

/// A compiled block under its address.
pub type Entry = (u64, JitFunction);

/// Whether a block is among the entries.
pub open spec fn has_key(s: Seq<Entry>, pc: u64) -> bool {
    exists|i: int| 0 <= i < s.len() && (#[trigger] s[i]).0 == pc
}

/// No block is there twice.
pub open spec fn unique_keys(s: Seq<Entry>) -> bool {
    forall|i: int, j: int|
        0 <= i < s.len() && 0 <= j < s.len() && (#[trigger] s[i]).0 == (#[trigger] s[j]).0 ==> i
            == j
}

/// The block at an address, which must be there.
pub open spec fn lookup(s: Seq<Entry>, pc: u64) -> JitFunction {
    let i = choose|i: int| 0 <= i < s.len() && (#[trigger] s[i]).0 == pc;
    s[i].1
}

/// The entries without those that `drops` picks, in the same order.
pub open spec fn without(s: Seq<Entry>, drops: spec_fn(u64) -> bool) -> Seq<Entry>
    decreases s.len(),
{
    if s.len() == 0 {
        s
    } else {
        let rest = without(s.drop_last(), drops);
        if drops(s.last().0) {
            rest
        } else {
            rest.push(s.last())
        }
    }
}

/// Picks one address.
pub open spec fn at(pc: u64) -> spec_fn(u64) -> bool {
    |k: u64| k == pc
}

/// Picks the addresses of a range.
pub open spec fn within(start: u64, end: u64) -> spec_fn(u64) -> bool {
    |k: u64| start <= k < end
}

pub open spec fn without_key(s: Seq<Entry>, pc: u64) -> Seq<Entry> {
    without(s, at(pc))
}

/// The entries with one in front, whatever was there under its address.
pub open spec fn in_front(s: Seq<Entry>, pc: u64, func: JitFunction) -> Seq<Entry> {
    seq![(pc, func)] + without_key(s, pc)
}

/// The entries after `put`: the new one comes in front, and where there is no room for
/// it, the last one leaves.
pub open spec fn with_entry(s: Seq<Entry>, cap: nat, pc: u64, func: JitFunction) -> Seq<Entry> {
    if has_key(s, pc) {
        in_front(s, pc, func)
    } else if s.len() == cap {
        seq![(pc, func)] + s.drop_last()
    } else {
        seq![(pc, func)] + s
    }
}

/// The bytes of all entries together.
pub open spec fn total_size(s: Seq<Entry>) -> nat
    decreases s.len(),
{
    if s.len() == 0 {
        0
    } else {
        total_size(s.drop_last()) + s.last().1.wasm_size as nat
    }
}

/// `a` less `b`, or zero.
pub open spec fn less(a: usize, b: usize) -> usize {
    if a < b {
        0
    } else {
        (a - b) as usize
    }
}

/// The entries, the byte count and the eviction counter after dropping entries from the
/// end until `size` more bytes fit under `limit`, or none is left.
pub open spec fn evicted(s: Seq<Entry>, bytes: usize, count: u64, size: usize, limit: usize) -> (
    Seq<Entry>,
    usize,
    u64,
)
    decreases s.len(),
{
    if bytes + size > limit && s.len() > 0 {
        evicted(
            s.drop_last(),
            less(bytes, s.last().1.wasm_size),
            count.wrapping_add(1),
            size,
            limit,
        )
    } else {
        (s, bytes, count)
    }
}

/// The entries, the byte count and the eviction counter after dropping entries from the
/// end until at most `room` are left.
pub open spec fn trimmed(s: Seq<Entry>, bytes: usize, count: u64, room: nat) -> (
    Seq<Entry>,
    usize,
    u64,
)
    decreases s.len(),
{
    if s.len() > room {
        trimmed(s.drop_last(), less(bytes, s.last().1.wasm_size), count.wrapping_add(1), room)
    } else {
        (s, bytes, count)
    }
}

/// The byte count after taking out the block at an address, where there is one.
pub open spec fn bytes_without(s: Seq<Entry>, bytes: usize, pc: u64) -> usize {
    if has_key(s, pc) {
        less(bytes, lookup(s, pc).wasm_size)
    } else {
        bytes
    }
}

// The entries of the outside cache, most recently used first.

#[verifier::external_type_specification]
#[verifier::external_body]
#[verifier::reject_recursive_types(K)]
#[verifier::reject_recursive_types(V)]
#[verifier::reject_recursive_types(S)]
pub struct ExLruCache<K, V, S>(lru::LruCache<K, V, S>);

/// The hasher that `LruCache` uses unless another is named.
#[verifier::external_type_specification]
#[verifier::external_body]
pub struct ExDefaultHasher(lru::DefaultHasher);

/// The entries, most recently used first.
pub uninterp spec fn lru_entries(c: LruCache<u64, JitFunction>) -> Seq<Entry>;

/// How many entries there can be.
pub uninterp spec fn lru_cap(c: LruCache<u64, JitFunction>) -> nat;

/// `LruCache::new` makes an empty cache. It reserves room for all entries at once.
#[verifier::external_body]
fn lru_new(cap: usize) -> (c: LruCache<u64, JitFunction>)
    requires
        0 < cap <= usize::MAX / 128,
    ensures
        lru_entries(c) == Seq::<Entry>::empty(),
        lru_cap(c) == cap,
{
    LruCache::new(NonZeroUsize::new(cap).unwrap())
}

/// `LruCache::put` puts an entry in front. It replaces the value of an entry that is
/// there, and drops the last entry where the cache is full.
#[verifier::external_body]
fn lru_put(c: &mut LruCache<u64, JitFunction>, pc: u64, func: JitFunction)
    ensures
        lru_entries(*final(c)) == with_entry(lru_entries(*old(c)), lru_cap(*old(c)), pc, func),
        lru_cap(*final(c)) == lru_cap(*old(c)),
{
    c.put(pc, func);
}

/// `LruCache::pop` takes an entry out and leaves the order of the others.
#[verifier::external_body]
fn lru_pop(c: &mut LruCache<u64, JitFunction>, pc: u64) -> (r: Option<JitFunction>)
    ensures
        lru_entries(*final(c)) == without_key(lru_entries(*old(c)), pc),
        lru_cap(*final(c)) == lru_cap(*old(c)),
        r == if has_key(lru_entries(*old(c)), pc) {
            Some(lookup(lru_entries(*old(c)), pc))
        } else {
            None
        },
{
    c.pop(&pc)
}

/// `LruCache::pop_lru` takes the last entry out.
#[verifier::external_body]
fn lru_pop_lru(c: &mut LruCache<u64, JitFunction>) -> (r: Option<Entry>)
    ensures
        lru_cap(*final(c)) == lru_cap(*old(c)),
        lru_entries(*old(c)).len() == 0 ==> r is None && lru_entries(*final(c)) == lru_entries(
            *old(c),
        ),
        lru_entries(*old(c)).len() > 0 ==> r == Some(lru_entries(*old(c)).last()) && lru_entries(
            *final(c),
        ) == lru_entries(*old(c)).drop_last(),
{
    c.pop_lru()
}

/// `LruCache::get` gives the value of an entry and moves the entry to the front.
#[verifier::external_body]
fn lru_get(c: &mut LruCache<u64, JitFunction>, pc: u64) -> (r: Option<&JitFunction>)
    ensures
        lru_cap(*final(c)) == lru_cap(*old(c)),
        match r {
            Some(func) => has_key(lru_entries(*old(c)), pc) && *func == lookup(
                lru_entries(*old(c)),
                pc,
            ) && lru_entries(*final(c)) == in_front(lru_entries(*old(c)), pc, *func),
            None => !has_key(lru_entries(*old(c)), pc) && lru_entries(*final(c)) == lru_entries(
                *old(c),
            ),
        },
{
    c.get(&pc)
}

/// `LruCache::get_mut` gives the value of an entry to be changed, and moves the entry to
/// the front.
#[verifier::external_body]
fn lru_get_mut(c: &mut LruCache<u64, JitFunction>, pc: u64) -> (r: Option<&mut JitFunction>)
    ensures
        lru_cap(*final(c)) == lru_cap(*old(c)),
        match r {
            Some(func) => has_key(lru_entries(*old(c)), pc) && *func == lookup(
                lru_entries(*old(c)),
                pc,
            ) && lru_entries(*final(c)) == in_front(lru_entries(*old(c)), pc, *final(func)),
            None => !has_key(lru_entries(*old(c)), pc) && lru_entries(*final(c)) == lru_entries(
                *old(c),
            ),
        },
{
    c.get_mut(&pc)
}

/// `LruCache::peek` gives the value of an entry and leaves the order.
#[verifier::external_body]
fn lru_peek(c: &LruCache<u64, JitFunction>, pc: u64) -> (r: Option<&JitFunction>)
    ensures
        r == if has_key(lru_entries(*c), pc) {
            Some(&lookup(lru_entries(*c), pc))
        } else {
            None
        },
{
    c.peek(&pc)
}

/// `LruCache::contains` tells whether an entry is there, and leaves the order.
#[verifier::external_body]
fn lru_contains(c: &LruCache<u64, JitFunction>, pc: u64) -> (b: bool)
    ensures
        b == has_key(lru_entries(*c), pc),
{
    c.contains(&pc)
}

/// `LruCache::len` counts the entries.
#[verifier::external_body]
fn lru_len(c: &LruCache<u64, JitFunction>) -> (n: usize)
    ensures
        n == lru_entries(*c).len(),
{
    c.len()
}

/// `LruCache::cap` tells how many entries there can be.
#[verifier::external_body]
fn lru_capacity(c: &LruCache<u64, JitFunction>) -> (n: usize)
    ensures
        n == lru_cap(*c),
{
    c.cap().get()
}

/// `LruCache::clear` drops all entries.
#[verifier::external_body]
fn lru_clear(c: &mut LruCache<u64, JitFunction>)
    ensures
        lru_entries(*final(c)) == Seq::<Entry>::empty(),
        lru_cap(*final(c)) == lru_cap(*old(c)),
{
    c.clear();
}

/// `LruCache::resize` sets how many entries there can be, and drops entries from the end
/// until that many are left.
#[verifier::external_body]
fn lru_resize(c: &mut LruCache<u64, JitFunction>, cap: usize)
    requires
        cap > 0,
        lru_entries(*old(c)).len() <= lru_cap(*old(c)),
    ensures
        lru_cap(*final(c)) == cap,
        lru_entries(*final(c)) == if lru_entries(*old(c)).len() <= cap {
            lru_entries(*old(c))
        } else {
            lru_entries(*old(c)).take(cap as int)
        },
{
    c.resize(NonZeroUsize::new(cap).unwrap());
}

/// `LruCache::iter` hands the entries out, most recently used first.
#[verifier::external_body]
fn lru_iter(c: &LruCache<u64, JitFunction>) -> (r: Vec<(&u64, &JitFunction)>)
    ensures
        r@.len() == lru_entries(*c).len(),
        forall|i: int|
            0 <= i < r@.len() ==> *(#[trigger] r@[i]).0 == lru_entries(*c)[i].0 && *r@[i].1
                == lru_entries(*c)[i].1,
{
    c.iter().collect()
}

/// What the cache holds.
#[verifier::ext_equal]
pub struct CacheState {
    /// Most recently used first.
    pub entries: Seq<Entry>,
    /// How many entries there can be.
    pub cap: nat,
    pub max_bytes: usize,
    /// The byte count.
    pub bytes: usize,
    pub stats: CacheStats,
    pub generation: u32,
    pub compiling: Set<u64>,
    pub blacklisted: Set<u64>,
}

/// Compiled blocks, the least recently used of which leave first.
pub struct JitCache {
    functions: LruCache<u64, JitFunction>,
    max_bytes: usize,
    current_bytes: usize,
    stats: CacheStats,
    pub generation: u32,
    compiling: HashSet<u64>,
    blacklisted: HashSet<u64>,
}

impl View for JitCache {
    type V = CacheState;

    closed spec fn view(&self) -> CacheState {
        CacheState {
            entries: lru_entries(self.functions),
            cap: lru_cap(self.functions),
            max_bytes: self.max_bytes,
            bytes: self.current_bytes,
            stats: self.stats,
            generation: self.generation,
            compiling: self.compiling@,
            blacklisted: self.blacklisted@,
        }
    }
}

impl CacheState {
    /// There is room for at least one entry, no more entries than there is room for, and
    /// none of them twice.
    pub open spec fn wf(self) -> bool {
        &&& 0 < self.cap
        &&& self.entries.len() <= self.cap
        &&& unique_keys(self.entries)
    }

    /// The byte count is that of the entries.
    pub open spec fn counts_all_bytes(self) -> bool {
        self.bytes == total_size(self.entries)
    }
}

/// The cache after `insert`: entries leave from the end until the bytes of the new one
/// fit, the one it replaces leaves, and then the last one where there is no room.
pub open spec fn inserted(s: CacheState, pc: u64, func: JitFunction) -> CacheState {
    let (kept, fitting, dropped) = evicted(
        s.entries,
        s.bytes,
        s.stats.evictions,
        func.wasm_size,
        s.max_bytes,
    );
    let (others, bytes, evictions) = trimmed(
        without_key(kept, pc),
        bytes_without(kept, fitting, pc),
        dropped,
        (s.cap - 1) as nat,
    );
    CacheState {
        entries: seq![(pc, func)] + others,
        bytes: (bytes + func.wasm_size) as usize,
        stats: synced(
            CacheStats {
                evictions,
                insertions: s.stats.insertions.wrapping_add(1),
                bytes_compiled: s.stats.bytes_compiled.wrapping_add(func.wasm_size),
                ..s.stats
            },
        ),
        compiling: s.compiling.remove(pc),
        ..s
    }
}

/// The cache after a block was asked for: a hit moves it to the front.
pub open spec fn touched(s: CacheState, pc: u64) -> CacheState {
    if has_key(s.entries, pc) {
        CacheState {
            entries: in_front(s.entries, pc, lookup(s.entries, pc)),
            stats: synced(CacheStats { hits: s.stats.hits.wrapping_add(1), ..s.stats }),
            ..s
        }
    } else {
        CacheState {
            stats: synced(CacheStats { misses: s.stats.misses.wrapping_add(1), ..s.stats }),
            ..s
        }
    }
}

/// The cache after a block was thrown out, where it was there.
pub open spec fn invalidated(s: CacheState, pc: u64) -> CacheState {
    if has_key(s.entries, pc) {
        CacheState {
            entries: without_key(s.entries, pc),
            bytes: bytes_without(s.entries, s.bytes, pc),
            stats: CacheStats {
                invalidations: s.stats.invalidations.wrapping_add(1),
                ..s.stats
            },
            ..s
        }
    } else {
        s
    }
}

/// The cache after the first `n` of the given blocks were thrown out in turn.
pub open spec fn all_invalidated(s: CacheState, pcs: Seq<u64>, n: nat) -> CacheState
    decreases n,
{
    if n == 0 {
        s
    } else {
        invalidated(all_invalidated(s, pcs, (n - 1) as nat), pcs[n - 1])
    }
}

/// The addresses of the entries in a range, most recently used first.
pub open spec fn keys_in_range(s: Seq<Entry>, start: u64, end: u64) -> Seq<u64>
    decreases s.len(),
{
    if s.len() == 0 {
        Seq::empty()
    } else {
        let rest = keys_in_range(s.drop_last(), start, end);
        if start <= s.last().0 < end {
            rest.push(s.last().0)
        } else {
            rest
        }
    }
}

/// The cache without entries and without marks of running compilations.
pub open spec fn cleared(s: CacheState) -> CacheState {
    CacheState {
        entries: Seq::empty(),
        bytes: 0,
        stats: CacheStats {
            invalidations: s.stats.invalidations.wrapping_add(s.entries.len() as u64),
            ..s.stats
        },
        compiling: Set::empty(),
        ..s
    }
}

/// The cache with new limits: the byte limit drops entries from the end and counts
/// them as evictions, and then so does the entry limit. An entry limit of 0 is none.
pub open spec fn resized(s: CacheState, max_entries: usize, max_bytes: usize) -> CacheState {
    let (kept, fitting, dropped) = evicted(
        s.entries,
        s.bytes,
        s.stats.evictions,
        0,
        max_bytes,
    );
    let (entries, bytes, evictions) = if max_entries == 0 {
        (kept, fitting, dropped)
    } else {
        trimmed(kept, fitting, dropped, max_entries as nat)
    };
    CacheState {
        entries,
        cap: if max_entries == 0 {
            s.cap
        } else {
            max_entries as nat
        },
        max_bytes,
        bytes,
        stats: CacheStats { evictions, ..s.stats },
        ..s
    }
}

// What the operations on entries keep.

/// What leaving entries out does: the kept keys are those of the entries that are not
/// dropped, with their values.
pub proof fn lemma_without(s: Seq<Entry>, drops: spec_fn(u64) -> bool)
    requires
        unique_keys(s),
    ensures
        unique_keys(without(s, drops)),
        without(s, drops).len() <= s.len(),
        forall|k: u64| #[trigger]
            has_key(without(s, drops), k) <==> has_key(s, k) && !drops(k),
        forall|k: u64|
            has_key(s, k) && !drops(k) ==> #[trigger] lookup(without(s, drops), k) == lookup(s, k),
        (forall|k: u64| #[trigger] has_key(s, k) ==> !drops(k)) ==> without(s, drops) == s,
    decreases s.len(),
{
    let w = without(s, drops);
    if s.len() > 0 {
        let t = s.drop_last();
        let last = s.last();
        assert(unique_keys(t)) by {
            assert forall|i: int, j: int|
                0 <= i < t.len() && 0 <= j < t.len() && (#[trigger] t[i]).0 == (
                #[trigger] t[j]).0 implies i == j by {
                assert(s[i].0 == s[j].0);
            }
        }
        lemma_without(t, drops);
        let rest = without(t, drops);
        assert(forall|k: u64| has_key(s, k) <==> has_key(t, k) || k == last.0) by {
            assert forall|k: u64| has_key(s, k) <==> has_key(t, k) || k == last.0 by {
                lemma_has_key_push(t, last, k);
                assert(t.push(last) =~= s);
            }
        }
        assert(!has_key(t, last.0)) by {
            if has_key(t, last.0) {
                let i = choose|i: int| 0 <= i < t.len() && (#[trigger] t[i]).0 == last.0;
                assert(s[i].0 == s[s.len() - 1].0);
            }
        }
        assert(!has_key(rest, last.0));
        if !drops(last.0) {
            assert forall|k: u64| #[trigger] has_key(w, k) <==> has_key(s, k) && !drops(k) by {
                lemma_has_key_push(rest, last, k);
            }
            assert(unique_keys(w)) by {
                assert forall|i: int, j: int|
                    0 <= i < w.len() && 0 <= j < w.len() && (#[trigger] w[i]).0 == (
                    #[trigger] w[j]).0 implies i == j by {
                    if i < rest.len() && j < rest.len() {
                        assert(rest[i].0 == rest[j].0);
                    } else if i < rest.len() {
                        assert(rest[i].0 == last.0);
                    } else if j < rest.len() {
                        assert(rest[j].0 == last.0);
                    }
                }
            }
        }
        assert forall|k: u64| has_key(s, k) && !drops(k) implies #[trigger] lookup(w, k) == lookup(
            s,
            k,
        ) by {
            assert(has_key(w, k));
            lemma_lookup(s, k);
            lemma_lookup(w, k);
            if k == last.0 {
                assert(w[w.len() - 1].0 == k);
                assert(s[s.len() - 1].0 == k);
            } else {
                assert(has_key(t, k));
                assert(has_key(rest, k));
                lemma_lookup(t, k);
                lemma_lookup(rest, k);
                let i = choose|i: int| 0 <= i < t.len() && (#[trigger] t[i]).0 == k;
                assert(s[i].0 == k);
                let j = choose|j: int| 0 <= j < rest.len() && (#[trigger] rest[j]).0 == k;
                assert(w[j].0 == k);
            }
        }
        if forall|k: u64| #[trigger] has_key(s, k) ==> !drops(k) {
            assert(has_key(s, last.0));
            assert forall|k: u64| #[trigger] has_key(t, k) implies !drops(k) by {
                assert(has_key(s, k));
            }
            assert(w =~= s);
        }
    }
}

/// Appending an entry adds its key.
pub proof fn lemma_has_key_push(s: Seq<Entry>, e: Entry, k: u64)
    ensures
        has_key(s.push(e), k) <==> has_key(s, k) || k == e.0,
{
    let t = s.push(e);
    if has_key(s, k) {
        let i = choose|i: int| 0 <= i < s.len() && (#[trigger] s[i]).0 == k;
        assert(t[i].0 == k);
    }
    if k == e.0 {
        assert(t[s.len() as int].0 == k);
    }
    if has_key(t, k) {
        let i = choose|i: int| 0 <= i < t.len() && (#[trigger] t[i]).0 == k;
        if i < s.len() {
            assert(s[i].0 == k);
        }
    }
}

/// `lookup` gives the value of the one entry with the key.
pub proof fn lemma_lookup(s: Seq<Entry>, k: u64)
    requires
        unique_keys(s),
    ensures
        forall|i: int| 0 <= i < s.len() && (#[trigger] s[i]).0 == k ==> lookup(s, k) == s[i].1,
{
}

/// Putting an entry in front adds its key and keeps the others.
pub proof fn lemma_front(s: Seq<Entry>, pc: u64, func: JitFunction)
    requires
        unique_keys(s),
        !has_key(s, pc),
    ensures
        unique_keys(seq![(pc, func)] + s),
        forall|k: u64| #[trigger]
            has_key(seq![(pc, func)] + s, k) <==> has_key(s, k) || k == pc,
        lookup(seq![(pc, func)] + s, pc) == func,
        forall|k: u64|
            has_key(s, k) ==> #[trigger] lookup(seq![(pc, func)] + s, k) == lookup(s, k),
{
    let t = seq![(pc, func)] + s;
    assert forall|i: int, j: int|
        0 <= i < t.len() && 0 <= j < t.len() && (#[trigger] t[i]).0 == (
        #[trigger] t[j]).0 implies i == j by {
        if i > 0 && j > 0 {
            assert(s[i - 1].0 == s[j - 1].0);
        } else if i > 0 {
            assert(s[i - 1].0 == pc);
        } else if j > 0 {
            assert(s[j - 1].0 == pc);
        }
    }
    assert forall|k: u64| #[trigger] has_key(t, k) <==> has_key(s, k) || k == pc by {
        if has_key(s, k) {
            let i = choose|i: int| 0 <= i < s.len() && (#[trigger] s[i]).0 == k;
            assert(t[i + 1].0 == k);
        }
        if k == pc {
            assert(t[0].0 == k);
        }
        if has_key(t, k) {
            let i = choose|i: int| 0 <= i < t.len() && (#[trigger] t[i]).0 == k;
            if i > 0 {
                assert(s[i - 1].0 == k);
            }
        }
    }
    assert(t[0].0 == pc);
    assert forall|k: u64| has_key(s, k) implies #[trigger] lookup(t, k) == lookup(s, k) by {
        let i = choose|i: int| 0 <= i < s.len() && (#[trigger] s[i]).0 == k;
        assert(t[i + 1].0 == k);
    }
}

/// A shorter run of entries has no key twice either.
pub proof fn lemma_take(s: Seq<Entry>, n: int)
    requires
        unique_keys(s),
        0 <= n <= s.len(),
    ensures
        unique_keys(s.take(n)),
        forall|k: u64| #[trigger] has_key(s.take(n), k) ==> has_key(s, k),
{
    let t = s.take(n);
    assert forall|i: int, j: int|
        0 <= i < t.len() && 0 <= j < t.len() && (#[trigger] t[i]).0 == (
        #[trigger] t[j]).0 implies i == j by {
        assert(s[i].0 == s[j].0);
    }
    assert forall|k: u64| #[trigger] has_key(t, k) implies has_key(s, k) by {
        let i = choose|i: int| 0 <= i < t.len() && (#[trigger] t[i]).0 == k;
        assert(s[i].0 == k);
    }
}

/// Evicting leaves the entries at the front.
pub proof fn lemma_evicted(s: Seq<Entry>, bytes: usize, count: u64, size: usize, limit: usize)
    ensures
        evicted(s, bytes, count, size, limit).0.len() <= s.len(),
        evicted(s, bytes, count, size, limit).0 == s.take(
            evicted(s, bytes, count, size, limit).0.len() as int,
        ),
        evicted(s, bytes, count, size, limit).1 <= bytes,
        evicted(s, bytes, count, size, limit).1 + size <= limit || evicted(
            s,
            bytes,
            count,
            size,
            limit,
        ).0.len() == 0,
        total_size(s) == bytes ==> total_size(evicted(s, bytes, count, size, limit).0) == evicted(
            s,
            bytes,
            count,
            size,
            limit,
        ).1,
    decreases s.len(),
{
    if bytes + size > limit && s.len() > 0 {
        let t = s.drop_last();
        lemma_evicted(t, less(bytes, s.last().1.wasm_size), count.wrapping_add(1), size, limit);
        let r = evicted(s, bytes, count, size, limit).0;
        assert(t.take(r.len() as int) =~= s.take(r.len() as int));
    } else {
        assert(s.take(s.len() as int) =~= s);
    }
}

/// Trimming leaves the entries at the front, as many as there is room for.
pub proof fn lemma_trimmed(s: Seq<Entry>, bytes: usize, count: u64, room: nat)
    ensures
        trimmed(s, bytes, count, room).0 == s.take(
            if s.len() <= room {
                s.len() as int
            } else {
                room as int
            },
        ),
        trimmed(s, bytes, count, room).1 <= bytes,
        total_size(s) == bytes ==> total_size(trimmed(s, bytes, count, room).0) == trimmed(
            s,
            bytes,
            count,
            room,
        ).1,
    decreases s.len(),
{
    if s.len() > room {
        let t = s.drop_last();
        lemma_trimmed(t, less(bytes, s.last().1.wasm_size), count.wrapping_add(1), room);
        assert(trimmed(s, bytes, count, room).0 =~= s.take(room as int));
    } else {
        assert(s.take(s.len() as int) =~= s);
    }
}

/// What `put` keeps.
pub proof fn lemma_with_entry(s: Seq<Entry>, cap: nat, pc: u64, func: JitFunction)
    requires
        unique_keys(s),
        s.len() <= cap,
        0 < cap,
    ensures
        unique_keys(with_entry(s, cap, pc, func)),
        with_entry(s, cap, pc, func).len() <= cap,
        has_key(with_entry(s, cap, pc, func), pc),
        lookup(with_entry(s, cap, pc, func), pc) == func,
        with_entry(s, cap, pc, func)[0] == (pc, func),
{
    if has_key(s, pc) {
        lemma_without(s, at(pc));
        lemma_without_key_len(s, pc);
        lemma_front(without_key(s, pc), pc, func);
    } else if s.len() == cap {
        assert(s.drop_last() =~= s.take(s.len() - 1));
        lemma_take(s, s.len() - 1);
        lemma_front(s.drop_last(), pc, func);
    } else {
        lemma_front(s, pc, func);
    }
}

/// Leaving out a key that is there leaves one entry fewer.
pub proof fn lemma_without_key_len(s: Seq<Entry>, pc: u64)
    requires
        unique_keys(s),
    ensures
        without_key(s, pc).len() == s.len() - if has_key(s, pc) {
            1int
        } else {
            0
        },
    decreases s.len(),
{
    if s.len() > 0 {
        let t = s.drop_last();
        assert(t =~= s.take(s.len() - 1));
        lemma_take(s, s.len() - 1);
        lemma_without_key_len(t, pc);
        lemma_has_key_push(t, s.last(), pc);
        assert(t.push(s.last()) =~= s);
        if s.last().0 == pc && has_key(t, pc) {
            let i = choose|i: int| 0 <= i < t.len() && (#[trigger] t[i]).0 == pc;
            assert(s[i].0 == s[s.len() - 1].0);
        }
    }
}

/// The bytes of the entries that are left are those of all entries less those of the
/// entry that was taken out.
pub proof fn lemma_total_without(s: Seq<Entry>, pc: u64)
    requires
        unique_keys(s),
    ensures
        total_size(without_key(s, pc)) == total_size(s) - if has_key(s, pc) {
            lookup(s, pc).wasm_size as int
        } else {
            0
        },
    decreases s.len(),
{
    if s.len() > 0 {
        let t = s.drop_last();
        assert(t =~= s.take(s.len() - 1));
        lemma_take(s, s.len() - 1);
        lemma_total_without(t, pc);
        lemma_has_key_push(t, s.last(), pc);
        assert(t.push(s.last()) =~= s);
        lemma_lookup(s, pc);
        lemma_lookup(t, pc);
        if s.last().0 == pc {
            assert(s[s.len() - 1].0 == pc);
            if has_key(t, pc) {
                let i = choose|i: int| 0 <= i < t.len() && (#[trigger] t[i]).0 == pc;
                assert(s[i].0 == s[s.len() - 1].0);
            }
            assert(without_key(s, pc) == without_key(t, pc));
        } else {
            let w = without_key(t, pc);
            assert(without_key(s, pc) == w.push(s.last()));
            assert(w.push(s.last()).drop_last() =~= w);
            if has_key(t, pc) {
                let i = choose|i: int| 0 <= i < t.len() && (#[trigger] t[i]).0 == pc;
                assert(s[i].0 == pc);
            }
        }
    }
}

/// An entry in front adds its bytes.
pub proof fn lemma_total_front(s: Seq<Entry>, e: Entry)
    ensures
        total_size(seq![e] + s) == total_size(s) + e.1.wasm_size,
    decreases s.len(),
{
    let t = seq![e] + s;
    if s.len() > 0 {
        lemma_total_front(s.drop_last(), e);
        assert(t.drop_last() =~= seq![e] + s.drop_last());
    } else {
        assert(t.drop_last() =~= Seq::<Entry>::empty());
        assert(t.last() == e);
        assert(s =~= Seq::<Entry>::empty());
        assert(total_size(t.drop_last()) == 0);
    }
}

impl JitCache {
    /// An empty cache for at most `max_entries` blocks, or one where that is 0, and
    /// `max_bytes` bytes.
    pub fn new(max_entries: usize, max_bytes: usize) -> (cache: Self)
        requires
            max_entries <= usize::MAX / 128,
        ensures
            cache@ == (CacheState {
                entries: Seq::empty(),
                cap: if max_entries == 0 {
                    1
                } else {
                    max_entries as nat
                },
                max_bytes,
                bytes: 0,
                stats: no_stats(),
                generation: 0,
                compiling: Set::empty(),
                blacklisted: Set::empty(),
            }),
            cache@.wf(),
            cache@.counts_all_bytes(),
    {
        broadcast use group_hash_axioms;

        let cap: usize = if max_entries == 0 {
            1
        } else {
            max_entries
        };
        Self {
            functions: lru_new(cap),
            max_bytes,
            current_bytes: 0,
            stats: CacheStats::default(),
            generation: 0,
            compiling: HashSet::new(),
            blacklisted: HashSet::new(),
        }
    }

    /// An empty cache for at most `max_entries` blocks and 16 MiB.
    pub fn with_max_entries(max_entries: usize) -> (cache: Self)
        requires
            max_entries <= usize::MAX / 128,
        ensures
            cache@ == (CacheState {
                entries: Seq::empty(),
                cap: if max_entries == 0 {
                    1
                } else {
                    max_entries as nat
                },
                max_bytes: 0x100_0000,
                bytes: 0,
                stats: no_stats(),
                generation: 0,
                compiling: Set::empty(),
                blacklisted: Set::empty(),
            }),
            cache@.wf(),
            cache@.counts_all_bytes(),
    {
        Self::new(max_entries, 16 * 1024 * 1024)
    }

    /// Drops entries from the end until `size` more bytes fit, or none is left.
    fn evict(&mut self, size: usize)
        requires
            old(self)@.wf(),
            old(self)@.bytes + size <= usize::MAX,
        ensures
            ({
                let (kept, bytes, evictions) = evicted(
                    old(self)@.entries,
                    old(self)@.bytes,
                    old(self)@.stats.evictions,
                    size,
                    old(self)@.max_bytes,
                );
                final(self)@ == (CacheState {
                    entries: kept,
                    bytes,
                    stats: CacheStats { evictions, ..old(self)@.stats },
                    ..old(self)@
                })
            }),
            final(self)@.wf(),
    {
        let ghost whole = evicted(
            self@.entries,
            self@.bytes,
            self@.stats.evictions,
            size,
            self@.max_bytes,
        );
        while self.current_bytes + size > self.max_bytes && lru_len(&self.functions) > 0
            invariant
                self@.wf(),
                self@.bytes <= old(self)@.bytes,
                old(self)@.bytes + size <= usize::MAX,
                whole == evicted(
                    self@.entries,
                    self@.bytes,
                    self@.stats.evictions,
                    size,
                    self@.max_bytes,
                ),
                whole == evicted(
                    old(self)@.entries,
                    old(self)@.bytes,
                    old(self)@.stats.evictions,
                    size,
                    old(self)@.max_bytes,
                ),
                self@ == (CacheState {
                    entries: self@.entries,
                    bytes: self@.bytes,
                    stats: CacheStats { evictions: self@.stats.evictions, ..old(self)@.stats },
                    ..old(self)@
                }),
            decreases self@.entries.len(),
        {
            proof {
                lemma_take(self@.entries, self@.entries.len() - 1);
                assert(self@.entries.drop_last() =~= self@.entries.take(self@.entries.len() - 1));
            }
            if let Some((_, out)) = lru_pop_lru(&mut self.functions) {
                self.current_bytes = self.current_bytes.saturating_sub(out.wasm_size);
                self.stats.evictions = self.stats.evictions.wrapping_add(1);
            }
        }
    }

    /// Drops entries from the end until at most `room` are left.
    fn trim(&mut self, room: usize)
        requires
            old(self)@.wf(),
        ensures
            ({
                let (kept, bytes, evictions) = trimmed(
                    old(self)@.entries,
                    old(self)@.bytes,
                    old(self)@.stats.evictions,
                    room as nat,
                );
                final(self)@ == (CacheState {
                    entries: kept,
                    bytes,
                    stats: CacheStats { evictions, ..old(self)@.stats },
                    ..old(self)@
                })
            }),
            final(self)@.wf(),
    {
        let ghost whole = trimmed(self@.entries, self@.bytes, self@.stats.evictions, room as nat);
        while lru_len(&self.functions) > room
            invariant
                self@.wf(),
                whole == trimmed(
                    self@.entries,
                    self@.bytes,
                    self@.stats.evictions,
                    room as nat,
                ),
                whole == trimmed(
                    old(self)@.entries,
                    old(self)@.bytes,
                    old(self)@.stats.evictions,
                    room as nat,
                ),
                self@ == (CacheState {
                    entries: self@.entries,
                    bytes: self@.bytes,
                    stats: CacheStats { evictions: self@.stats.evictions, ..old(self)@.stats },
                    ..old(self)@
                }),
            decreases self@.entries.len(),
        {
            proof {
                lemma_take(self@.entries, self@.entries.len() - 1);
                assert(self@.entries.drop_last() =~= self@.entries.take(self@.entries.len() - 1));
            }
            if let Some((_, out)) = lru_pop_lru(&mut self.functions) {
                self.current_bytes = self.current_bytes.saturating_sub(out.wasm_size);
                self.stats.evictions = self.stats.evictions.wrapping_add(1);
            }
        }
    }

    /// Adds a compiled block. Blocks leave from the end of the cache until it fits, and one
    /// that was there under its address is replaced.
    pub fn insert(&mut self, pc: u64, func: JitFunction)
        requires
            old(self)@.wf(),
            old(self)@.bytes + func.wasm_size <= usize::MAX,
        ensures
            final(self)@ == inserted(old(self)@, pc, func),
            final(self)@.wf(),
            old(self)@.counts_all_bytes() ==> final(self)@.counts_all_bytes(),
    {
        broadcast use group_hash_axioms;

        let wasm_size: usize = func.wasm_size;
        self.evict(wasm_size);
        let ghost kept = self@;
        proof {
            lemma_evicted(
                old(self)@.entries,
                old(self)@.bytes,
                old(self)@.stats.evictions,
                wasm_size,
                old(self)@.max_bytes,
            );
            lemma_without(kept.entries, at(pc));
            lemma_total_without(kept.entries, pc);
        }
        if let Some(out) = lru_pop(&mut self.functions, pc) {
            self.current_bytes = self.current_bytes.saturating_sub(out.wasm_size);
        }
        self.compiling.remove(&pc);
        let ghost left = self@;
        let room: usize = lru_capacity(&self.functions) - 1;
        self.trim(room);
        proof {
            let others = self@.entries;
            lemma_trimmed(left.entries, left.bytes, left.stats.evictions, room as nat);
            lemma_take(left.entries, others.len() as int);
            lemma_with_entry(others, kept.cap, pc, func);
            lemma_total_front(others, (pc, func));
        }
        lru_put(&mut self.functions, pc, func);
        self.current_bytes = self.current_bytes + wasm_size;
        self.stats.insertions = self.stats.insertions.wrapping_add(1);
        self.stats.bytes_compiled = self.stats.bytes_compiled.wrapping_add(wasm_size);
        self.stats.sync_aliases();
    }

    /// Adds a compiled block that has not run yet.
    pub fn insert_bytes(&mut self, pc: u64, wasm_bytes: Vec<u8>)
        requires
            old(self)@.wf(),
            old(self)@.bytes + wasm_bytes.len() <= usize::MAX,
        ensures
            final(self)@ == inserted(
                old(self)@,
                pc,
                JitFunction {
                    wasm_bytes,
                    wasm_size: wasm_bytes@.len() as usize,
                    exec_count: 0,
                    pc,
                    instruction_count: 0,
                },
            ),
            final(self)@.wf(),
            old(self)@.counts_all_bytes() ==> final(self)@.counts_all_bytes(),
    {
        let wasm_size: usize = wasm_bytes.len();
        let func = JitFunction { wasm_bytes, wasm_size, exec_count: 0, pc, instruction_count: 0 };
        self.insert(pc, func);
    }

    /// The block at an address, which becomes the most recently used.
    pub fn get(&mut self, pc: u64) -> (r: Option<&JitFunction>)
        requires
            old(self)@.wf(),
        ensures
            final(self)@ == touched(old(self)@, pc),
            final(self)@.wf(),
            old(self)@.counts_all_bytes() ==> final(self)@.counts_all_bytes(),
            r == if has_key(old(self)@.entries, pc) {
                Some(&lookup(old(self)@.entries, pc))
            } else {
                None
            },
    {
        proof {
            let s = self@.entries;
            lemma_without(s, at(pc));
            lemma_without_key_len(s, pc);
            lemma_front(without_key(s, pc), pc, lookup(s, pc));
            lemma_total_without(s, pc);
            lemma_total_front(without_key(s, pc), (pc, lookup(s, pc)));
        }
        if lru_contains(&self.functions, pc) {
            self.stats.hits = self.stats.hits.wrapping_add(1);
            self.stats.sync_aliases();
            lru_get(&mut self.functions, pc)
        } else {
            self.stats.misses = self.stats.misses.wrapping_add(1);
            self.stats.sync_aliases();
            None
        }
    }

    /// The block at an address to be changed, which becomes the most recently used. A change
    /// of its size goes past the byte count.
    pub fn get_mut(&mut self, pc: u64) -> (r: Option<&mut JitFunction>)
        requires
            old(self)@.wf(),
        ensures
            final(self)@.wf(),
            match r {
                Some(func) => has_key(old(self)@.entries, pc) && *func == lookup(
                    old(self)@.entries,
                    pc,
                ) && final(self)@ == (CacheState {
                    entries: in_front(old(self)@.entries, pc, *final(func)),
                    ..touched(old(self)@, pc)
                }) && (old(self)@.counts_all_bytes() && final(func).wasm_size == func.wasm_size
                    ==> final(self)@.counts_all_bytes()),
                None => !has_key(old(self)@.entries, pc) && final(self)@ == touched(old(self)@, pc),
            },
    {
        proof {
            let s = self@.entries;
            lemma_without(s, at(pc));
            lemma_without_key_len(s, pc);
            assert forall|f: JitFunction| unique_keys(#[trigger] in_front(s, pc, f)) by {
                lemma_front(without_key(s, pc), pc, f);
            }
            lemma_total_without(s, pc);
            assert forall|f: JitFunction| #[trigger]
                total_size(in_front(s, pc, f)) == total_size(without_key(s, pc)) + f.wasm_size by {
                lemma_total_front(without_key(s, pc), (pc, f));
            }
        }
        if lru_contains(&self.functions, pc) {
            self.stats.hits = self.stats.hits.wrapping_add(1);
            self.stats.sync_aliases();
            lru_get_mut(&mut self.functions, pc)
        } else {
            self.stats.misses = self.stats.misses.wrapping_add(1);
            self.stats.sync_aliases();
            None
        }
    }

    pub fn contains(&self, pc: u64) -> (b: bool)
        ensures
            b == has_key(self@.entries, pc),
    {
        lru_contains(&self.functions, pc)
    }

    /// The block at an address; the order stays.
    pub fn peek(&self, pc: u64) -> (r: Option<&JitFunction>)
        ensures
            r == if has_key(self@.entries, pc) {
                Some(&lookup(self@.entries, pc))
            } else {
                None
            },
    {
        lru_peek(&self.functions, pc)
    }

    /// Throws a block out, and says whether it was there.
    pub fn invalidate(&mut self, pc: u64) -> (found: bool)
        requires
            old(self)@.wf(),
        ensures
            found == has_key(old(self)@.entries, pc),
            final(self)@ == invalidated(old(self)@, pc),
            final(self)@.wf(),
            old(self)@.counts_all_bytes() ==> final(self)@.counts_all_bytes(),
    {
        proof {
            lemma_without(self@.entries, at(pc));
            lemma_total_without(self@.entries, pc);
        }
        if let Some(entry) = lru_pop(&mut self.functions, pc) {
            self.current_bytes = self.current_bytes.saturating_sub(entry.wasm_size);
            self.stats.invalidations = self.stats.invalidations.wrapping_add(1);
            true
        } else {
            false
        }
    }

    /// Throws all blocks out, and forgets which are being compiled.
    pub fn clear(&mut self)
        requires
            old(self)@.wf(),
        ensures
            final(self)@ == cleared(old(self)@),
            final(self)@.wf(),
            final(self)@.counts_all_bytes(),
    {
        broadcast use group_hash_axioms;

        let count: usize = lru_len(&self.functions);
        lru_clear(&mut self.functions);
        self.current_bytes = 0;
        self.stats.invalidations = self.stats.invalidations.wrapping_add(count as u64);
        self.compiling.clear();
    }

    /// Throws all blocks out and begins a new generation.
    pub fn flush(&mut self)
        requires
            old(self)@.wf(),
        ensures
            final(self)@ == cleared(
                CacheState {
                    generation: old(self)@.generation.wrapping_add(1),
                    ..old(self)@
                },
            ),
            final(self)@.wf(),
            final(self)@.counts_all_bytes(),
    {
        self.generation = self.generation.wrapping_add(1);
        self.clear();
    }

    /// Throws the blocks out that start in a range, and gives their number.
    pub fn invalidate_range(&mut self, start: u64, end: u64) -> (count: usize)
        requires
            old(self)@.wf(),
        ensures
            count == keys_in_range(old(self)@.entries, start, end).len(),
            final(self)@ == all_invalidated(
                old(self)@,
                keys_in_range(old(self)@.entries, start, end),
                count as nat,
            ),
            final(self)@.entries == without(old(self)@.entries, within(start, end)),
            final(self)@.wf(),
            old(self)@.counts_all_bytes() ==> final(self)@.counts_all_bytes(),
    {
        let entries: Vec<(&u64, &JitFunction)> = lru_iter(&self.functions);
        let ghost s = self@.entries;
        let mut to_remove: Vec<u64> = Vec::new();
        let mut i: usize = 0;
        while i < entries.len()
            invariant
                i <= entries.len(),
                entries.len() == s.len(),
                forall|j: int| 0 <= j < s.len() ==> *(#[trigger] entries@[j]).0 == s[j].0,
                to_remove@ == keys_in_range(s.take(i as int), start, end),
            decreases entries.len() - i,
        {
            let pc: u64 = *entries[i].0;
            assert(s.take(i + 1).drop_last() =~= s.take(i as int));
            if pc >= start && pc < end {
                to_remove.push(pc);
            }
            i = i + 1;
        }
        assert(s.take(s.len() as int) =~= s);
        let count: usize = to_remove.len();
        let mut j: usize = 0;
        while j < count
            invariant
                j <= count,
                count == to_remove.len(),
                self@ == all_invalidated(old(self)@, to_remove@, j as nat),
                self@.wf(),
                old(self)@.counts_all_bytes() ==> self@.counts_all_bytes(),
            decreases count - j,
        {
            self.invalidate(to_remove[j]);
            j = j + 1;
        }
        proof {
            lemma_all_invalidated(old(self)@, to_remove@, count as nat);
            lemma_range(s, start, end);
            let drops = within(start, end);
            let listed = |k: u64| to_remove@.take(count as int).contains(k);
            assert(to_remove@.take(count as int) =~= to_remove@);
            assert forall|k: u64| has_key(s, k) implies #[trigger] drops(k) == listed(k) by {}
            lemma_without_same(s, drops, listed);
        }
        count
    }

    /// Throws the blocks out that start in the page of an address.
    pub fn invalidate_page(&mut self, page_addr: u64) -> (count: usize)
        requires
            old(self)@.wf(),
            page_addr < 0xffff_ffff_ffff_f000,
        ensures
            ({
                let start = (page_addr - page_addr % 0x1000) as u64;
                let keys = keys_in_range(old(self)@.entries, start, (start + 0x1000) as u64);
                count == keys.len() && final(self)@ == all_invalidated(
                    old(self)@,
                    keys,
                    keys.len(),
                )
            }),
            forall|k: u64| #[trigger]
                has_key(final(self)@.entries, k) <==> has_key(old(self)@.entries, k) && k / 0x1000
                    != page_addr / 0x1000,
            final(self)@.wf(),
            old(self)@.counts_all_bytes() ==> final(self)@.counts_all_bytes(),
    {
        let start: u64 = page_addr - page_addr % 0x1000;
        proof {
            lemma_without(self@.entries, within(start, (start + 0x1000) as u64));
        }
        self.invalidate_range(start, start + 0x1000)
    }

    /// Notes that a block is being compiled.
    pub fn mark_compiling(&mut self, pc: u64)
        ensures
            final(self)@ == (CacheState {
                compiling: old(self)@.compiling.insert(pc),
                ..old(self)@
            }),
    {
        broadcast use group_hash_axioms;

        self.compiling.insert(pc);
    }

    pub fn is_compiling(&self, pc: u64) -> (b: bool)
        ensures
            b == self@.compiling.contains(pc),
    {
        broadcast use group_hash_axioms;

        self.compiling.contains(&pc)
    }

    /// Notes that a block is not to be compiled.
    pub fn blacklist(&mut self, pc: u64)
        ensures
            final(self)@ == (CacheState {
                compiling: old(self)@.compiling.remove(pc),
                blacklisted: old(self)@.blacklisted.insert(pc),
                ..old(self)@
            }),
    {
        broadcast use group_hash_axioms;

        self.compiling.remove(&pc);
        self.blacklisted.insert(pc);
    }

    pub fn is_blacklisted(&self, pc: u64) -> (b: bool)
        ensures
            b == self@.blacklisted.contains(pc),
    {
        broadcast use group_hash_axioms;

        self.blacklisted.contains(&pc)
    }

    pub fn clear_blacklist(&mut self)
        ensures
            final(self)@ == (CacheState { blacklisted: Set::empty(), ..old(self)@ }),
    {
        broadcast use group_hash_axioms;

        self.blacklisted.clear();
    }

    pub fn stats(&self) -> (stats: &CacheStats)
        ensures
            *stats == self@.stats,
    {
        &self.stats
    }

    /// The byte count.
    pub fn memory_usage(&self) -> (n: usize)
        ensures
            n == self@.bytes,
    {
        self.current_bytes
    }

    pub fn entry_count(&self) -> (n: usize)
        ensures
            n == self@.entries.len(),
    {
        lru_len(&self.functions)
    }

    /// How many entries there can be.
    pub fn capacity(&self) -> (n: usize)
        ensures
            n == self@.cap,
    {
        lru_capacity(&self.functions)
    }

    pub fn max_bytes(&self) -> (n: usize)
        ensures
            n == self@.max_bytes,
    {
        self.max_bytes
    }

    /// The entries, most recently used first.
    pub fn iter(&self) -> (r: Vec<(&u64, &JitFunction)>)
        ensures
            r@.len() == self@.entries.len(),
            forall|i: int|
                0 <= i < r@.len() ==> *(#[trigger] r@[i]).0 == self@.entries[i].0 && *r@[i].1
                    == self@.entries[i].1,
    {
        lru_iter(&self.functions)
    }

    /// The entry most recently used.
    pub fn most_recent(&self) -> (r: Option<(&u64, &JitFunction)>)
        ensures
            r is None <==> self@.entries.len() == 0,
            r matches Some(e) ==> (*e.0, *e.1) == self@.entries.first(),
    {
        let entries: Vec<(&u64, &JitFunction)> = lru_iter(&self.functions);
        if entries.len() == 0 {
            None
        } else {
            Some(entries[0])
        }
    }

    /// The entry least recently used, which leaves first.
    pub fn least_recent(&self) -> (r: Option<(&u64, &JitFunction)>)
        ensures
            r is None <==> self@.entries.len() == 0,
            r matches Some(e) ==> (*e.0, *e.1) == self@.entries.last(),
    {
        let entries: Vec<(&u64, &JitFunction)> = lru_iter(&self.functions);
        if entries.len() == 0 {
            None
        } else {
            Some(entries[entries.len() - 1])
        }
    }

    /// Sets new limits, and drops entries from the end until they are met.
    pub fn resize(&mut self, new_max_entries: usize, new_max_bytes: usize)
        requires
            old(self)@.wf(),
        ensures
            final(self)@ == resized(old(self)@, new_max_entries, new_max_bytes),
            final(self)@.wf(),
            old(self)@.counts_all_bytes() ==> final(self)@.counts_all_bytes(),
    {
        proof {
            lemma_evicted(
                self@.entries,
                self@.bytes,
                self@.stats.evictions,
                0,
                new_max_bytes,
            );
        }
        self.max_bytes = new_max_bytes;
        self.evict(0);
        if new_max_entries > 0 {
            proof {
                let kept = self@;
                lemma_trimmed(
                    kept.entries,
                    kept.bytes,
                    kept.stats.evictions,
                    new_max_entries as nat,
                );
            }
            self.trim(new_max_entries);
            lru_resize(&mut self.functions, new_max_entries);
        }
    }

    pub fn reset_stats(&mut self)
        ensures
            final(self)@ == (CacheState { stats: no_stats(), ..old(self)@ }),
    {
        self.stats = CacheStats::default();
    }

    pub fn add_jit_instructions(&mut self, count: u64)
        ensures
            final(self)@ == (CacheState {
                stats: CacheStats {
                    jit_instructions: old(self)@.stats.jit_instructions.wrapping_add(count),
                    ..old(self)@.stats
                },
                ..old(self)@
            }),
    {
        self.stats.jit_instructions = self.stats.jit_instructions.wrapping_add(count);
    }
}

impl Default for JitCache {
    fn default() -> (cache: Self)
        ensures
            cache@ == (CacheState {
                entries: Seq::empty(),
                cap: 1024,
                max_bytes: 0x100_0000,
                bytes: 0,
                stats: no_stats(),
                generation: 0,
                compiling: Set::empty(),
                blacklisted: Set::empty(),
            }),
            cache@.wf(),
    {
        Self::new(1024, 16 * 1024 * 1024)
    }
}

/// Predicates that agree on the keys that are there leave out the same entries.
proof fn lemma_without_same(
    s: Seq<Entry>,
    a: spec_fn(u64) -> bool,
    b: spec_fn(u64) -> bool,
)
    requires
        forall|k: u64| #[trigger] has_key(s, k) ==> a(k) == b(k),
    ensures
        without(s, a) == without(s, b),
    decreases s.len(),
{
    if s.len() > 0 {
        let t = s.drop_last();
        assert(t.push(s.last()) =~= s);
        assert forall|k: u64| #[trigger] has_key(t, k) implies a(k) == b(k) by {
            lemma_has_key_push(t, s.last(), k);
            assert(has_key(s, k));
        }
        lemma_has_key_push(t, s.last(), s.last().0);
        assert(has_key(s, s.last().0));
        lemma_without_same(t, a, b);
    }
}

/// Leaving out in two steps is leaving out at once.
proof fn lemma_without_twice(s: Seq<Entry>, a: spec_fn(u64) -> bool, b: spec_fn(u64) -> bool)
    ensures
        without(without(s, a), b) == without(s, |k: u64| a(k) || b(k)),
    decreases s.len(),
{
    if s.len() > 0 {
        let t = s.drop_last();
        lemma_without_twice(t, a, b);
        let w = without(t, a);
        if !a(s.last().0) {
            assert(w.push(s.last()).drop_last() =~= w);
        }
    }
}

/// Throwing blocks out one by one leaves the entries that are not on the list.
proof fn lemma_all_invalidated(s: CacheState, pcs: Seq<u64>, n: nat)
    requires
        s.wf(),
        n <= pcs.len(),
    ensures
        all_invalidated(s, pcs, n).entries == without(
            s.entries,
            |k: u64| pcs.take(n as int).contains(k),
        ),
    decreases n,
{
    let listed = |k: u64| pcs.take(n as int).contains(k);
    if n == 0 {
        assert forall|k: u64| #[trigger] has_key(s.entries, k) implies !listed(k) by {}
        lemma_without(s.entries, listed);
    } else {
        let m = (n - 1) as nat;
        let before = |k: u64| pcs.take(m as int).contains(k);
        let this = at(pcs[m as int]);
        lemma_all_invalidated(s, pcs, m);
        let t = all_invalidated(s, pcs, m);
        lemma_without(s.entries, before);
        assert(all_invalidated(s, pcs, n).entries == without(t.entries, this)) by {
            if !has_key(t.entries, pcs[m as int]) {
                lemma_without(t.entries, this);
            }
        }
        lemma_without_twice(s.entries, before, this);
        let both = |k: u64| before(k) || this(k);
        assert forall|k: u64| #[trigger] has_key(s.entries, k) implies both(k) == listed(k) by {
            let shorter = pcs.take(m as int);
            let longer = pcs.take(n as int);
            assert(longer =~= shorter.push(pcs[m as int]));
            if shorter.contains(k) {
                let i = choose|i: int| 0 <= i < shorter.len() && shorter[i] == k;
                assert(longer[i] == k);
            }
            if this(k) {
                assert(longer[m as int] == k);
            }
            if longer.contains(k) {
                let i = choose|i: int| 0 <= i < longer.len() && longer[i] == k;
                if i < m {
                    assert(shorter[i] == k);
                }
            }
        }
        lemma_without_same(s.entries, both, listed);
    }
}

/// The listed keys of a range are those of its entries.
pub proof fn lemma_range(s: Seq<Entry>, start: u64, end: u64)
    ensures
        forall|k: u64| #[trigger]
            keys_in_range(s, start, end).contains(k) <==> has_key(s, k) && start <= k < end,
    decreases s.len(),
{
    let keys = keys_in_range(s, start, end);
    if s.len() > 0 {
        let t = s.drop_last();
        lemma_range(t, start, end);
        let rest = keys_in_range(t, start, end);
        assert(t.push(s.last()) =~= s);
        assert forall|k: u64| #[trigger] keys.contains(k) <==> has_key(s, k) && start <= k < end by {
            lemma_has_key_push(t, s.last(), k);
            assert(rest.contains(k) <==> has_key(t, k) && start <= k < end);
            if start <= s.last().0 < end {
                assert(keys == rest.push(s.last().0));
                if rest.contains(k) {
                    let i = choose|i: int| 0 <= i < rest.len() && rest[i] == k;
                    assert(keys[i] == k);
                }
                if k == s.last().0 {
                    assert(keys[rest.len() as int] == k);
                }
                if keys.contains(k) {
                    let i = choose|i: int| 0 <= i < keys.len() && keys[i] == k;
                    if i < rest.len() {
                        assert(rest[i] == k);
                    }
                }
            }
        }
    } else {
        assert forall|k: u64| #[trigger] keys.contains(k) <==> has_key(s, k) && start <= k < end by {}
    }
}

/// A block that was just added is there, in front of all others, and is no longer being
/// compiled.
pub proof fn law_inserted_is_cached(s: CacheState, pc: u64, func: JitFunction)
    requires
        s.wf(),
    ensures
        has_key(inserted(s, pc, func).entries, pc),
        lookup(inserted(s, pc, func).entries, pc) == func,
        inserted(s, pc, func).entries.first() == (pc, func),
        !inserted(s, pc, func).compiling.contains(pc),
{
    let (kept, fitting, dropped) = evicted(
        s.entries,
        s.bytes,
        s.stats.evictions,
        func.wasm_size,
        s.max_bytes,
    );
    lemma_evicted(s.entries, s.bytes, s.stats.evictions, func.wasm_size, s.max_bytes);
    lemma_take(s.entries, kept.len() as int);
    let left = without_key(kept, pc);
    lemma_without(kept, at(pc));
    let room = (s.cap - 1) as nat;
    lemma_trimmed(left, bytes_without(kept, fitting, pc), dropped, room);
    let others = trimmed(left, bytes_without(kept, fitting, pc), dropped, room).0;
    lemma_take(left, others.len() as int);
    lemma_front(others, pc, func);
}

/// After adding a block, the byte count keeps to its limit, or the block is alone.
pub proof fn law_byte_limit(s: CacheState, pc: u64, func: JitFunction)
    requires
        s.wf(),
        s.bytes + func.wasm_size <= usize::MAX,
    ensures
        inserted(s, pc, func).bytes <= s.max_bytes || inserted(s, pc, func).entries == seq![
            (pc, func),
        ],
{
    let (kept, fitting, dropped) = evicted(
        s.entries,
        s.bytes,
        s.stats.evictions,
        func.wasm_size,
        s.max_bytes,
    );
    lemma_evicted(s.entries, s.bytes, s.stats.evictions, func.wasm_size, s.max_bytes);
    lemma_trimmed(
        without_key(kept, pc),
        bytes_without(kept, fitting, pc),
        dropped,
        (s.cap - 1) as nat,
    );
    if kept.len() == 0 {
        assert(without_key(kept, pc) =~= Seq::<Entry>::empty());
        assert(inserted(s, pc, func).entries =~= seq![(pc, func)]);
    }
}

/// Adding a block and setting new limits keep the byte count that of the entries.
pub proof fn law_bytes_are_those_of_the_entries(
    s: CacheState,
    pc: u64,
    func: JitFunction,
    max_entries: usize,
    max_bytes: usize,
)
    requires
        s.wf(),
        s.counts_all_bytes(),
        s.bytes + func.wasm_size <= usize::MAX,
    ensures
        inserted(s, pc, func).counts_all_bytes(),
        resized(s, max_entries, max_bytes).counts_all_bytes(),
{
    lemma_evicted(s.entries, s.bytes, s.stats.evictions, func.wasm_size, s.max_bytes);
    let (kept, fitting, dropped) = evicted(
        s.entries,
        s.bytes,
        s.stats.evictions,
        func.wasm_size,
        s.max_bytes,
    );
    lemma_take(s.entries, kept.len() as int);
    lemma_total_without(kept, pc);
    let left = without_key(kept, pc);
    let bytes = bytes_without(kept, fitting, pc);
    lemma_trimmed(left, bytes, dropped, (s.cap - 1) as nat);
    lemma_total_front(trimmed(left, bytes, dropped, (s.cap - 1) as nat).0, (pc, func));
    lemma_evicted(s.entries, s.bytes, s.stats.evictions, 0, max_bytes);
    let (small, size, count) = evicted(s.entries, s.bytes, s.stats.evictions, 0, max_bytes);
    lemma_trimmed(small, size, count, max_entries as nat);
}

/// Each entry that leaves because of a limit counts as one eviction.
pub proof fn law_dropped_entries_are_evictions(
    s: CacheState,
    pc: u64,
    func: JitFunction,
)
    requires
        s.wf(),
        !has_key(s.entries, pc),
        s.stats.evictions + s.entries.len() <= u64::MAX,
    ensures
        inserted(s, pc, func).stats.evictions - s.stats.evictions == s.entries.len() + 1
            - inserted(s, pc, func).entries.len(),
{
    lemma_evicted(s.entries, s.bytes, s.stats.evictions, func.wasm_size, s.max_bytes);
    lemma_evictions(s.entries, s.bytes, s.stats.evictions, func.wasm_size, s.max_bytes);
    let (kept, fitting, dropped) = evicted(
        s.entries,
        s.bytes,
        s.stats.evictions,
        func.wasm_size,
        s.max_bytes,
    );
    lemma_take(s.entries, kept.len() as int);
    assert(!has_key(kept, pc));
    lemma_without(kept, at(pc));
    lemma_trims(kept, bytes_without(kept, fitting, pc), dropped, (s.cap - 1) as nat);
}

proof fn lemma_evictions(s: Seq<Entry>, bytes: usize, count: u64, size: usize, limit: usize)
    requires
        count + s.len() <= u64::MAX,
    ensures
        evicted(s, bytes, count, size, limit).2 - count == s.len() - evicted(
            s,
            bytes,
            count,
            size,
            limit,
        ).0.len(),
    decreases s.len(),
{
    if bytes + size > limit && s.len() > 0 {
        let rest = less(bytes, s.last().1.wasm_size);
        lemma_evictions(s.drop_last(), rest, count.wrapping_add(1), size, limit);
    }
}

proof fn lemma_trims(s: Seq<Entry>, bytes: usize, count: u64, room: nat)
    requires
        count + s.len() <= u64::MAX,
    ensures
        trimmed(s, bytes, count, room).2 - count == s.len() - trimmed(
            s,
            bytes,
            count,
            room,
        ).0.len(),
    decreases s.len(),
{
    if s.len() > room {
        let rest = less(bytes, s.last().1.wasm_size);
        lemma_trims(s.drop_last(), rest, count.wrapping_add(1), room);
    }
}

/// A flush leaves no block, and keeps the blacklist.
pub proof fn law_flush_keeps_blacklist(s: CacheState, pc: u64)
    ensures
        !has_key(cleared(s).entries, pc),
        cleared(s).blacklisted == s.blacklisted,
        cleared(s).bytes == 0,
{
}

/// Asking for a block leaves the blocks and their values as they are.
pub proof fn law_lookup_keeps_blocks(s: CacheState, pc: u64, other: u64)
    requires
        s.wf(),
    ensures
        has_key(touched(s, pc).entries, other) == has_key(s.entries, other),
        has_key(s.entries, other) ==> lookup(touched(s, pc).entries, other) == lookup(
            s.entries,
            other,
        ),
{
    lemma_without(s.entries, at(pc));
    if has_key(s.entries, pc) {
        lemma_front(without_key(s.entries, pc), pc, lookup(s.entries, pc));
    }
}

/// Throwing a range out leaves no block that starts in it and every other block as it was, and
/// touches neither the limits nor the lists of blocks. Each block thrown out is counted.
pub proof fn law_range_is_thrown_out(s: CacheState, start: u64, end: u64, k: u64)
    requires
        s.wf(),
    ensures
        ({
            let keys = keys_in_range(s.entries, start, end);
            let t = all_invalidated(s, keys, keys.len());
            &&& has_key(t.entries, k) <==> has_key(s.entries, k) && !(start <= k && k < end)
            &&& has_key(t.entries, k) ==> lookup(t.entries, k) == lookup(s.entries, k)
            &&& keys.contains(k) <==> has_key(s.entries, k) && start <= k && k < end
            &&& t == (CacheState { entries: t.entries, bytes: t.bytes, stats: t.stats, ..s })
            &&& t.stats == (CacheStats { invalidations: t.stats.invalidations, ..s.stats })
            &&& s.stats.invalidations + s.entries.len() <= u64::MAX ==> t.stats.invalidations
                - s.stats.invalidations == s.entries.len() - t.entries.len()
            &&& s.counts_all_bytes() ==> t.counts_all_bytes()
        }),
{
    let keys = keys_in_range(s.entries, start, end);
    lemma_all_invalidated(s, keys, keys.len());
    lemma_range(s.entries, start, end);
    let listed = |k: u64| keys.take(keys.len() as int).contains(k);
    assert(keys.take(keys.len() as int) =~= keys);
    lemma_without(s.entries, listed);
    lemma_counted_out(s, keys, keys.len());
}

/// Throwing a range out makes the entries fewer just where one starts in it.
pub proof fn lemma_range_len(s: CacheState, start: u64, end: u64)
    requires
        s.wf(),
    ensures
        ({
            let keys = keys_in_range(s.entries, start, end);
            let t = all_invalidated(s, keys, keys.len());
            &&& keys.len() > 0 <==> t.entries.len() < s.entries.len()
            &&& t.entries.len() <= s.entries.len()
        }),
{
    let keys = keys_in_range(s.entries, start, end);
    lemma_range(s.entries, start, end);
    lemma_all_invalidated(s, keys, keys.len());
    assert(keys.take(keys.len() as int) =~= keys);
    lemma_counted_out(s, keys, keys.len());
    if keys.len() > 0 {
        assert(keys.contains(keys[0]));
        let first = all_invalidated(s, keys, 1);
        assert(all_invalidated(s, keys, 0) == s);
        assert(first == invalidated(s, keys[0]));
        lemma_without_key_len(s.entries, keys[0]);
        lemma_fewer(s, keys, 1, keys.len());
    }
}

proof fn lemma_fewer(s: CacheState, pcs: Seq<u64>, m: nat, n: nat)
    requires
        s.wf(),
        m <= n <= pcs.len(),
    ensures
        all_invalidated(s, pcs, n).entries.len() <= all_invalidated(s, pcs, m).entries.len(),
    decreases n,
{
    if m < n {
        lemma_fewer(s, pcs, m, (n - 1) as nat);
        lemma_counted_out(s, pcs, (n - 1) as nat);
        lemma_without_key_len(all_invalidated(s, pcs, (n - 1) as nat).entries, pcs[n - 1]);
    }
}

proof fn lemma_counted_out(s: CacheState, pcs: Seq<u64>, n: nat)
    requires
        s.wf(),
        n <= pcs.len(),
    ensures
        ({
            let t = all_invalidated(s, pcs, n);
            &&& t.wf()
            &&& t == (CacheState { entries: t.entries, bytes: t.bytes, stats: t.stats, ..s })
            &&& t.stats == (CacheStats { invalidations: t.stats.invalidations, ..s.stats })
            &&& t.entries.len() <= s.entries.len()
            &&& s.stats.invalidations + s.entries.len() <= u64::MAX ==> t.stats.invalidations
                - s.stats.invalidations == s.entries.len() - t.entries.len()
            &&& s.counts_all_bytes() ==> t.counts_all_bytes()
        }),
    decreases n,
{
    if n > 0 {
        let t = all_invalidated(s, pcs, (n - 1) as nat);
        lemma_counted_out(s, pcs, (n - 1) as nat);
        lemma_without(t.entries, at(pcs[n - 1]));
        lemma_without_key_len(t.entries, pcs[n - 1]);
        lemma_total_without(t.entries, pcs[n - 1]);
    }
}

/// A block that was thrown out is not there, and every other block is as it was.
pub proof fn law_invalidated_is_gone(s: CacheState, pc: u64, other: u64)
    requires
        s.wf(),
    ensures
        !has_key(invalidated(s, pc).entries, pc),
        other != pc ==> has_key(invalidated(s, pc).entries, other) == has_key(s.entries, other),
        other != pc && has_key(s.entries, other) ==> lookup(invalidated(s, pc).entries, other)
            == lookup(s.entries, other),
{
    lemma_without(s.entries, at(pc));
}

/// A hit puts the block in front and is counted as a hit; a miss changes no entry and is
/// counted as a miss.
pub proof fn law_lookups_are_counted(s: CacheState, pc: u64)
    requires
        s.wf(),
        s.stats.hits < u64::MAX,
        s.stats.misses < u64::MAX,
    ensures
        ({
            let t = touched(s, pc);
            &&& t == (CacheState { entries: t.entries, stats: t.stats, ..s })
            &&& has_key(s.entries, pc) ==> t.entries.first() == (pc, lookup(s.entries, pc))
                && t.entries.len() == s.entries.len() && t.stats.hits == s.stats.hits + 1
                && t.stats.misses == s.stats.misses
            &&& !has_key(s.entries, pc) ==> t.entries == s.entries && t.stats.hits == s.stats.hits
                && t.stats.misses == s.stats.misses + 1
            &&& t.stats.cache_hits == t.stats.hits
            &&& t.stats.cache_misses == t.stats.misses
            &&& t.stats.insertions == s.stats.insertions
            &&& t.stats.evictions == s.stats.evictions
            &&& t.stats.invalidations == s.stats.invalidations
            &&& t.stats.bytes_compiled == s.stats.bytes_compiled
            &&& t.stats.jit_instructions == s.stats.jit_instructions
        }),
{
    lemma_without_key_len(s.entries, pc);
}

/// A new block comes in front of the blocks that stay. Those are the most recently used ones,
/// and no more leave than the limits ask for: with one block more, the bytes or the number of
/// blocks would be over its limit.
pub proof fn law_least_recent_leave_first(s: CacheState, pc: u64, func: JitFunction)
    requires
        s.wf(),
        s.counts_all_bytes(),
        !has_key(s.entries, pc),
    ensures
        ({
            let t = inserted(s, pc, func);
            let n = t.entries.len() - 1;
            &&& 0 <= n <= s.entries.len()
            &&& t.entries == seq![(pc, func)] + s.entries.take(n)
            &&& t.entries.len() <= s.cap
            &&& n < s.entries.len() ==> total_size(s.entries.take(n + 1)) + func.wasm_size
                > s.max_bytes || n + 2 > s.cap
        }),
{
    lemma_evicted(s.entries, s.bytes, s.stats.evictions, func.wasm_size, s.max_bytes);
    lemma_evicts_no_more(s.entries, s.bytes, s.stats.evictions, func.wasm_size, s.max_bytes);
    let (kept, fitting, dropped) = evicted(
        s.entries,
        s.bytes,
        s.stats.evictions,
        func.wasm_size,
        s.max_bytes,
    );
    lemma_take(s.entries, kept.len() as int);
    lemma_without(kept, at(pc));
    assert(without_key(kept, pc) == kept);
    let room = (s.cap - 1) as nat;
    lemma_trimmed(kept, bytes_without(kept, fitting, pc), dropped, room);
    let n = inserted(s, pc, func).entries.len() - 1;
    assert(kept.take(n) =~= s.entries.take(n));
}

proof fn lemma_evicts_no_more(s: Seq<Entry>, bytes: usize, count: u64, size: usize, limit: usize)
    requires
        bytes == total_size(s),
    ensures
        ({
            let n = evicted(s, bytes, count, size, limit).0.len() as int;
            n < s.len() ==> total_size(s.take(n + 1)) + size > limit
        }),
    decreases s.len(),
{
    if bytes + size > limit && s.len() > 0 {
        let t = s.drop_last();
        let rest = less(bytes, s.last().1.wasm_size);
        lemma_evicted(t, rest, count.wrapping_add(1), size, limit);
        lemma_evicts_no_more(t, rest, count.wrapping_add(1), size, limit);
        let n = evicted(s, bytes, count, size, limit).0.len() as int;
        if n < t.len() {
            assert(t.take(n + 1) =~= s.take(n + 1));
        } else {
            assert(s.take(n + 1) =~= s);
        }
    }
}

/// A new block is counted with its bytes, and is no longer being compiled; the rest of what the
/// cache notes stays.
pub proof fn law_insertions_are_counted(s: CacheState, pc: u64, func: JitFunction)
    requires
        s.wf(),
        s.stats.insertions < u64::MAX,
        s.stats.bytes_compiled + func.wasm_size <= usize::MAX,
    ensures
        ({
            let t = inserted(s, pc, func);
            &&& t.stats.insertions == s.stats.insertions + 1
            &&& t.stats.blocks_compiled == t.stats.insertions
            &&& t.stats.bytes_compiled == s.stats.bytes_compiled + func.wasm_size
            &&& t.stats.hits == s.stats.hits
            &&& t.stats.misses == s.stats.misses
            &&& t.stats.invalidations == s.stats.invalidations
            &&& t.stats.jit_instructions == s.stats.jit_instructions
            &&& t.cap == s.cap && t.max_bytes == s.max_bytes && t.generation == s.generation
            &&& t.blacklisted == s.blacklisted
            &&& forall|k: u64| #[trigger]
                t.compiling.contains(k) <==> s.compiling.contains(k) && k != pc
        }),
{
}

/// New limits keep the most recently used blocks that both of them allow, and no more leave
/// than that; 0 leaves the limit of the number of blocks.
pub proof fn law_new_limits(s: CacheState, max_entries: usize, max_bytes: usize)
    requires
        s.wf(),
        s.counts_all_bytes(),
    ensures
        ({
            let t = resized(s, max_entries, max_bytes);
            let n = t.entries.len() as int;
            &&& n <= s.entries.len()
            &&& t.entries == s.entries.take(n)
            &&& t.bytes <= max_bytes || n == 0
            &&& t.max_bytes == max_bytes
            &&& max_entries == 0 ==> t.cap == s.cap
            &&& max_entries > 0 ==> t.cap == max_entries && n <= max_entries
            &&& n < s.entries.len() ==> total_size(s.entries.take(n + 1)) > max_bytes || (
            max_entries > 0 && n + 1 > max_entries)
            &&& t.generation == s.generation && t.compiling == s.compiling && t.blacklisted
                == s.blacklisted
            &&& s.stats.evictions + s.entries.len() <= u64::MAX ==> t.stats.evictions
                - s.stats.evictions == s.entries.len() - n
        }),
{
    lemma_evicted(s.entries, s.bytes, s.stats.evictions, 0, max_bytes);
    lemma_evicts_no_more(s.entries, s.bytes, s.stats.evictions, 0, max_bytes);
    let (kept, fitting, dropped) = evicted(s.entries, s.bytes, s.stats.evictions, 0, max_bytes);
    lemma_trimmed(kept, fitting, dropped, max_entries as nat);
    if s.stats.evictions + s.entries.len() <= u64::MAX {
        lemma_evictions(s.entries, s.bytes, s.stats.evictions, 0, max_bytes);
        lemma_trims(kept, fitting, dropped, max_entries as nat);
    }
    let n = resized(s, max_entries, max_bytes).entries.len() as int;
    assert(kept.take(n) =~= s.entries.take(n));
    assert(kept.take(kept.len() as int) =~= kept);
}

/// A cleared cache holds nothing and compiles nothing; each block is counted as thrown out,
/// and the limits and the blacklist stay.
pub proof fn law_cleared_cache(s: CacheState)
    requires
        s.stats.invalidations + s.entries.len() <= u64::MAX,
    ensures
        ({
            let t = cleared(s);
            &&& t.entries.len() == 0
            &&& t.bytes == 0
            &&& forall|k: u64| !(#[trigger] t.compiling.contains(k))
            &&& t.stats == (CacheStats {
                invalidations: (s.stats.invalidations + s.entries.len()) as u64,
                ..s.stats
            })
            &&& t.cap == s.cap && t.max_bytes == s.max_bytes && t.generation == s.generation
            &&& t.blacklisted == s.blacklisted
        }),
{
}

} // verus!
