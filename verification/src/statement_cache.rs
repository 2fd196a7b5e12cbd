//! Which SQL is worth compiling into the engine's statement cache.
//!
//! The engine's cache is a map from SQL text to the compiled program, and it
//! never evicts. So what has to be decided of a statement is not whether it
//! is worth keeping but whether its call site can produce only a bounded set
//! of texts: one that mints a text per call would grow the cache for ever.

use std::collections::hash_map::DefaultHasher;
use std::collections::{HashMap, HashSet, VecDeque};
use std::hash::{Hash, Hasher};

use rustc_hash::{FxBuildHasher, FxHasher};
use vstd::prelude::*;
use vstd::std_specs::hash::DefaultHasherAdditionalSpecFns;
use vstd::utf8::encode_utf8;

verus! {

/// How many distinct statements one connection admits.
pub const MAX_CACHED_STATEMENTS: usize = 512;

/// How many statement families are held on probation.
pub const MAX_PROBATION_FAMILIES: usize = 512;

/// What a run of placeholders collapses to in a family key: a byte that no
/// UTF-8 text holds.
pub const PLACEHOLDER_RUN: u8 = 0xff;

// ---------------------------------------------------------------------------
// Families
// ---------------------------------------------------------------------------

/// Whether a byte can stand in a run of placeholders: `?`, a comma, a
/// parenthesis or white space.
pub open spec fn run_byte(b: u8) -> bool {
    b == 0x3f || b == 0x2c || b == 0x28 || b == 0x29 || b == 0x20 || b == 0x09 || b == 0x0a || b
        == 0x0d
}

/// The first position from `i` on that holds no run byte, or the end.
pub open spec fn run_end(bytes: Seq<u8>, i: int) -> int
    decreases bytes.len() - i,
{
    if 0 <= i < bytes.len() && run_byte(bytes[i]) {
        run_end(bytes, i + 1)
    } else {
        i
    }
}

/// Whether a placeholder stands between `from` and `to`.
pub open spec fn holds_placeholder(bytes: Seq<u8>, from: int, to: int) -> bool {
    exists|k: int| from <= k < to && #[trigger] bytes[k] == 0x3f
}

/// The bytes from `i` on, with every longest span of run bytes that holds a
/// placeholder collapsed to one mark.
pub open spec fn collapsed(bytes: Seq<u8>, i: int) -> Seq<u8>
    decreases bytes.len() - i,
    via collapsed_decreases
{
    if i < 0 || i >= bytes.len() {
        Seq::empty()
    } else if !run_byte(bytes[i]) {
        seq![bytes[i]] + collapsed(bytes, i + 1)
    } else {
        let end = run_end(bytes, i);
        (if holds_placeholder(bytes, i, end) {
            seq![PLACEHOLDER_RUN]
        } else {
            bytes.subrange(i, end)
        }) + collapsed(bytes, end)
    }
}

#[via_fn]
proof fn collapsed_decreases(bytes: Seq<u8>, i: int) {
    if 0 <= i < bytes.len() && run_byte(bytes[i]) {
        lemma_run_end(bytes, i + 1);
        assert(run_end(bytes, i) == run_end(bytes, i + 1));
    }
}

proof fn lemma_run_end(bytes: Seq<u8>, i: int)
    requires
        0 <= i <= bytes.len(),
    ensures
        i <= run_end(bytes, i) <= bytes.len(),
        forall|k: int| i <= k < run_end(bytes, i) ==> run_byte(#[trigger] bytes[k]),
        run_end(bytes, i) < bytes.len() ==> !run_byte(bytes[run_end(bytes, i)]),
    decreases bytes.len() - i,
{
    if i < bytes.len() && run_byte(bytes[i]) {
        lemma_run_end(bytes, i + 1);
    }
}

/// Each byte as a write of its own.
pub open spec fn single_writes(bytes: Seq<u8>) -> Seq<Seq<u8>> {
    Seq::new(bytes.len(), |i: int| seq![bytes[i]])
}

/// The family of a statement: the hash of its text with the placeholder runs
/// collapsed. All lengths of one `IN (?, …)` list, and all row counts of one
/// multi-row insert, are one family.
pub open spec fn family_key(sql: Seq<char>) -> u64 {
    DefaultHasher::spec_finish(single_writes(collapsed(encode_utf8(sql), 0)))
}

fn is_run_byte(b: u8) -> (yes: bool)
    ensures
        yes == run_byte(b),
{
    b == 0x3f || b == 0x2c || b == 0x28 || b == 0x29 || b == 0x20 || b == 0x09 || b == 0x0a || b
        == 0x0d
}

fn write_byte(hasher: &mut DefaultHasher, b: u8)
    ensures
        final(hasher)@ == old(hasher)@.push(seq![b]),
{
    let one: [u8; 1] = [b];
    hasher.write(one.as_slice());
    assert(one@ =~= seq![b]);
}

/// The family that a statement belongs to.
pub fn family_of(sql: &str) -> (key: u64)
    ensures
        key == family_key(sql@),
{
    let mut hasher: DefaultHasher = DefaultHasher::new();
    let bytes: &[u8] = sql.as_bytes();
    let ghost all = collapsed(bytes@, 0);
    let mut i: usize = 0;
    assert(hasher@ + single_writes(all) =~= single_writes(all));
    while i < bytes.len()
        invariant
            i <= bytes@.len(),
            hasher@ + single_writes(collapsed(bytes@, i as int)) == single_writes(all),
        decreases bytes@.len() - i,
    {
        let ghost before = hasher@;
        if !is_run_byte(bytes[i]) {
            write_byte(&mut hasher, bytes[i]);
            assert(hasher@ + single_writes(collapsed(bytes@, i + 1)) =~= before + single_writes(
                collapsed(bytes@, i as int),
            ));
            i = i + 1;
        } else {
            let start: usize = i;
            let mut has_placeholder: bool = false;
            while i < bytes.len() && is_run_byte(bytes[i])
                invariant
                    start <= i <= bytes@.len(),
                    run_end(bytes@, start as int) == run_end(bytes@, i as int),
                    has_placeholder == holds_placeholder(bytes@, start as int, i as int),
                decreases bytes@.len() - i,
            {
                if bytes[i] == 0x3f {
                    has_placeholder = true;
                }
                i = i + 1;
            }
            proof {
                lemma_run_end(bytes@, start as int + 1);
                assert(run_end(bytes@, start as int) == run_end(bytes@, start as int + 1));
            }
            if has_placeholder {
                write_byte(&mut hasher, PLACEHOLDER_RUN);
            } else {
                let mut k: usize = start;
                while k < i
                    invariant
                        start <= k <= i <= bytes@.len(),
                        hasher@ == before + single_writes(
                            bytes@.subrange(start as int, k as int),
                        ),
                    decreases i - k,
                {
                    write_byte(&mut hasher, bytes[k]);
                    k = k + 1;
                    assert(hasher@ =~= before + single_writes(
                        bytes@.subrange(start as int, k as int),
                    ));
                }
            }
            assert(hasher@ + single_writes(collapsed(bytes@, i as int)) =~= before + single_writes(
                collapsed(bytes@, start as int),
            ));
        }
    }
    assert(hasher@ =~= single_writes(all));
    hasher.finish()
}

/// A placeholder run is one mark whatever its length: two texts that differ
/// in one run, and in nothing around it, collapse to the same bytes.
pub proof fn run_length_does_not_count(
    head: Seq<u8>,
    run_a: Seq<u8>,
    run_b: Seq<u8>,
    tail: Seq<u8>,
)
    requires
        head.len() > 0 ==> !run_byte(head.last()),
        tail.len() > 0 ==> !run_byte(tail[0]),
        forall|i: int| 0 <= i < run_a.len() ==> run_byte(#[trigger] run_a[i]),
        forall|i: int| 0 <= i < run_b.len() ==> run_byte(#[trigger] run_b[i]),
        run_a.contains(0x3f),
        run_b.contains(0x3f),
    ensures
        collapsed(head + (run_a + tail), 0) == collapsed(head + (run_b + tail), 0),
{
    lemma_collapsed_run(run_a, tail);
    lemma_collapsed_run(run_b, tail);
    lemma_collapsed_head(head, run_a + tail, run_b + tail, 0);
}

proof fn lemma_collapsed_run(run: Seq<u8>, tail: Seq<u8>)
    requires
        tail.len() > 0 ==> !run_byte(tail[0]),
        forall|i: int| 0 <= i < run.len() ==> run_byte(#[trigger] run[i]),
        run.contains(0x3f),
    ensures
        collapsed(run + tail, 0) == seq![PLACEHOLDER_RUN] + collapsed(tail, 0),
{
    let all = run + tail;
    let n = run.len() as int;
    let k = choose|k: int| 0 <= k < run.len() && run[k] == 0x3f;
    assert(run_byte(run[0]));
    assert(all[0] == run[0]);
    lemma_run_spans(all, 0, n);
    assert(all[k] == 0x3f);
    assert(holds_placeholder(all, 0, n));
    lemma_collapsed_shift(run, tail, 0);
}

proof fn lemma_run_spans(bytes: Seq<u8>, i: int, to: int)
    requires
        0 <= i <= to <= bytes.len(),
        forall|k: int| i <= k < to ==> run_byte(#[trigger] bytes[k]),
        to < bytes.len() ==> !run_byte(bytes[to]),
    ensures
        run_end(bytes, i) == to,
    decreases to - i,
{
    if i < to {
        lemma_run_spans(bytes, i + 1, to);
    }
}

proof fn lemma_run_end_shift(s: Seq<u8>, t: Seq<u8>, i: int)
    requires
        0 <= i <= t.len(),
    ensures
        run_end(s + t, s.len() + i) == s.len() + run_end(t, i),
    decreases t.len() - i,
{
    if i < t.len() {
        assert((s + t)[s.len() + i] == t[i]);
        if run_byte(t[i]) {
            lemma_run_end_shift(s, t, i + 1);
        }
    }
}

/// What follows a prefix collapses as it does on its own.
proof fn lemma_collapsed_shift(s: Seq<u8>, t: Seq<u8>, i: int)
    requires
        0 <= i <= t.len(),
    ensures
        collapsed(s + t, s.len() + i) == collapsed(t, i),
    decreases t.len() - i,
{
    let all = s + t;
    let n = s.len() as int;
    if i < t.len() {
        assert(all[n + i] == t[i]);
        if !run_byte(t[i]) {
            lemma_collapsed_shift(s, t, i + 1);
        } else {
            lemma_run_end(t, i + 1);
            assert(run_end(t, i) == run_end(t, i + 1));
            lemma_run_end_shift(s, t, i);
            let end = run_end(t, i);
            lemma_collapsed_shift(s, t, end);
            assert(all.subrange(n + i, n + end) =~= t.subrange(i, end));
            if holds_placeholder(t, i, end) {
                let k = choose|k: int| i <= k < end && t[k] == 0x3f;
                assert(all[n + k] == 0x3f);
            }
            if holds_placeholder(all, n + i, n + end) {
                let k = choose|k: int| n + i <= k < n + end && all[k] == 0x3f;
                assert(t[k - n] == 0x3f);
            }
        }
    }
}

/// Behind a head that ends no run, tails that collapse alike leave the whole
/// collapsing alike.
proof fn lemma_collapsed_head(head: Seq<u8>, a: Seq<u8>, b: Seq<u8>, i: int)
    requires
        0 <= i <= head.len(),
        head.len() > 0 ==> !run_byte(head.last()),
        collapsed(a, 0) == collapsed(b, 0),
    ensures
        collapsed(head + a, i) == collapsed(head + b, i),
    decreases head.len() - i,
{
    if i == head.len() {
        lemma_collapsed_shift(head, a, 0);
        lemma_collapsed_shift(head, b, 0);
    } else {
        assert((head + a)[i] == head[i] && (head + b)[i] == head[i]);
        if !run_byte(head[i]) {
            lemma_collapsed_head(head, a, b, i + 1);
        } else {
            lemma_run_end(head, i + 1);
            let end = run_end(head, i);
            assert(end == run_end(head, i + 1));
            assert(end < head.len()) by {
                if end == head.len() {
                    assert(run_byte(head[head.len() - 1]));
                }
            }
            assert forall|k: int| i <= k < end implies run_byte(#[trigger] (head + a)[k]) && run_byte(
                #[trigger] (head + b)[k],
            ) by {
                if k > i {
                    assert(run_byte(head[k]));
                }
            }
            lemma_run_spans(head + a, i, end);
            lemma_run_spans(head + b, i, end);
            lemma_collapsed_head(head, a, b, end);
            assert((head + a).subrange(i, end) =~= (head + b).subrange(i, end));
            assert(holds_placeholder(head + a, i, end) == holds_placeholder(head + b, i, end)) by {
                if holds_placeholder(head + a, i, end) {
                    let k = choose|k: int| i <= k < end && (head + a)[k] == 0x3f;
                    assert((head + b)[k] == 0x3f);
                }
                if holds_placeholder(head + b, i, end) {
                    let k = choose|k: int| i <= k < end && (head + b)[k] == 0x3f;
                    assert((head + a)[k] == 0x3f);
                }
            }
        }
    }
}

/// What a text is but for the lengths of its placeholder runs: its bytes, and
/// a gap for each run.
pub open spec fn outside_runs(bytes: Seq<u8>, i: int) -> Seq<Option<u8>>
    decreases bytes.len() - i,
    via outside_runs_decreases
{
    if i < 0 || i >= bytes.len() {
        Seq::empty()
    } else if !run_byte(bytes[i]) {
        seq![Some(bytes[i])] + outside_runs(bytes, i + 1)
    } else {
        let end = run_end(bytes, i);
        (if holds_placeholder(bytes, i, end) {
            seq![None]
        } else {
            bytes.subrange(i, end).map_values(|b: u8| Some(b))
        }) + outside_runs(bytes, end)
    }
}

#[via_fn]
proof fn outside_runs_decreases(bytes: Seq<u8>, i: int) {
    if 0 <= i < bytes.len() && run_byte(bytes[i]) {
        lemma_run_end(bytes, i + 1);
        assert(run_end(bytes, i) == run_end(bytes, i + 1));
    }
}

/// A collapsed text read back: the mark is a gap, anything else itself.
spec fn gaps(collapsed: Seq<u8>) -> Seq<Option<u8>> {
    collapsed.map_values(
        |b: u8|
            if b == PLACEHOLDER_RUN {
                None
            } else {
                Some(b)
            },
    )
}

proof fn lemma_mark_is_no_text(s: Seq<char>)
    ensures
        forall|i: int|
            0 <= i < encode_utf8(s).len() ==> #[trigger] encode_utf8(s)[i] != PLACEHOLDER_RUN,
    decreases s.len(),
{
    if s.len() > 0 {
        lemma_mark_is_no_text(s.drop_first());
        let c: u32 = s[0] as u32;
        assert((c & 0x7f) as u8 != 0xffu8) by (bit_vector);
        assert((0xc0u8 | ((c >> 6) & 0x1f) as u8) != 0xffu8) by (bit_vector);
        assert((0xe0u8 | ((c >> 12) & 0x0f) as u8) != 0xffu8) by (bit_vector);
        assert((0xf0u8 | ((c >> 18) & 0x7) as u8) != 0xffu8) by (bit_vector);
        assert((0x80u8 | (c & 0x3f) as u8) != 0xffu8) by (bit_vector);
        assert((0x80u8 | ((c >> 6) & 0x3f) as u8) != 0xffu8) by (bit_vector);
        assert((0x80u8 | ((c >> 12) & 0x3f) as u8) != 0xffu8) by (bit_vector);
        let head = vstd::utf8::encode_scalar(c);
        let rest = encode_utf8(s.drop_first());
        assert(forall|i: int| 0 <= i < head.len() ==> #[trigger] head[i] != PLACEHOLDER_RUN);
        assert forall|i: int| 0 <= i < encode_utf8(s).len() implies #[trigger] encode_utf8(s)[i]
            != PLACEHOLDER_RUN by {
            if i < head.len() {
                assert(encode_utf8(s)[i] == head[i]);
            } else {
                assert(encode_utf8(s)[i] == rest[i - head.len()]);
            }
        }
    }
}

proof fn lemma_gaps(bytes: Seq<u8>, i: int)
    requires
        0 <= i <= bytes.len(),
        forall|k: int| 0 <= k < bytes.len() ==> #[trigger] bytes[k] != PLACEHOLDER_RUN,
    ensures
        outside_runs(bytes, i) == gaps(collapsed(bytes, i)),
    decreases bytes.len() - i,
{
    if i < bytes.len() {
        if !run_byte(bytes[i]) {
            lemma_gaps(bytes, i + 1);
        } else {
            lemma_run_end(bytes, i + 1);
            let end = run_end(bytes, i);
            assert(end == run_end(bytes, i + 1));
            lemma_gaps(bytes, end);
        }
    }
    assert(outside_runs(bytes, i) =~= gaps(collapsed(bytes, i)));
}

/// Nothing but the lengths of placeholder runs is collapsed: texts that
/// collapse to the same bytes are the same everywhere else. The mark is no
/// byte of a text.
pub proof fn nothing_else_is_collapsed(a: Seq<char>, b: Seq<char>)
    requires
        collapsed(encode_utf8(a), 0) == collapsed(encode_utf8(b), 0),
    ensures
        outside_runs(encode_utf8(a), 0) == outside_runs(encode_utf8(b), 0),
{
    lemma_mark_is_no_text(a);
    lemma_mark_is_no_text(b);
    lemma_gaps(encode_utf8(a), 0);
    lemma_gaps(encode_utf8(b), 0);
}

/// Texts that are the same but for the lengths of their placeholder runs are
/// one family.
pub proof fn same_outside_runs_same_family(a: Seq<char>, b: Seq<char>)
    requires
        outside_runs(encode_utf8(a), 0) == outside_runs(encode_utf8(b), 0),
    ensures
        collapsed(encode_utf8(a), 0) == collapsed(encode_utf8(b), 0),
        family_key(a) == family_key(b),
{
    lemma_mark_is_no_text(a);
    lemma_mark_is_no_text(b);
    lemma_gaps(encode_utf8(a), 0);
    lemma_gaps(encode_utf8(b), 0);
    lemma_gaps_injective(collapsed(encode_utf8(a), 0), collapsed(encode_utf8(b), 0));
}

proof fn lemma_gaps_injective(x: Seq<u8>, y: Seq<u8>)
    requires
        gaps(x) == gaps(y),
    ensures
        x == y,
{
    assert(gaps(x).len() == x.len());
    assert(gaps(y).len() == y.len());
    assert forall|i: int| 0 <= i < x.len() implies x[i] == y[i] by {
        assert(gaps(x)[i] == gaps(y)[i]);
    }
    assert(x =~= y);
}

// ---------------------------------------------------------------------------
// Hashing and hashed collections
// ---------------------------------------------------------------------------

/// The hasher factory behind the collections below.
#[verifier::external_type_specification]
#[verifier::external_body]
pub struct ExFxBuildHasher(FxBuildHasher);

/// Hashes a text with `rustc_hash::FxHasher`, fed by `str`'s `Hash`. The
/// result depends on the text and on the machine: the hasher works in words
/// of the target's width, and never leaves them. Which number comes back for
/// a text is not said.
#[verifier::external_body]
pub fn hash_of(sql: &str) -> (hash: u64)
    ensures
        hash <= usize::MAX,
{
    let mut hasher = FxHasher::default();
    sql.hash(&mut hasher);
    hasher.finish()
}

/// An empty `rustc_hash::FxHashSet`.
#[verifier::external_body]
fn new_set() -> (fresh: HashSet<u64, FxBuildHasher>)
    ensures
        fresh@ == Set::<u64>::empty(),
{
    rustc_hash::FxHashSet::default()
}

/// `contains` of a `rustc_hash::FxHashSet`: whether the set holds the number.
#[verifier::external_body]
fn set_contains(set: &HashSet<u64, FxBuildHasher>, n: u64) -> (yes: bool)
    ensures
        yes == set@.contains(n),
{
    set.contains(&n)
}

/// `insert` of a `rustc_hash::FxHashSet`: the set holds the number too.
#[verifier::external_body]
fn set_insert(set: &mut HashSet<u64, FxBuildHasher>, n: u64)
    ensures
        final(set)@ == old(set)@.insert(n),
{
    set.insert(n);
}

/// `len` of a `rustc_hash::FxHashSet`: how many numbers the set holds.
#[verifier::external_body]
fn set_len(set: &HashSet<u64, FxBuildHasher>) -> (n: usize)
    ensures
        n == set@.len(),
{
    set.len()
}

/// An empty `rustc_hash::FxHashMap`.
#[verifier::external_body]
fn new_map() -> (fresh: HashMap<u64, Family, FxBuildHasher>)
    ensures
        (fresh@ == Map::<u64, Family>::empty()),
{
    rustc_hash::FxHashMap::default()
}

/// `get` of a `rustc_hash::FxHashMap`: what the map holds under a key.
#[verifier::external_body]
fn map_get(map: &HashMap<u64, Family, FxBuildHasher>, key: u64) -> (found: Option<Family>)
    ensures
        found == (if map@.contains_key(key) {
            Some(map@[key])
        } else {
            None
        }),
{
    map.get(&key).copied()
}

/// `insert` of a `rustc_hash::FxHashMap`: the map holds the value under the
/// key.
#[verifier::external_body]
fn map_insert(map: &mut HashMap<u64, Family, FxBuildHasher>, key: u64, value: Family)
    ensures
        final(map)@ == old(map)@.insert(key, value),
{
    map.insert(key, value);
}

/// `remove` of a `rustc_hash::FxHashMap`: the map holds nothing under the
/// key.
#[verifier::external_body]
fn map_remove(map: &mut HashMap<u64, Family, FxBuildHasher>, key: u64)
    ensures
        final(map)@ == old(map)@.remove(key),
{
    map.remove(&key);
}

// ---------------------------------------------------------------------------
// The cache
// ---------------------------------------------------------------------------

/// How much a connection caches.
#[derive(Clone, Copy, Debug, PartialEq, Eq, Structural)]
pub enum CacheSize {
    /// Statements are cached, up to the cap.
    Unbounded,
    /// No further statement is cached.
    Disabled,
}

/// What a statement family is known to be.
#[derive(Clone, Copy, Debug, PartialEq, Eq, Structural)]
pub enum Family {
    /// One text so far, by its hash. That same text seen again is the
    /// recurrence that admits it; the mark stays, because it is what a second
    /// text has to contradict.
    Single(u64),
    /// Two texts have come out of this family, so its text is a function of
    /// runtime data. Nothing from it is admitted again.
    Variadic,
}

/// What the statement cache has been doing.
#[derive(Clone, Copy, Debug, Default, PartialEq, Eq)]
pub struct StatementCacheStats {
    /// Distinct texts compiled through the engine's cache.
    pub admitted: usize,
    /// Executions served by a text admitted before.
    pub hits: u64,
    /// Executions compiled one-shot: refused, on probation, or variadic.
    pub uncached: u64,
    /// Executions that would have been admitted but for the cap.
    pub refused_at_cap: u64,
    /// Families found to generate more than one text.
    pub variadic_families: usize,
}

/// Which SQL a connection has admitted into the engine's statement cache.
#[derive(Debug)]
pub struct StatementCache {
    pub size: CacheSize,
    /// The texts admitted, by their hashes.
    pub admitted: HashSet<u64, FxBuildHasher>,
    /// The families seen once or found variadic.
    pub families: HashMap<u64, Family, FxBuildHasher>,
    /// The order in which `families` was filled, oldest first.
    pub probation_order: VecDeque<u64>,
    /// Whether the cap has been reached and that was reported.
    pub warned_at_cap: bool,
    pub hits: u64,
    pub uncached: u64,
    pub refused_at_cap: u64,
    pub variadic_families: usize,
}

/// What a [`StatementCache`] holds.
#[verifier::ext_equal]
pub struct CacheView {
    pub size: CacheSize,
    pub admitted: Set<u64>,
    pub families: Map<u64, Family>,
    pub probation_order: Seq<u64>,
    pub warned_at_cap: bool,
    pub hits: u64,
    pub uncached: u64,
    pub refused_at_cap: u64,
    pub variadic_families: usize,
}

impl View for StatementCache {
    type V = CacheView;

    open spec fn view(&self) -> CacheView {
        CacheView {
            size: self.size,
            admitted: self.admitted@,
            families: self.families@,
            probation_order: self.probation_order@,
            warned_at_cap: self.warned_at_cap,
            hits: self.hits,
            uncached: self.uncached,
            refused_at_cap: self.refused_at_cap,
            variadic_families: self.variadic_families,
        }
    }
}

impl CacheView {
    /// The cap holds, probation is bounded, and the queue lists exactly the
    /// families of the map, each once.
    pub open spec fn well_formed(self) -> bool {
        &&& self.admitted.finite()
        &&& self.admitted.len() <= MAX_CACHED_STATEMENTS
        &&& self.probation_order.len() <= MAX_PROBATION_FAMILIES
        &&& self.probation_order.no_duplicates()
        &&& forall|f: u64| self.families.contains_key(f) <==> self.probation_order.contains(f)
    }

    /// Whether no counter has reached its last value.
    pub open spec fn counters_have_room(self) -> bool {
        &&& self.hits < u64::MAX
        &&& self.uncached < u64::MAX
        &&& self.refused_at_cap < u64::MAX
        &&& self.variadic_families < usize::MAX
    }

    /// What is known of a family.
    pub open spec fn known(self, family: u64) -> Option<Family> {
        if self.families.contains_key(family) {
            Some(self.families[family])
        } else {
            None
        }
    }

    /// One more execution compiled one-shot.
    pub open spec fn with_uncached(self) -> CacheView {
        CacheView { uncached: (self.uncached + 1) as u64, ..self }
    }

    /// A family put on probation, the oldest one forgotten where that is one
    /// too many.
    pub open spec fn with_probation(self, family: u64, text: u64) -> CacheView {
        let families = self.families.insert(family, Family::Single(text));
        let order = self.probation_order.push(family);
        if order.len() > MAX_PROBATION_FAMILIES {
            CacheView {
                families: families.remove(order[0]),
                probation_order: order.skip(1),
                ..self
            }
        } else {
            CacheView { families, probation_order: order, ..self }
        }
    }

    /// What one sighting of a text teaches about its family, and whether it
    /// is the second sighting of the only text that the family has produced.
    pub open spec fn sighting(self, text: u64, family: u64) -> (CacheView, bool) {
        match self.known(family) {
            Some(Family::Variadic) => (self, false),
            Some(Family::Single(seen)) => if seen == text {
                (self, true)
            } else {
                (
                    CacheView {
                        families: self.families.insert(family, Family::Variadic),
                        variadic_families: (self.variadic_families + 1) as usize,
                        ..self
                    },
                    false,
                )
            },
            None => (self.with_probation(family, text), false),
        }
    }

    /// What becomes of a text that is fit to be admitted.
    pub open spec fn admission(self, text: u64) -> (CacheView, bool) {
        if self.admitted.len() >= MAX_CACHED_STATEMENTS {
            (
                CacheView {
                    refused_at_cap: (self.refused_at_cap + 1) as u64,
                    warned_at_cap: true,
                    ..self
                }.with_uncached(),
                false,
            )
        } else {
            (CacheView { admitted: self.admitted.insert(text), ..self }, true)
        }
    }

    /// The next state of the cache, and whether the text goes through it. A
    /// text admitted before does; one that is safe to cache does while there
    /// is room; any other has to recur first.
    pub open spec fn step(self, text: u64, family: u64, safe_to_cache: bool) -> (CacheView, bool) {
        if self.size == CacheSize::Disabled {
            (self.with_uncached(), false)
        } else if self.admitted.contains(text) {
            (CacheView { hits: (self.hits + 1) as u64, ..self }, true)
        } else if safe_to_cache {
            self.admission(text)
        } else {
            let (seen, recurs) = self.sighting(text, family);
            if recurs {
                seen.admission(text)
            } else {
                (seen.with_uncached(), false)
            }
        }
    }
}

/// A cache that has seen nothing.
pub open spec fn fresh_cache() -> CacheView {
    CacheView {
        size: CacheSize::Unbounded,
        admitted: Set::empty(),
        families: Map::empty(),
        probation_order: Seq::empty(),
        warned_at_cap: false,
        hits: 0,
        uncached: 0,
        refused_at_cap: 0,
        variadic_families: 0,
    }
}

impl Default for StatementCache {
    fn default() -> (cache: Self)
        ensures
            cache@ == fresh_cache(),
            cache@.well_formed(),
    {
        let cache = StatementCache {
            size: CacheSize::Unbounded,
            admitted: new_set(),
            families: new_map(),
            probation_order: VecDeque::new(),
            warned_at_cap: false,
            hits: 0,
            uncached: 0,
            refused_at_cap: 0,
            variadic_families: 0,
        };
        assert(cache@ =~= fresh_cache());
        cache
    }
}

proof fn lemma_probation_well_formed(c: CacheView, family: u64, text: u64)
    requires
        c.well_formed(),
        c.known(family) is None,
    ensures
        c.with_probation(family, text).well_formed(),
{
    let next = c.with_probation(family, text);
    let order = c.probation_order.push(family);
    let families = c.families.insert(family, Family::Single(text));
    assert(!c.probation_order.contains(family));
    assert(order.no_duplicates());
    assert forall|f: u64| families.contains_key(f) <==> order.contains(f) by {
        if order.contains(f) {
            let k = choose|k: int| 0 <= k < order.len() && order[k] == f;
            if k < c.probation_order.len() {
                assert(c.probation_order[k] == f);
                assert(c.probation_order.contains(f));
            }
        }
        if c.probation_order.contains(f) {
            let k = choose|k: int| 0 <= k < c.probation_order.len() && c.probation_order[k] == f;
            assert(order[k] == f);
        }
        assert(order[c.probation_order.len() as int] == family);
    }
    if order.len() > MAX_PROBATION_FAMILIES {
        let rest = order.skip(1);
        assert forall|f: u64| next.families.contains_key(f) <==> rest.contains(f) by {
            if rest.contains(f) {
                let k = choose|k: int| 0 <= k < rest.len() && rest[k] == f;
                assert(order[k + 1] == f);
                assert(order.contains(f));
                assert(order[0] != f);
            }
            if order.contains(f) && f != order[0] {
                let k = choose|k: int| 0 <= k < order.len() && order[k] == f;
                assert(rest[k - 1] == f);
            }
        }
    }
}

impl StatementCache {
    /// The counters.
    pub fn stats(&self) -> (stats: StatementCacheStats)
        ensures
            stats.admitted == self@.admitted.len(),
            stats.hits == self.hits,
            stats.uncached == self.uncached,
            stats.refused_at_cap == self.refused_at_cap,
            stats.variadic_families == self.variadic_families,
    {
        StatementCacheStats {
            admitted: set_len(&self.admitted),
            hits: self.hits,
            uncached: self.uncached,
            refused_at_cap: self.refused_at_cap,
            variadic_families: self.variadic_families,
        }
    }

    /// Whether this SQL should be compiled through the engine's cache.
    ///
    /// `safe_to_cache` says that the query's type bounds its text. A text of
    /// which that is not known is admitted when it is seen a second time and
    /// its family has produced no other: one built from runtime values never
    /// recurs, and one whose length follows a list shares its family with the
    /// other lengths.
    ///
    /// Texts are told apart by a hash. Two that share one are taken for one
    /// text, which can change whether a statement is cached and never which
    /// program runs.
    pub fn admit_statement(&mut self, sql: &str, safe_to_cache: bool) -> (cached: bool)
        requires
            old(self)@.well_formed(),
            old(self)@.counters_have_room(),
        ensures
            exists|text: u64|
                call_ensures(hash_of, (sql,), text) && (final(self)@, cached)
                    == #[trigger] old(self)@.step(text, family_key(sql@), safe_to_cache),
            final(self)@.well_formed(),
    {
        let text: u64 = hash_of(sql);
        self.admit_text(text, sql, safe_to_cache)
    }

    /// [`StatementCache::admit_statement`] for a text whose hash is `text`.
    pub fn admit_text(&mut self, text: u64, sql: &str, safe_to_cache: bool) -> (cached: bool)
        requires
            old(self)@.well_formed(),
            old(self)@.counters_have_room(),
        ensures
            (final(self)@, cached) == old(self)@.step(text, family_key(sql@), safe_to_cache),
            final(self)@.well_formed(),
    {
        if self.size == CacheSize::Disabled {
            self.uncached = self.uncached + 1;
            assert(self@ =~= old(self)@.with_uncached());
            return false;
        }
        // Asked first: a family that turns variadic later must not push out a
        // program that the engine is holding already.
        if set_contains(&self.admitted, text) {
            self.hits = self.hits + 1;
            return true;
        }
        if !safe_to_cache && !self.recurs(sql, text) {
            self.uncached = self.uncached + 1;
            assert(self@ =~= old(self)@.sighting(text, family_key(sql@)).0.with_uncached());
            return false;
        }
        if set_len(&self.admitted) >= MAX_CACHED_STATEMENTS {
            self.refused_at_cap = self.refused_at_cap + 1;
            self.warned_at_cap = true;
            self.uncached = self.uncached + 1;
            return false;
        }
        set_insert(&mut self.admitted, text);
        true
    }

    /// Whether this is the second sighting of a text from a family that has
    /// produced no other.
    fn recurs(&mut self, sql: &str, text: u64) -> (yes: bool)
        requires
            old(self)@.well_formed(),
            old(self)@.counters_have_room(),
        ensures
            (final(self)@, yes) == old(self)@.sighting(text, family_key(sql@)),
            final(self)@.well_formed(),
    {
        let family: u64 = family_of(sql);
        match map_get(&self.families, family) {
            Some(Family::Variadic) => false,
            Some(Family::Single(seen)) => {
                if seen == text {
                    true
                } else {
                    map_insert(&mut self.families, family, Family::Variadic);
                    self.variadic_families = self.variadic_families + 1;
                    assert(self@ =~= old(self)@.sighting(text, family).0);
                    false
                }
            },
            None => {
                proof {
                    lemma_probation_well_formed(self@, family, text);
                }
                map_insert(&mut self.families, family, Family::Single(text));
                self.probation_order.push_back(family);
                self.trim_probation();
                assert(self@ =~= old(self)@.with_probation(family, text));
                false
            },
        }
    }

    /// Forgets the oldest family where there is one too many, from the queue
    /// and from the map together.
    fn trim_probation(&mut self)
        requires
            old(self)@.probation_order.len() <= MAX_PROBATION_FAMILIES + 1,
        ensures
            final(self)@ == (if old(self)@.probation_order.len() > MAX_PROBATION_FAMILIES {
                CacheView {
                    families: old(self)@.families.remove(old(self)@.probation_order[0]),
                    probation_order: old(self)@.probation_order.skip(1),
                    ..old(self)@
                }
            } else {
                old(self)@
            }),
    {
        if self.probation_order.len() > MAX_PROBATION_FAMILIES {
            if let Some(oldest) = self.probation_order.pop_front() {
                map_remove(&mut self.families, oldest);
            }
            assert(self@.probation_order =~= old(self)@.probation_order.skip(1));
        }
    }

    /// Sets how much is cached from here on. Statements admitted before stay
    /// in the engine's cache.
    pub fn set_size(&mut self, size: CacheSize)
        ensures
            final(self)@ == (CacheView { size, ..old(self)@ }),
            old(self)@.well_formed() ==> final(self)@.well_formed(),
    {
        self.size = size;
    }
}

// ---------------------------------------------------------------------------
// What the policy keeps to
// ---------------------------------------------------------------------------

/// Every step keeps the cap, the bound on probation, and the map and the
/// queue in step with each other.
pub proof fn steps_keep_the_bounds(c: CacheView, text: u64, family: u64, safe_to_cache: bool)
    requires
        c.well_formed(),
    ensures
        c.step(text, family, safe_to_cache).0.well_formed(),
{
    if c.known(family) is None {
        lemma_probation_well_formed(c, family, text);
    }
}

/// A text goes through the cache exactly where the cache holds it afterwards,
/// unless the cache is disabled.
pub proof fn answer_says_what_is_held(c: CacheView, text: u64, family: u64, safe_to_cache: bool)
    requires
        c.size == CacheSize::Unbounded,
    ensures
        c.step(text, family, safe_to_cache).1 <==> c.step(
            text,
            family,
            safe_to_cache,
        ).0.admitted.contains(text),
{
}

/// Nothing is ever evicted: what the cache holds, it holds after any step.
pub proof fn admitted_texts_stay(
    c: CacheView,
    held: u64,
    text: u64,
    family: u64,
    safe_to_cache: bool,
)
    requires
        c.admitted.contains(held),
    ensures
        c.step(text, family, safe_to_cache).0.admitted.contains(held),
{
}

/// A text that the cache holds goes through it, whatever its family has
/// become since.
pub proof fn admitted_texts_hit(c: CacheView, text: u64, family: u64, safe_to_cache: bool)
    requires
        c.size == CacheSize::Unbounded,
        c.admitted.contains(text),
    ensures
        c.step(text, family, safe_to_cache) == (
            CacheView { hits: (c.hits + 1) as u64, ..c },
            true,
        ),
{
}

/// A text that is safe to cache is admitted at first sight while there is
/// room.
pub proof fn safe_texts_enter_at_once(c: CacheView, text: u64, family: u64)
    requires
        c.size == CacheSize::Unbounded,
        c.admitted.len() < MAX_CACHED_STATEMENTS,
    ensures
        c.step(text, family, true).1,
{
}

/// A text that is not known to be safe, from a family never seen, is refused
/// at its first sighting and admitted at its second while there is room.
pub proof fn second_sighting_admits(c: CacheView, text: u64, family: u64)
    requires
        c.well_formed(),
        c.size == CacheSize::Unbounded,
        c.admitted.len() < MAX_CACHED_STATEMENTS,
        !c.admitted.contains(text),
        c.known(family) is None,
    ensures
        !c.step(text, family, false).1,
        c.step(text, family, false).0.known(family) == Some(Family::Single(text)),
        c.step(text, family, false).0.step(text, family, false).1,
{
    let next = c.with_probation(family, text);
    if next.probation_order.len() == MAX_PROBATION_FAMILIES && c.probation_order.len()
        == MAX_PROBATION_FAMILIES {
        assert(c.probation_order.contains(c.probation_order[0]));
        assert(c.probation_order.push(family)[0] == c.probation_order[0]);
    }
}

/// A second text under one family closes the family: neither that text nor
/// any other that the cache does not hold yet is admitted from it while the
/// mark is kept.
pub proof fn a_second_text_closes_the_family(
    c: CacheView,
    first: u64,
    second: u64,
    later: u64,
    family: u64,
)
    requires
        c.size == CacheSize::Unbounded,
        c.known(family) == Some(Family::Single(first)),
        first != second,
        !c.admitted.contains(second),
        !c.admitted.contains(later),
    ensures
        !c.step(second, family, false).1,
        c.step(second, family, false).0.known(family) == Some(Family::Variadic),
        c.step(second, family, false).0.admitted == c.admitted,
        !c.step(second, family, false).0.step(later, family, false).1,
{
}

/// A family found variadic stays so, and admits nothing, through every step
/// on a text that is not safe to cache and is not held yet.
pub proof fn variadic_families_admit_nothing(c: CacheView, text: u64, family: u64)
    requires
        c.size == CacheSize::Unbounded,
        c.known(family) == Some(Family::Variadic),
        !c.admitted.contains(text),
    ensures
        c.step(text, family, false) == (c.with_uncached(), false),
{
}

/// Only one text of a family can enter by recurrence: the one that the family
/// is marked with.
pub proof fn only_the_marked_text_recurs(c: CacheView, text: u64, family: u64)
    requires
        c.size == CacheSize::Unbounded,
        !c.admitted.contains(text),
        c.step(text, family, false).1,
    ensures
        c.known(family) == Some(Family::Single(text)),
        c.step(text, family, false).0.families == c.families,
{
}

/// At the cap nothing new is admitted, and every refusal of a text that would
/// have been is counted and reported.
pub proof fn the_cap_refuses_and_counts(c: CacheView, text: u64, family: u64)
    requires
        c.size == CacheSize::Unbounded,
        c.admitted.len() >= MAX_CACHED_STATEMENTS,
        !c.admitted.contains(text),
    ensures
        c.step(text, family, true) == (
            CacheView {
                refused_at_cap: (c.refused_at_cap + 1) as u64,
                uncached: (c.uncached + 1) as u64,
                warned_at_cap: true,
                ..c
            },
            false,
        ),
        !c.step(text, family, false).1,
        c.known(family) == Some(Family::Single(text)) ==> c.step(text, family, false).0
            == c.step(text, family, true).0,
{
}

/// A disabled cache admits nothing, learns nothing, and counts the execution
/// as uncached.
pub proof fn disabled_admits_nothing(c: CacheView, text: u64, family: u64, safe_to_cache: bool)
    requires
        c.size == CacheSize::Disabled,
    ensures
        c.step(text, family, safe_to_cache) == (
            CacheView { uncached: (c.uncached + 1) as u64, ..c },
            false,
        ),
{
}

/// Forgetting is oldest first and one at a time: a sighting of a new family
/// keeps every mark but that of the oldest family, and that one only where
/// probation is full.
pub proof fn only_the_oldest_is_forgotten(c: CacheView, text: u64, family: u64, other: u64)
    requires
        c.well_formed(),
        c.known(family) is None,
        c.known(other) is Some,
        c.probation_order.len() < MAX_PROBATION_FAMILIES || other != c.probation_order[0],
    ensures
        c.sighting(text, family).0.known(other) == c.known(other),
{
    if c.probation_order.len() == MAX_PROBATION_FAMILIES {
        assert(c.probation_order.push(family)[0] == c.probation_order[0]);
    }
}

/// A family that was forgotten is learned anew: its next text is a first
/// sighting again.
pub proof fn a_forgotten_family_starts_over(c: CacheView, text: u64, family: u64)
    requires
        c.well_formed(),
        c.size == CacheSize::Unbounded,
        c.probation_order.len() == MAX_PROBATION_FAMILIES,
        c.known(family) is None,
        !c.admitted.contains(text),
    ensures
        c.step(text, family, false).0.known(c.probation_order[0]) is None,
{
    assert(c.probation_order.push(family)[0] == c.probation_order[0]);
}

/// Every execution is counted once: as a hit, as one compiled one-shot, or as
/// an admission. A refusal at the cap is one of those compiled one-shot.
pub proof fn every_execution_is_counted_once(
    c: CacheView,
    text: u64,
    family: u64,
    safe_to_cache: bool,
)
    requires
        c.well_formed(),
        c.counters_have_room(),
    ensures
        ({
            let (next, cached) = c.step(text, family, safe_to_cache);
            &&& next.hits + next.uncached + next.admitted.len() == c.hits + c.uncached
                + c.admitted.len() + 1
            &&& next.hits == c.hits + 1 <==> c.size == CacheSize::Unbounded && c.admitted.contains(
                text,
            )
            &&& next.uncached == c.uncached + 1 <==> !cached
            &&& c.uncached <= next.uncached && c.hits <= next.hits
            &&& next.refused_at_cap - c.refused_at_cap <= next.uncached - c.uncached
            &&& next.refused_at_cap == c.refused_at_cap || next.refused_at_cap == c.refused_at_cap
                + 1
            &&& next.refused_at_cap > c.refused_at_cap ==> next.warned_at_cap && c.admitted.len()
                == 512
            &&& next.warned_at_cap != c.warned_at_cap ==> next.refused_at_cap > c.refused_at_cap
            &&& next.size == c.size
        }),
{
}

/// What an execution may change: it admits its own text or none, and it turns
/// at most its own family variadic, which is counted; a family is otherwise
/// only learned with the text that was seen, behind all that were learned
/// before it, or forgotten for it.
pub proof fn an_execution_touches_its_own_text_and_family(
    c: CacheView,
    text: u64,
    family: u64,
    other: u64,
    safe_to_cache: bool,
)
    requires
        c.well_formed(),
        c.counters_have_room(),
        other != family,
    ensures
        ({
            let next = c.step(text, family, safe_to_cache).0;
            &&& next.admitted == c.admitted || next.admitted == c.admitted.insert(text)
            &&& safe_to_cache ==> next.families == c.families && next.probation_order
                == c.probation_order
            &&& next.known(other) == c.known(other) || (next.known(other) is None && other
                == c.probation_order[0] && c.probation_order.len() == 512 && c.known(family) is None)
            &&& next.known(family) == c.known(family) || next.known(family) == Some(
                Family::Single(text),
            ) || next.known(family) == Some(Family::Variadic)
            &&& next.known(family) == Some(Family::Variadic) && c.known(family) != Some(
                Family::Variadic,
            ) <==> next.variadic_families == c.variadic_families + 1
            &&& next.variadic_families == c.variadic_families || next.variadic_families
                == c.variadic_families + 1
            &&& next.probation_order != c.probation_order ==> next.probation_order.last() == family
                && c.known(family) is None
            &&& c.known(family) is Some ==> next.probation_order == c.probation_order
        }),
{
    let order = c.probation_order;
    if c.known(family) is None && order.len() == MAX_PROBATION_FAMILIES {
        assert(order.push(family)[0] == order[0]);
    }
}

/// The limits, and the mark of a run, which is no byte of any text.
pub proof fn limits_and_mark(sql: Seq<char>)
    ensures
        MAX_CACHED_STATEMENTS == 512,
        MAX_PROBATION_FAMILIES == 512,
        forall|i: int|
            0 <= i < encode_utf8(sql).len() ==> #[trigger] encode_utf8(sql)[i] != PLACEHOLDER_RUN,
{
    lemma_mark_is_no_text(sql);
}

/// A run is made of placeholders, commas, parentheses, spaces, tabs and line
/// ends, and of nothing else.
pub proof fn runs_are_made_of_list_bytes(b: u8)
    ensures
        run_byte(b) <==> b == '?' as u8 || b == ',' as u8 || b == '(' as u8 || b == ')' as u8 || b
            == ' ' as u8 || b == '\t' as u8 || b == '\n' as u8 || b == '\r' as u8,
{
}

/// What a text collapses to, from its first bytes on: a byte of no run stays,
/// a whole run stays where it holds no placeholder, and is one mark where it
/// holds one.
pub proof fn texts_collapse_run_by_run(b: u8, run: Seq<u8>, rest: Seq<u8>)
    requires
        !run_byte(b),
        forall|i: int| 0 <= i < run.len() ==> run_byte(#[trigger] run[i]),
        rest.len() > 0 ==> !run_byte(rest[0]),
    ensures
        collapsed(Seq::empty(), 0) == Seq::<u8>::empty(),
        collapsed(seq![b] + rest, 0) == seq![b] + collapsed(rest, 0),
        run.contains(0x3f) ==> collapsed(run + rest, 0) == seq![0xffu8] + collapsed(rest, 0),
        !run.contains(0x3f) ==> collapsed(run + rest, 0) == run + collapsed(rest, 0),
{
    assert((seq![b] + rest)[0] == b);
    lemma_collapsed_shift(seq![b], rest, 0);
    if run.contains(0x3f) {
        lemma_collapsed_run(run, rest);
    } else if run.len() > 0 {
        let all = run + rest;
        let n = run.len() as int;
        assert(all[0] == run[0] && run_byte(run[0]));
        assert forall|k: int| 0 <= k < n implies run_byte(#[trigger] all[k]) by {
            assert(run_byte(run[k]));
        }
        lemma_run_spans(all, 0, n);
        if holds_placeholder(all, 0, n) {
            let k = choose|k: int| 0 <= k < n && all[k] == 0x3f;
            assert(run[k] == 0x3f);
        }
        lemma_collapsed_shift(run, rest, 0);
        assert(all.subrange(0, n) =~= run);
    } else {
        assert(run + rest =~= rest);
        assert(run + collapsed(rest, 0) =~= collapsed(rest, 0));
    }
}

/// The family of a text is the hash of all the bytes that it collapses to, one
/// by one and in order.
pub proof fn families_are_hashes_of_what_is_left(sql: Seq<char>, writes: Seq<Seq<u8>>)
    requires
        writes.len() == collapsed(encode_utf8(sql), 0).len(),
        forall|i: int|
            0 <= i < writes.len() ==> #[trigger] writes[i] == seq![
                collapsed(encode_utf8(sql), 0)[i],
            ],
    ensures
        family_key(sql) == DefaultHasher::spec_finish(writes),
{
    assert(writes =~= single_writes(collapsed(encode_utf8(sql), 0)));
}

/// A cache that has seen nothing holds nothing, has counted nothing and is
/// not disabled.
pub proof fn fresh_caches_are_empty(text: u64, family: u64)
    ensures
        fresh_cache().size == CacheSize::Unbounded,
        !fresh_cache().admitted.contains(text),
        fresh_cache().admitted.len() == 0,
        fresh_cache().known(family) is None,
        fresh_cache().probation_order.len() == 0,
        !fresh_cache().warned_at_cap,
        fresh_cache().hits + fresh_cache().uncached + fresh_cache().refused_at_cap
            + fresh_cache().variadic_families == 0,
        fresh_cache().well_formed(),
{
}

} // verus!
