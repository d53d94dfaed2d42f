//! Poster URLs kept in memory, those used longest ago dropped first.

use lru::LruCache;
use std::num::NonZeroUsize;
use vstd::prelude::*;

use crate::text;

verus! {

/// `lru::LruCache`, a cache of bounded size.
#[verifier::external_type_specification]
#[verifier::external_body]
#[verifier::reject_recursive_types(K)]
#[verifier::reject_recursive_types(V)]
#[verifier::reject_recursive_types(S)]
pub struct ExLruCache<K, V, S>(lru::LruCache<K, V, S>);

/// `lru::DefaultHasher`, which an `lru::LruCache` carries.
#[verifier::external_type_specification]
#[verifier::external_body]
pub struct ExDefaultHasher(lru::DefaultHasher);

/// The keys and values in an `lru::LruCache`, the one used last first.
pub uninterp spec fn cache_entries(cache: LruCache<u64, String>) -> Seq<(u64, Seq<char>)>;

/// How many keys an `lru::LruCache` was made to hold at most.
pub uninterp spec fn cache_limit(cache: LruCache<u64, String>) -> nat;

/// The value of a key.
pub open spec fn lookup(entries: Seq<(u64, Seq<char>)>, key: u64) -> Option<Seq<char>>
    decreases entries.len(),
{
    if entries.len() == 0 {
        None
    } else if entries.first().0 == key {
        Some(entries.first().1)
    } else {
        lookup(entries.drop_first(), key)
    }
}

/// The entries but that of a key.
pub open spec fn without(entries: Seq<(u64, Seq<char>)>, key: u64) -> Seq<(u64, Seq<char>)> {
    entries.filter(|entry: (u64, Seq<char>)| entry.0 != key)
}

/// The entries after a key was looked up: its entry comes first, if there is one.
pub open spec fn touched(entries: Seq<(u64, Seq<char>)>, key: u64) -> Seq<(u64, Seq<char>)> {
    match lookup(entries, key) {
        Some(value) => seq![(key, value)] + without(entries, key),
        None => entries,
    }
}

/// The entries after a key was given a value: its entry comes first. If the key is new and
/// there is no room, the entry used longest ago is gone.
pub open spec fn stored(
    entries: Seq<(u64, Seq<char>)>,
    limit: nat,
    key: u64,
    value: Seq<char>,
) -> Seq<(u64, Seq<char>)> {
    if lookup(entries, key) is Some {
        seq![(key, value)] + without(entries, key)
    } else if entries.len() == limit {
        seq![(key, value)] + entries.drop_last()
    } else {
        seq![(key, value)] + entries
    }
}

/// Whether the entries are within the limit and no key occurs twice.
pub open spec fn orderly(entries: Seq<(u64, Seq<char>)>, limit: nat) -> bool {
    &&& 0 < limit
    &&& entries.len() <= limit
    &&& forall|i: int, j: int|
        0 <= i < j < entries.len() ==> (#[trigger] entries[i]).0 != (#[trigger] entries[j]).0
}

/// `lru::LruCache::new`: a cache for `limit` keys, with none in it. A limit that is far
/// beyond what memory holds is left out.
#[verifier::external_body]
pub(crate) fn new_cache(limit: usize) -> (cache: LruCache<u64, String>)
    requires
        0 < limit <= 65_536,
    ensures
        cache_entries(cache) == Seq::<(u64, Seq<char>)>::empty(),
        cache_limit(cache) == limit,
{
    LruCache::new(NonZeroUsize::new(limit).unwrap())
}

/// `lru::LruCache::get`: the value of a key, if it has one; its entry then counts as the
/// one used last.
#[verifier::external_body]
pub(crate) fn cache_get(cache: &mut LruCache<u64, String>, key: u64) -> (value: Option<String>)
    ensures
        text::optional_text(value) == lookup(cache_entries(*old(cache)), key),
        cache_entries(*final(cache)) == touched(cache_entries(*old(cache)), key),
        cache_limit(*final(cache)) == cache_limit(*old(cache)),
{
    cache.get(&key).cloned()
}

/// `lru::LruCache::put`: gives a key a value; its entry then counts as the one used last.
/// Where the key is new and the cache full, the entry used longest ago is dropped. What
/// comes back is the value that the key had.
#[verifier::external_body]
pub(crate) fn cache_put(cache: &mut LruCache<u64, String>, key: u64, value: String) -> (before:
    Option<String>)
    ensures
        text::optional_text(before) == lookup(cache_entries(*old(cache)), key),
        cache_entries(*final(cache)) == stored(
            cache_entries(*old(cache)),
            cache_limit(*old(cache)),
            key,
            value@,
        ),
        cache_limit(*final(cache)) == cache_limit(*old(cache)),
{
    cache.put(key, value)
}

/// A value that was stored is what a lookup gives back.
pub proof fn law_stored_value_is_found(
    entries: Seq<(u64, Seq<char>)>,
    limit: nat,
    key: u64,
    value: Seq<char>,
)
    ensures
        lookup(stored(entries, limit, key, value), key) == Some(value),
{
    assert(stored(entries, limit, key, value).first() == (key, value));
}

/// Looking a key up changes no value.
pub proof fn law_lookup_keeps_values(entries: Seq<(u64, Seq<char>)>, key: u64, other: u64)
    ensures
        lookup(touched(entries, key), other) == lookup(entries, other),
{
    if let Some(value) = lookup(entries, key) {
        let rest = without(entries, key);
        assert(touched(entries, key).drop_first() == rest);
        assert(touched(entries, key).first() == (key, value));
        if other != key {
            lemma_lookup_without(entries, key, other);
        }
    }
}

/// As long as there is room, or the key is not new, storing a value changes no other.
pub proof fn law_storing_keeps_other_values(
    entries: Seq<(u64, Seq<char>)>,
    limit: nat,
    key: u64,
    value: Seq<char>,
    other: u64,
)
    requires
        other != key,
        lookup(entries, key) is Some || entries.len() < limit,
    ensures
        lookup(stored(entries, limit, key, value), other) == lookup(entries, other),
{
    let after = stored(entries, limit, key, value);
    assert(after.first() == (key, value));
    if lookup(entries, key) is Some {
        assert(after.drop_first() == without(entries, key));
        lemma_lookup_without(entries, key, other);
    } else {
        assert(after.drop_first() == entries);
    }
}

/// Looking a key up keeps the entries within the limit and the keys distinct.
pub proof fn law_lookup_keeps_order(entries: Seq<(u64, Seq<char>)>, limit: nat, key: u64)
    requires
        orderly(entries, limit),
    ensures
        orderly(touched(entries, key), limit),
{
    if let Some(value) = lookup(entries, key) {
        lemma_without_orderly(entries, limit, key);
        lemma_without_shorter(entries, key);
    }
}

/// Storing a value keeps the entries within the limit and the keys distinct.
pub proof fn law_storing_keeps_order(
    entries: Seq<(u64, Seq<char>)>,
    limit: nat,
    key: u64,
    value: Seq<char>,
)
    requires
        orderly(entries, limit),
    ensures
        orderly(stored(entries, limit, key, value), limit),
{
    if lookup(entries, key) is Some {
        lemma_without_orderly(entries, limit, key);
        lemma_without_shorter(entries, key);
    } else {
        lemma_absent(entries, key);
    }
}

/// A key without value is the key of no entry.
proof fn lemma_absent(entries: Seq<(u64, Seq<char>)>, key: u64)
    requires
        lookup(entries, key) is None,
    ensures
        forall|i: int| 0 <= i < entries.len() ==> (#[trigger] entries[i]).0 != key,
    decreases entries.len(),
{
    if entries.len() > 0 {
        let rest = entries.drop_first();
        lemma_absent(rest, key);
        assert forall|i: int| 0 <= i < entries.len() implies (#[trigger] entries[i]).0 != key by {
            if i > 0 {
                assert(rest[i - 1] == entries[i]);
            }
        }
    }
}

/// Leaving out one key changes no other's value.
proof fn lemma_lookup_without(entries: Seq<(u64, Seq<char>)>, key: u64, other: u64)
    requires
        other != key,
    ensures
        lookup(without(entries, key), other) == lookup(entries, other),
    decreases entries.len(),
{
    let keep = |entry: (u64, Seq<char>)| entry.0 != key;
    if entries.len() > 0 {
        let rest = entries.drop_first();
        lemma_lookup_without(rest, key, other);
        lemma_filter_first(entries, key);
        if keep(entries.first()) {
            let kept = without(entries, key);
            assert(kept.drop_first() == without(rest, key));
            assert(kept.first() == entries.first());
        }
    } else {
        reveal(Seq::filter);
    }
}

/// Leaving out a key, seen from the first entry.
proof fn lemma_filter_first(entries: Seq<(u64, Seq<char>)>, key: u64)
    requires
        entries.len() > 0,
    ensures
        without(entries, key) == if entries.first().0 != key {
            seq![entries.first()] + without(entries.drop_first(), key)
        } else {
            without(entries.drop_first(), key)
        },
    decreases entries.len(),
{
    let keep = |entry: (u64, Seq<char>)| entry.0 != key;
    reveal(Seq::filter);
    if entries.len() == 1 {
        assert(entries.drop_last() == Seq::<(u64, Seq<char>)>::empty());
        assert(entries.drop_first() == Seq::<(u64, Seq<char>)>::empty());
        assert(entries.drop_last().filter(keep) == Seq::<(u64, Seq<char>)>::empty());
    } else {
        lemma_filter_first(entries.drop_last(), key);
        assert(entries.drop_last().drop_first() == entries.drop_first().drop_last());
        assert(entries.drop_first().last() == entries.last());
    }
}

/// Leaving out a key keeps the entries within the limit and distinct, and leaves none of it.
proof fn lemma_without_orderly(entries: Seq<(u64, Seq<char>)>, limit: nat, key: u64)
    requires
        orderly(entries, limit),
    ensures
        orderly(without(entries, key), limit),
        forall|i: int|
            0 <= i < without(entries, key).len() ==> (#[trigger] without(entries, key)[i]).0 != key,
        forall|i: int|
            0 <= i < without(entries, key).len() ==> exists|j: int|
                0 <= j < entries.len() && entries[j] == #[trigger] without(entries, key)[i],
    decreases entries.len(),
{
    reveal(Seq::filter);
    if entries.len() > 0 {
        let front = entries.drop_last();
        lemma_without_orderly(front, limit, key);
        let kept = without(front, key);
        assert forall|i: int| 0 <= i < kept.len() implies exists|j: int|
            0 <= j < front.len() && entries[j] == #[trigger] kept[i] by {
            let j = choose|j: int| 0 <= j < front.len() && front[j] == kept[i];
            assert(entries[j] == kept[i]);
        }
        assert forall|i: int| 0 <= i < kept.len() implies (#[trigger] kept[i]).0
            != entries.last().0 by {
            let j = choose|j: int| 0 <= j < front.len() && entries[j] == kept[i];
            assert(entries[j].0 != entries[entries.len() - 1].0);
        }
    }
}

/// Leaving out a key that has a value leaves fewer entries.
proof fn lemma_without_shorter(entries: Seq<(u64, Seq<char>)>, key: u64)
    ensures
        without(entries, key).len() <= entries.len(),
        lookup(entries, key) is Some ==> without(entries, key).len() < entries.len(),
    decreases entries.len(),
{
    if entries.len() > 0 {
        lemma_filter_first(entries, key);
        lemma_without_shorter(entries.drop_first(), key);
    } else {
        reveal(Seq::filter);
    }
}

// ---------------------------------------------------------------------------
// How long a value stays
// ---------------------------------------------------------------------------
/// A use of the cache.
pub ghost enum CacheUse {
    /// A key is looked up.
    Lookup(u64),
    /// A key is given a value.
    Store(u64, Seq<char>),
}

impl CacheUse {
    /// The key that is looked up or given a value.
    pub open spec fn key(self) -> u64 {
        match self {
            CacheUse::Lookup(key) => key,
            CacheUse::Store(key, _) => key,
        }
    }

    /// The entries after the use.
    pub open spec fn entries(self, entries: Seq<(u64, Seq<char>)>, limit: nat) -> Seq<
        (u64, Seq<char>),
    > {
        match self {
            CacheUse::Lookup(key) => touched(entries, key),
            CacheUse::Store(key, value) => stored(entries, limit, key, value),
        }
    }

    /// Whether the use makes an entry the one used last: a lookup does if it finds a value.
    pub open spec fn finds(self, entries: Seq<(u64, Seq<char>)>) -> bool {
        match self {
            CacheUse::Lookup(key) => lookup(entries, key) is Some,
            CacheUse::Store(_, _) => true,
        }
    }
}

/// The entries after one use after the other.
pub open spec fn after_uses(
    entries: Seq<(u64, Seq<char>)>,
    limit: nat,
    uses: Seq<CacheUse>,
) -> Seq<(u64, Seq<char>)>
    decreases uses.len(),
{
    if uses.len() == 0 {
        entries
    } else {
        uses.last().entries(after_uses(entries, limit, uses.drop_last()), limit)
    }
}

/// These keys and the one that a use finds or stores, if that is not `key`.
pub open spec fn with_used(
    keys: Set<u64>,
    entries: Seq<(u64, Seq<char>)>,
    last: CacheUse,
    key: u64,
) -> Set<u64> {
    if last.key() != key && last.finds(entries) {
        keys.insert(last.key())
    } else {
        keys
    }
}

/// The keys other than `key` that were found or stored in these uses.
pub open spec fn others_used(
    entries: Seq<(u64, Seq<char>)>,
    limit: nat,
    uses: Seq<CacheUse>,
    key: u64,
) -> Set<u64>
    decreases uses.len(),
{
    if uses.len() == 0 {
        Set::empty()
    } else {
        with_used(
            others_used(entries, limit, uses.drop_last(), key),
            after_uses(entries, limit, uses.drop_last()),
            uses.last(),
            key,
        )
    }
}

/// Whether `key` has its value at place `at`, with none but these keys before it.
spec fn stands(
    entries: Seq<(u64, Seq<char>)>,
    at: int,
    key: u64,
    value: Seq<char>,
    ahead: Set<u64>,
) -> bool {
    &&& 0 <= at < entries.len()
    &&& entries[at] == (key, value)
    &&& forall|j: int| 0 <= j < at ==> ahead.contains((#[trigger] entries[j]).0)
}

/// The value used last stays until as many other keys were found or stored as the cache
/// holds.
pub proof fn law_value_stays_until_pushed_out(
    entries: Seq<(u64, Seq<char>)>,
    limit: nat,
    uses: Seq<CacheUse>,
    key: u64,
    value: Seq<char>,
)
    requires
        orderly(entries, limit),
        entries.len() > 0,
        entries.first() == (key, value),
        forall|i: int| 0 <= i < uses.len() && uses[i] is Store ==> (#[trigger] uses[i]).key() != key,
        others_used(entries, limit, uses, key).len() < limit,
    ensures
        lookup(after_uses(entries, limit, uses), key) == Some(value),
{
    lemma_stands_after(entries, limit, uses, key, value);
    let after = after_uses(entries, limit, uses);
    let ahead = others_used(entries, limit, uses, key);
    let at = choose|at: int| stands(after, at, key, value, ahead);
    lemma_lookup_at(after, limit, at);
}

/// Storing as many other keys as the cache holds pushes a value out.
pub proof fn law_enough_others_push_a_value_out(
    entries: Seq<(u64, Seq<char>)>,
    limit: nat,
    uses: Seq<CacheUse>,
    key: u64,
)
    requires
        orderly(entries, limit),
        uses.len() == limit,
        forall|i: int|
            0 <= i < uses.len() ==> (#[trigger] uses[i]) is Store && uses[i].key() != key,
        forall|i: int, j: int|
            0 <= i < j < uses.len() ==> (#[trigger] uses[i]).key() != (#[trigger] uses[j]).key(),
    ensures
        lookup(after_uses(entries, limit, uses), key) is None,
{
    lemma_stored_stand_first(entries, limit, uses);
    let after = after_uses(entries, limit, uses);
    assert forall|j: int| 0 <= j < after.len() implies (#[trigger] after[j]).0 != key by {
        assert(after[j].0 == uses[uses.len() - 1 - j].key());
    }
    lemma_no_value(after, key);
}

/// The entries stay orderly, and the key stands behind none but the others used.
proof fn lemma_stands_after(
    entries: Seq<(u64, Seq<char>)>,
    limit: nat,
    uses: Seq<CacheUse>,
    key: u64,
    value: Seq<char>,
)
    requires
        orderly(entries, limit),
        entries.len() > 0,
        entries.first() == (key, value),
        forall|i: int| 0 <= i < uses.len() && uses[i] is Store ==> (#[trigger] uses[i]).key() != key,
        others_used(entries, limit, uses, key).len() < limit,
    ensures
        orderly(after_uses(entries, limit, uses), limit),
        others_used(entries, limit, uses, key).finite(),
        !others_used(entries, limit, uses, key).contains(key),
        exists|at: int|
            stands(
                after_uses(entries, limit, uses),
                at,
                key,
                value,
                others_used(entries, limit, uses, key),
            ),
    decreases uses.len(),
{
    lemma_others_finite(entries, limit, uses, key);
    if uses.len() == 0 {
        assert(stands(entries, 0, key, value, others_used(entries, limit, uses, key)));
    } else {
        let front = uses.drop_last();
        lemma_others_finite(entries, limit, front, key);
        let before = others_used(entries, limit, front, key);
        let ahead = others_used(entries, limit, uses, key);
        vstd::set_lib::lemma_len_subset(before, ahead);
        assert forall|i: int| 0 <= i < front.len() && front[i] is Store implies (
        #[trigger] front[i]).key() != key by {
            assert(front[i] == uses[i]);
        }
        lemma_stands_after(entries, limit, front, key, value);
        let now = after_uses(entries, limit, front);
        let at = choose|at: int| stands(now, at, key, value, before);
        assert(uses.last() == uses[uses.len() - 1]);
        lemma_one_use(now, limit, uses.last(), at, key, value, before);
    }
}

/// The others used are finitely many, and the key is none of them.
proof fn lemma_others_finite(
    entries: Seq<(u64, Seq<char>)>,
    limit: nat,
    uses: Seq<CacheUse>,
    key: u64,
)
    ensures
        others_used(entries, limit, uses, key).finite(),
        !others_used(entries, limit, uses, key).contains(key),
        uses.len() > 0 ==> others_used(entries, limit, uses.drop_last(), key).subset_of(
            others_used(entries, limit, uses, key),
        ),
    decreases uses.len(),
{
    if uses.len() > 0 {
        lemma_others_finite(entries, limit, uses.drop_last(), key);
    }
}

/// One use moves the key back behind what was used, and no further.
proof fn lemma_one_use(
    entries: Seq<(u64, Seq<char>)>,
    limit: nat,
    last: CacheUse,
    at: int,
    key: u64,
    value: Seq<char>,
    before: Set<u64>,
)
    requires
        orderly(entries, limit),
        before.finite(),
        stands(entries, at, key, value, before),
        last is Store ==> last.key() != key,
        with_used(before, entries, last, key).len() < limit,
    ensures
        orderly(last.entries(entries, limit), limit),
        exists|p: int|
            stands(
                last.entries(entries, limit),
                p,
                key,
                value,
                with_used(before, entries, last, key),
            ),
{
    let used = last.key();
    let after = last.entries(entries, limit);
    let ahead = with_used(before, entries, last, key);
    match last {
        CacheUse::Lookup(k) => law_lookup_keeps_order(entries, limit, k),
        CacheUse::Store(k, v) => law_storing_keeps_order(entries, limit, k, v),
    }
    if !last.finds(entries) {
        assert(after == entries);
        assert(stands(after, at, key, value, ahead));
    } else if used == key {
        lemma_lookup_at(entries, limit, at);
        assert(after.first() == (key, value));
        assert(stands(after, 0, key, value, ahead));
    } else {
        if lookup(entries, used) is Some {
            lemma_stands_without(entries, used, at, key, value, before);
            let rest = without(entries, used);
            let q = choose|q: int| stands(rest, q, key, value, before);
            assert(after.drop_first() == rest);
            assert forall|j: int| 0 <= j < q + 1 implies ahead.contains((#[trigger] after[j]).0) by {
                if j > 0 {
                    assert(after[j] == rest[j - 1]);
                }
            }
            assert(after[q + 1] == rest[q]);
            assert(stands(after, q + 1, key, value, ahead));
        } else {
            lemma_absent(entries, used);
            if entries.len() == limit && at == entries.len() - 1 {
                let keys = Seq::new(at as nat, |j: int| entries[j].0).push(used);
                assert(keys.no_duplicates());
                keys.unique_seq_to_set();
                assert(keys.to_set().subset_of(ahead)) by {
                    assert forall|k: u64| keys.to_set().contains(k) implies ahead.contains(k) by {
                        let j = choose|j: int| 0 <= j < keys.len() && keys[j] == k;
                        if j < at {
                            assert(keys[j] == entries[j].0);
                        }
                    }
                }
                vstd::set_lib::lemma_len_subset(keys.to_set(), ahead);
            }
            assert forall|j: int| 0 <= j < at + 1 implies ahead.contains((#[trigger] after[j]).0) by {
                if j > 0 {
                    assert(after[j] == entries[j - 1]);
                }
            }
            assert(after[at + 1] == entries[at]);
            assert(stands(after, at + 1, key, value, ahead));
        }
    }
}

/// A key that stands somewhere has the value there.
proof fn lemma_lookup_at(entries: Seq<(u64, Seq<char>)>, limit: nat, at: int)
    requires
        orderly(entries, limit),
        0 <= at < entries.len(),
    ensures
        lookup(entries, entries[at].0) == Some(entries[at].1),
    decreases entries.len(),
{
    if at > 0 {
        let rest = entries.drop_first();
        assert(entries[0].0 != entries[at].0);
        assert forall|i: int, j: int| 0 <= i < j < rest.len() implies (#[trigger] rest[i]).0 != (
        #[trigger] rest[j]).0 by {
            assert(entries[i + 1].0 != entries[j + 1].0);
        }
        lemma_lookup_at(rest, limit, at - 1);
        assert(rest[at - 1] == entries[at]);
    }
}

/// Leaving out another key moves a key forward, if at all.
proof fn lemma_stands_without(
    entries: Seq<(u64, Seq<char>)>,
    other: u64,
    at: int,
    key: u64,
    value: Seq<char>,
    ahead: Set<u64>,
)
    requires
        other != key,
        stands(entries, at, key, value, ahead),
    ensures
        exists|q: int| stands(without(entries, other), q, key, value, ahead),
    decreases entries.len(),
{
    lemma_filter_first(entries, other);
    let kept = without(entries, other);
    if at == 0 {
        assert(kept[0] == entries[0]);
        assert(stands(kept, 0, key, value, ahead));
    } else {
        let rest = entries.drop_first();
        assert forall|j: int| 0 <= j < at - 1 implies ahead.contains((#[trigger] rest[j]).0) by {
            assert(rest[j] == entries[j + 1]);
        }
        assert(stands(rest, at - 1, key, value, ahead));
        lemma_stands_without(rest, other, at - 1, key, value, ahead);
        let less = without(rest, other);
        let q = choose|q: int| stands(less, q, key, value, ahead);
        if entries.first().0 != other {
            assert forall|j: int| 0 <= j < q + 1 implies ahead.contains((#[trigger] kept[j]).0) by {
                if j > 0 {
                    assert(kept[j] == less[j - 1]);
                } else {
                    assert(kept[0] == entries[0]);
                }
            }
            assert(kept[q + 1] == less[q]);
            assert(stands(kept, q + 1, key, value, ahead));
        } else {
            assert(stands(kept, q, key, value, ahead));
        }
    }
}

/// A key of no entry has no value.
proof fn lemma_no_value(entries: Seq<(u64, Seq<char>)>, key: u64)
    requires
        forall|i: int| 0 <= i < entries.len() ==> (#[trigger] entries[i]).0 != key,
    ensures
        lookup(entries, key) is None,
    decreases entries.len(),
{
    if entries.len() > 0 {
        let rest = entries.drop_first();
        assert(entries[0].0 != key);
        assert forall|i: int| 0 <= i < rest.len() implies (#[trigger] rest[i]).0 != key by {
            assert(rest[i] == entries[i + 1]);
        }
        lemma_no_value(rest, key);
    }
}

/// Distinct keys that were stored stand first, the last one in front.
proof fn lemma_stored_stand_first(
    entries: Seq<(u64, Seq<char>)>,
    limit: nat,
    uses: Seq<CacheUse>,
)
    requires
        orderly(entries, limit),
        uses.len() <= limit,
        forall|i: int| 0 <= i < uses.len() ==> (#[trigger] uses[i]) is Store,
        forall|i: int, j: int|
            0 <= i < j < uses.len() ==> (#[trigger] uses[i]).key() != (#[trigger] uses[j]).key(),
    ensures
        orderly(after_uses(entries, limit, uses), limit),
        uses.len() <= after_uses(entries, limit, uses).len(),
        forall|j: int|
            0 <= j < uses.len() ==> (#[trigger] after_uses(entries, limit, uses)[j]).0
                == uses[uses.len() - 1 - j].key(),
    decreases uses.len(),
{
    if uses.len() > 0 {
        let front = uses.drop_last();
        let n = front.len() as int;
        lemma_stored_stand_first(entries, limit, front);
        let now = after_uses(entries, limit, front);
        let after = after_uses(entries, limit, uses);
        let last = uses[n];
        law_storing_keeps_order(now, limit, last->Store_0, last->Store_1);
        assert forall|j: int| 0 <= j < n implies (#[trigger] now[j]).0 != last.key() by {
            assert(now[j].0 == front[n - 1 - j].key());
            assert(front[n - 1 - j] == uses[n - 1 - j]);
        }
        if lookup(now, last.key()) is Some {
            lemma_without_front(now, last.key(), n);
            assert(after.drop_first() == without(now, last.key()));
            assert forall|j: int| 0 <= j < n + 1 implies (#[trigger] after[j]).0 == uses[n
                - j].key() by {
                if j > 0 {
                    assert(after[j] == without(now, last.key())[j - 1]);
                    assert(front[n - j] == uses[n - j]);
                }
            }
        } else {
            assert forall|j: int| 0 <= j < n + 1 implies (#[trigger] after[j]).0 == uses[n
                - j].key() by {
                if j > 0 {
                    assert(after[j] == now[j - 1]);
                    assert(front[n - j] == uses[n - j]);
                }
            }
        }
    }
}

/// Leaving out a key that does not stand among the first entries leaves those in place.
proof fn lemma_without_front(entries: Seq<(u64, Seq<char>)>, key: u64, count: int)
    requires
        0 <= count <= entries.len(),
        forall|j: int| 0 <= j < count ==> (#[trigger] entries[j]).0 != key,
    ensures
        count <= without(entries, key).len(),
        forall|j: int| 0 <= j < count ==> #[trigger] without(entries, key)[j] == entries[j],
    decreases entries.len(),
{
    if count > 0 {
        let rest = entries.drop_first();
        lemma_filter_first(entries, key);
        assert(entries[0].0 != key);
        assert forall|j: int| 0 <= j < count - 1 implies (#[trigger] rest[j]).0 != key by {
            assert(rest[j] == entries[j + 1]);
        }
        lemma_without_front(rest, key, count - 1);
        assert forall|j: int| 0 <= j < count implies #[trigger] without(entries, key)[j]
            == entries[j] by {
            if j > 0 {
                assert(without(entries, key)[j] == without(rest, key)[j - 1]);
                assert(rest[j - 1] == entries[j]);
            }
        }
    }
}

} // verus!
