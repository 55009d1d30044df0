//! Ordered key/value storage on a sorted `Vec` of pairs, with insert-or-
//! replace, removal and lookup. Keys appear at most once and are kept in
//! strictly ascending order, so a directional walk of the underlying `Vec`
//! visits entries best-price-first without re-sorting. One family of
//! functions works with `i64` keys, one with `u64` keys.

use vstd::prelude::*;

verus! {

// ---------------------------------------------------------------------------
// i64 keys
// ---------------------------------------------------------------------------
/// The keys of `s` are strictly ascending (so also unique).
pub open spec fn sorted_i64<V>(s: Seq<(i64, V)>) -> bool {
    forall|i: int, j: int| 0 <= i < j < s.len() ==> s[i].0 < s[j].0
}

/// The value stored under `key`, reading `s` as an association list in which
/// the first match wins.
pub open spec fn spec_get_i64<V>(s: Seq<(i64, V)>, key: i64) -> Option<V>
    decreases s.len(),
{
    if s.len() == 0 {
        None
    } else if s[0].0 == key {
        Some(s[0].1)
    } else {
        spec_get_i64(s.skip(1), key)
    }
}

/// `s` with `value` stored under `key`: the entry with that key is replaced
/// if present, inserted at its sorted position otherwise.
pub open spec fn spec_store_i64<V>(s: Seq<(i64, V)>, key: i64, value: V) -> Seq<(i64, V)>
    decreases s.len(),
{
    if s.len() == 0 {
        seq![(key, value)]
    } else if s[0].0 < key {
        seq![s[0]] + spec_store_i64(s.skip(1), key, value)
    } else if s[0].0 == key {
        seq![(key, value)] + s.skip(1)
    } else {
        seq![(key, value)] + s
    }
}

/// `s` with the entry under `key` removed, if present.
pub open spec fn spec_remove_i64<V>(s: Seq<(i64, V)>, key: i64) -> Seq<(i64, V)>
    decreases s.len(),
{
    if s.len() == 0 {
        s
    } else if s[0].0 == key {
        s.skip(1)
    } else if s[0].0 < key {
        seq![s[0]] + spec_remove_i64(s.skip(1), key)
    } else {
        s
    }
}

/// On a sorted list, storing rewrites the entry in place when the key is
/// present at `pos` and inserts at `pos` otherwise, where `pos` is the first
/// position whose key is not below `key`.
pub proof fn lemma_store_i64_at<V>(s: Seq<(i64, V)>, key: i64, value: V, pos: int)
    requires
        sorted_i64(s),
        0 <= pos <= s.len(),
        forall|j: int| 0 <= j < pos ==> s[j].0 < key,
        forall|j: int| pos <= j < s.len() ==> s[j].0 >= key,
    ensures
        pos < s.len() && s[pos].0 == key ==> spec_store_i64(s, key, value) == s.update(
            pos,
            (key, value),
        ),
        !(pos < s.len() && s[pos].0 == key) ==> spec_store_i64(s, key, value) == s.insert(
            pos,
            (key, value),
        ),
    decreases s.len(),
{
    if s.len() == 0 {
        assert(spec_store_i64(s, key, value) =~= s.insert(0, (key, value)));
    } else if s[0].0 < key {
        let t = s.skip(1);
        assert(forall|i: int, j: int| 0 <= i < j < t.len() ==> t[i].0 < t[j].0);
        lemma_store_i64_at(t, key, value, pos - 1);
        if pos < s.len() && s[pos].0 == key {
            assert(spec_store_i64(s, key, value) =~= s.update(pos, (key, value)));
        } else {
            assert(spec_store_i64(s, key, value) =~= s.insert(pos, (key, value)));
        }
    } else if s[0].0 == key {
        assert(pos == 0);
        assert(spec_store_i64(s, key, value) =~= s.update(0, (key, value)));
    } else {
        assert(pos == 0);
        assert(spec_store_i64(s, key, value) =~= s.insert(0, (key, value)));
    }
}

/// On a sorted list, removal deletes the entry at `pos` when the key is
/// present there and is a no-op otherwise, where `pos` is the first position
/// whose key is not below `key`.
pub proof fn lemma_remove_i64_at<V>(s: Seq<(i64, V)>, key: i64, pos: int)
    requires
        sorted_i64(s),
        0 <= pos <= s.len(),
        forall|j: int| 0 <= j < pos ==> s[j].0 < key,
        forall|j: int| pos <= j < s.len() ==> s[j].0 >= key,
    ensures
        pos < s.len() && s[pos].0 == key ==> spec_remove_i64(s, key) == s.remove(pos),
        !(pos < s.len() && s[pos].0 == key) ==> spec_remove_i64(s, key) == s,
    decreases s.len(),
{
    if s.len() == 0 {
    } else if s[0].0 < key {
        let t = s.skip(1);
        assert(forall|i: int, j: int| 0 <= i < j < t.len() ==> t[i].0 < t[j].0);
        lemma_remove_i64_at(t, key, pos - 1);
        if pos < s.len() && s[pos].0 == key {
            assert(spec_remove_i64(s, key) =~= s.remove(pos));
        } else {
            assert(spec_remove_i64(s, key) =~= s);
        }
    } else if s[0].0 == key {
        assert(pos == 0);
        assert(spec_remove_i64(s, key) =~= s.remove(0));
    } else {
        assert(pos == 0);
    }
}

/// On a sorted list, the lookup under `key` reads the entry at `pos` when the
/// key is present there and finds nothing otherwise, where `pos` is the first
/// position whose key is not below `key`.
pub proof fn lemma_get_i64_at<V>(s: Seq<(i64, V)>, key: i64, pos: int)
    requires
        sorted_i64(s),
        0 <= pos <= s.len(),
        forall|j: int| 0 <= j < pos ==> s[j].0 < key,
        forall|j: int| pos <= j < s.len() ==> s[j].0 >= key,
    ensures
        pos < s.len() && s[pos].0 == key ==> spec_get_i64(s, key) == Some(s[pos].1),
        !(pos < s.len() && s[pos].0 == key) ==> spec_get_i64(s, key) is None,
    decreases s.len(),
{
    if s.len() == 0 {
    } else if s[0].0 < key {
        let t = s.skip(1);
        assert(forall|i: int, j: int| 0 <= i < j < t.len() ==> t[i].0 < t[j].0);
        lemma_get_i64_at(t, key, pos - 1);
    } else if s[0].0 != key {
        assert(forall|j: int| 0 <= j < s.len() ==> s[j].0 != key);
        lemma_sorted_i64_get_none(s, key);
    }
}

/// On a sorted list, how storing changes each lookup: the stored key now
/// yields the stored value, every other key is untouched.
#[verifier::spinoff_prover]
pub proof fn lemma_store_i64_get<V>(s: Seq<(i64, V)>, key: i64, value: V, k: i64)
    requires
        sorted_i64(s),
    ensures
        spec_get_i64(spec_store_i64(s, key, value), k) == (if k == key {
            Some(value)
        } else {
            spec_get_i64(s, k)
        }),
    decreases s.len(),
{
    let r = spec_store_i64(s, key, value);
    if s.len() == 0 {
        assert(r == seq![(key, value)]);
        assert(r.skip(1) =~= Seq::<(i64, V)>::empty());
    } else if s[0].0 < key {
        let t = s.skip(1);
        assert(forall|i: int, j: int| 0 <= i < j < t.len() ==> t[i].0 < t[j].0);
        lemma_store_i64_get(t, key, value, k);
        assert(r == seq![s[0]] + spec_store_i64(t, key, value));
        assert(r.skip(1) =~= spec_store_i64(t, key, value));
        assert(r[0] == s[0]);
    } else if s[0].0 == key {
        assert(r == seq![(key, value)] + s.skip(1));
        assert(r.skip(1) =~= s.skip(1));
        assert(r[0] == (key, value));
    } else {
        assert(r == seq![(key, value)] + s);
        assert(r.skip(1) =~= s);
        assert(r[0] == (key, value));
        if k != key && s.len() > 0 {
            assert(spec_get_i64(s, k) == if s[0].0 == k {
                Some(s[0].1)
            } else {
                spec_get_i64(s.skip(1), k)
            });
        }
    }
}

/// On a sorted list, how removal changes each lookup: the removed key now
/// yields nothing, every other key is untouched.
pub proof fn lemma_remove_i64_get<V>(s: Seq<(i64, V)>, key: i64, k: i64)
    requires
        sorted_i64(s),
    ensures
        spec_get_i64(spec_remove_i64(s, key), k) == (if k == key {
            None::<V>
        } else {
            spec_get_i64(s, k)
        }),
    decreases s.len(),
{
    let r = spec_remove_i64(s, key);
    if s.len() == 0 {
    } else if s[0].0 == key {
        assert(r == s.skip(1));
        if k == key {
            lemma_sorted_i64_get_head(s, k);
        }
    } else if s[0].0 < key {
        let t = s.skip(1);
        assert(forall|i: int, j: int| 0 <= i < j < t.len() ==> t[i].0 < t[j].0);
        lemma_remove_i64_get(t, key, k);
        assert(r == seq![s[0]] + spec_remove_i64(t, key));
        assert(r.skip(1) =~= spec_remove_i64(t, key));
        assert(r[0] == s[0]);
    } else {
        if k == key {
            lemma_sorted_i64_get_none(s, k);
        }
    }
}

/// On a sorted list whose head's key is `key`, no later entry has that key.
proof fn lemma_sorted_i64_get_head<V>(s: Seq<(i64, V)>, key: i64)
    requires
        sorted_i64(s),
        s.len() > 0,
        s[0].0 == key,
    ensures
        spec_get_i64(s.skip(1), key) is None,
{
    let t = s.skip(1);
    assert(forall|i: int, j: int| 0 <= i < j < t.len() ==> t[i].0 < t[j].0);
    assert(forall|j: int| 0 <= j < t.len() ==> t[j].0 > key);
    lemma_sorted_i64_get_none(t, key);
}

/// On a sorted list whose keys all differ from `key`, nothing is found.
proof fn lemma_sorted_i64_get_none<V>(s: Seq<(i64, V)>, key: i64)
    requires
        forall|j: int| 0 <= j < s.len() ==> s[j].0 != key,
    ensures
        spec_get_i64(s, key) is None,
    decreases s.len(),
{
    if s.len() > 0 {
        let t = s.skip(1);
        assert(forall|j: int| 0 <= j < t.len() ==> t[j].0 != key);
        lemma_sorted_i64_get_none(t, key);
    }
}

/// A successful lookup has a position holding its key and value.
pub proof fn lemma_get_i64_index<V>(s: Seq<(i64, V)>, key: i64)
    requires
        spec_get_i64(s, key) is Some,
    ensures
        exists|i: int|
            0 <= i < s.len() && s[i].0 == key && s[i].1 == spec_get_i64(s, key)->0,
    decreases s.len(),
{
    if s.len() > 0 {
        if s[0].0 == key {
            assert(s[0].0 == key && s[0].1 == spec_get_i64(s, key)->0);
        } else {
            lemma_get_i64_index(s.skip(1), key);
            let j = choose|j: int|
                0 <= j < s.skip(1).len() && s.skip(1)[j].0 == key && s.skip(1)[j].1 == spec_get_i64(
                    s.skip(1),
                    key,
                )->0;
            assert(s[j + 1].0 == key && s[j + 1].1 == spec_get_i64(s, key)->0);
        }
    }
}

/// On a sorted list, the entry at any position is what the lookup under its
/// key finds.
pub proof fn lemma_sorted_get_at_index_i64<V>(s: Seq<(i64, V)>, i: int)
    requires
        sorted_i64(s),
        0 <= i < s.len(),
    ensures
        spec_get_i64(s, s[i].0) == Some(s[i].1),
{
    lemma_get_i64_at(s, s[i].0, i);
}

/// Two sorted lists whose lookups agree on the presence of every key have
/// the same length and the same key at every position.
pub proof fn lemma_sorted_same_keys_i64<V1, V2>(s1: Seq<(i64, V1)>, s2: Seq<(i64, V2)>)
    requires
        sorted_i64(s1),
        sorted_i64(s2),
        forall|k: i64| spec_get_i64(s1, k) is Some <==> spec_get_i64(s2, k) is Some,
    ensures
        s1.len() == s2.len(),
        forall|i: int| 0 <= i < s1.len() ==> s1[i].0 == s2[i].0,
    decreases s1.len(),
{
    if s1.len() == 0 {
        if s2.len() > 0 {
            lemma_sorted_get_at_index_i64(s2, 0);
            assert(spec_get_i64(s1, s2[0].0) is Some);
            assert(false);
        }
    } else if s2.len() == 0 {
        lemma_sorted_get_at_index_i64(s1, 0);
        assert(spec_get_i64(s2, s1[0].0) is Some);
        assert(false);
    } else {
        let k1 = s1[0].0;
        let k2 = s2[0].0;
        lemma_sorted_get_at_index_i64(s1, 0);
        lemma_sorted_get_at_index_i64(s2, 0);
        if k1 < k2 {
            assert(forall|j: int| 0 <= j < s2.len() ==> s2[j].0 != k1);
            lemma_sorted_i64_get_none(s2, k1);
            assert(false);
        }
        if k2 < k1 {
            assert(forall|j: int| 0 <= j < s1.len() ==> s1[j].0 != k2);
            lemma_sorted_i64_get_none(s1, k2);
            assert(false);
        }
        let t1 = s1.skip(1);
        let t2 = s2.skip(1);
        assert(forall|i: int, j: int| 0 <= i < j < t1.len() ==> t1[i].0 < t1[j].0);
        assert(forall|i: int, j: int| 0 <= i < j < t2.len() ==> t2[i].0 < t2[j].0);
        assert forall|k: i64| spec_get_i64(t1, k) is Some <==> spec_get_i64(t2, k) is Some by {
            if k == k1 {
                lemma_sorted_i64_get_head(s1, k1);
                lemma_sorted_i64_get_head(s2, k1);
            } else {
                assert(spec_get_i64(s1, k) == spec_get_i64(t1, k));
                assert(spec_get_i64(s2, k) == spec_get_i64(t2, k));
            }
        }
        lemma_sorted_same_keys_i64(t1, t2);
        assert forall|i: int| 0 <= i < s1.len() implies s1[i].0 == s2[i].0 by {
            if i > 0 {
                assert(s1[i].0 == t1[i - 1].0);
                assert(s2[i].0 == t2[i - 1].0);
            }
        }
    }
}

/// The first position in `v` whose key is not below `key`: the position of
/// `key` itself when present, its sorted insertion point otherwise.
fn locate_i64<V>(v: &Vec<(i64, V)>, key: i64) -> (pos: usize)
    requires
        sorted_i64(v@),
    ensures
        pos <= v@.len(),
        forall|j: int| 0 <= j < pos ==> v@[j].0 < key,
        forall|j: int| pos <= j < v@.len() ==> v@[j].0 >= key,
{
    let n = v.len();
    let mut i: usize = 0;
    while i < n
        invariant
            sorted_i64(v@),
            n == v@.len(),
            0 <= i <= n,
            forall|j: int| 0 <= j < i ==> v@[j].0 < key,
        decreases n - i,
    {
        if v[i].0 >= key {
            return i;
        }
        i = i + 1;
    }
    i
}

/// Looks up `key`, returning the position of its entry.
pub fn find_i64<V>(v: &Vec<(i64, V)>, key: i64) -> (r: Option<usize>)
    requires
        sorted_i64(v@),
    ensures
        match r {
            Some(pos) => pos < v@.len() && v@[pos as int].0 == key && spec_get_i64(v@, key)
                == Some(v@[pos as int].1),
            None => spec_get_i64(v@, key) is None,
        },
{
    let pos = locate_i64(v, key);
    proof {
        lemma_get_i64_at(v@, key, pos as int);
    }
    if pos < v.len() && v[pos].0 == key {
        Some(pos)
    } else {
        None
    }
}

/// Stores `value` under `key`, replacing the entry with that key if present
/// and inserting it at its sorted position otherwise.
pub fn store_i64<V>(v: &mut Vec<(i64, V)>, key: i64, value: V)
    requires
        sorted_i64(old(v)@),
    ensures
        final(v)@ == spec_store_i64(old(v)@, key, value),
        sorted_i64(final(v)@),
{
    let ghost s = v@;
    let pos = locate_i64(v, key);
    proof {
        lemma_store_i64_at(s, key, value, pos as int);
    }
    if pos < v.len() && v[pos].0 == key {
        v[pos] = (key, value);
        proof {
            assert(v@ == s.update(pos as int, (key, value)));
            assert(sorted_i64(v@));
        }
    } else {
        v.insert(pos, (key, value));
        proof {
            assert(v@ == s.insert(pos as int, (key, value)));
            assert forall|i: int, j: int| 0 <= i < j < v@.len() implies v@[i].0 < v@[j].0 by {
                assert(pos < s.len() ==> s[pos as int].0 > key);
            }
        }
    }
}

/// Removes the entry under `key`, if present.
pub fn remove_i64<V>(v: &mut Vec<(i64, V)>, key: i64)
    requires
        sorted_i64(old(v)@),
    ensures
        final(v)@ == spec_remove_i64(old(v)@, key),
        sorted_i64(final(v)@),
{
    let ghost s = v@;
    let pos = locate_i64(v, key);
    proof {
        lemma_remove_i64_at(s, key, pos as int);
    }
    if pos < v.len() && v[pos].0 == key {
        v.remove(pos);
        proof {
            assert(v@ == s.remove(pos as int));
            assert(sorted_i64(v@));
        }
    }
}

// ---------------------------------------------------------------------------
// u64 keys
// ---------------------------------------------------------------------------
/// The keys of `s` are strictly ascending (so also unique).
pub open spec fn sorted_u64<V>(s: Seq<(u64, V)>) -> bool {
    forall|i: int, j: int| 0 <= i < j < s.len() ==> s[i].0 < s[j].0
}

/// The value stored under `key`, reading `s` as an association list in which
/// the first match wins.
pub open spec fn spec_get_u64<V>(s: Seq<(u64, V)>, key: u64) -> Option<V>
    decreases s.len(),
{
    if s.len() == 0 {
        None
    } else if s[0].0 == key {
        Some(s[0].1)
    } else {
        spec_get_u64(s.skip(1), key)
    }
}

/// `s` with `value` stored under `key`: the entry with that key is replaced
/// if present, inserted at its sorted position otherwise.
pub open spec fn spec_store_u64<V>(s: Seq<(u64, V)>, key: u64, value: V) -> Seq<(u64, V)>
    decreases s.len(),
{
    if s.len() == 0 {
        seq![(key, value)]
    } else if s[0].0 < key {
        seq![s[0]] + spec_store_u64(s.skip(1), key, value)
    } else if s[0].0 == key {
        seq![(key, value)] + s.skip(1)
    } else {
        seq![(key, value)] + s
    }
}

/// `s` with the entry under `key` removed, if present.
pub open spec fn spec_remove_u64<V>(s: Seq<(u64, V)>, key: u64) -> Seq<(u64, V)>
    decreases s.len(),
{
    if s.len() == 0 {
        s
    } else if s[0].0 == key {
        s.skip(1)
    } else if s[0].0 < key {
        seq![s[0]] + spec_remove_u64(s.skip(1), key)
    } else {
        s
    }
}

/// On a sorted list, storing rewrites the entry in place when the key is
/// present at `pos` and inserts at `pos` otherwise, where `pos` is the first
/// position whose key is not below `key`.
pub proof fn lemma_store_u64_at<V>(s: Seq<(u64, V)>, key: u64, value: V, pos: int)
    requires
        sorted_u64(s),
        0 <= pos <= s.len(),
        forall|j: int| 0 <= j < pos ==> s[j].0 < key,
        forall|j: int| pos <= j < s.len() ==> s[j].0 >= key,
    ensures
        pos < s.len() && s[pos].0 == key ==> spec_store_u64(s, key, value) == s.update(
            pos,
            (key, value),
        ),
        !(pos < s.len() && s[pos].0 == key) ==> spec_store_u64(s, key, value) == s.insert(
            pos,
            (key, value),
        ),
    decreases s.len(),
{
    if s.len() == 0 {
        assert(spec_store_u64(s, key, value) =~= s.insert(0, (key, value)));
    } else if s[0].0 < key {
        let t = s.skip(1);
        assert(forall|i: int, j: int| 0 <= i < j < t.len() ==> t[i].0 < t[j].0);
        lemma_store_u64_at(t, key, value, pos - 1);
        if pos < s.len() && s[pos].0 == key {
            assert(spec_store_u64(s, key, value) =~= s.update(pos, (key, value)));
        } else {
            assert(spec_store_u64(s, key, value) =~= s.insert(pos, (key, value)));
        }
    } else if s[0].0 == key {
        assert(pos == 0);
        assert(spec_store_u64(s, key, value) =~= s.update(0, (key, value)));
    } else {
        assert(pos == 0);
        assert(spec_store_u64(s, key, value) =~= s.insert(0, (key, value)));
    }
}

/// On a sorted list, removal deletes the entry at `pos` when the key is
/// present there and is a no-op otherwise, where `pos` is the first position
/// whose key is not below `key`.
pub proof fn lemma_remove_u64_at<V>(s: Seq<(u64, V)>, key: u64, pos: int)
    requires
        sorted_u64(s),
        0 <= pos <= s.len(),
        forall|j: int| 0 <= j < pos ==> s[j].0 < key,
        forall|j: int| pos <= j < s.len() ==> s[j].0 >= key,
    ensures
        pos < s.len() && s[pos].0 == key ==> spec_remove_u64(s, key) == s.remove(pos),
        !(pos < s.len() && s[pos].0 == key) ==> spec_remove_u64(s, key) == s,
    decreases s.len(),
{
    if s.len() == 0 {
    } else if s[0].0 < key {
        let t = s.skip(1);
        assert(forall|i: int, j: int| 0 <= i < j < t.len() ==> t[i].0 < t[j].0);
        lemma_remove_u64_at(t, key, pos - 1);
        if pos < s.len() && s[pos].0 == key {
            assert(spec_remove_u64(s, key) =~= s.remove(pos));
        } else {
            assert(spec_remove_u64(s, key) =~= s);
        }
    } else if s[0].0 == key {
        assert(pos == 0);
        assert(spec_remove_u64(s, key) =~= s.remove(0));
    } else {
        assert(pos == 0);
    }
}

/// On a sorted list, the lookup under `key` reads the entry at `pos` when the
/// key is present there and finds nothing otherwise, where `pos` is the first
/// position whose key is not below `key`.
pub proof fn lemma_get_u64_at<V>(s: Seq<(u64, V)>, key: u64, pos: int)
    requires
        sorted_u64(s),
        0 <= pos <= s.len(),
        forall|j: int| 0 <= j < pos ==> s[j].0 < key,
        forall|j: int| pos <= j < s.len() ==> s[j].0 >= key,
    ensures
        pos < s.len() && s[pos].0 == key ==> spec_get_u64(s, key) == Some(s[pos].1),
        !(pos < s.len() && s[pos].0 == key) ==> spec_get_u64(s, key) is None,
    decreases s.len(),
{
    if s.len() == 0 {
    } else if s[0].0 < key {
        let t = s.skip(1);
        assert(forall|i: int, j: int| 0 <= i < j < t.len() ==> t[i].0 < t[j].0);
        lemma_get_u64_at(t, key, pos - 1);
    } else if s[0].0 != key {
        assert(forall|j: int| 0 <= j < s.len() ==> s[j].0 != key);
        lemma_sorted_u64_get_none(s, key);
    }
}

/// On a sorted list, how storing changes each lookup: the stored key now
/// yields the stored value, every other key is untouched.
#[verifier::spinoff_prover]
pub proof fn lemma_store_u64_get<V>(s: Seq<(u64, V)>, key: u64, value: V, k: u64)
    requires
        sorted_u64(s),
    ensures
        spec_get_u64(spec_store_u64(s, key, value), k) == (if k == key {
            Some(value)
        } else {
            spec_get_u64(s, k)
        }),
    decreases s.len(),
{
    let r = spec_store_u64(s, key, value);
    if s.len() == 0 {
        assert(r == seq![(key, value)]);
        assert(r.skip(1) =~= Seq::<(u64, V)>::empty());
    } else if s[0].0 < key {
        let t = s.skip(1);
        assert(forall|i: int, j: int| 0 <= i < j < t.len() ==> t[i].0 < t[j].0);
        lemma_store_u64_get(t, key, value, k);
        assert(r == seq![s[0]] + spec_store_u64(t, key, value));
        assert(r.skip(1) =~= spec_store_u64(t, key, value));
        assert(r[0] == s[0]);
    } else if s[0].0 == key {
        assert(r == seq![(key, value)] + s.skip(1));
        assert(r.skip(1) =~= s.skip(1));
        assert(r[0] == (key, value));
    } else {
        assert(r == seq![(key, value)] + s);
        assert(r.skip(1) =~= s);
        assert(r[0] == (key, value));
        if k != key && s.len() > 0 {
            assert(spec_get_u64(s, k) == if s[0].0 == k {
                Some(s[0].1)
            } else {
                spec_get_u64(s.skip(1), k)
            });
        }
    }
}

/// On a sorted list, how removal changes each lookup: the removed key now
/// yields nothing, every other key is untouched.
pub proof fn lemma_remove_u64_get<V>(s: Seq<(u64, V)>, key: u64, k: u64)
    requires
        sorted_u64(s),
    ensures
        spec_get_u64(spec_remove_u64(s, key), k) == (if k == key {
            None::<V>
        } else {
            spec_get_u64(s, k)
        }),
    decreases s.len(),
{
    let r = spec_remove_u64(s, key);
    if s.len() == 0 {
    } else if s[0].0 == key {
        assert(r == s.skip(1));
        if k == key {
            lemma_sorted_u64_get_head(s, k);
        }
    } else if s[0].0 < key {
        let t = s.skip(1);
        assert(forall|i: int, j: int| 0 <= i < j < t.len() ==> t[i].0 < t[j].0);
        lemma_remove_u64_get(t, key, k);
        assert(r == seq![s[0]] + spec_remove_u64(t, key));
        assert(r.skip(1) =~= spec_remove_u64(t, key));
        assert(r[0] == s[0]);
    } else {
        if k == key {
            lemma_sorted_u64_get_none(s, k);
        }
    }
}

/// On a sorted list whose head's key is `key`, no later entry has that key.
proof fn lemma_sorted_u64_get_head<V>(s: Seq<(u64, V)>, key: u64)
    requires
        sorted_u64(s),
        s.len() > 0,
        s[0].0 == key,
    ensures
        spec_get_u64(s.skip(1), key) is None,
{
    let t = s.skip(1);
    assert(forall|i: int, j: int| 0 <= i < j < t.len() ==> t[i].0 < t[j].0);
    assert(forall|j: int| 0 <= j < t.len() ==> t[j].0 > key);
    lemma_sorted_u64_get_none(t, key);
}

/// On a sorted list whose keys all differ from `key`, nothing is found.
proof fn lemma_sorted_u64_get_none<V>(s: Seq<(u64, V)>, key: u64)
    requires
        forall|j: int| 0 <= j < s.len() ==> s[j].0 != key,
    ensures
        spec_get_u64(s, key) is None,
    decreases s.len(),
{
    if s.len() > 0 {
        let t = s.skip(1);
        assert(forall|j: int| 0 <= j < t.len() ==> t[j].0 != key);
        lemma_sorted_u64_get_none(t, key);
    }
}

/// On a sorted list, the entry at any position is what the lookup under its
/// key finds.
pub proof fn lemma_sorted_get_at_index_u64<V>(s: Seq<(u64, V)>, i: int)
    requires
        sorted_u64(s),
        0 <= i < s.len(),
    ensures
        spec_get_u64(s, s[i].0) == Some(s[i].1),
{
    lemma_get_u64_at(s, s[i].0, i);
}

/// Two sorted lists whose lookups agree on every key are equal.
pub proof fn lemma_sorted_unique_u64<V>(s1: Seq<(u64, V)>, s2: Seq<(u64, V)>)
    requires
        sorted_u64(s1),
        sorted_u64(s2),
        forall|k: u64| spec_get_u64(s1, k) == spec_get_u64(s2, k),
    ensures
        s1 == s2,
    decreases s1.len(),
{
    if s1.len() == 0 {
        if s2.len() > 0 {
            lemma_sorted_get_at_index_u64(s2, 0);
            assert(spec_get_u64(s1, s2[0].0) == spec_get_u64(s2, s2[0].0));
            assert(false);
        }
        assert(s1 =~= s2);
    } else if s2.len() == 0 {
        lemma_sorted_get_at_index_u64(s1, 0);
        assert(spec_get_u64(s2, s1[0].0) == spec_get_u64(s1, s1[0].0));
        assert(false);
    } else {
        let k1 = s1[0].0;
        let k2 = s2[0].0;
        lemma_sorted_get_at_index_u64(s1, 0);
        lemma_sorted_get_at_index_u64(s2, 0);
        if k1 < k2 {
            assert(forall|j: int| 0 <= j < s2.len() ==> s2[j].0 != k1);
            lemma_sorted_u64_get_none(s2, k1);
            assert(false);
        }
        if k2 < k1 {
            assert(forall|j: int| 0 <= j < s1.len() ==> s1[j].0 != k2);
            lemma_sorted_u64_get_none(s1, k2);
            assert(false);
        }
        assert(s1[0] == s2[0]);
        let t1 = s1.skip(1);
        let t2 = s2.skip(1);
        assert(forall|i: int, j: int| 0 <= i < j < t1.len() ==> t1[i].0 < t1[j].0);
        assert(forall|i: int, j: int| 0 <= i < j < t2.len() ==> t2[i].0 < t2[j].0);
        assert forall|k: u64| spec_get_u64(t1, k) == spec_get_u64(t2, k) by {
            if k == k1 {
                lemma_sorted_u64_get_head(s1, k1);
                lemma_sorted_u64_get_head(s2, k1);
            } else {
                assert(spec_get_u64(s1, k) == spec_get_u64(t1, k));
                assert(spec_get_u64(s2, k) == spec_get_u64(t2, k));
            }
        }
        lemma_sorted_unique_u64(t1, t2);
        assert forall|i: int| 0 <= i < s1.len() implies s1[i] == s2[i] by {
            if i > 0 {
                assert(s1[i] == t1[i - 1]);
                assert(s2[i] == t2[i - 1]);
            }
        }
        assert(s1 =~= s2);
    }
}

/// The first position in `v` whose key is not below `key`: the position of
/// `key` itself when present, its sorted insertion point otherwise.
fn locate_u64<V>(v: &Vec<(u64, V)>, key: u64) -> (pos: usize)
    requires
        sorted_u64(v@),
    ensures
        pos <= v@.len(),
        forall|j: int| 0 <= j < pos ==> v@[j].0 < key,
        forall|j: int| pos <= j < v@.len() ==> v@[j].0 >= key,
{
    let n = v.len();
    let mut i: usize = 0;
    while i < n
        invariant
            sorted_u64(v@),
            n == v@.len(),
            0 <= i <= n,
            forall|j: int| 0 <= j < i ==> v@[j].0 < key,
        decreases n - i,
    {
        if v[i].0 >= key {
            return i;
        }
        i = i + 1;
    }
    i
}

/// Looks up `key`, returning the position of its entry.
pub fn find_u64<V>(v: &Vec<(u64, V)>, key: u64) -> (r: Option<usize>)
    requires
        sorted_u64(v@),
    ensures
        match r {
            Some(pos) => pos < v@.len() && v@[pos as int].0 == key && spec_get_u64(v@, key)
                == Some(v@[pos as int].1),
            None => spec_get_u64(v@, key) is None,
        },
{
    let pos = locate_u64(v, key);
    proof {
        lemma_get_u64_at(v@, key, pos as int);
    }
    if pos < v.len() && v[pos].0 == key {
        Some(pos)
    } else {
        None
    }
}

/// Stores `value` under `key`, replacing the entry with that key if present
/// and inserting it at its sorted position otherwise.
pub fn store_u64<V>(v: &mut Vec<(u64, V)>, key: u64, value: V)
    requires
        sorted_u64(old(v)@),
    ensures
        final(v)@ == spec_store_u64(old(v)@, key, value),
        sorted_u64(final(v)@),
{
    let ghost s = v@;
    let pos = locate_u64(v, key);
    proof {
        lemma_store_u64_at(s, key, value, pos as int);
    }
    if pos < v.len() && v[pos].0 == key {
        v[pos] = (key, value);
        proof {
            assert(v@ == s.update(pos as int, (key, value)));
            assert(sorted_u64(v@));
        }
    } else {
        v.insert(pos, (key, value));
        proof {
            assert(v@ == s.insert(pos as int, (key, value)));
            assert forall|i: int, j: int| 0 <= i < j < v@.len() implies v@[i].0 < v@[j].0 by {
                assert(pos < s.len() ==> s[pos as int].0 > key);
            }
        }
    }
}

/// Removes the entry under `key`, if present.
pub fn remove_u64<V>(v: &mut Vec<(u64, V)>, key: u64)
    requires
        sorted_u64(old(v)@),
    ensures
        final(v)@ == spec_remove_u64(old(v)@, key),
        sorted_u64(final(v)@),
{
    let ghost s = v@;
    let pos = locate_u64(v, key);
    proof {
        lemma_remove_u64_at(s, key, pos as int);
    }
    if pos < v.len() && v[pos].0 == key {
        v.remove(pos);
        proof {
            assert(v@ == s.remove(pos as int));
            assert(sorted_u64(v@));
        }
    }
}

} // verus!
