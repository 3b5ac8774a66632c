//! Sequences of records in which every record carries a distinct key, read
//! as finite maps from key to record.
//!
//! The stores of this crate keep their records in a `Vec` in insertion order;
//! the lemmas here relate the usual sequence operations (push, update at an
//! index, filter) to the corresponding map operations.
use vstd::prelude::*;

verus! {

/// No two records of `s` share a key.
pub open spec fn keys_distinct<T, K>(s: Seq<T>, key: spec_fn(T) -> K) -> bool {
    forall|i: int, j: int|
        #![trigger key(s[i]), key(s[j])]
        0 <= i < s.len() && 0 <= j < s.len() && i != j ==> key(s[i]) != key(s[j])
}

/// Some record of `s` has key `k`.
pub open spec fn has_key<T, K>(s: Seq<T>, key: spec_fn(T) -> K, k: K) -> bool {
    exists|i: int| 0 <= i < s.len() && #[trigger] key(s[i]) == k
}

/// The record of `s` with key `k` (meaningful when there is one).
pub open spec fn entry_for<T, K>(s: Seq<T>, key: spec_fn(T) -> K, k: K) -> T {
    s[choose|i: int| 0 <= i < s.len() && #[trigger] key(s[i]) == k]
}

/// The records of `s` as a map from key to record.
pub open spec fn keyed_map<T, K>(s: Seq<T>, key: spec_fn(T) -> K) -> Map<K, T> {
    Map::new(|k: K| has_key(s, key, k), |k: K| entry_for(s, key, k))
}

/// The map `m` cut down to the records that satisfy `keep`.
pub open spec fn map_keep<K, T>(m: Map<K, T>, keep: spec_fn(T) -> bool) -> Map<K, T> {
    Map::new(|k: K| m.contains_key(k) && keep(m[k]), |k: K| m[k])
}

/// The record at an index is what the map holds for its key.
pub proof fn lemma_keyed_index<T, K>(s: Seq<T>, key: spec_fn(T) -> K, i: int)
    requires
        keys_distinct(s, key),
        0 <= i < s.len(),
    ensures
        keyed_map(s, key).contains_key(key(s[i])),
        keyed_map(s, key)[key(s[i])] == s[i],
{
    let k = key(s[i]);
    assert(has_key(s, key, k));
    let j = choose|j: int| 0 <= j < s.len() && #[trigger] key(s[j]) == k;
    assert(key(s[j]) == k);
    assert(j == i);
}

/// Appending a record with a fresh key inserts it into the map.
pub proof fn lemma_keyed_push<T, K>(s: Seq<T>, key: spec_fn(T) -> K, t: T)
    requires
        keys_distinct(s, key),
        !has_key(s, key, key(t)),
    ensures
        keys_distinct(s.push(t), key),
        keyed_map(s.push(t), key) == keyed_map(s, key).insert(key(t), t),
{
    let s2 = s.push(t);
    assert forall|i: int, j: int|
        #![trigger key(s2[i]), key(s2[j])]
        0 <= i < s2.len() && 0 <= j < s2.len() && i != j implies key(s2[i]) != key(s2[j]) by {
        if i < s.len() && j < s.len() {
            assert(s2[i] == s[i] && s2[j] == s[j]);
        } else if i < s.len() {
            assert(s2[i] == s[i]);
            assert(key(s[i]) != key(t));
        } else {
            assert(s2[j] == s[j]);
            assert(key(s[j]) != key(t));
        }
    }
    let m1 = keyed_map(s2, key);
    let m2 = keyed_map(s, key).insert(key(t), t);
    assert forall|k: K| m1.contains_key(k) <==> m2.contains_key(k) by {
        if m2.contains_key(k) {
            if k == key(t) {
                assert(key(s2[s.len() as int]) == k);
            } else {
                let i = choose|i: int| 0 <= i < s.len() && #[trigger] key(s[i]) == k;
                assert(key(s2[i]) == k);
            }
        }
        if m1.contains_key(k) {
            let i = choose|i: int| 0 <= i < s2.len() && #[trigger] key(s2[i]) == k;
            if i < s.len() {
                assert(key(s[i]) == k);
            }
        }
    }
    assert forall|k: K| #[trigger] m1.contains_key(k) implies m1[k] == m2[k] by {
        let i = choose|i: int| 0 <= i < s2.len() && #[trigger] key(s2[i]) == k;
        lemma_keyed_index(s2, key, i);
        if i < s.len() {
            assert(s2[i] == s[i]);
            lemma_keyed_index(s, key, i);
        }
    }
    assert(m1 =~= m2);
}

/// Replacing the record at an index by one with the same key replaces it in
/// the map.
pub proof fn lemma_keyed_update<T, K>(s: Seq<T>, key: spec_fn(T) -> K, i: int, t: T)
    requires
        keys_distinct(s, key),
        0 <= i < s.len(),
        key(t) == key(s[i]),
    ensures
        keys_distinct(s.update(i, t), key),
        keyed_map(s.update(i, t), key) == keyed_map(s, key).insert(key(t), t),
{
    let s2 = s.update(i, t);
    assert forall|a: int, b: int|
        #![trigger key(s2[a]), key(s2[b])]
        0 <= a < s2.len() && 0 <= b < s2.len() && a != b implies key(s2[a]) != key(s2[b]) by {
        assert(key(s2[a]) == key(s[a]));
        assert(key(s2[b]) == key(s[b]));
    }
    let m1 = keyed_map(s2, key);
    let m2 = keyed_map(s, key).insert(key(t), t);
    assert forall|k: K| m1.contains_key(k) <==> m2.contains_key(k) by {
        if m2.contains_key(k) {
            if k == key(t) {
                assert(key(s2[i]) == k);
            } else {
                let j = choose|j: int| 0 <= j < s.len() && #[trigger] key(s[j]) == k;
                assert(key(s2[j]) == k);
            }
        }
        if m1.contains_key(k) {
            let j = choose|j: int| 0 <= j < s2.len() && #[trigger] key(s2[j]) == k;
            assert(key(s[j]) == k);
        }
    }
    assert forall|k: K| #[trigger] m1.contains_key(k) implies m1[k] == m2[k] by {
        let j = choose|j: int| 0 <= j < s2.len() && #[trigger] key(s2[j]) == k;
        lemma_keyed_index(s2, key, j);
        if j != i {
            assert(s2[j] == s[j]);
            lemma_keyed_index(s, key, j);
        }
    }
    assert(m1 =~= m2);
}

/// The map has one key per record.
pub proof fn lemma_keyed_len<T, K>(s: Seq<T>, key: spec_fn(T) -> K)
    requires
        keys_distinct(s, key),
    ensures
        keyed_map(s, key).dom().finite(),
        keyed_map(s, key).len() == s.len(),
    decreases s.len(),
{
    if s.len() == 0 {
        assert(keyed_map(s, key) =~= Map::<K, T>::empty());
    } else {
        let init = s.drop_last();
        let last = s.last();
        assert(keys_distinct(init, key)) by {
            assert forall|i: int, j: int|
                #![trigger key(init[i]), key(init[j])]
                0 <= i < init.len() && 0 <= j < init.len() && i != j implies key(init[i]) != key(
                    init[j],
                ) by {
                assert(init[i] == s[i] && init[j] == s[j]);
            }
        }
        assert(!has_key(init, key, key(last))) by {
            if has_key(init, key, key(last)) {
                let i = choose|i: int| 0 <= i < init.len() && #[trigger] key(init[i]) == key(last);
                assert(init[i] == s[i]);
                assert(key(s[i]) == key(s[s.len() - 1]));
            }
        }
        lemma_keyed_len(init, key);
        assert(s == init.push(last));
        lemma_keyed_push(init, key, last);
    }
}

/// Every record of the filtered sequence is a record of the unfiltered one.
pub proof fn lemma_filter_origin<T>(s: Seq<T>, keep: spec_fn(T) -> bool, j: int)
    requires
        0 <= j < s.filter(keep).len(),
    ensures
        exists|i: int| 0 <= i < s.len() && s[i] == s.filter(keep)[j] && keep(s[i]),
    decreases s.len(),
{
    reveal(Seq::filter);
    let sub = s.drop_last().filter(keep);
    if j < sub.len() {
        lemma_filter_origin(s.drop_last(), keep, j);
        let i = choose|i: int|
            0 <= i < s.drop_last().len() && s.drop_last()[i] == sub[j] && keep(
                s.drop_last()[i],
            );
        assert(s[i] == s.drop_last()[i]);
    } else {
        assert(s[s.len() - 1] == s.filter(keep)[j]);
    }
}

/// Filtering keeps keys distinct, and cuts the map down to the kept records.
pub proof fn lemma_keyed_filter<T, K>(s: Seq<T>, key: spec_fn(T) -> K, keep: spec_fn(T) -> bool)
    requires
        keys_distinct(s, key),
    ensures
        keys_distinct(s.filter(keep), key),
        keyed_map(s.filter(keep), key) == map_keep(keyed_map(s, key), keep),
    decreases s.len(),
{
    reveal(Seq::filter);
    if s.len() == 0 {
        assert(keyed_map(s.filter(keep), key) =~= map_keep(keyed_map(s, key), keep));
    } else {
        let init = s.drop_last();
        let last = s.last();
        assert(keys_distinct(init, key)) by {
            assert forall|i: int, j: int|
                #![trigger key(init[i]), key(init[j])]
                0 <= i < init.len() && 0 <= j < init.len() && i != j implies key(init[i]) != key(
                    init[j],
                ) by {
                assert(init[i] == s[i] && init[j] == s[j]);
            }
        }
        lemma_keyed_filter(init, key, keep);
        let sub = init.filter(keep);
        assert(!has_key(init, key, key(last))) by {
            if has_key(init, key, key(last)) {
                let i = choose|i: int| 0 <= i < init.len() && #[trigger] key(init[i]) == key(last);
                assert(init[i] == s[i]);
                assert(key(s[i]) == key(s[s.len() - 1]));
            }
        }
        let m_init = keyed_map(init, key);
        let m_s = keyed_map(s, key);
        assert(s == init.push(last));
        lemma_keyed_push(init, key, last);
        assert(m_s == m_init.insert(key(last), last));
        if keep(last) {
            assert(!has_key(sub, key, key(last))) by {
                if has_key(sub, key, key(last)) {
                    let j = choose|j: int| 0 <= j < sub.len() && #[trigger] key(sub[j]) == key(last);
                    lemma_filter_origin(init, keep, j);
                    let i = choose|i: int| 0 <= i < init.len() && init[i] == sub[j] && keep(init[i]);
                    assert(key(init[i]) == key(last));
                }
            }
            lemma_keyed_push(sub, key, last);
            assert(s.filter(keep) == sub.push(last));
            assert(keyed_map(s.filter(keep), key) =~= map_keep(m_s, keep));
        } else {
            assert(s.filter(keep) == sub);
            assert(keyed_map(s.filter(keep), key) =~= map_keep(m_s, keep));
        }
    }
}

} // verus!
