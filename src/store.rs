//! Keyed collections held as sequences: at most one record per key, in the
//! order in which their keys were first written.
use vstd::prelude::*;

verus! {

/// Whether some record of `s` has key `k`.
pub open spec fn contains_key<T, K>(s: Seq<T>, key: spec_fn(T) -> K, k: K) -> bool {
    exists|i: int| 0 <= i < s.len() && #[trigger] key(s[i]) == k
}

/// The position of the record with key `k`, or -1 when there is none.
pub open spec fn index_of<T, K>(s: Seq<T>, key: spec_fn(T) -> K, k: K) -> int {
    if contains_key(s, key, k) {
        choose|i: int| 0 <= i < s.len() && #[trigger] key(s[i]) == k
    } else {
        -1
    }
}

/// No two records share a key.
pub open spec fn keys_unique<T, K>(s: Seq<T>, key: spec_fn(T) -> K) -> bool {
    forall|i: int, j: int|
        0 <= i < s.len() && 0 <= j < s.len() && #[trigger] key(s[i]) == #[trigger] key(s[j])
            ==> i == j
}

/// `s` after writing `v`: it replaces the record with the same key, or is appended.
pub open spec fn put<T, K>(s: Seq<T>, key: spec_fn(T) -> K, v: T) -> Seq<T> {
    if contains_key(s, key, key(v)) {
        s.update(index_of(s, key, key(v)), v)
    } else {
        s.push(v)
    }
}

/// `s` without the record with key `k`, if any.
pub open spec fn without<T, K>(s: Seq<T>, key: spec_fn(T) -> K, k: K) -> Seq<T> {
    if contains_key(s, key, k) {
        s.remove(index_of(s, key, k))
    } else {
        s
    }
}

/// The position of a key is the one position that holds it.
pub proof fn lemma_index_of<T, K>(s: Seq<T>, key: spec_fn(T) -> K, i: int)
    requires
        keys_unique(s, key),
        0 <= i < s.len(),
    ensures
        contains_key(s, key, key(s[i])),
        index_of(s, key, key(s[i])) == i,
{
    assert(key(s[i]) == key(s[i]));
}

/// Writing a record keeps keys unique.
pub proof fn lemma_put_unique<T, K>(s: Seq<T>, key: spec_fn(T) -> K, v: T)
    requires
        keys_unique(s, key),
    ensures
        keys_unique(put(s, key, v), key),
        contains_key(put(s, key, v), key, key(v)),
{
    let t = put(s, key, v);
    if contains_key(s, key, key(v)) {
        let p = index_of(s, key, key(v));
        assert(key(t[p]) == key(v));
        assert forall|i: int, j: int|
            0 <= i < t.len() && 0 <= j < t.len() && #[trigger] key(t[i]) == #[trigger] key(t[j])
            implies i == j by {
            assert(key(t[i]) == key(s[i]));
            assert(key(t[j]) == key(s[j]));
        }
    } else {
        assert(key(t[s.len() as int]) == key(v));
        assert forall|i: int, j: int|
            0 <= i < t.len() && 0 <= j < t.len() && #[trigger] key(t[i]) == #[trigger] key(t[j])
            implies i == j by {
            if i < s.len() {
                assert(t[i] == s[i]);
            }
            if j < s.len() {
                assert(t[j] == s[j]);
            }
        }
    }
}

/// Removing a record keeps keys unique, and its key is gone.
pub proof fn lemma_without_unique<T, K>(s: Seq<T>, key: spec_fn(T) -> K, k: K)
    requires
        keys_unique(s, key),
    ensures
        keys_unique(without(s, key, k), key),
        !contains_key(without(s, key, k), key, k),
{
    let t = without(s, key, k);
    if contains_key(s, key, k) {
        let p = index_of(s, key, k);
        assert forall|i: int, j: int|
            0 <= i < t.len() && 0 <= j < t.len() && #[trigger] key(t[i]) == #[trigger] key(t[j])
            implies i == j by {
            let si = if i < p { i } else { i + 1 };
            let sj = if j < p { j } else { j + 1 };
            assert(t[i] == s[si]);
            assert(t[j] == s[sj]);
        }
        if contains_key(t, key, k) {
            let q = choose|q: int| 0 <= q < t.len() && #[trigger] key(t[q]) == k;
            let sq = if q < p { q } else { q + 1 };
            assert(t[q] == s[sq]);
            assert(key(s[p]) == k);
        }
    }
}

/// After writing `v`, looking up its key gives `v`.
pub proof fn lemma_put_get<T, K>(s: Seq<T>, key: spec_fn(T) -> K, v: T)
    requires
        keys_unique(s, key),
    ensures
        contains_key(put(s, key, v), key, key(v)),
        put(s, key, v)[index_of(put(s, key, v), key, key(v))] == v,
{
    lemma_put_unique(s, key, v);
    let t = put(s, key, v);
    if contains_key(s, key, key(v)) {
        let p = index_of(s, key, key(v));
        lemma_index_of(t, key, p);
    } else {
        lemma_index_of(t, key, s.len() as int);
    }
}

} // verus!
