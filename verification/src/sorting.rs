//! Sorting by an integer key, specified as a stable insertion sort.

use vstd::prelude::*;

verus! {

/// Whether `s` is ordered by `key` (ties in any order).
pub open spec fn sorted_by_key<T>(s: Seq<T>, key: spec_fn(T) -> int) -> bool {
    forall|i: int, j: int| 0 <= i < j < s.len() ==> key(s[i]) <= key(s[j])
}

/// `x` placed into `s` after every element whose key does not exceed
/// `x`'s key: where a stable sort puts the latest arrival.
pub open spec fn insert_sorted<T>(x: T, s: Seq<T>, key: spec_fn(T) -> int) -> Seq<T>
    decreases s.len(),
{
    if s.len() == 0 {
        seq![x]
    } else if key(s.last()) <= key(x) {
        s.push(x)
    } else {
        insert_sorted(x, s.drop_last(), key).push(s.last())
    }
}

/// The stable sort of `s` by `key`: each element inserted in turn,
/// front to back.
pub open spec fn sort_by_key_spec<T>(s: Seq<T>, key: spec_fn(T) -> int) -> Seq<T>
    decreases s.len(),
{
    if s.len() == 0 {
        Seq::empty()
    } else {
        insert_sorted(s.last(), sort_by_key_spec(s.drop_last(), key), key)
    }
}

/// Inserting at a position found by scanning from the back (first spot
/// whose predecessor's key does not exceed the new key, with everything
/// after it strictly above) realises `insert_sorted`.
pub proof fn lemma_insert_sorted_at<T>(x: T, s: Seq<T>, key: spec_fn(T) -> int, p: int)
    requires
        0 <= p <= s.len(),
        p == 0 || key(s[p - 1]) <= key(x),
        forall|j: int| p <= j < s.len() ==> key(#[trigger] s[j]) > key(x),
    ensures
        insert_sorted(x, s, key) == s.insert(p, x),
    decreases s.len(),
{
    if s.len() == 0 {
        assert(insert_sorted(x, s, key) =~= s.insert(0, x));
    } else if key(s.last()) <= key(x) {
        assert(p == s.len());
        assert(s.push(x) =~= s.insert(p, x));
    } else {
        assert(p < s.len());
        let t = s.drop_last();
        lemma_insert_sorted_at(x, t, key, p);
        assert(t.insert(p, x).push(s.last()) =~= s.insert(p, x));
    }
}

proof fn lemma_insert_sorted_keeps_order<T>(x: T, s: Seq<T>, key: spec_fn(T) -> int)
    requires
        sorted_by_key(s, key),
    ensures
        sorted_by_key(insert_sorted(x, s, key), key),
    decreases s.len(),
{
    if s.len() == 0 {
    } else if key(s.last()) <= key(x) {
        let r = s.push(x);
        assert forall|i: int, j: int| 0 <= i < j < r.len() implies key(r[i]) <= key(r[j]) by {
            if j < s.len() {
            } else {
                if i < s.len() - 1 {
                    assert(key(s[i]) <= key(s[s.len() - 1]));
                }
            }
        }
    } else {
        let t = s.drop_last();
        assert(sorted_by_key(t, key)) by {
            assert(forall|i: int, j: int|
                0 <= i < j < t.len() ==> key(t[i]) == key(s[i]) && key(t[j]) == key(s[j]));
        }
        lemma_insert_sorted_keeps_order(x, t, key);
        let u = insert_sorted(x, t, key);
        let r = u.push(s.last());
        assert forall|i: int, j: int| 0 <= i < j < r.len() implies key(r[i]) <= key(r[j]) by {
            if j < u.len() {
            } else {
                assert(r[j] == s.last());
                if i < u.len() {
                    lemma_insert_sorted_member(x, t, key, i);
                }
            }
        }
    }
}

proof fn lemma_insert_sorted_member<T>(x: T, s: Seq<T>, key: spec_fn(T) -> int, i: int)
    requires
        sorted_by_key(s, key),
        0 <= i < insert_sorted(x, s, key).len(),
    ensures
        insert_sorted(x, s, key)[i] == x || exists|j: int|
            0 <= j < s.len() && insert_sorted(x, s, key)[i] == s[j],
    decreases s.len(),
{
    if s.len() == 0 {
    } else if key(s.last()) <= key(x) {
        let r = s.push(x);
        if i < s.len() {
            assert(r[i] == s[i]);
        }
    } else {
        let t = s.drop_last();
        assert(sorted_by_key(t, key)) by {
            assert(forall|a: int, b: int|
                0 <= a < b < t.len() ==> key(t[a]) == key(s[a]) && key(t[b]) == key(s[b]));
        }
        let u = insert_sorted(x, t, key);
        let r = u.push(s.last());
        if i < u.len() {
            lemma_insert_sorted_member(x, t, key, i);
            if u[i] != x {
                let j = choose|j: int| 0 <= j < t.len() && u[i] == t[j];
                assert(r[i] == s[j]);
            }
        } else {
            assert(r[i] == s[s.len() - 1]);
        }
    }
}

/// The stable sort really is ordered by its key.
pub proof fn lemma_sort_by_key_spec_sorted<T>(s: Seq<T>, key: spec_fn(T) -> int)
    ensures
        sorted_by_key(sort_by_key_spec(s, key), key),
    decreases s.len(),
{
    if s.len() > 0 {
        lemma_sort_by_key_spec_sorted(s.drop_last(), key);
        lemma_insert_sorted_keeps_order(s.last(), sort_by_key_spec(s.drop_last(), key), key);
    }
}

} // verus!
