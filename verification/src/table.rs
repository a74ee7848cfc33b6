use vstd::prelude::*;

verus! {

/// Whether some entry of `s` has the key `k`.
pub open spec fn has_key<K, V>(s: Seq<(K, V)>, k: K) -> bool {
    exists|i: int| 0 <= i < s.len() && (#[trigger] s[i]).0 == k
}

/// The place of an entry of `s` that has the key `k`.
pub open spec fn index_of<K, V>(s: Seq<(K, V)>, k: K) -> int {
    choose|i: int| 0 <= i < s.len() && (#[trigger] s[i]).0 == k
}

/// No two entries of `s` have the same key.
pub open spec fn distinct_keys<K, V>(s: Seq<(K, V)>) -> bool {
    forall|i: int, j: int|
        0 <= i < s.len() && 0 <= j < s.len() && i != j ==> (#[trigger] s[i]).0 != (#[trigger] s[j]).0
}

/// The map from each key of `s` to the value stored with it.
pub open spec fn as_map<K, V>(s: Seq<(K, V)>) -> Map<K, V> {
    Map::new(|k: K| has_key(s, k), |k: K| s[index_of(s, k)].1)
}

/// The entry at place `i` is what the map holds for its key.
pub proof fn lemma_as_map_at<K, V>(s: Seq<(K, V)>, i: int)
    requires
        distinct_keys(s),
        0 <= i < s.len(),
    ensures
        as_map(s).dom().contains(s[i].0),
        as_map(s)[s[i].0] == s[i].1,
{
    assert(has_key(s, s[i].0));
    let j = index_of(s, s[i].0);
    assert(0 <= j < s.len() && s[j].0 == s[i].0);
    assert(j == i);
}

/// A key that no entry has is not in the map.
pub proof fn lemma_as_map_absent<K, V>(s: Seq<(K, V)>, k: K)
    requires
        forall|i: int| 0 <= i < s.len() ==> (#[trigger] s[i]).0 != k,
    ensures
        !as_map(s).dom().contains(k),
{
}

/// Appending an entry with a new key inserts it into the map.
pub proof fn lemma_as_map_push<K, V>(s: Seq<(K, V)>, e: (K, V))
    requires
        distinct_keys(s),
        !has_key(s, e.0),
    ensures
        distinct_keys(s.push(e)),
        as_map(s.push(e)) == as_map(s).insert(e.0, e.1),
{
    let t = s.push(e);
    assert forall|i: int, j: int| 0 <= i < t.len() && 0 <= j < t.len() && i != j implies (
    #[trigger] t[i]).0 != (#[trigger] t[j]).0 by {
        if i < s.len() && j < s.len() {
            assert(s[i].0 != s[j].0);
        } else if i < s.len() {
            assert(s[i].0 != e.0);
        } else {
            assert(s[j].0 != e.0);
        }
    }
    assert forall|k: K| #[trigger] as_map(t).dom().contains(k) == as_map(s).insert(
        e.0,
        e.1,
    ).dom().contains(k) by {
        if has_key(t, k) {
            let i = index_of(t, k);
            if i < s.len() {
                assert(s[i].0 == k);
            }
        }
        if has_key(s, k) {
            let i = index_of(s, k);
            assert(t[i].0 == k);
        }
        if k == e.0 {
            assert(t[s.len() as int].0 == k);
        }
    }
    assert forall|k: K| as_map(t).dom().contains(k) implies #[trigger] as_map(t)[k] == as_map(
        s,
    ).insert(e.0, e.1)[k] by {
        let i = index_of(t, k);
        lemma_as_map_at(t, i);
        if i < s.len() {
            assert(s[i].0 == k);
            lemma_as_map_at(s, i);
        }
    }
    assert(as_map(t) =~= as_map(s).insert(e.0, e.1));
}

/// Replacing the value at place `i` replaces it in the map.
pub proof fn lemma_as_map_update<K, V>(s: Seq<(K, V)>, i: int, v: V)
    requires
        distinct_keys(s),
        0 <= i < s.len(),
    ensures
        distinct_keys(s.update(i, (s[i].0, v))),
        as_map(s.update(i, (s[i].0, v))) == as_map(s).insert(s[i].0, v),
{
    let t = s.update(i, (s[i].0, v));
    assert forall|a: int, b: int| 0 <= a < t.len() && 0 <= b < t.len() && a != b implies (
    #[trigger] t[a]).0 != (#[trigger] t[b]).0 by {
        assert(s[a].0 != s[b].0);
    }
    assert forall|k: K| #[trigger] as_map(t).dom().contains(k) == as_map(s).insert(
        s[i].0,
        v,
    ).dom().contains(k) by {
        if has_key(t, k) {
            let j = index_of(t, k);
            assert(s[j].0 == k);
        }
        if has_key(s, k) {
            let j = index_of(s, k);
            assert(t[j].0 == k);
        }
        if k == s[i].0 {
            assert(t[i].0 == k);
        }
    }
    assert forall|k: K| as_map(t).dom().contains(k) implies #[trigger] as_map(t)[k] == as_map(
        s,
    ).insert(s[i].0, v)[k] by {
        let j = index_of(t, k);
        lemma_as_map_at(t, j);
        assert(s[j].0 == k);
        lemma_as_map_at(s, j);
    }
    assert(as_map(t) =~= as_map(s).insert(s[i].0, v));
}

/// Taking out the entry at place `i` removes its key from the map.
pub proof fn lemma_as_map_remove<K, V>(s: Seq<(K, V)>, i: int)
    requires
        distinct_keys(s),
        0 <= i < s.len(),
    ensures
        distinct_keys(s.remove(i)),
        as_map(s.remove(i)) == as_map(s).remove(s[i].0),
{
    let t = s.remove(i);
    assert forall|a: int, b: int| 0 <= a < t.len() && 0 <= b < t.len() && a != b implies (
    #[trigger] t[a]).0 != (#[trigger] t[b]).0 by {
        let a0 = if a < i { a } else { a + 1 };
        let b0 = if b < i { b } else { b + 1 };
        assert(t[a] == s[a0]);
        assert(t[b] == s[b0]);
        assert(s[a0].0 != s[b0].0);
    }
    assert forall|k: K| #[trigger] as_map(t).dom().contains(k) == as_map(s).remove(
        s[i].0,
    ).dom().contains(k) by {
        if has_key(t, k) {
            let j = index_of(t, k);
            let j0 = if j < i { j } else { j + 1 };
            assert(t[j] == s[j0]);
            assert(s[j0].0 == k);
            assert(s[j0].0 != s[i].0);
        }
        if has_key(s, k) && k != s[i].0 {
            let j = index_of(s, k);
            let j1 = if j < i { j } else { j - 1 };
            assert(t[j1] == s[j]);
            assert(t[j1].0 == k);
        }
    }
    assert forall|k: K| as_map(t).dom().contains(k) implies #[trigger] as_map(t)[k] == as_map(
        s,
    ).remove(s[i].0)[k] by {
        let j = index_of(t, k);
        lemma_as_map_at(t, j);
        let j0 = if j < i { j } else { j + 1 };
        assert(t[j] == s[j0]);
        lemma_as_map_at(s, j0);
    }
    assert(as_map(t) =~= as_map(s).remove(s[i].0));
}

} // verus!
