//! Lists of keyed entries, read as maps.
use vstd::prelude::*;

verus! {

/// Whether no key occurs twice in `s`.
pub open spec fn distinct_keys<K, V>(s: Seq<(K, V)>) -> bool {
    forall|i: int, j: int| 0 <= i < j < s.len() ==> s[i].0 != s[j].0
}

/// Whether `s` has an entry with key `k`.
pub open spec fn has_key<K, V>(s: Seq<(K, V)>, k: K) -> bool {
    exists|i: int| 0 <= i < s.len() && s[i].0 == k
}

/// The map that holds the entries of `s`; of two entries with one key, the later.
pub open spec fn map_of<K, V>(s: Seq<(K, V)>) -> Map<K, V>
    decreases s.len(),
{
    if s.len() == 0 {
        Map::empty()
    } else {
        map_of(s.drop_last()).insert(s.last().0, s.last().1)
    }
}

/// The map of a list has the keys of the list. Where no key occurs twice, it maps
/// each key to the value beside it, and has as many keys as the list has entries.
pub proof fn lemma_map_of<K, V>(s: Seq<(K, V)>)
    ensures
        forall|k: K| #[trigger] map_of(s).contains_key(k) <==> has_key(s, k),
        map_of(s).dom().finite(),
        distinct_keys(s) ==> map_of(s).dom().len() == s.len(),
        distinct_keys(s) ==> forall|i: int|
            0 <= i < s.len() ==> map_of(s)[(#[trigger] s[i]).0] == s[i].1,
    decreases s.len(),
{
    if s.len() > 0 {
        let t = s.drop_last();
        let last = s.last();
        lemma_map_of(t);
        assert forall|k: K| #[trigger] map_of(s).contains_key(k) <==> has_key(s, k) by {
            if has_key(s, k) {
                let i = choose|i: int| 0 <= i < s.len() && s[i].0 == k;
                if i < t.len() {
                    assert(t[i].0 == k);
                }
            }
            if has_key(t, k) {
                let i = choose|i: int| 0 <= i < t.len() && t[i].0 == k;
                assert(s[i].0 == k);
            }
            if last.0 == k {
                assert(s[s.len() - 1].0 == k);
            }
        }
        if distinct_keys(s) {
            assert(distinct_keys(t)) by {
                assert forall|i: int, j: int| 0 <= i < j < t.len() implies t[i].0 != t[j].0 by {
                    assert(s[i].0 != s[j].0);
                }
            }
            assert(!map_of(t).contains_key(last.0)) by {
                if has_key(t, last.0) {
                    let i = choose|i: int| 0 <= i < t.len() && t[i].0 == last.0;
                    assert(s[i].0 != s[s.len() - 1].0);
                }
            }
            assert forall|i: int| 0 <= i < s.len() implies map_of(s)[(#[trigger] s[i]).0]
                == s[i].1 by {
                if i < t.len() {
                    assert(t[i] == s[i]);
                    assert(map_of(t).contains_key(t[i].0)) by {
                        assert(has_key(t, t[i].0));
                    }
                }
            }
        }
    }
}

/// An entry put behind a list is inserted into its map.
pub proof fn lemma_map_of_push<K, V>(s: Seq<(K, V)>, k: K, v: V)
    ensures
        map_of(s.push((k, v))) == map_of(s).insert(k, v),
        distinct_keys(s) && !has_key(s, k) ==> distinct_keys(s.push((k, v))),
{
    assert(s.push((k, v)).drop_last() =~= s);
    if distinct_keys(s) && !has_key(s, k) {
        let t = s.push((k, v));
        assert forall|i: int, j: int| 0 <= i < j < t.len() implies t[i].0 != t[j].0 by {
            if j < s.len() {
                assert(s[i].0 != s[j].0);
            } else {
                assert(s[i].0 == t[i].0);
            }
        }
    }
}

/// A new value put beside a key of a list without repeated keys is inserted into
/// its map under that key.
pub proof fn lemma_map_of_update<K, V>(s: Seq<(K, V)>, i: int, v: V)
    requires
        distinct_keys(s),
        0 <= i < s.len(),
    ensures
        map_of(s.update(i, (s[i].0, v))) == map_of(s).insert(s[i].0, v),
        distinct_keys(s.update(i, (s[i].0, v))),
{
    let t = s.update(i, (s[i].0, v));
    assert forall|a: int, b: int| 0 <= a < b < t.len() implies t[a].0 != t[b].0 by {
        assert(s[a].0 != s[b].0);
    }
    lemma_map_of(s);
    lemma_map_of(t);
    let m = map_of(s).insert(s[i].0, v);
    assert forall|k: K| map_of(t).contains_key(k) <==> m.contains_key(k) by {
        if has_key(t, k) {
            let a = choose|a: int| 0 <= a < t.len() && t[a].0 == k;
            assert(s[a].0 == k);
        }
        if has_key(s, k) {
            let a = choose|a: int| 0 <= a < s.len() && s[a].0 == k;
            assert(t[a].0 == k);
        }
        if k == s[i].0 {
            assert(t[i].0 == k);
        }
    }
    assert forall|k: K| map_of(t).contains_key(k) implies map_of(t)[k] == m[k] by {
        let a = choose|a: int| 0 <= a < t.len() && t[a].0 == k;
        assert(map_of(t)[t[a].0] == t[a].1);
        if a != i {
            assert(t[a] == s[a]);
            assert(map_of(s)[s[a].0] == s[a].1);
            assert(s[a].0 != s[i].0);
        }
    }
    assert(map_of(t) =~= m);
}

/// An entry taken out of a list without repeated keys is removed from its map.
pub proof fn lemma_map_of_remove<K, V>(s: Seq<(K, V)>, i: int)
    requires
        distinct_keys(s),
        0 <= i < s.len(),
    ensures
        map_of(s.remove(i)) == map_of(s).remove(s[i].0),
        distinct_keys(s.remove(i)),
{
    let t = s.remove(i);
    assert forall|a: int, b: int| 0 <= a < b < t.len() implies t[a].0 != t[b].0 by {
        let a0 = if a < i { a } else { a + 1 };
        let b0 = if b < i { b } else { b + 1 };
        assert(s[a0].0 != s[b0].0);
    }
    lemma_map_of(s);
    lemma_map_of(t);
    let m = map_of(s).remove(s[i].0);
    assert forall|k: K| map_of(t).contains_key(k) <==> m.contains_key(k) by {
        if has_key(t, k) {
            let a = choose|a: int| 0 <= a < t.len() && t[a].0 == k;
            let a0 = if a < i { a } else { a + 1 };
            assert(s[a0].0 == k);
            assert(s[a0].0 != s[i].0) by {
                if a0 < i {
                    assert(s[a0].0 != s[i].0);
                } else {
                    assert(s[i].0 != s[a0].0);
                }
            }
        }
        if has_key(s, k) && k != s[i].0 {
            let a = choose|a: int| 0 <= a < s.len() && s[a].0 == k;
            let a1 = if a < i { a } else { a - 1 };
            assert(t[a1].0 == k);
        }
    }
    assert forall|k: K| map_of(t).contains_key(k) implies map_of(t)[k] == m[k] by {
        let a = choose|a: int| 0 <= a < t.len() && t[a].0 == k;
        let a0 = if a < i { a } else { a + 1 };
        assert(map_of(t)[t[a].0] == t[a].1);
        assert(t[a] == s[a0]);
        assert(map_of(s)[s[a0].0] == s[a0].1);
    }
    assert(map_of(t) =~= m);
}

/// The number of entries of `s` whose value meets `p`.
pub open spec fn count_where<K, V>(s: Seq<(K, V)>, p: spec_fn(V) -> bool) -> nat
    decreases s.len(),
{
    if s.len() == 0 {
        0
    } else {
        count_where(s.drop_last(), p) + (if p(s.last().1) {
            1nat
        } else {
            0nat
        })
    }
}

/// The keys of the map of `s` whose value meets `p`.
pub open spec fn keys_where<K, V>(s: Seq<(K, V)>, p: spec_fn(V) -> bool) -> Set<K> {
    map_of(s).dom().filter(|k: K| p(map_of(s)[k]))
}

/// In a list without repeated keys as many entries have a value that meets `p` as
/// its map has keys with such a value.
pub proof fn lemma_count_where<K, V>(s: Seq<(K, V)>, p: spec_fn(V) -> bool)
    requires
        distinct_keys(s),
    ensures
        keys_where(s, p).finite(),
        count_where(s, p) == keys_where(s, p).len(),
    decreases s.len(),
{
    lemma_map_of(s);
    if s.len() == 0 {
        assert(keys_where(s, p) =~= Set::<K>::empty());
    } else {
        let t = s.drop_last();
        let last = s.last();
        assert(distinct_keys(t)) by {
            assert forall|i: int, j: int| 0 <= i < j < t.len() implies t[i].0 != t[j].0 by {
                assert(s[i].0 != s[j].0);
            }
        }
        lemma_count_where(t, p);
        lemma_map_of(t);
        assert(!map_of(t).contains_key(last.0)) by {
            if has_key(t, last.0) {
                let i = choose|i: int| 0 <= i < t.len() && t[i].0 == last.0;
                assert(s[i].0 != s[s.len() - 1].0);
            }
        }
        assert(map_of(s)[last.0] == last.1);
        if p(last.1) {
            assert(keys_where(s, p) =~= keys_where(t, p).insert(last.0));
        } else {
            assert(keys_where(s, p) =~= keys_where(t, p));
        }
    }
}

} // verus!
