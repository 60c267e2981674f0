//! Lists of records that are looked up by a key, and the map such a list
//! stands for.

use vstd::prelude::*;

verus! {

/// No two elements of `s` have the same key.
pub open spec fn unique_keys<T, K>(s: Seq<T>, key: spec_fn(T) -> K) -> bool {
    forall|i: int, j: int| 0 <= i < j < s.len() ==> #[trigger] key(s[i]) != #[trigger] key(s[j])
}

/// Some element of `s` has the key `k`.
pub open spec fn has_key<T, K>(s: Seq<T>, key: spec_fn(T) -> K, k: K) -> bool {
    exists|i: int| 0 <= i < s.len() && #[trigger] key(s[i]) == k
}

/// The position of an element of `s` with the key `k`.
pub open spec fn position_of<T, K>(s: Seq<T>, key: spec_fn(T) -> K, k: K) -> int {
    choose|i: int| 0 <= i < s.len() && #[trigger] key(s[i]) == k
}

/// The map from each key that occurs in `s` to an element that has it.
pub open spec fn keyed_map<T, K>(s: Seq<T>, key: spec_fn(T) -> K) -> Map<K, T> {
    Map::new(|k: K| has_key(s, key, k), |k: K| s[position_of(s, key, k)])
}

/// With unique keys, each element is what the map holds under its key.
pub proof fn lemma_keyed_map_at<T, K>(s: Seq<T>, key: spec_fn(T) -> K, i: int)
    requires
        unique_keys(s, key),
        0 <= i < s.len(),
    ensures
        keyed_map(s, key).contains_key(key(s[i])),
        keyed_map(s, key)[key(s[i])] == s[i],
        position_of(s, key, key(s[i])) == i,
{
    let k = key(s[i]);
    assert(has_key(s, key, k));
    let j = position_of(s, key, k);
    if j < i {
        assert(key(s[j]) != key(s[i]));
    } else if i < j {
        assert(key(s[i]) != key(s[j]));
    }
}

/// Appending an element with a key that does not occur yet adds one entry.
pub proof fn lemma_keyed_map_push<T, K>(s: Seq<T>, key: spec_fn(T) -> K, e: T)
    requires
        unique_keys(s, key),
        !has_key(s, key, key(e)),
    ensures
        unique_keys(s.push(e), key),
        keyed_map(s.push(e), key) == keyed_map(s, key).insert(key(e), e),
{
    let t = s.push(e);
    assert forall|i: int, j: int| 0 <= i < j < t.len() implies #[trigger] key(t[i])
        != #[trigger] key(t[j]) by {
        if j == s.len() {
            assert(t[i] == s[i]);
            if key(s[i]) == key(e) {
                assert(has_key(s, key, key(e)));
            }
        } else {
            assert(t[i] == s[i] && t[j] == s[j]);
        }
    }
    assert forall|k: K| keyed_map(t, key).contains_key(k) <==> keyed_map(s, key).insert(
        key(e),
        e,
    ).contains_key(k) by {
        if has_key(t, key, k) {
            let i = position_of(t, key, k);
            if i < s.len() {
                assert(t[i] == s[i]);
                assert(has_key(s, key, k));
            }
        }
        if has_key(s, key, k) {
            let i = position_of(s, key, k);
            assert(t[i] == s[i]);
            assert(has_key(t, key, k));
        }
        if k == key(e) {
            assert(t[s.len() as int] == e);
            assert(has_key(t, key, k));
        }
    }
    assert forall|k: K| keyed_map(t, key).contains_key(k) implies keyed_map(t, key)[k]
        == keyed_map(s, key).insert(key(e), e)[k] by {
        let i = position_of(t, key, k);
        lemma_keyed_map_at(t, key, i);
        if i < s.len() {
            assert(t[i] == s[i]);
            lemma_keyed_map_at(s, key, i);
        }
    }
    assert(keyed_map(t, key) =~= keyed_map(s, key).insert(key(e), e));
}

/// Replacing an element by one with the same key replaces one entry.
pub proof fn lemma_keyed_map_update<T, K>(s: Seq<T>, key: spec_fn(T) -> K, i: int, e: T)
    requires
        unique_keys(s, key),
        0 <= i < s.len(),
        key(e) == key(s[i]),
    ensures
        unique_keys(s.update(i, e), key),
        keyed_map(s.update(i, e), key) == keyed_map(s, key).insert(key(e), e),
{
    let t = s.update(i, e);
    assert forall|a: int, b: int| 0 <= a < b < t.len() implies #[trigger] key(t[a])
        != #[trigger] key(t[b]) by {
        assert(key(t[a]) == key(s[a]));
        assert(key(t[b]) == key(s[b]));
    }
    assert forall|k: K| keyed_map(t, key).contains_key(k) <==> keyed_map(s, key).insert(
        key(e),
        e,
    ).contains_key(k) by {
        if has_key(t, key, k) {
            let a = position_of(t, key, k);
            assert(key(t[a]) == key(s[a]));
            assert(has_key(s, key, k));
        }
        if has_key(s, key, k) {
            let a = position_of(s, key, k);
            assert(key(t[a]) == key(s[a]));
            assert(has_key(t, key, k));
        }
        if k == key(e) {
            assert(key(t[i]) == k);
            assert(has_key(t, key, k));
        }
    }
    assert forall|k: K| keyed_map(t, key).contains_key(k) implies keyed_map(t, key)[k]
        == keyed_map(s, key).insert(key(e), e)[k] by {
        let a = position_of(t, key, k);
        lemma_keyed_map_at(t, key, a);
        if a != i {
            assert(t[a] == s[a]);
            lemma_keyed_map_at(s, key, a);
        }
    }
    assert(keyed_map(t, key) =~= keyed_map(s, key).insert(key(e), e));
}

/// Taking an element out takes its entry out.
pub proof fn lemma_keyed_map_remove<T, K>(s: Seq<T>, key: spec_fn(T) -> K, i: int)
    requires
        unique_keys(s, key),
        0 <= i < s.len(),
    ensures
        unique_keys(s.remove(i), key),
        keyed_map(s.remove(i), key) == keyed_map(s, key).remove(key(s[i])),
{
    let t = s.remove(i);
    assert forall|a: int, b: int| 0 <= a < b < t.len() implies #[trigger] key(t[a])
        != #[trigger] key(t[b]) by {
        let a0 = if a < i { a } else { a + 1 };
        let b0 = if b < i { b } else { b + 1 };
        assert(t[a] == s[a0] && t[b] == s[b0]);
        assert(key(s[a0]) != key(s[b0]));
    }
    assert forall|k: K| keyed_map(t, key).contains_key(k) <==> keyed_map(s, key).remove(
        key(s[i]),
    ).contains_key(k) by {
        if has_key(t, key, k) {
            let a = position_of(t, key, k);
            let a0 = if a < i { a } else { a + 1 };
            assert(t[a] == s[a0]);
            assert(has_key(s, key, k));
            if a0 < i {
                assert(key(s[a0]) != key(s[i]));
            } else {
                assert(key(s[i]) != key(s[a0]));
            }
        }
        if has_key(s, key, k) && k != key(s[i]) {
            let a0 = position_of(s, key, k);
            let a = if a0 < i { a0 } else { a0 - 1 };
            assert(t[a] == s[a0]);
            assert(has_key(t, key, k));
        }
    }
    assert forall|k: K| keyed_map(t, key).contains_key(k) implies keyed_map(t, key)[k]
        == keyed_map(s, key).remove(key(s[i]))[k] by {
        let a = position_of(t, key, k);
        lemma_keyed_map_at(t, key, a);
        let a0 = if a < i { a } else { a + 1 };
        assert(t[a] == s[a0]);
        lemma_keyed_map_at(s, key, a0);
    }
    assert(keyed_map(t, key) =~= keyed_map(s, key).remove(key(s[i])));
}

/// Moving the last element into the place of another takes that one's entry
/// out.
pub proof fn lemma_keyed_map_swap_remove<T, K>(s: Seq<T>, key: spec_fn(T) -> K, i: int)
    requires
        unique_keys(s, key),
        0 <= i < s.len(),
    ensures
        unique_keys(s.update(i, s.last()).drop_last(), key),
        keyed_map(s.update(i, s.last()).drop_last(), key) == keyed_map(s, key).remove(key(s[i])),
{
    let t = s.update(i, s.last()).drop_last();
    let last = s.len() - 1;
    assert forall|a: int| 0 <= a < t.len() implies t[a] == s[if a == i {
        last
    } else {
        a
    }] by {}
    assert forall|a: int, b: int| 0 <= a < b < t.len() implies #[trigger] key(t[a])
        != #[trigger] key(t[b]) by {
        let a0 = if a == i { last } else { a };
        let b0 = if b == i { last } else { b };
        assert(t[a] == s[a0] && t[b] == s[b0]);
        if a0 < b0 {
            assert(key(s[a0]) != key(s[b0]));
        } else {
            assert(key(s[b0]) != key(s[a0]));
        }
    }
    assert forall|k: K| keyed_map(t, key).contains_key(k) <==> keyed_map(s, key).remove(
        key(s[i]),
    ).contains_key(k) by {
        if has_key(t, key, k) {
            let a = position_of(t, key, k);
            let a0 = if a == i { last } else { a };
            assert(t[a] == s[a0]);
            assert(key(s[a0]) == k);
            assert(has_key(s, key, k));
            if a0 < i {
                assert(key(s[a0]) != key(s[i]));
            } else {
                assert(key(s[i]) != key(s[a0]));
            }
        }
        if has_key(s, key, k) && k != key(s[i]) {
            let a0 = position_of(s, key, k);
            let a = if a0 == last { i } else { a0 };
            assert(t[a] == s[a0]);
            assert(key(t[a]) == k);
            assert(has_key(t, key, k));
        }
    }
    assert forall|k: K| keyed_map(t, key).contains_key(k) implies keyed_map(t, key)[k]
        == keyed_map(s, key).remove(key(s[i]))[k] by {
        let a = position_of(t, key, k);
        lemma_keyed_map_at(t, key, a);
        let a0 = if a == i { last } else { a };
        assert(t[a] == s[a0]);
        lemma_keyed_map_at(s, key, a0);
    }
    assert(keyed_map(t, key) =~= keyed_map(s, key).remove(key(s[i])));
}

/// The empty list stands for the empty map.
pub proof fn lemma_keyed_map_empty<T, K>(key: spec_fn(T) -> K)
    ensures
        unique_keys(Seq::<T>::empty(), key),
        keyed_map(Seq::<T>::empty(), key) == Map::<K, T>::empty(),
{
    assert(keyed_map(Seq::<T>::empty(), key) =~= Map::<K, T>::empty());
}

} // verus!
