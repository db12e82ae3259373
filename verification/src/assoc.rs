//! Association lists: sequences of key/value pairs read as finite maps.

use vstd::prelude::*;

verus! {

/// No key occurs twice in `s`.
pub open spec fn keys_unique<K, V>(s: Seq<(K, V)>) -> bool {
    forall|i: int, j: int|
        0 <= i < s.len() && 0 <= j < s.len() && i != j ==> #[trigger] s[i].0 != #[trigger] s[j].0
}

/// Some entry of `s` has key `k`.
pub open spec fn has_key<K, V>(s: Seq<(K, V)>, k: K) -> bool {
    exists|i: int| 0 <= i < s.len() && #[trigger] s[i].0 == k
}

/// The map that an association list denotes.
pub open spec fn assoc_map<K, V>(s: Seq<(K, V)>) -> Map<K, V> {
    Map::new(
        |k: K| has_key(s, k),
        |k: K| s[choose|i: int| 0 <= i < s.len() && #[trigger] s[i].0 == k].1,
    )
}

/// Reading the map at the key of entry `i` gives that entry's value.
pub proof fn lemma_assoc_lookup<K, V>(s: Seq<(K, V)>, i: int)
    requires
        keys_unique(s),
        0 <= i < s.len(),
    ensures
        assoc_map(s).contains_key(s[i].0),
        assoc_map(s)[s[i].0] == s[i].1,
{
    assert(has_key(s, s[i].0));
    let j = choose|j: int| 0 <= j < s.len() && #[trigger] s[j].0 == s[i].0;
    assert(s[j].0 == s[i].0);
}

/// Appending an entry with a new key inserts it into the map.
pub proof fn lemma_assoc_push<K, V>(s: Seq<(K, V)>, k: K, v: V)
    requires
        keys_unique(s),
        !has_key(s, k),
    ensures
        keys_unique(s.push((k, v))),
        assoc_map(s.push((k, v))) == assoc_map(s).insert(k, v),
{
    let t = s.push((k, v));
    assert forall|i: int, j: int|
        0 <= i < t.len() && 0 <= j < t.len() && i != j implies #[trigger] t[i].0 != #[trigger] t[j].0 by {
        if i < s.len() && j < s.len() {
            assert(t[i] == s[i] && t[j] == s[j]);
        } else if i < s.len() {
            assert(t[i] == s[i]);
        } else {
            assert(t[j] == s[j]);
        }
    }
    assert forall|key: K| #[trigger] has_key(t, key) <==> (has_key(s, key) || key == k) by {
        if has_key(s, key) {
            let i = choose|i: int| 0 <= i < s.len() && #[trigger] s[i].0 == key;
            assert(t[i] == s[i]);
        }
        if key == k {
            assert(t[s.len() as int].0 == k);
        }
        if has_key(t, key) {
            let i = choose|i: int| 0 <= i < t.len() && #[trigger] t[i].0 == key;
            if i < s.len() {
                assert(t[i] == s[i]);
            }
        }
    }
    assert forall|key: K| #[trigger] assoc_map(t).contains_key(key) implies assoc_map(t)[key]
        == assoc_map(s).insert(k, v)[key] by {
        let i = choose|i: int| 0 <= i < t.len() && #[trigger] t[i].0 == key;
        lemma_assoc_lookup(t, i);
        if i < s.len() {
            assert(t[i] == s[i]);
            lemma_assoc_lookup(s, i);
        }
    }
    assert(assoc_map(t) =~= assoc_map(s).insert(k, v));
}

/// Replacing the value of entry `i` updates the map at that entry's key.
pub proof fn lemma_assoc_update<K, V>(s: Seq<(K, V)>, i: int, v: V)
    requires
        keys_unique(s),
        0 <= i < s.len(),
    ensures
        keys_unique(s.update(i, (s[i].0, v))),
        assoc_map(s.update(i, (s[i].0, v))) == assoc_map(s).insert(s[i].0, v),
{
    let k = s[i].0;
    let t = s.update(i, (k, v));
    assert forall|a: int, b: int|
        0 <= a < t.len() && 0 <= b < t.len() && a != b implies #[trigger] t[a].0 != #[trigger] t[b].0 by {
        assert(t[a].0 == s[a].0 && t[b].0 == s[b].0);
    }
    assert forall|key: K| #[trigger] has_key(t, key) <==> has_key(s, key) by {
        if has_key(s, key) {
            let j = choose|j: int| 0 <= j < s.len() && #[trigger] s[j].0 == key;
            assert(t[j].0 == s[j].0);
        }
        if has_key(t, key) {
            let j = choose|j: int| 0 <= j < t.len() && #[trigger] t[j].0 == key;
            assert(t[j].0 == s[j].0);
        }
    }
    assert forall|key: K| #[trigger] assoc_map(t).contains_key(key) implies assoc_map(t)[key]
        == assoc_map(s).insert(k, v)[key] by {
        let j = choose|j: int| 0 <= j < t.len() && #[trigger] t[j].0 == key;
        lemma_assoc_lookup(t, j);
        if j != i {
            assert(t[j] == s[j]);
            lemma_assoc_lookup(s, j);
        }
    }
    assert(assoc_map(t) =~= assoc_map(s).insert(k, v));
}

/// Removing entry `i` removes its key from the map.
pub proof fn lemma_assoc_remove<K, V>(s: Seq<(K, V)>, i: int)
    requires
        keys_unique(s),
        0 <= i < s.len(),
    ensures
        keys_unique(s.remove(i)),
        assoc_map(s.remove(i)) == assoc_map(s).remove(s[i].0),
{
    let k = s[i].0;
    let t = s.remove(i);
    assert forall|a: int, b: int|
        0 <= a < t.len() && 0 <= b < t.len() && a != b implies #[trigger] t[a].0 != #[trigger] t[b].0 by {
        let a2 = if a < i { a } else { a + 1 };
        let b2 = if b < i { b } else { b + 1 };
        assert(t[a] == s[a2] && t[b] == s[b2]);
    }
    assert forall|key: K| #[trigger] has_key(t, key) <==> (has_key(s, key) && key != k) by {
        if has_key(s, key) && key != k {
            let j = choose|j: int| 0 <= j < s.len() && #[trigger] s[j].0 == key;
            if j < i {
                assert(t[j] == s[j]);
            } else {
                assert(j != i);
                assert(t[j - 1] == s[j]);
            }
        }
        if has_key(t, key) {
            let j = choose|j: int| 0 <= j < t.len() && #[trigger] t[j].0 == key;
            let j2 = if j < i { j } else { j + 1 };
            assert(t[j] == s[j2]);
            assert(j2 != i);
        }
    }
    assert forall|key: K| #[trigger] assoc_map(t).contains_key(key) implies assoc_map(t)[key]
        == assoc_map(s).remove(k)[key] by {
        let j = choose|j: int| 0 <= j < t.len() && #[trigger] t[j].0 == key;
        lemma_assoc_lookup(t, j);
        let j2 = if j < i { j } else { j + 1 };
        assert(t[j] == s[j2]);
        lemma_assoc_lookup(s, j2);
    }
    assert(assoc_map(t) =~= assoc_map(s).remove(k));
}

} // verus!
