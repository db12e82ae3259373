//! The order of records by a time and an id, and the latest record among those
//! that qualify (the last one, when two keys tie).

use vstd::prelude::*;

verus! {

/// Lexicographic order of strings by code point.
pub open spec fn str_lt(a: Seq<char>, b: Seq<char>) -> bool
    decreases a.len(),
{
    if a.len() == 0 {
        b.len() > 0
    } else if b.len() == 0 {
        false
    } else if a[0] != b[0] {
        (a[0] as int) < (b[0] as int)
    } else {
        str_lt(a.skip(1), b.skip(1))
    }
}

/// The order of (time, id) keys: by time, then by id.
pub open spec fn key_lt(a: (int, Seq<char>), b: (int, Seq<char>)) -> bool {
    a.0 < b.0 || (a.0 == b.0 && str_lt(a.1, b.1))
}

pub proof fn lemma_str_lt_irreflexive(a: Seq<char>)
    ensures
        !str_lt(a, a),
    decreases a.len(),
{
    if a.len() > 0 {
        lemma_str_lt_irreflexive(a.skip(1));
    }
}

pub proof fn lemma_str_lt_transitive(a: Seq<char>, b: Seq<char>, c: Seq<char>)
    requires
        str_lt(a, b),
        str_lt(b, c),
    ensures
        str_lt(a, c),
    decreases a.len(),
{
    if a.len() > 0 && b.len() > 0 && c.len() > 0 && a[0] == b[0] && b[0] == c[0] {
        lemma_str_lt_transitive(a.skip(1), b.skip(1), c.skip(1));
    }
}

pub proof fn lemma_str_lt_total(a: Seq<char>, b: Seq<char>)
    ensures
        a == b || str_lt(a, b) || str_lt(b, a),
    decreases a.len(),
{
    if a.len() > 0 && b.len() > 0 {
        if a[0] == b[0] {
            lemma_str_lt_total(a.skip(1), b.skip(1));
            if a.skip(1) == b.skip(1) {
                assert(a =~= seq![a[0]] + a.skip(1));
                assert(b =~= seq![b[0]] + b.skip(1));
            }
        } else {
            assert((a[0] as int) != (b[0] as int));
        }
    } else if a.len() == 0 && b.len() == 0 {
        assert(a =~= b);
    }
}

pub proof fn lemma_str_lt_asymmetric(a: Seq<char>, b: Seq<char>)
    requires
        str_lt(a, b),
    ensures
        !str_lt(b, a),
{
    if str_lt(b, a) {
        lemma_str_lt_transitive(a, b, a);
        lemma_str_lt_irreflexive(a);
    }
}

/// Keys are totally and strictly ordered.
pub proof fn lemma_key_order(a: (int, Seq<char>), b: (int, Seq<char>), c: (int, Seq<char>))
    ensures
        !key_lt(a, a),
        key_lt(a, b) ==> !key_lt(b, a),
        key_lt(a, b) && key_lt(b, c) ==> key_lt(a, c),
        a == b || key_lt(a, b) || key_lt(b, a),
{
    lemma_str_lt_irreflexive(a.1);
    if str_lt(a.1, b.1) {
        lemma_str_lt_asymmetric(a.1, b.1);
    }
    if str_lt(a.1, b.1) && str_lt(b.1, c.1) {
        lemma_str_lt_transitive(a.1, b.1, c.1);
    }
    lemma_str_lt_total(a.1, b.1);
}

/// Entry `i` is the latest of those that qualify among the first `n`: it
/// qualifies, no earlier one has a greater key, and every later one a smaller.
pub open spec fn latest_at(ok: Seq<bool>, keys: Seq<(int, Seq<char>)>, n: int, i: int) -> bool {
    &&& 0 <= i < n
    &&& ok[i]
    &&& forall|j: int|
        0 <= j < n && j != i && #[trigger] ok[j] ==> if j < i {
            !key_lt(keys[i], keys[j])
        } else {
            key_lt(keys[j], keys[i])
        }
}

/// The latest of the entries that qualify, if any qualifies.
pub open spec fn latest(ok: Seq<bool>, keys: Seq<(int, Seq<char>)>) -> Option<int> {
    if exists|i: int| latest_at(ok, keys, ok.len() as int, i) {
        Some(choose|i: int| latest_at(ok, keys, ok.len() as int, i))
    } else {
        None
    }
}

/// The latest entry, when there is one, is an entry that qualifies.
pub proof fn lemma_latest_bounds(ok: Seq<bool>, keys: Seq<(int, Seq<char>)>)
    ensures
        latest(ok, keys) matches Some(i) ==> 0 <= i < ok.len() && ok[i],
{
}

/// At most one entry is the latest.
pub proof fn lemma_latest_unique(ok: Seq<bool>, keys: Seq<(int, Seq<char>)>, n: int, i: int, k: int)
    requires
        latest_at(ok, keys, n, i),
        latest_at(ok, keys, n, k),
    ensures
        i == k,
{
    if i < k {
        assert(ok[i]);
        lemma_key_order(keys[i], keys[k], keys[k]);
    } else if k < i {
        assert(ok[k]);
        lemma_key_order(keys[k], keys[i], keys[i]);
    }
}

/// What the scan for the latest entry keeps after `n` entries.
pub open spec fn scan_state(ok: Seq<bool>, keys: Seq<(int, Seq<char>)>, n: int, best: Option<int>) -> bool {
    match best {
        Some(b) => latest_at(ok, keys, n, b),
        None => forall|j: int| 0 <= j < n ==> !#[trigger] ok[j],
    }
}

/// One step of the scan: a qualifying entry whose key is not smaller than the
/// best so far takes its place.
pub proof fn lemma_scan_step(ok: Seq<bool>, keys: Seq<(int, Seq<char>)>, n: int, best: Option<int>)
    requires
        0 <= n < ok.len(),
        ok.len() == keys.len(),
        scan_state(ok, keys, n, best),
    ensures
        scan_state(
            ok,
            keys,
            n + 1,
            if ok[n] && (best is None || !key_lt(keys[n], keys[best->0])) {
                Some(n)
            } else {
                best
            },
        ),
{
    if ok[n] {
        match best {
            None => {},
            Some(b) => {
                if !key_lt(keys[n], keys[b]) {
                    assert forall|j: int|
                        0 <= j < n + 1 && j != n && #[trigger] ok[j] implies !key_lt(keys[n], keys[j]) by {
                        lemma_key_order(keys[j], keys[b], keys[n]);
                        lemma_key_order(keys[n], keys[j], keys[b]);
                        lemma_key_order(keys[b], keys[n], keys[j]);
                    }
                } else {
                    assert forall|j: int|
                        0 <= j < n + 1 && j != b && #[trigger] ok[j] implies (if j < b {
                            !key_lt(keys[b], keys[j])
                        } else {
                            key_lt(keys[j], keys[b])
                        }) by {
                        if j < n {
                            assert(latest_at(ok, keys, n, b));
                        }
                    }
                }
            },
        }
    }
}

/// When the scan is done, it holds the latest entry.
pub proof fn lemma_scan_done(ok: Seq<bool>, keys: Seq<(int, Seq<char>)>, best: Option<int>)
    requires
        scan_state(ok, keys, ok.len() as int, best),
    ensures
        latest(ok, keys) == best,
{
    match best {
        Some(b) => {
            let c = choose|i: int| latest_at(ok, keys, ok.len() as int, i);
            lemma_latest_unique(ok, keys, ok.len() as int, b, c);
        },
        None => {
            if exists|i: int| latest_at(ok, keys, ok.len() as int, i) {
                let c = choose|i: int| latest_at(ok, keys, ok.len() as int, i);
                assert(ok[c]);
            }
        },
    }
}

/// Whether `(t1, s1)` comes before `(t2, s2)`.
pub fn key_less(t1: i64, s1: &str, t2: i64, s2: &str) -> (r: bool)
    ensures
        r == key_lt((t1 as int, s1@), (t2 as int, s2@)),
{
    if t1 != t2 {
        return t1 < t2;
    }
    let a = crate::text::chars_of(s1);
    let b = crate::text::chars_of(s2);
    let mut i: usize = 0;
    let n = a.len();
    let m = b.len();
    assert(a@.skip(0) =~= a@);
    assert(b@.skip(0) =~= b@);
    while i < n && i < m
        invariant
            t1 == t2,
            i <= n,
            i <= m,
            n == a@.len(),
            m == b@.len(),
            a@ == s1@,
            b@ == s2@,
            str_lt(a@, b@) == str_lt(a@.skip(i as int), b@.skip(i as int)),
        decreases n - i,
    {
        if a[i] != b[i] {
            assert(a@.skip(i as int)[0] == a@[i as int]);
            assert(b@.skip(i as int)[0] == b@[i as int]);
            return a[i] < b[i];
        }
        assert(a@.skip(i as int).skip(1) =~= a@.skip(i + 1));
        assert(b@.skip(i as int).skip(1) =~= b@.skip(i + 1));
        i = i + 1;
    }
    i == n && i < m
}

} // verus!
