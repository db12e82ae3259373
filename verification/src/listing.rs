//! The list of a project's characters: those with a file on disk, then those
//! only the store still knows, ordered by name and then by id.

use vstd::prelude::*;
use crate::action::str_eq;
use crate::order::{
    key_less, key_lt, lemma_str_lt_asymmetric, lemma_str_lt_irreflexive, lemma_str_lt_total,
    lemma_str_lt_transitive, str_lt,
};
use crate::text::string_views;

verus! {

/// A character as the list shows it: whether its model file is on disk.
#[derive(Debug, Clone, PartialEq, Eq)]
pub struct ListedCharacter {
    pub id: String,
    pub name: String,
    pub model_file_exists: bool,
}

/// A character as the list reads it: its id and name.
#[derive(Debug, Clone, PartialEq, Eq)]
pub struct CharacterName {
    pub id: String,
    pub name: String,
}

/// A listed character by its view.
pub open spec fn listed_view(c: ListedCharacter) -> (Seq<char>, Seq<char>, bool) {
    (c.name@, c.id@, c.model_file_exists)
}

pub open spec fn listed_views(s: Seq<ListedCharacter>) -> Seq<(Seq<char>, Seq<char>, bool)> {
    s.map_values(|c: ListedCharacter| listed_view(c))
}

/// The order of the list: by name, then by id.
pub open spec fn listed_lt(a: (Seq<char>, Seq<char>, bool), b: (Seq<char>, Seq<char>, bool)) -> bool {
    str_lt(a.0, b.0) || (a.0 == b.0 && str_lt(a.1, b.1))
}

/// Whether a list is in order.
pub open spec fn listed_sorted(s: Seq<(Seq<char>, Seq<char>, bool)>) -> bool {
    forall|i: int, j: int| 0 <= i < j < s.len() ==> !listed_lt(#[trigger] s[j], #[trigger] s[i])
}

/// The characters known only to the store: those whose id has no file.
pub open spec fn store_only(disk_ids: Seq<Seq<char>>, stored: Seq<CharacterName>) -> Seq<(Seq<char>, Seq<char>, bool)>
    decreases stored.len(),
{
    if stored.len() == 0 {
        Seq::empty()
    } else {
        let rest = store_only(disk_ids, stored.drop_last());
        let c = stored.last();
        if disk_ids.contains(c.id@) {
            rest
        } else {
            rest.push((c.name@, c.id@, false))
        }
    }
}

/// The characters the list holds, before ordering: each character with a
/// file, then each one only the store knows.
pub open spec fn listed_entries(disk: Seq<CharacterName>, stored: Seq<CharacterName>) -> Seq<(Seq<char>, Seq<char>, bool)> {
    disk.map_values(|c: CharacterName| (c.name@, c.id@, true)) + store_only(
        disk.map_values(|c: CharacterName| c.id@),
        stored,
    )
}

proof fn lemma_lt_irreflexive(a: (Seq<char>, Seq<char>, bool))
    ensures
        !listed_lt(a, a),
{
    lemma_str_lt_irreflexive(a.0);
    lemma_str_lt_irreflexive(a.1);
}

proof fn lemma_lt_asymmetric(a: (Seq<char>, Seq<char>, bool), b: (Seq<char>, Seq<char>, bool))
    requires
        listed_lt(a, b),
    ensures
        !listed_lt(b, a),
{
    if str_lt(a.0, b.0) {
        lemma_str_lt_asymmetric(a.0, b.0);
        lemma_str_lt_irreflexive(a.0);
    } else {
        lemma_str_lt_asymmetric(a.1, b.1);
        lemma_str_lt_irreflexive(a.0);
    }
}

proof fn lemma_lt_transitive(
    a: (Seq<char>, Seq<char>, bool),
    b: (Seq<char>, Seq<char>, bool),
    c: (Seq<char>, Seq<char>, bool),
)
    requires
        listed_lt(a, b),
        listed_lt(b, c),
    ensures
        listed_lt(a, c),
{
    if str_lt(a.0, b.0) && str_lt(b.0, c.0) {
        lemma_str_lt_transitive(a.0, b.0, c.0);
    } else if a.0 == b.0 && b.0 == c.0 {
        lemma_str_lt_transitive(a.1, b.1, c.1);
    }
}

/// Not after: `!listed_lt(b, a)` and `!listed_lt(c, b)` give `!listed_lt(c, a)`.
proof fn lemma_not_after(
    a: (Seq<char>, Seq<char>, bool),
    b: (Seq<char>, Seq<char>, bool),
    c: (Seq<char>, Seq<char>, bool),
)
    requires
        !listed_lt(b, a),
        !listed_lt(c, b),
    ensures
        !listed_lt(c, a),
{
    lemma_str_lt_total(a.0, b.0);
    lemma_str_lt_total(a.1, b.1);
    lemma_str_lt_total(b.0, c.0);
    lemma_str_lt_total(b.1, c.1);
    if listed_lt(c, a) {
        if listed_lt(a, b) {
            lemma_lt_transitive(c, a, b);
        } else if listed_lt(b, c) {
            lemma_lt_transitive(b, c, a);
        } else {
            assert(a.0 == b.0 && a.1 == b.1);
            assert(b.0 == c.0 && b.1 == c.1);
            lemma_lt_irreflexive(c);
        }
    }
}

/// Whether `a` comes before `b` in the list.
fn listed_less(a: &ListedCharacter, b: &ListedCharacter) -> (r: bool)
    ensures
        r == listed_lt(listed_view(*a), listed_view(*b)),
{
    if str_eq(a.name.as_str(), b.name.as_str()) {
        let r = key_less(0, a.id.as_str(), 0, b.id.as_str());
        assert(r == str_lt(a.id@, b.id@));
        proof {
            lemma_str_lt_irreflexive(a.name@);
        }
        r
    } else {
        let r = key_less(0, a.name.as_str(), 0, b.name.as_str());
        assert(r == str_lt(a.name@, b.name@));
        r
    }
}

/// Puts `x` into the ordered list `r`, after every entry it does not come
/// before.
fn insert_ordered(r: &mut Vec<ListedCharacter>, x: ListedCharacter)
    requires
        listed_sorted(listed_views(old(r)@)),
    ensures
        listed_sorted(listed_views(final(r)@)),
        listed_views(final(r)@).to_multiset() == listed_views(old(r)@).to_multiset().insert(listed_view(x)),
{
    let ghost s = listed_views(r@);
    let ghost v = listed_view(x);
    let mut pos: usize = r.len();
    while pos > 0 && listed_less(&x, &r[pos - 1])
        invariant
            pos <= r.len(),
            s == listed_views(r@),
            listed_sorted(s),
            v == listed_view(x),
            forall|k: int| pos <= k < s.len() ==> listed_lt(v, #[trigger] s[k]),
        decreases pos,
    {
        pos = pos - 1;
    }
    proof {
        if pos > 0 {
            assert(!listed_lt(v, s[pos - 1]));
        }
    }
    r.insert(pos, x);
    proof {
        let t = listed_views(r@);
        assert(t =~= s.insert(pos as int, v));
        broadcast use vstd::seq_lib::to_multiset_insert;
        assert forall|i: int, j: int| 0 <= i < j < t.len() implies !listed_lt(#[trigger] t[j], #[trigger] t[i]) by {
            let p = pos as int;
            if j < p {
                assert(t[i] == s[i] && t[j] == s[j]);
            } else if j == p {
                assert(t[j] == v && t[i] == s[i]);
                if i < p - 1 {
                    lemma_not_after(s[i], s[p - 1], v);
                }
            } else if i == p {
                assert(t[i] == v && t[j] == s[j - 1]);
                lemma_lt_asymmetric(v, s[j - 1]);
            } else if i < p {
                assert(t[i] == s[i] && t[j] == s[j - 1]);
            } else {
                assert(t[i] == s[i - 1] && t[j] == s[j - 1]);
            }
        }
    }
}

fn listed_from_name(c: &CharacterName, exists: bool) -> (r: ListedCharacter)
    ensures
        listed_view(r) == (c.name@, c.id@, exists),
{
    ListedCharacter { id: c.id.clone(), name: c.name.clone(), model_file_exists: exists }
}

/// The project's characters as listed: every character with a file on disk,
/// and every character the store knows whose file is gone, ordered by name
/// and then by id.
pub fn list_characters(disk: &Vec<CharacterName>, stored: &Vec<CharacterName>) -> (r: Vec<ListedCharacter>)
    ensures
        listed_sorted(listed_views(r@)),
        listed_views(r@).to_multiset() == listed_entries(disk@, stored@).to_multiset(),
{
    let ghost disk_ids = disk@.map_values(|c: CharacterName| c.id@);
    let mut ids: Vec<String> = Vec::new();
    let mut r: Vec<ListedCharacter> = Vec::new();
    let mut i: usize = 0;
    proof {
        assert(string_views(ids@) =~= disk_ids.take(0));
        assert(listed_views(r@) =~= Seq::<(Seq<char>, Seq<char>, bool)>::empty());
        assert(disk@.take(0).map_values(|c: CharacterName| (c.name@, c.id@, true)) =~= Seq::<
            (Seq<char>, Seq<char>, bool),
        >::empty());
    }
    while i < disk.len()
        invariant
            i <= disk.len(),
            string_views(ids@) == disk_ids.take(i as int),
            disk_ids == disk@.map_values(|c: CharacterName| c.id@),
            listed_sorted(listed_views(r@)),
            listed_views(r@).to_multiset() == disk@.take(i as int).map_values(
                |c: CharacterName| (c.name@, c.id@, true),
            ).to_multiset(),
        decreases disk.len() - i,
    {
        let c = &disk[i];
        let ghost before_ids = ids@;
        ids.push(c.id.clone());
        let entry = listed_from_name(c, true);
        insert_ordered(&mut r, entry);
        proof {
            broadcast use vstd::seq_lib::to_multiset_build;
            assert(ids@ == before_ids.push(disk@[i as int].id));
            assert(string_views(ids@) =~= string_views(before_ids).push(disk@[i as int].id@));
            assert(disk_ids.take(i as int + 1) =~= disk_ids.take(i as int).push(disk_ids[i as int]));
            assert(string_views(ids@) =~= disk_ids.take(i as int + 1));
            assert(disk@.take(i as int + 1).map_values(|c: CharacterName| (c.name@, c.id@, true)) =~= disk@.take(
                i as int,
            ).map_values(|c: CharacterName| (c.name@, c.id@, true)).push((c.name@, c.id@, true)));
        }
        i = i + 1;
    }
    let ghost on_disk = disk@.map_values(|c: CharacterName| (c.name@, c.id@, true));
    assert(disk@.take(disk.len() as int) =~= disk@);
    assert(disk_ids.take(disk.len() as int) =~= disk_ids);
    let mut k: usize = 0;
    while k < stored.len()
        invariant
            k <= stored.len(),
            string_views(ids@) == disk_ids,
            disk_ids == disk@.map_values(|c: CharacterName| c.id@),
            on_disk == disk@.map_values(|c: CharacterName| (c.name@, c.id@, true)),
            listed_sorted(listed_views(r@)),
            listed_views(r@).to_multiset() == (on_disk + store_only(disk_ids, stored@.take(k as int))).to_multiset(),
        decreases stored.len() - k,
    {
        let c = &stored[k];
        let ghost before = store_only(disk_ids, stored@.take(k as int));
        assert(stored@.take(k as int + 1).drop_last() =~= stored@.take(k as int));
        assert(stored@.take(k as int + 1).last() == stored@[k as int]);
        if !crate::action::contains_string(ids.as_slice(), &c.id) {
            let entry = listed_from_name(c, false);
            insert_ordered(&mut r, entry);
            proof {
                broadcast use vstd::seq_lib::to_multiset_build;
                assert(on_disk + before.push((c.name@, c.id@, false)) =~= (on_disk + before).push(
                    (c.name@, c.id@, false),
                ));
            }
        }
        k = k + 1;
    }
    assert(stored@.take(stored.len() as int) =~= stored@);
    r
}

} // verus!
