//! The drafts a conversation keeps: an agent's new drafts supersede the
//! pending ones of their slot (and a question to the user supersedes them
//! all), and committing turns pending drafts into committed ones.

use vstd::prelude::*;
use crate::action::{owned, str_eq};

verus! {

/// Where a draft stands.
#[derive(Debug, Clone, Copy, PartialEq, Eq, Structural)]
pub enum DraftStatus {
    Pending,
    Superseded,
    Committed,
}

/// A draft as the conversation keeps it.
#[derive(Debug, Clone, PartialEq, Eq)]
pub struct DraftRow {
    pub id: String,
    pub slot: String,
    pub status: DraftStatus,
}

/// A draft by its view: id, slot and status.
pub open spec fn row_view(r: DraftRow) -> (Seq<char>, Seq<char>, DraftStatus) {
    (r.id@, r.slot@, r.status)
}

pub open spec fn row_views(s: Seq<DraftRow>) -> Seq<(Seq<char>, Seq<char>, DraftStatus)> {
    s.map_values(|r: DraftRow| row_view(r))
}

/// What becomes of a draft when a new draft of `slot` comes in: a pending
/// draft of the same slot is superseded.
pub open spec fn after_new_draft(v: (Seq<char>, Seq<char>, DraftStatus), slot: Seq<char>) -> (Seq<char>, Seq<char>, DraftStatus) {
    if v.1 == slot && v.2 == DraftStatus::Pending {
        (v.0, v.1, DraftStatus::Superseded)
    } else {
        v
    }
}

/// What becomes of a draft when an agent asks the user to choose: every
/// pending draft is superseded.
pub open spec fn after_question(v: (Seq<char>, Seq<char>, DraftStatus)) -> (Seq<char>, Seq<char>, DraftStatus) {
    if v.2 == DraftStatus::Pending {
        (v.0, v.1, DraftStatus::Superseded)
    } else {
        v
    }
}

/// The drafts after new draft `(id, slot)` comes in.
pub open spec fn with_draft(s: Seq<(Seq<char>, Seq<char>, DraftStatus)>, id: Seq<char>, slot: Seq<char>) -> Seq<(Seq<char>, Seq<char>, DraftStatus)> {
    s.map_values(|v: (Seq<char>, Seq<char>, DraftStatus)| after_new_draft(v, slot)).push((id, slot, DraftStatus::Pending))
}

/// The drafts after an agent's turn: a question supersedes every pending
/// draft, then each new draft `(ids[k], slots[k])` comes in, in order.
pub open spec fn after_turn(
    s: Seq<(Seq<char>, Seq<char>, DraftStatus)>,
    question: bool,
    ids: Seq<Seq<char>>,
    slots: Seq<Seq<char>>,
) -> Seq<(Seq<char>, Seq<char>, DraftStatus)>
    decreases ids.len(),
{
    if ids.len() == 0 {
        if question {
            s.map_values(|v: (Seq<char>, Seq<char>, DraftStatus)| after_question(v))
        } else {
            s
        }
    } else {
        with_draft(after_turn(s, question, ids.drop_last(), slots), ids.last(), slots[ids.len() - 1])
    }
}

fn rewrite_status(rows: &mut Vec<DraftRow>, i: usize, status: DraftStatus)
    requires
        i < old(rows)@.len(),
    ensures
        final(rows)@ == old(rows)@.update(
            i as int,
            DraftRow { id: old(rows)@[i as int].id, slot: old(rows)@[i as int].slot, status },
        ),
{
    let r = DraftRow { id: rows[i].id.clone(), slot: rows[i].slot.clone(), status };
    rows.set(i, r);
}

fn supersede_pending(rows: &mut Vec<DraftRow>, slot: Option<&str>)
    ensures
        row_views(final(rows)@) == match slot {
            Some(s) => row_views(old(rows)@).map_values(
                |v: (Seq<char>, Seq<char>, DraftStatus)| after_new_draft(v, s@),
            ),
            None => row_views(old(rows)@).map_values(|v: (Seq<char>, Seq<char>, DraftStatus)| after_question(v)),
        },
{
    let ghost before = row_views(rows@);
    let ghost target = match slot {
        Some(s) => before.map_values(|v: (Seq<char>, Seq<char>, DraftStatus)| after_new_draft(v, s@)),
        None => before.map_values(|v: (Seq<char>, Seq<char>, DraftStatus)| after_question(v)),
    };
    let n = rows.len();
    let mut i: usize = 0;
    while i < n
        invariant
            n == rows@.len(),
            n == before.len(),
            i <= n,
            target.len() == n,
            target == match slot {
                Some(s) => before.map_values(|v: (Seq<char>, Seq<char>, DraftStatus)| after_new_draft(v, s@)),
                None => before.map_values(|v: (Seq<char>, Seq<char>, DraftStatus)| after_question(v)),
            },
            forall|j: int| 0 <= j < i ==> row_view(#[trigger] rows@[j]) == target[j],
            forall|j: int| i <= j < n ==> row_view(#[trigger] rows@[j]) == before[j],
        decreases n - i,
    {
        let hit = match slot {
            Some(s) => str_eq(rows[i].slot.as_str(), s),
            None => true,
        };
        let ghost k = i as int;
        if hit && rows[i].status == DraftStatus::Pending {
            rewrite_status(rows, i, DraftStatus::Superseded);
        }
        i = i + 1;
    }
    assert(row_views(rows@) =~= target);
}

/// Records the drafts of an agent's turn: when the turn asks the user to
/// choose, every pending draft is superseded; then each new draft comes in
/// as pending, superseding the pending draft of its slot.
pub fn record_turn_drafts(rows: &mut Vec<DraftRow>, question: bool, new_drafts: Vec<DraftRow>)
    ensures
        row_views(final(rows)@) == after_turn(
            row_views(old(rows)@),
            question,
            new_drafts@.map_values(|r: DraftRow| r.id@),
            new_drafts@.map_values(|r: DraftRow| r.slot@),
        ),
{
    let ghost ids = new_drafts@.map_values(|r: DraftRow| r.id@);
    let ghost slots = new_drafts@.map_values(|r: DraftRow| r.slot@);
    let ghost start = row_views(rows@);
    if question {
        supersede_pending(rows, None);
    }
    let mut k: usize = 0;
    while k < new_drafts.len()
        invariant
            k <= new_drafts.len(),
            ids == new_drafts@.map_values(|r: DraftRow| r.id@),
            slots == new_drafts@.map_values(|r: DraftRow| r.slot@),
            row_views(rows@) == after_turn(start, question, ids.take(k as int), slots),
        decreases new_drafts.len() - k,
    {
        let d = &new_drafts[k];
        supersede_pending(rows, Some(d.slot.as_str()));
        let ghost mid = row_views(rows@);
        rows.push(DraftRow { id: d.id.clone(), slot: d.slot.clone(), status: DraftStatus::Pending });
        proof {
            assert(ids.take(k as int + 1).drop_last() =~= ids.take(k as int));
            assert(ids.take(k as int + 1).last() == d.id@);
            assert(slots[k as int] == d.slot@);
            assert(row_views(rows@) =~= mid.push((d.id@, d.slot@, DraftStatus::Pending)));
        }
        k = k + 1;
    }
    assert(ids.take(new_drafts.len() as int) =~= ids);
}

/// Whether draft `id` is pending.
pub open spec fn is_pending(s: Seq<(Seq<char>, Seq<char>, DraftStatus)>, id: Seq<char>) -> bool {
    exists|i: int| 0 <= i < s.len() && s[i].0 == id && s[i].2 == DraftStatus::Pending
}

/// The drafts after committing `ids` in order, if each is pending when its
/// turn comes; the first one that is not is named.
pub open spec fn committed_drafts(s: Seq<(Seq<char>, Seq<char>, DraftStatus)>, ids: Seq<Seq<char>>) -> Result<
    Seq<(Seq<char>, Seq<char>, DraftStatus)>,
    Seq<char>,
>
    decreases ids.len(),
{
    if ids.len() == 0 {
        Ok(s)
    } else {
        match committed_drafts(s, ids.drop_last()) {
            Err(m) => Err(m),
            Ok(t) => if is_pending(t, ids.last()) {
                Ok(
                    t.map_values(
                        |v: (Seq<char>, Seq<char>, DraftStatus)|
                            if v.0 == ids.last() && v.2 == DraftStatus::Pending {
                                (v.0, v.1, DraftStatus::Committed)
                            } else {
                                v
                            },
                    ),
                )
            } else {
                Err(ids.last())
            },
        }
    }
}

fn commit_one(rows: &mut Vec<DraftRow>, id: &str) -> (r: bool)
    ensures
        r == is_pending(row_views(old(rows)@), id@),
        r ==> row_views(final(rows)@) == row_views(old(rows)@).map_values(
            |v: (Seq<char>, Seq<char>, DraftStatus)|
                if v.0 == id@ && v.2 == DraftStatus::Pending {
                    (v.0, v.1, DraftStatus::Committed)
                } else {
                    v
                },
        ),
        !r ==> final(rows)@ == old(rows)@,
{
    let ghost before = row_views(rows@);
    let ghost target = before.map_values(
        |v: (Seq<char>, Seq<char>, DraftStatus)|
            if v.0 == id@ && v.2 == DraftStatus::Pending {
                (v.0, v.1, DraftStatus::Committed)
            } else {
                v
            },
    );
    let n = rows.len();
    let mut found = false;
    let mut i: usize = 0;
    while i < n
        invariant
            n == rows@.len(),
            n == before.len(),
            i <= n,
            target.len() == n,
            target == before.map_values(
                |v: (Seq<char>, Seq<char>, DraftStatus)|
                    if v.0 == id@ && v.2 == DraftStatus::Pending {
                        (v.0, v.1, DraftStatus::Committed)
                    } else {
                        v
                    },
            ),
            found == exists|j: int| 0 <= j < i && before[j].0 == id@ && before[j].2 == DraftStatus::Pending,
            !found ==> rows@ == old(rows)@,
            old(rows)@.len() == n,
            before == row_views(old(rows)@),
            forall|j: int| 0 <= j < i ==> row_view(#[trigger] rows@[j]) == target[j],
            forall|j: int| i <= j < n ==> row_view(#[trigger] rows@[j]) == before[j],
        decreases n - i,
    {
        let ghost k = i as int;
        if str_eq(rows[i].id.as_str(), id) && rows[i].status == DraftStatus::Pending {
            rewrite_status(rows, i, DraftStatus::Committed);
            assert(before[k].0 == id@ && before[k].2 == DraftStatus::Pending);
            found = true;
        } else {
            assert(row_view(rows@[k]) == before[k]);
        }
        i = i + 1;
    }
    if found {
        assert(row_views(rows@) =~= target);
    } else {
        assert(!is_pending(before, id@));
    }
    found
}

fn copy_rows(rows: &Vec<DraftRow>) -> (r: Vec<DraftRow>)
    ensures
        r@ == rows@,
{
    let mut r: Vec<DraftRow> = Vec::new();
    let mut i: usize = 0;
    while i < rows.len()
        invariant
            i <= rows.len(),
            r@ == rows@.take(i as int),
        decreases rows.len() - i,
    {
        r.push(DraftRow { id: rows[i].id.clone(), slot: rows[i].slot.clone(), status: rows[i].status });
        assert(rows@.take(i as int + 1) =~= rows@.take(i as int).push(rows@[i as int]));
        i = i + 1;
    }
    assert(rows@.take(rows.len() as int) =~= rows@);
    r
}

/// Commits the chosen drafts, in order; when one is not pending (or comes
/// twice), nothing is committed and the error names it.
pub fn commit_drafts(rows: &mut Vec<DraftRow>, ids: &[String]) -> (r: Result<(), String>)
    ensures
        match committed_drafts(row_views(old(rows)@), ids@.map_values(|s: String| s@)) {
            Ok(t) => r is Ok && row_views(final(rows)@) == t,
            Err(id) => r matches Err(m) && m@ == "draft is not pending: "@ + id && final(rows)@ == old(rows)@,
        },
{
    let ghost wanted = ids@.map_values(|s: String| s@);
    let mut work = copy_rows(rows);
    let mut k: usize = 0;
    while k < ids.len()
        invariant
            k <= ids.len(),
            wanted == ids@.map_values(|s: String| s@),
            rows@ == old(rows)@,
            committed_drafts(row_views(old(rows)@), wanted.take(k as int)) == Ok::<_, Seq<char>>(row_views(work@)),
        decreases ids.len() - k,
    {
        let ok = commit_one(&mut work, ids[k].as_str());
        proof {
            assert(wanted.take(k as int + 1).drop_last() =~= wanted.take(k as int));
            assert(wanted.take(k as int + 1).last() == ids@[k as int]@);
        }
        if !ok {
            proof {
                let upto = wanted.take(k as int + 1);
                assert(committed_drafts(row_views(old(rows)@), upto) == Err::<Seq<(Seq<char>, Seq<char>, DraftStatus)>, Seq<char>>(
                    ids@[k as int]@,
                ));
                lemma_committed_stays_err(row_views(old(rows)@), wanted, k as int + 1);
            }
            let mut m = owned("draft is not pending: ");
            m.append(ids[k].as_str());
            return Err(m);
        }
        k = k + 1;
    }
    assert(wanted.take(ids.len() as int) =~= wanted);
    *rows = work;
    Ok(())
}

/// Once committing fails, committing more ids fails the same way.
proof fn lemma_committed_stays_err(s: Seq<(Seq<char>, Seq<char>, DraftStatus)>, ids: Seq<Seq<char>>, k: int)
    requires
        0 <= k <= ids.len(),
        committed_drafts(s, ids.take(k)) is Err,
    ensures
        committed_drafts(s, ids) == committed_drafts(s, ids.take(k)),
    decreases ids.len() - k,
{
    if k < ids.len() {
        let next = ids.take(k + 1);
        assert(next.drop_last() =~= ids.take(k));
        lemma_committed_stays_err(s, ids, k + 1);
    } else {
        assert(ids.take(k) =~= ids);
    }
}

/// No slot has two pending drafts.
pub open spec fn one_pending_per_slot(s: Seq<(Seq<char>, Seq<char>, DraftStatus)>) -> bool {
    forall|i: int, j: int|
        0 <= i < j < s.len() && #[trigger] s[i].2 == DraftStatus::Pending && #[trigger] s[j].2
            == DraftStatus::Pending ==> s[i].1 != s[j].1
}

proof fn lemma_turn_keeps(s: Seq<(Seq<char>, Seq<char>, DraftStatus)>, question: bool, ids: Seq<Seq<char>>, slots: Seq<Seq<char>>)
    requires
        ids.len() <= slots.len(),
        one_pending_per_slot(s),
    ensures
        ({
            let t = after_turn(s, question, ids, slots);
            &&& t.len() == s.len() + ids.len()
            &&& one_pending_per_slot(t)
            &&& forall|i: int| 0 <= i < s.len() ==> (#[trigger] t[i]).0 == s[i].0 && t[i].1 == s[i].1
            &&& forall|i: int| 0 <= i < s.len() ==> (t[i].2 == DraftStatus::Pending ==> s[i].2 == DraftStatus::Pending)
            &&& forall|i: int| 0 <= i < s.len() ==> (s[i].2 != DraftStatus::Pending ==> t[i].2 == s[i].2)
            &&& question ==> forall|i: int| 0 <= i < s.len() ==> t[i].2 != DraftStatus::Pending
        }),
    decreases ids.len(),
{
    if ids.len() == 0 {
        if question {
            let t = s.map_values(|v: (Seq<char>, Seq<char>, DraftStatus)| after_question(v));
            assert forall|i: int, j: int|
                0 <= i < j < t.len() && #[trigger] t[i].2 == DraftStatus::Pending && #[trigger] t[j].2
                    == DraftStatus::Pending implies t[i].1 != t[j].1 by {
                assert(t[i] == after_question(s[i]));
            }
        }
    } else {
        let prev = after_turn(s, question, ids.drop_last(), slots);
        lemma_turn_keeps(s, question, ids.drop_last(), slots);
        let slot = slots[ids.len() - 1];
        let t = with_draft(prev, ids.last(), slot);
        assert(t == after_turn(s, question, ids, slots));
        let m = prev.map_values(|v: (Seq<char>, Seq<char>, DraftStatus)| after_new_draft(v, slot));
        assert forall|i: int, j: int|
            0 <= i < j < t.len() && #[trigger] t[i].2 == DraftStatus::Pending && #[trigger] t[j].2
                == DraftStatus::Pending implies t[i].1 != t[j].1 by {
            if j < prev.len() {
                assert(t[i] == after_new_draft(prev[i], slot));
                assert(t[j] == after_new_draft(prev[j], slot));
            } else {
                assert(t[i] == after_new_draft(prev[i], slot));
                assert(t[j].1 == slot);
            }
        }
        assert forall|i: int| 0 <= i < s.len() implies (#[trigger] t[i]).0 == s[i].0 && t[i].1 == s[i].1 by {
            assert(t[i] == after_new_draft(prev[i], slot));
        }
        assert forall|i: int| 0 <= i < s.len() implies (t[i].2 == DraftStatus::Pending ==> s[i].2
            == DraftStatus::Pending) && (s[i].2 != DraftStatus::Pending ==> t[i].2 == s[i].2) && (question
            ==> t[i].2 != DraftStatus::Pending) by {
            assert(t[i] == after_new_draft(prev[i], slot));
        }
    }
}

/// An agent's turn never leaves two pending drafts for one slot, never
/// revives a superseded or committed draft, and after a question to the user
/// only the drafts it brought itself are pending.
pub proof fn law_turn_drafts_keep_one_pending_per_slot(
    s: Seq<(Seq<char>, Seq<char>, DraftStatus)>,
    question: bool,
    ids: Seq<Seq<char>>,
    slots: Seq<Seq<char>>,
)
    requires
        ids.len() == slots.len(),
        one_pending_per_slot(s),
    ensures
        one_pending_per_slot(after_turn(s, question, ids, slots)),
        forall|i: int| 0 <= i < s.len() && s[i].2 != DraftStatus::Pending ==> #[trigger] after_turn(s, question, ids, slots)[i].2 == s[i].2,
        question ==> forall|i: int| 0 <= i < s.len() ==> #[trigger] after_turn(s, question, ids, slots)[i].2 != DraftStatus::Pending,
{
    lemma_turn_keeps(s, question, ids, slots);
}

proof fn lemma_commit_shrinks(s: Seq<(Seq<char>, Seq<char>, DraftStatus)>, ids: Seq<Seq<char>>)
    requires
        committed_drafts(s, ids) is Ok,
    ensures
        ({
            let t = committed_drafts(s, ids)->Ok_0;
            &&& t.len() == s.len()
            &&& forall|i: int| 0 <= i < s.len() ==> (#[trigger] t[i]).0 == s[i].0 && t[i].1 == s[i].1
            &&& forall|i: int| 0 <= i < s.len() ==> (t[i].2 == s[i].2 || (s[i].2 == DraftStatus::Pending && t[i].2
                == DraftStatus::Committed))
            &&& forall|k: int| 0 <= k < ids.len() ==> !is_pending(t, #[trigger] ids[k])
        }),
    decreases ids.len(),
{
    if ids.len() > 0 {
        lemma_commit_shrinks(s, ids.drop_last());
        let prev = committed_drafts(s, ids.drop_last())->Ok_0;
        let id = ids.last();
        let t = committed_drafts(s, ids)->Ok_0;
        assert forall|i: int| 0 <= i < s.len() implies (#[trigger] t[i]).0 == s[i].0 && t[i].1 == s[i].1 && (t[i].2
            == s[i].2 || (s[i].2 == DraftStatus::Pending && t[i].2 == DraftStatus::Committed)) by {
            assert(t[i] == (if prev[i].0 == id && prev[i].2 == DraftStatus::Pending {
                (prev[i].0, prev[i].1, DraftStatus::Committed)
            } else {
                prev[i]
            }));
        }
        assert forall|k: int| 0 <= k < ids.len() implies !is_pending(t, #[trigger] ids[k]) by {
            if k < ids.len() - 1 {
                assert(ids.drop_last()[k] == ids[k]);
                assert(!is_pending(prev, ids[k]));
                if is_pending(t, ids[k]) {
                    let w = choose|i: int| 0 <= i < t.len() && t[i].0 == ids[k] && t[i].2 == DraftStatus::Pending;
                    assert(t[w] == (if prev[w].0 == id && prev[w].2 == DraftStatus::Pending {
                        (prev[w].0, prev[w].1, DraftStatus::Committed)
                    } else {
                        prev[w]
                    }));
                }
            } else {
                if is_pending(t, ids[k]) {
                    let w = choose|i: int| 0 <= i < t.len() && t[i].0 == ids[k] && t[i].2 == DraftStatus::Pending;
                    assert(t[w] == (if prev[w].0 == id && prev[w].2 == DraftStatus::Pending {
                        (prev[w].0, prev[w].1, DraftStatus::Committed)
                    } else {
                        prev[w]
                    }));
                }
            }
        }
    }
}

/// Committing drafts turns only pending drafts into committed ones, keeps
/// one pending draft per slot at most, and leaves none of the committed ids
/// pending.
pub proof fn law_commit_only_settles_pending_drafts(s: Seq<(Seq<char>, Seq<char>, DraftStatus)>, ids: Seq<Seq<char>>)
    requires
        one_pending_per_slot(s),
        committed_drafts(s, ids) is Ok,
    ensures
        ({
            let t = committed_drafts(s, ids)->Ok_0;
            &&& one_pending_per_slot(t)
            &&& forall|i: int| 0 <= i < s.len() ==> (#[trigger] t[i].2 == s[i].2 || (s[i].2 == DraftStatus::Pending
                && t[i].2 == DraftStatus::Committed))
            &&& forall|k: int| 0 <= k < ids.len() ==> !is_pending(t, #[trigger] ids[k])
        }),
{
    lemma_commit_shrinks(s, ids);
    let t = committed_drafts(s, ids)->Ok_0;
    assert forall|i: int, j: int|
        0 <= i < j < t.len() && #[trigger] t[i].2 == DraftStatus::Pending && #[trigger] t[j].2
            == DraftStatus::Pending implies t[i].1 != t[j].1 by {
        assert(s[i].2 == DraftStatus::Pending && s[j].2 == DraftStatus::Pending);
    }
}


/// The slot a draft fills: its artifact slot, or else the path it targets.
pub open spec fn draft_slot(d: crate::domain::ArtifactDraft) -> Seq<char> {
    match d.artifact_slot {
        Some(s) => s@,
        None => d.target_path@,
    }
}

/// Whether an action asks the user to choose.
pub open spec fn asks_to_choose(a: crate::domain::AgentAction) -> bool {
    a.payload.choices matches Some(c) && c.len() > 0
}

/// The drafts an action proposes, in order.
pub open spec fn action_drafts(a: crate::domain::AgentAction) -> Seq<crate::domain::ArtifactDraft> {
    match a.payload.drafts {
        Some(d) => d@,
        None => Seq::empty(),
    }
}

/// Records the drafts of a committed action: an action that asks the user to
/// choose supersedes every pending draft; each draft it proposes comes in as
/// pending under the next of `ids`, superseding the pending draft of its slot.
pub fn record_action_drafts(rows: &mut Vec<DraftRow>, action: &crate::domain::AgentAction, ids: Vec<String>)
    requires
        ids@.len() == action_drafts(*action).len(),
    ensures
        row_views(final(rows)@) == after_turn(
            row_views(old(rows)@),
            asks_to_choose(*action),
            ids@.map_values(|s: String| s@),
            action_drafts(*action).map_values(|d: crate::domain::ArtifactDraft| draft_slot(d)),
        ),
{
    let question = match &action.payload.choices {
        Some(c) => c.len() > 0,
        None => false,
    };
    let empty: Vec<crate::domain::ArtifactDraft> = Vec::new();
    let drafts = match &action.payload.drafts {
        Some(d) => d,
        None => &empty,
    };
    assert(drafts@ == action_drafts(*action));
    let mut new_drafts: Vec<DraftRow> = Vec::new();
    let mut k: usize = 0;
    while k < drafts.len()
        invariant
            k <= drafts@.len(),
            ids@.len() == drafts@.len(),
            new_drafts@.len() == k,
            forall|j: int| 0 <= j < k ==> (#[trigger] new_drafts@[j]).id@ == ids@[j]@ && new_drafts@[j].slot@
                == draft_slot(drafts@[j]),
        decreases drafts.len() - k,
    {
        let slot = match &drafts[k].artifact_slot {
            Some(s) => s.clone(),
            None => drafts[k].target_path.clone(),
        };
        new_drafts.push(DraftRow { id: ids[k].clone(), slot, status: DraftStatus::Pending });
        k = k + 1;
    }
    assert(new_drafts@.map_values(|r: DraftRow| r.id@) =~= ids@.map_values(|s: String| s@));
    assert(new_drafts@.map_values(|r: DraftRow| r.slot@) =~= action_drafts(*action).map_values(
        |d: crate::domain::ArtifactDraft| draft_slot(d),
    ));
    record_turn_drafts(rows, question, new_drafts);
}

} // verus!
