//! What the character workflow derives from a project's records: the pending
//! spec draft and its review, the latest rejections, and failed design tasks.

use vstd::prelude::*;
use crate::action::{owned, str_eq};
use crate::domain::{AgentVerdict, CharacterState, TaskStatus};
use crate::order::{key_less, key_lt, latest, lemma_scan_done, lemma_scan_step, scan_state};
use crate::workflow::{
    current_design_stage, current_design_stage_of, opt_str_view, opt_string_view,
    spec_review_status_for, spec_review_status_of, CharacterWorkflowFacts,
};

verus! {

/// A project memory, as far as the workflow reads it.
#[derive(Debug, Clone, PartialEq, Eq)]
pub struct MemoryRecord {
    pub id: String,
    pub character_ref: Option<String>,
    pub kind: String,
    pub updated_at: i64,
}

/// An artifact draft, as far as the workflow reads it.
#[derive(Debug, Clone, PartialEq, Eq)]
pub struct DraftRecord {
    pub id: String,
    pub status: String,
    pub target_path: String,
    pub created_at: i64,
}

/// A task, as far as the workflow reads it.
#[derive(Debug, Clone, PartialEq, Eq)]
pub struct TaskRecord {
    pub target_id: String,
    pub stage: String,
    pub agent_code: String,
    pub status: TaskStatus,
}

/// A generated image, as far as the workflow reads it.
#[derive(Debug, Clone, PartialEq, Eq)]
pub struct GenerationRecord {
    pub id: String,
    pub stage: String,
    pub created_at: i64,
}

/// The view of an optional index.
pub open spec fn opt_index(o: Option<usize>) -> Option<int> {
    match o {
        Some(i) => Some(i as int),
        None => None,
    }
}

/// The last index at which `s` holds, if any.
pub open spec fn last_true(s: Seq<bool>) -> Option<int>
    decreases s.len(),
{
    if s.len() == 0 {
        None
    } else if s.last() {
        Some(s.len() - 1)
    } else {
        last_true(s.drop_last())
    }
}

// --- memories ---------------------------------------------------------------

pub open spec fn memory_matches(m: MemoryRecord, character_id: Seq<char>, kind: Seq<char>) -> bool {
    &&& m.character_ref matches Some(r) && r@ == character_id
    &&& m.kind@ == kind
}

pub open spec fn memory_ok(ms: Seq<MemoryRecord>, character_id: Seq<char>, kind: Seq<char>) -> Seq<bool> {
    Seq::new(ms.len(), |i: int| memory_matches(ms[i], character_id, kind))
}

pub open spec fn memory_keys(ms: Seq<MemoryRecord>) -> Seq<(int, Seq<char>)> {
    Seq::new(ms.len(), |i: int| (ms[i].updated_at as int, ms[i].id@))
}

/// The latest memory of `kind` about the character.
pub open spec fn latest_memory(ms: Seq<MemoryRecord>, character_id: Seq<char>, kind: Seq<char>) -> Option<int> {
    latest(memory_ok(ms, character_id, kind), memory_keys(ms))
}

fn memory_is(m: &MemoryRecord, character_id: &str, kind: &str) -> (r: bool)
    ensures
        r == memory_matches(*m, character_id@, kind@),
{
    match &m.character_ref {
        Some(c) => str_eq(c.as_str(), character_id) && str_eq(m.kind.as_str(), kind),
        None => false,
    }
}

fn latest_memory_index(ms: &Vec<MemoryRecord>, character_id: &str, kind: &str) -> (r: Option<usize>)
    ensures
        opt_index(r) == latest_memory(ms@, character_id@, kind@),
{
    let ghost ok = memory_ok(ms@, character_id@, kind@);
    let ghost keys = memory_keys(ms@);
    let mut best: Option<usize> = None;
    for i in 0..ms.len()
        invariant
            ok == memory_ok(ms@, character_id@, kind@),
            keys == memory_keys(ms@),
            scan_state(ok, keys, i as int, opt_index(best)),
            best matches Some(b) ==> b < i,
    {
        let m = &ms[i];
        let qualifies = memory_is(m, character_id, kind);
        let better = qualifies && match best {
            None => true,
            Some(b) => !key_less(m.updated_at, m.id.as_str(), ms[b].updated_at, ms[b].id.as_str()),
        };
        proof {
            lemma_scan_step(ok, keys, i as int, opt_index(best));
        }
        if better {
            best = Some(i);
        }
    }
    proof {
        lemma_scan_done(ok, keys, opt_index(best));
    }
    best
}

// --- drafts -----------------------------------------------------------------

/// A pending draft of the character spec, newer than the latest rejection.
pub open spec fn draft_matches(d: DraftRecord, rejection: Option<(int, Seq<char>)>) -> bool {
    &&& d.status@ == "pending"@
    &&& d.target_path@ == "docs/角色定稿.md"@
    &&& match rejection {
        Some(k) => key_lt(k, (d.created_at as int, d.id@)),
        None => true,
    }
}

pub open spec fn draft_ok(ds: Seq<DraftRecord>, rejection: Option<(int, Seq<char>)>) -> Seq<bool> {
    Seq::new(ds.len(), |i: int| draft_matches(ds[i], rejection))
}

pub open spec fn draft_keys(ds: Seq<DraftRecord>) -> Seq<(int, Seq<char>)> {
    Seq::new(ds.len(), |i: int| (ds[i].created_at as int, ds[i].id@))
}

fn pending_draft_index(ds: &Vec<DraftRecord>, rejection: Option<&MemoryRecord>) -> (r: Option<usize>)
    ensures
        opt_index(r) == latest(
            draft_ok(
                ds@,
                match rejection {
                    Some(m) => Some((m.updated_at as int, m.id@)),
                    None => None,
                },
            ),
            draft_keys(ds@),
        ),
{
    let ghost rej = match rejection {
        Some(m) => Some((m.updated_at as int, m.id@)),
        None => None,
    };
    let ghost ok = draft_ok(ds@, rej);
    let ghost keys = draft_keys(ds@);
    let mut best: Option<usize> = None;
    for i in 0..ds.len()
        invariant
            ok == draft_ok(ds@, rej),
            keys == draft_keys(ds@),
            rej == match rejection {
                Some(m) => Some((m.updated_at as int, m.id@)),
                None => None,
            },
            scan_state(ok, keys, i as int, opt_index(best)),
            best matches Some(b) ==> b < i,
    {
        let d = &ds[i];
        let newer = match rejection {
            Some(m) => key_less(m.updated_at, m.id.as_str(), d.created_at, d.id.as_str()),
            None => true,
        };
        let qualifies = str_eq(d.status.as_str(), "pending") && str_eq(
            d.target_path.as_str(),
            "docs/角色定稿.md",
        ) && newer;
        let better = qualifies && match best {
            None => true,
            Some(b) => !key_less(d.created_at, d.id.as_str(), ds[b].created_at, ds[b].id.as_str()),
        };
        proof {
            lemma_scan_step(ok, keys, i as int, opt_index(best));
        }
        if better {
            best = Some(i);
        }
    }
    proof {
        lemma_scan_done(ok, keys, opt_index(best));
    }
    best
}

// --- generations ------------------------------------------------------------

pub open spec fn generation_ok(gs: Seq<GenerationRecord>, stage: Seq<char>) -> Seq<bool> {
    Seq::new(gs.len(), |i: int| gs[i].stage@ == stage)
}

pub open spec fn generation_keys(gs: Seq<GenerationRecord>) -> Seq<(int, Seq<char>)> {
    Seq::new(gs.len(), |i: int| (gs[i].created_at as int, gs[i].id@))
}

fn latest_generation_index(gs: &Vec<GenerationRecord>, stage: &str) -> (r: Option<usize>)
    ensures
        opt_index(r) == latest(generation_ok(gs@, stage@), generation_keys(gs@)),
{
    let ghost ok = generation_ok(gs@, stage@);
    let ghost keys = generation_keys(gs@);
    let mut best: Option<usize> = None;
    for i in 0..gs.len()
        invariant
            ok == generation_ok(gs@, stage@),
            keys == generation_keys(gs@),
            scan_state(ok, keys, i as int, opt_index(best)),
            best matches Some(b) ==> b < i,
    {
        let g = &gs[i];
        let better = str_eq(g.stage.as_str(), stage) && match best {
            None => true,
            Some(b) => !key_less(g.created_at, g.id.as_str(), gs[b].created_at, gs[b].id.as_str()),
        };
        proof {
            lemma_scan_step(ok, keys, i as int, opt_index(best));
        }
        if better {
            best = Some(i);
        }
    }
    proof {
        lemma_scan_done(ok, keys, opt_index(best));
    }
    best
}

/// The latest rejection of `stage` for the character, when it came after the
/// latest generation of that stage.
pub open spec fn rejection_after_generation(
    ms: Seq<MemoryRecord>,
    gs: Seq<GenerationRecord>,
    character_id: Seq<char>,
    stage: Seq<char>,
) -> Option<int> {
    match (
        latest_memory(ms, character_id, stage + "_rejection"@),
        latest(generation_ok(gs, stage), generation_keys(gs)),
    ) {
        (Some(r), Some(g)) => if key_lt(
            (gs[g].created_at as int, gs[g].id@),
            (ms[r].updated_at as int, ms[r].id@),
        ) {
            Some(r)
        } else {
            None
        },
        _ => None,
    }
}

fn rejection_after(
    ms: &Vec<MemoryRecord>,
    gs: &Vec<GenerationRecord>,
    character_id: &str,
    stage: &str,
) -> (r: Option<usize>)
    ensures
        opt_index(r) == rejection_after_generation(ms@, gs@, character_id@, stage@),
        r matches Some(i) ==> i < ms.len(),
{
    let mut kind = owned(stage);
    kind.append("_rejection");
    let rejected = latest_memory_index(ms, character_id, kind.as_str());
    let generated = latest_generation_index(gs, stage);
    match (rejected, generated) {
        (Some(r), Some(g)) => {
            proof {
                crate::order::lemma_latest_bounds(
                    memory_ok(ms@, character_id@, kind@),
                    memory_keys(ms@),
                );
                crate::order::lemma_latest_bounds(generation_ok(gs@, stage@), generation_keys(gs@));
            }
            if key_less(gs[g].created_at, gs[g].id.as_str(), ms[r].updated_at, ms[r].id.as_str()) {
                Some(r)
            } else {
                None
            }
        },
        _ => None,
    }
}

// --- verdicts and tasks -----------------------------------------------------

/// A spec check verdict, on `subject` when one is given.
pub open spec fn verdict_ok(vs: Seq<AgentVerdict>, subject: Option<Seq<char>>) -> Seq<bool> {
    Seq::new(
        vs.len(),
        |i: int|
            vs[i].token@ == "SPEC-CHECK"@ && match subject {
                Some(s) => vs[i].subject_id@ == s,
                None => true,
            },
    )
}

fn last_verdict_index(vs: &Vec<AgentVerdict>, subject: Option<&str>) -> (r: Option<usize>)
    ensures
        opt_index(r) == last_true(verdict_ok(vs@, opt_str_view(subject))),
        r matches Some(i) ==> i < vs.len(),
{
    let ghost ok = verdict_ok(vs@, opt_str_view(subject));
    let mut k = vs.len();
    assert(ok.take(k as int) =~= ok);
    while k > 0
        invariant
            k <= vs.len(),
            ok == verdict_ok(vs@, opt_str_view(subject)),
            last_true(ok) == last_true(ok.take(k as int)),
        decreases k,
    {
        let v = &vs[k - 1];
        let hit = str_eq(v.token.as_str(), "SPEC-CHECK") && match subject {
            Some(s) => str_eq(v.subject_id.as_str(), s),
            None => true,
        };
        assert(ok.take(k as int).drop_last() =~= ok.take(k - 1));
        assert(ok.take(k as int).last() == ok[k - 1]);
        if hit {
            return Some(k - 1);
        }
        k = k - 1;
    }
    None
}

/// A spec task of the character, by the spec writing or spec checking agent.
pub open spec fn spec_task_ok(ts: Seq<TaskRecord>, character_id: Seq<char>) -> Seq<bool> {
    Seq::new(
        ts.len(),
        |i: int|
            ts[i].target_id@ == character_id && ts[i].stage@ == "spec"@ && (ts[i].agent_code@
                == "spec_writer"@ || ts[i].agent_code@ == "spec_reviewer"@),
    )
}

/// A task of the character in `stage`.
pub open spec fn stage_task_ok(ts: Seq<TaskRecord>, character_id: Seq<char>, stage: Seq<char>) -> Seq<
    bool,
> {
    Seq::new(ts.len(), |i: int| ts[i].target_id@ == character_id && ts[i].stage@ == stage)
}

fn last_task_index(ts: &Vec<TaskRecord>, character_id: &str, stage: &str, spec_agents_only: bool) -> (r:
    Option<usize>)
    requires
        spec_agents_only ==> stage@ == "spec"@,
    ensures
        opt_index(r) == last_true(
            if spec_agents_only {
                spec_task_ok(ts@, character_id@)
            } else {
                stage_task_ok(ts@, character_id@, stage@)
            },
        ),
        r matches Some(i) ==> i < ts.len(),
{
    let ghost ok = if spec_agents_only {
        spec_task_ok(ts@, character_id@)
    } else {
        stage_task_ok(ts@, character_id@, stage@)
    };
    let mut k = ts.len();
    assert(ok.take(k as int) =~= ok);
    while k > 0
        invariant
            k <= ts.len(),
            spec_agents_only ==> stage@ == "spec"@,
            ok == if spec_agents_only {
                spec_task_ok(ts@, character_id@)
            } else {
                stage_task_ok(ts@, character_id@, stage@)
            },
            last_true(ok) == last_true(ok.take(k as int)),
        decreases k,
    {
        let t = &ts[k - 1];
        let agent_ok = if spec_agents_only {
            str_eq(t.agent_code.as_str(), "spec_writer") || str_eq(t.agent_code.as_str(), "spec_reviewer")
        } else {
            true
        };
        let hit = str_eq(t.target_id.as_str(), character_id) && str_eq(t.stage.as_str(), stage)
            && agent_ok;
        assert(ok.take(k as int).drop_last() =~= ok.take(k - 1));
        assert(ok.take(k as int).last() == ok[k - 1]);
        if hit {
            return Some(k - 1);
        }
        k = k - 1;
    }
    None
}

// --- the facts --------------------------------------------------------------

/// The stage whose latest task decides a failure mark, when that task failed.
pub open spec fn failed_stage_of(
    ts: Seq<TaskRecord>,
    character_id: Seq<char>,
    state: CharacterState,
    render_rejected: bool,
    views_rejected: bool,
) -> Option<Seq<char>> {
    match current_design_stage_of(state, render_rejected, views_rejected) {
        Some(stage) => match last_true(stage_task_ok(ts, character_id, stage)) {
            Some(i) => if ts[i].status == TaskStatus::Failed {
                Some(stage)
            } else {
                None
            },
            None => None,
        },
        None => None,
    }
}

/// The review status of the pending spec draft, given the draft and records.
pub open spec fn review_status_of(
    character_id: Seq<char>,
    verdicts: Seq<AgentVerdict>,
    drafts: Seq<DraftRecord>,
    tasks: Seq<TaskRecord>,
    pending: Option<int>,
) -> crate::workflow::SpecReviewStatus {
    let matching = match pending {
        Some(p) => last_true(verdict_ok(verdicts, Some(drafts[p].id@))),
        None => None,
    };
    let latest_task = last_true(spec_task_ok(tasks, character_id));
    spec_review_status_of(
        pending is Some,
        match matching {
            Some(v) => Some(verdicts[v].decision@),
            None => None,
        },
        match latest_task {
            Some(t) => Some((tasks[t].agent_code@, tasks[t].status)),
            None => None,
        },
    )
}

/// The pending spec draft: the latest pending draft of the spec document that
/// is newer than the latest spec rejection.
pub open spec fn pending_spec_of(
    character_id: Seq<char>,
    drafts: Seq<DraftRecord>,
    memories: Seq<MemoryRecord>,
) -> Option<int> {
    let rejection = latest_memory(memories, character_id, "spec_rejection"@);
    latest(
        draft_ok(
            drafts,
            match rejection {
                Some(r) => Some((memories[r].updated_at as int, memories[r].id@)),
                None => None,
            },
        ),
        draft_keys(drafts),
    )
}

/// The id of the memory at an optional index.
pub open spec fn memory_id(ms: Seq<MemoryRecord>, i: Option<int>) -> Option<Seq<char>> {
    match i {
        Some(k) => Some(ms[k].id@),
        None => None,
    }
}

fn memory_id_of(ms: &Vec<MemoryRecord>, i: Option<usize>) -> (r: Option<String>)
    requires
        i matches Some(k) ==> k < ms.len(),
    ensures
        opt_string_view(r) == memory_id(ms@, opt_index(i)),
{
    match i {
        Some(k) => Some(owned(ms[k].id.as_str())),
        None => None,
    }
}

/// Derives the workflow facts of the character `character_id` in `state` from
/// the project's records. `verdicts` are the verdicts of the conversation's
/// messages, in message order.
pub fn character_workflow_facts(
    character_id: &str,
    state: CharacterState,
    verdicts: &Vec<AgentVerdict>,
    drafts: &Vec<DraftRecord>,
    tasks: &Vec<TaskRecord>,
    generations: &Vec<GenerationRecord>,
    memories: &Vec<MemoryRecord>,
) -> (r: CharacterWorkflowFacts)
    ensures
        opt_index(r.pending_spec) == pending_spec_of(character_id@, drafts@, memories@),
        r.spec_review_status == review_status_of(
            character_id@,
            verdicts@,
            drafts@,
            tasks@,
            pending_spec_of(character_id@, drafts@, memories@),
        ),
        opt_index(r.latest_spec_verdict) == last_true(verdict_ok(verdicts@, None)),
        opt_string_view(r.latest_spec_rejection_id) == memory_id(
            memories@,
            latest_memory(memories@, character_id@, "spec_rejection"@),
        ),
        opt_string_view(r.render_rejection_id) == memory_id(
            memories@,
            rejection_after_generation(memories@, generations@, character_id@, "render"@),
        ),
        opt_string_view(r.views_rejection_id) == memory_id(
            memories@,
            rejection_after_generation(memories@, generations@, character_id@, "views"@),
        ),
        r.render_rejected_after_generation == rejection_after_generation(
            memories@,
            generations@,
            character_id@,
            "render"@,
        ) is Some,
        r.views_rejected_after_generation == rejection_after_generation(
            memories@,
            generations@,
            character_id@,
            "views"@,
        ) is Some,
        opt_string_view(r.failed_design_stage) == failed_stage_of(
            tasks@,
            character_id@,
            state,
            r.render_rejected_after_generation,
            r.views_rejected_after_generation,
        ),
        r.has_running_task == exists|i: int|
            0 <= i < tasks@.len() && (#[trigger] tasks@[i].status == TaskStatus::Pending
                || tasks@[i].status == TaskStatus::Running),
{
    let spec_rejection = latest_memory_index(memories, character_id, "spec_rejection");
    proof {
        crate::order::lemma_latest_bounds(
            memory_ok(memories@, character_id@, "spec_rejection"@),
            memory_keys(memories@),
        );
    }
    let rejection_record = match spec_rejection {
        Some(k) => Some(&memories[k]),
        None => None,
    };
    let pending = pending_draft_index(drafts, rejection_record);
    proof {
        crate::order::lemma_latest_bounds(
            draft_ok(
                drafts@,
                match rejection_record {
                    Some(m) => Some((m.updated_at as int, m.id@)),
                    None => None,
                },
            ),
            draft_keys(drafts@),
        );
    }
    let latest_verdict = last_verdict_index(verdicts, None);
    let matching = match pending {
        Some(p) => last_verdict_index(verdicts, Some(drafts[p].id.as_str())),
        None => None,
    };
    proof {
        reveal_strlit("spec");
    }
    let latest_task = last_task_index(tasks, character_id, "spec", true);
    let decision = match matching {
        Some(v) => Some(verdicts[v].decision.as_str()),
        None => None,
    };
    let task = match latest_task {
        Some(t) => Some((tasks[t].agent_code.as_str(), tasks[t].status)),
        None => None,
    };
    let review = spec_review_status_for(pending.is_some(), decision, task);
    let render = rejection_after(memories, generations, character_id, "render");
    let views = rejection_after(memories, generations, character_id, "views");
    let render_rejected = render.is_some();
    let views_rejected = views.is_some();
    let failed = match current_design_stage(state, render_rejected, views_rejected) {
        Some(stage) => match last_task_index(tasks, character_id, stage, false) {
            Some(i) => match tasks[i].status {
                TaskStatus::Failed => Some(owned(stage)),
                _ => None,
            },
            None => None,
        },
        None => None,
    };
    let mut running = false;
    for i in 0..tasks.len()
        invariant
            running == exists|k: int|
                0 <= k < i && (#[trigger] tasks@[k].status == TaskStatus::Pending || tasks@[k].status
                    == TaskStatus::Running),
    {
        match tasks[i].status {
            TaskStatus::Pending | TaskStatus::Running => {
                running = true;
            },
            _ => {},
        }
    }
    CharacterWorkflowFacts {
        pending_spec: pending,
        spec_review_status: review,
        latest_spec_verdict: latest_verdict,
        latest_spec_rejection_id: memory_id_of(memories, spec_rejection),
        render_rejection_id: memory_id_of(memories, render),
        views_rejection_id: memory_id_of(memories, views),
        render_rejected_after_generation: render_rejected,
        views_rejected_after_generation: views_rejected,
        failed_design_stage: failed,
        has_running_task: running,
    }
}

} // verus!
