//! The character gates: the spec, render and views confirmations, the image
//! registrations between them, rejections, and what each does to a
//! character's record.

use vstd::prelude::*;
use crate::action::{owned, str_eq};
use crate::domain::{AgentVerdict, CharacterState, ProjectState, VerdictConstraint};
use crate::facts::{last_true, DraftRecord};
use crate::generations::registration_state;
use crate::project::{joined_path, safe_segment, segment_ok, GameServiceError};
use crate::text::{is_blank, trim, trimmed};
use crate::workflow::{opt_str_view, opt_string_view};

verus! {

/// How far along its pipeline a character is.
pub open spec fn state_rank(s: CharacterState) -> nat {
    match s {
        CharacterState::S0SpecDrafting => 0,
        CharacterState::S1SpecConfirmed => 1,
        CharacterState::S2RenderGenerated => 2,
        CharacterState::S3RenderConfirmed => 3,
        CharacterState::S4ViewsGenerated => 4,
        CharacterState::S5ViewsConfirmed => 5,
    }
}

/// One step that changes a character's state.
#[derive(Debug, Clone, Copy, PartialEq, Eq, Structural)]
pub enum GateStep {
    ConfirmSpec,
    RegisterRender,
    ConfirmRender,
    RegisterViews,
    ConfirmViews,
}

/// The state a step moves a character in `s` to, if the step is allowed there.
pub open spec fn gate_step(s: CharacterState, step: GateStep) -> Option<CharacterState> {
    match (step, s) {
        (GateStep::ConfirmSpec, CharacterState::S0SpecDrafting) => Some(CharacterState::S1SpecConfirmed),
        (GateStep::RegisterRender, CharacterState::S1SpecConfirmed) => Some(CharacterState::S2RenderGenerated),
        (GateStep::RegisterRender, CharacterState::S2RenderGenerated) => Some(CharacterState::S2RenderGenerated),
        (GateStep::ConfirmRender, CharacterState::S2RenderGenerated) => Some(CharacterState::S3RenderConfirmed),
        (GateStep::RegisterViews, CharacterState::S3RenderConfirmed) => Some(CharacterState::S4ViewsGenerated),
        (GateStep::RegisterViews, CharacterState::S4ViewsGenerated) => Some(CharacterState::S4ViewsGenerated),
        (GateStep::ConfirmViews, CharacterState::S4ViewsGenerated) => Some(CharacterState::S5ViewsConfirmed),
        _ => None,
    }
}

/// The state after a run of steps, if every step is allowed where it comes.
pub open spec fn gate_run(s: CharacterState, steps: Seq<GateStep>) -> Option<CharacterState>
    decreases steps.len(),
{
    if steps.len() == 0 {
        Some(s)
    } else {
        match gate_step(s, steps[0]) {
            Some(t) => gate_run(t, steps.drop_first()),
            None => None,
        }
    }
}

/// The one step that brings a character up to rank `k`.
pub open spec fn step_into(k: nat) -> GateStep {
    if k == 1 {
        GateStep::ConfirmSpec
    } else if k == 2 {
        GateStep::RegisterRender
    } else if k == 3 {
        GateStep::ConfirmRender
    } else if k == 4 {
        GateStep::RegisterViews
    } else {
        GateStep::ConfirmViews
    }
}

/// A step never moves a character back, and moves it forward by one rank at
/// most; a confirmation always moves it forward by exactly one.
pub proof fn law_steps_advance_by_one(s: CharacterState, step: GateStep)
    ensures
        gate_step(s, step) matches Some(t) ==> state_rank(s) <= state_rank(t) <= state_rank(s) + 1,
        gate_step(s, step) matches Some(t) ==> (state_rank(t) == state_rank(s) + 1 ==> step == step_into(
            state_rank(t),
        )),
        (step == GateStep::ConfirmSpec || step == GateStep::ConfirmRender || step == GateStep::ConfirmViews)
            ==> (gate_step(s, step) matches Some(t) ==> state_rank(t) == state_rank(s) + 1),
{
}

/// No gate is skipped: a run of steps that takes a character from below rank
/// `k` to rank `k` or above holds the step into rank `k`; so a character
/// reaches confirmed views only through the spec, render and views
/// confirmations.
pub proof fn law_no_gate_is_skipped(s: CharacterState, steps: Seq<GateStep>, k: nat)
    requires
        gate_run(s, steps) is Some,
        state_rank(s) < k <= state_rank(gate_run(s, steps)->0),
    ensures
        steps.contains(step_into(k)),
    decreases steps.len(),
{
    let t = gate_step(s, steps[0])->0;
    law_steps_advance_by_one(s, steps[0]);
    if state_rank(t) == k && state_rank(s) + 1 == k {
        assert(steps[0] == step_into(k));
    } else {
        assert(state_rank(t) < k);
        law_no_gate_is_skipped(t, steps.drop_first(), k);
        let i = choose|i: int| 0 <= i < steps.drop_first().len() && steps.drop_first()[i] == step_into(k);
        assert(steps[i + 1] == step_into(k));
    }
}

/// Whether `e` is a refused character operation with message `m`.
pub open spec fn refused(e: GameServiceError, m: Seq<char>) -> bool {
    e matches GameServiceError::InvalidCharacterOperation(x) && x@ == m
}

fn refuse(m: &str) -> (e: GameServiceError)
    ensures
        refused(e, m@),
{
    GameServiceError::InvalidCharacterOperation(owned(m))
}

/// The first index at which `s` holds, if any.
pub open spec fn first_true(s: Seq<bool>) -> Option<int>
    decreases s.len(),
{
    if s.len() == 0 {
        None
    } else if s[0] {
        Some(0)
    } else {
        match first_true(s.drop_first()) {
            Some(i) => Some(i + 1),
            None => None,
        }
    }
}

pub(crate) proof fn lemma_first_true(s: Seq<bool>)
    ensures
        first_true(s) matches Some(i) ==> 0 <= i < s.len() && s[i] && forall|j: int| 0 <= j < i ==> !s[j],
        first_true(s) is None ==> forall|j: int| 0 <= j < s.len() ==> !s[j],
    decreases s.len(),
{
    if s.len() > 0 {
        lemma_first_true(s.drop_first());
        if !s[0] {
            assert forall|j: int| 0 < j < s.len() implies s[j] == s.drop_first()[j - 1] by {}
        }
    }
}

pub(crate) proof fn lemma_first_true_unique(s: Seq<bool>, i: int)
    requires
        0 <= i < s.len(),
        s[i],
        forall|j: int| 0 <= j < i ==> !s[j],
    ensures
        first_true(s) == Some(i),
    decreases s.len(),
{
    if i > 0 {
        lemma_first_true_unique(s.drop_first(), i - 1);
    }
}

pub(crate) proof fn lemma_last_true(s: Seq<bool>)
    ensures
        last_true(s) matches Some(i) ==> 0 <= i < s.len() && s[i] && forall|j: int| i < j < s.len() ==> !s[j],
        last_true(s) is None ==> forall|j: int| 0 <= j < s.len() ==> !s[j],
    decreases s.len(),
{
    if s.len() > 0 {
        lemma_last_true(s.drop_last());
        assert forall|j: int| 0 <= j < s.len() - 1 implies s[j] == s.drop_last()[j] by {}
    }
}

pub(crate) proof fn lemma_last_true_unique(s: Seq<bool>, i: int)
    requires
        0 <= i < s.len(),
        s[i],
        forall|j: int| i < j < s.len() ==> !s[j],
    ensures
        last_true(s) == Some(i),
    decreases s.len(),
{
    if i < s.len() - 1 {
        lemma_last_true_unique(s.drop_last(), i);
    }
}

// --- creating a character ------------------------------------------------------

/// Where a new character's files go and under which group, or why it cannot
/// be created: the project must be ready, and the name and group must serve
/// as directories.
pub open spec fn character_layout(
    state: ProjectState,
    name: Seq<char>,
    group: Option<Seq<char>>,
) -> Result<(Seq<char>, Option<Seq<char>>), Seq<char>> {
    if state != ProjectState::Ready {
        Err("Art Bible 与立项尚未确认"@)
    } else if !segment_ok(trim(name)) {
        Err("名称不能用于目录"@)
    } else {
        match group {
            Some(g) if trim(g).len() != 0 => if !segment_ok(trim(g)) {
                Err("名称不能用于目录"@)
            } else {
                Ok(("characters/"@ + trim(g) + "/"@ + trim(name), Some(trim(g))))
            },
            _ => Ok(("characters/"@ + trim(name), None)),
        }
    }
}

/// The directory of a new character, relative to the project, and its group.
pub fn new_character_layout(state: ProjectState, name: &str, group: Option<&str>) -> (r: Result<
    (String, Option<String>),
    GameServiceError,
>)
    ensures
        match character_layout(state, name@, opt_str_view(group)) {
            Ok((dir, g)) => r matches Ok((d, x)) && d@ == dir && opt_string_view(x) == g,
            Err(m) => r matches Err(e) && (if state != ProjectState::Ready {
                e matches GameServiceError::ProjectGate(x) && x@ == m
            } else {
                refused(e, m)
            }),
        },
{
    if state != ProjectState::Ready {
        return Err(GameServiceError::ProjectGate(owned("Art Bible 与立项尚未确认")));
    }
    let dir_name = match safe_segment(name) {
        Ok(d) => d,
        Err(e) => {
            return Err(e);
        },
    };
    let group = match group {
        Some(g) => if is_blank(g) {
            None
        } else {
            match safe_segment(g) {
                Ok(x) => Some(x),
                Err(e) => {
                    return Err(e);
                },
            }
        },
        None => None,
    };
    let mut dir = owned("characters/");
    match &group {
        Some(g) => {
            dir.append(g.as_str());
            dir.append("/");
        },
        None => {},
    }
    dir.append(dir_name.as_str());
    Ok((dir, group))
}

/// Characters, their groups and their conversations exist only in a project
/// whose Art Bible and naming are confirmed.
pub fn require_ready_project(state: ProjectState) -> (r: Result<(), GameServiceError>)
    ensures
        state == ProjectState::Ready ==> r is Ok,
        state != ProjectState::Ready ==> (r matches Err(GameServiceError::ProjectGate(m)) && m@
            == "Art Bible 与立项尚未确认"@),
{
    if state != ProjectState::Ready {
        return Err(GameServiceError::ProjectGate(owned("Art Bible 与立项尚未确认")));
    }
    Ok(())
}

// --- the record --------------------------------------------------------------

/// The parts of a character's record that its gates change.
#[derive(Debug, Clone, PartialEq, Eq)]
pub struct CharacterGates {
    pub state: CharacterState,
    pub dir_name: String,
    pub spec_path: Option<String>,
    pub render_path: Option<String>,
    pub view_paths: Vec<(String, String)>,
    pub hard_constraints: Vec<VerdictConstraint>,
    pub gate_spec_confirmed_at: Option<i64>,
    pub gate_render_confirmed_at: Option<i64>,
    pub gate_views_confirmed_at: Option<i64>,
    pub updated_at: i64,
}

impl CharacterGates {
    /// A new character at the start of its pipeline, in directory `dir_name`.
    pub fn new(dir_name: String, timestamp: i64) -> (r: Self)
        ensures
            r.state == CharacterState::S0SpecDrafting,
            r.dir_name == dir_name,
            r.spec_path is None && r.render_path is None,
            r.view_paths@.len() == 0 && r.hard_constraints@.len() == 0,
            r.gate_spec_confirmed_at is None && r.gate_render_confirmed_at is None
                && r.gate_views_confirmed_at is None,
            r.updated_at == timestamp,
    {
        CharacterGates {
            state: CharacterState::S0SpecDrafting,
            dir_name,
            spec_path: None,
            render_path: None,
            view_paths: Vec::new(),
            hard_constraints: Vec::new(),
            gate_spec_confirmed_at: None,
            gate_render_confirmed_at: None,
            gate_views_confirmed_at: None,
            updated_at: timestamp,
        }
    }
}

// --- the spec gate ---------------------------------------------------------------

/// Whether a verdict answers `token` on `subject_id`.
pub open spec fn verdict_matches(v: AgentVerdict, token: Seq<char>, subject_id: Seq<char>) -> bool {
    v.token@ == token && v.subject_id@ == subject_id
}

pub open spec fn verdicts_matching(vs: Seq<AgentVerdict>, token: Seq<char>, subject_id: Seq<char>) -> Seq<bool> {
    Seq::new(vs.len(), |i: int| verdict_matches(vs[i], token, subject_id))
}

/// The latest verdict on the subject, if it lets the subject be confirmed, or
/// why it cannot be.
pub open spec fn verdict_choice(vs: Seq<AgentVerdict>, token: Seq<char>, subject_id: Seq<char>) -> Result<int, Seq<char>> {
    match last_true(verdicts_matching(vs, token, subject_id)) {
        None => Err("缺少与当前角色设定草稿匹配的审校结论"@),
        Some(i) => if vs[i].decision@ == "APPROVE"@ || vs[i].decision@ == "CONCERNS"@ {
            Ok(i)
        } else {
            Err("当前角色设定草稿未通过审校，不能确认"@)
        },
    }
}

pub(crate) fn copy_constraints(v: &Vec<VerdictConstraint>) -> (r: Vec<VerdictConstraint>)
    ensures
        r@ == v@,
{
    let mut r: Vec<VerdictConstraint> = Vec::new();
    let mut i: usize = 0;
    while i < v.len()
        invariant
            i <= v.len(),
            r@ == v@.take(i as int),
        decreases v.len() - i,
    {
        let c = &v[i];
        r.push(VerdictConstraint { scope: c.scope.clone(), item: c.item.clone(), value: c.value.clone() });
        assert(v@.take(i as int + 1) =~= v@.take(i as int).push(v@[i as int]));
        i = i + 1;
    }
    assert(v@.take(v.len() as int) =~= v@);
    r
}

/// The constraints of the latest verdict given with `token` on `subject_id`
/// (verdicts in the order their messages came), when that verdict approves
/// the subject or approves it with concerns.
pub fn collect_verdict_constraints(verdicts: &[AgentVerdict], token: &str, subject_id: &str) -> (r: Result<
    Vec<VerdictConstraint>,
    GameServiceError,
>)
    ensures
        match verdict_choice(verdicts@, token@, subject_id@) {
            Ok(i) => r matches Ok(c) && c@ == verdicts@[i].constraints@,
            Err(m) => r matches Err(e) && refused(e, m),
        },
{
    let ghost want = verdicts_matching(verdicts@, token@, subject_id@);
    let mut i: usize = verdicts.len();
    while i > 0
        invariant
            i <= verdicts.len(),
            want == verdicts_matching(verdicts@, token@, subject_id@),
            forall|j: int| i <= j < verdicts.len() ==> !want[j],
        decreases i,
    {
        let v = &verdicts[i - 1];
        if str_eq(v.token.as_str(), token) && str_eq(v.subject_id.as_str(), subject_id) {
            proof {
                lemma_last_true_unique(want, i - 1);
            }
            if str_eq(v.decision.as_str(), "APPROVE") || str_eq(v.decision.as_str(), "CONCERNS") {
                return Ok(copy_constraints(&v.constraints));
            }
            return Err(refuse("当前角色设定草稿未通过审校，不能确认"));
        }
        i = i - 1;
    }
    proof {
        lemma_last_true(want);
    }
    Err(refuse("缺少与当前角色设定草稿匹配的审校结论"))
}

/// Whether a draft is the pending one asked for.
pub open spec fn draft_wanted(d: DraftRecord, draft_id: Seq<char>) -> bool {
    d.id@ == draft_id && d.status@ == "pending"@
}

pub open spec fn drafts_wanted(ds: Seq<DraftRecord>, draft_id: Seq<char>) -> Seq<bool> {
    Seq::new(ds.len(), |i: int| draft_wanted(ds[i], draft_id))
}

/// What confirming a character's spec takes: the draft (by its index among
/// the conversation's drafts), where its file goes, and the constraints that
/// its review fixed.
#[derive(Debug, Clone, PartialEq, Eq)]
pub struct SpecConfirmation {
    pub draft_index: usize,
    pub spec_path: String,
    pub hard_constraints: Vec<VerdictConstraint>,
}

/// Whether and how a character's spec can be confirmed from a draft: the
/// character must be drafting its spec, the draft must be pending and aim at
/// the character's spec document, and the latest review of it must let it pass.
pub open spec fn spec_confirmation_of(
    state: CharacterState,
    dir_name: Seq<char>,
    drafts: Seq<DraftRecord>,
    draft_id: Seq<char>,
    verdicts: Seq<AgentVerdict>,
) -> Result<(int, Seq<char>, int), Seq<char>> {
    if state != CharacterState::S0SpecDrafting {
        Err("角色设定已确认或尚未处于 S0"@)
    } else {
        match first_true(drafts_wanted(drafts, draft_id)) {
            None => Err("角色设定草稿不存在或已提交"@),
            Some(d) => if drafts[d].target_path@ != "docs/角色定稿.md"@ {
                Err("角色设定草稿目标必须是 docs/角色定稿.md"@)
            } else {
                match verdict_choice(verdicts, "SPEC-CHECK"@, drafts[d].id@) {
                    Err(m) => Err(m),
                    Ok(v) => Ok((d, joined_path(dir_name, drafts[d].target_path@), v)),
                }
            },
        }
    }
}

impl CharacterGates {
    /// Checks that the spec can be confirmed from draft `draft_id`, given the
    /// conversation's drafts and the verdicts of its messages in order.
    pub fn check_spec_confirmation(&self, drafts: &[DraftRecord], draft_id: &str, verdicts: &[AgentVerdict]) -> (r:
        Result<SpecConfirmation, GameServiceError>)
        ensures
            match spec_confirmation_of(self.state, self.dir_name@, drafts@, draft_id@, verdicts@) {
                Ok((d, path, v)) => r matches Ok(c) && c.draft_index == d && c.spec_path@ == path
                    && c.hard_constraints@ == verdicts@[v].constraints@,
                Err(m) => r matches Err(e) && refused(e, m),
            },
    {
        if self.state != CharacterState::S0SpecDrafting {
            return Err(refuse("角色设定已确认或尚未处于 S0"));
        }
        let ghost want = drafts_wanted(drafts@, draft_id@);
        let mut i: usize = 0;
        while i < drafts.len()
            invariant
                i <= drafts.len(),
                want == drafts_wanted(drafts@, draft_id@),
                forall|j: int| 0 <= j < i ==> !want[j],
                self.state == CharacterState::S0SpecDrafting,
            decreases drafts.len() - i,
        {
            let d = &drafts[i];
            if str_eq(d.id.as_str(), draft_id) && str_eq(d.status.as_str(), "pending") {
                proof {
                    lemma_first_true_unique(want, i as int);
                }
                if !str_eq(d.target_path.as_str(), "docs/角色定稿.md") {
                    return Err(refuse("角色设定草稿目标必须是 docs/角色定稿.md"));
                }
                let constraints = match collect_verdict_constraints(verdicts, "SPEC-CHECK", d.id.as_str()) {
                    Ok(c) => c,
                    Err(e) => {
                        return Err(e);
                    },
                };
                let spec_path = join(self.dir_name.as_str(), d.target_path.as_str());
                return Ok(SpecConfirmation { draft_index: i, spec_path, hard_constraints: constraints });
            }
            i = i + 1;
        }
        proof {
            lemma_first_true(want);
        }
        Err(refuse("角色设定草稿不存在或已提交"))
    }

    /// Confirms the spec: the character moves on to render, keeps the spec's
    /// path and the review's constraints, and the confirmation time is kept.
    pub fn confirm_spec(&mut self, confirmation: SpecConfirmation, timestamp: i64)
        requires
            old(self).state == CharacterState::S0SpecDrafting,
        ensures
            gate_step(old(self).state, GateStep::ConfirmSpec) == Some(final(self).state),
            final(self).spec_path == Some(confirmation.spec_path),
            final(self).hard_constraints == confirmation.hard_constraints,
            final(self).gate_spec_confirmed_at == Some(timestamp),
            final(self).updated_at == timestamp,
            final(self).dir_name == old(self).dir_name,
            final(self).render_path == old(self).render_path,
            final(self).view_paths == old(self).view_paths,
            final(self).gate_render_confirmed_at == old(self).gate_render_confirmed_at,
            final(self).gate_views_confirmed_at == old(self).gate_views_confirmed_at,
    {
        self.state = CharacterState::S1SpecConfirmed;
        self.spec_path = Some(confirmation.spec_path);
        self.hard_constraints = confirmation.hard_constraints;
        self.gate_spec_confirmed_at = Some(timestamp);
        self.updated_at = timestamp;
    }
}

/// `relative` joined under `dir`.
pub fn join(dir: &str, relative: &str) -> (r: String)
    ensures
        r@ == joined_path(dir@, relative@),
{
    let cs = crate::text::chars_of(dir);
    let mut r = owned(dir);
    if cs.len() > 0 && cs[cs.len() - 1] != '/' {
        r.append("/");
    }
    r.append(relative);
    proof {
        reveal_strlit("/");
    }
    r
}

// --- images ----------------------------------------------------------------------

/// The extension of the last part of a path, as `std::path::Path::extension`
/// finds it.
pub uninterp spec fn path_extension(path: Seq<char>) -> Option<Seq<char>>;

/// Calls `std::path::Path::extension` on `path`. The result is named, not
/// stated: which part of a path is its file name follows std's parsing of
/// path components.
#[verifier::external_body]
fn file_extension(path: &str) -> (r: Option<String>)
    ensures
        opt_string_view(r) == path_extension(path@),
{
    match std::path::Path::new(path).extension() {
        Some(e) => match e.to_str() {
            Some(x) => Some(x.to_string()),
            None => None,
        },
        None => None,
    }
}

/// Where a confirmed image of a character is archived: in its `images/`
/// directory, as `name` with the source file's extension (`png` without one).
pub open spec fn final_image_path(dir_name: Seq<char>, name: Seq<char>, source: Seq<char>) -> Seq<char> {
    let ext = match path_extension(source) {
        Some(e) => e,
        None => "png"@,
    };
    joined_path(dir_name, "images/"@ + name + "."@ + ext)
}

/// Where a confirmed image of a character is archived.
pub fn final_image(dir_name: &str, name: &str, source: &str) -> (r: String)
    ensures
        r@ == final_image_path(dir_name@, name@, source@),
{
    let ext = match file_extension(source) {
        Some(e) => e,
        None => owned("png"),
    };
    let mut file = owned("images/");
    file.append(name);
    file.append(".");
    file.append(ext.as_str());
    join(dir_name, file.as_str())
}

/// A generated image among which one is confirmed.
#[derive(Debug, Clone, PartialEq, Eq)]
pub struct GenerationCandidate {
    pub id: String,
    pub variant: Option<String>,
    pub file_path: String,
}

pub open spec fn candidates_with_id(gs: Seq<GenerationCandidate>, id: Seq<char>) -> Seq<bool> {
    Seq::new(gs.len(), |i: int| gs[i].id@ == id)
}

fn find_candidate(gs: &[GenerationCandidate], id: &str) -> (r: Option<usize>)
    ensures
        match first_true(candidates_with_id(gs@, id@)) {
            Some(i) => 0 <= i < gs.len() && r == Some(i as usize),
            None => r is None,
        },
{
    let ghost want = candidates_with_id(gs@, id@);
    let mut i: usize = 0;
    while i < gs.len()
        invariant
            i <= gs.len(),
            want == candidates_with_id(gs@, id@),
            forall|j: int| 0 <= j < i ==> !want[j],
        decreases gs.len() - i,
    {
        if str_eq(gs[i].id.as_str(), id) {
            proof {
                lemma_first_true_unique(want, i as int);
            }
            return Some(i);
        }
        i = i + 1;
    }
    proof {
        lemma_first_true(want);
    }
    None
}

/// Which render can be confirmed, by index among the character's renders.
pub open spec fn render_choice(state: CharacterState, renders: Seq<GenerationCandidate>, id: Seq<char>) -> Result<int, Seq<char>> {
    if state != CharacterState::S2RenderGenerated {
        Err("只能在 S2 确认渲染图"@)
    } else {
        match first_true(candidates_with_id(renders, id)) {
            Some(i) => Ok(i),
            None => Err("渲染记录不存在"@),
        }
    }
}

/// Which views image can be confirmed, by index among the character's views:
/// exactly one must be chosen, and it must be a quad.
pub open spec fn views_choice(state: CharacterState, views: Seq<GenerationCandidate>, ids: Seq<String>) -> Result<int, Seq<char>> {
    if state != CharacterState::S4ViewsGenerated {
        Err("只能在 S4 确认四视图"@)
    } else if ids.len() != 1 {
        Err("必须选择一张完整的 2×2 四视图候选"@)
    } else {
        match first_true(candidates_with_id(views, ids[0]@)) {
            None => Err("四视图记录不存在"@),
            Some(i) => if views[i].variant matches Some(v) && v@ == "quad"@ {
                Ok(i)
            } else {
                Err("四视图候选必须是完整的 2×2 四宫格"@)
            },
        }
    }
}

/// The view names of a confirmed views image, each archived at `archived`,
/// in the order of their names.
pub open spec fn views_map(archived: Seq<char>) -> Seq<(Seq<char>, Seq<char>)> {
    seq![("back"@, archived), ("front"@, archived), ("left"@, archived), ("right"@, archived)]
}

pub open spec fn pairs_view(v: Seq<(String, String)>) -> Seq<(Seq<char>, Seq<char>)> {
    Seq::new(v.len(), |i: int| (v[i].0@, v[i].1@))
}

/// Why a result of `stage` cannot be rejected, or the reason, trimmed.
pub open spec fn rejection_of(state: CharacterState, stage: Seq<char>, reason: Seq<char>) -> Result<Seq<char>, Seq<char>> {
    let expected = if stage == "spec"@ {
        Some(CharacterState::S0SpecDrafting)
    } else if stage == "render"@ {
        Some(CharacterState::S2RenderGenerated)
    } else if stage == "views"@ {
        Some(CharacterState::S4ViewsGenerated)
    } else {
        None
    };
    if trim(reason).len() == 0 {
        Err("拒绝当前结果时必须说明原因"@)
    } else if expected is None {
        Err("拒绝阶段必须是 spec、render 或 views"@)
    } else if expected != Some(state) {
        Err("当前角色状态不允许拒绝 "@ + stage + " 结果"@)
    } else {
        Ok(trim(reason))
    }
}

impl CharacterGates {
    /// Checks that the render `generation_id` can be confirmed, given the
    /// character's renders; gives its index.
    pub fn check_render_confirmation(&self, renders: &[GenerationCandidate], generation_id: &str) -> (r: Result<
        usize,
        GameServiceError,
    >)
        ensures
            match render_choice(self.state, renders@, generation_id@) {
                Ok(i) => r == Ok::<usize, GameServiceError>(i as usize),
                Err(m) => r matches Err(e) && refused(e, m),
            },
    {
        if self.state != CharacterState::S2RenderGenerated {
            return Err(refuse("只能在 S2 确认渲染图"));
        }
        match find_candidate(renders, generation_id) {
            Some(i) => Ok(i),
            None => Err(refuse("渲染记录不存在")),
        }
    }

    /// Confirms the render archived at `render_path`: the character moves on
    /// to its views and the confirmation time is kept.
    pub fn confirm_render(&mut self, render_path: String, timestamp: i64)
        requires
            old(self).state == CharacterState::S2RenderGenerated,
        ensures
            gate_step(old(self).state, GateStep::ConfirmRender) == Some(final(self).state),
            final(self).render_path == Some(render_path),
            final(self).gate_render_confirmed_at == Some(timestamp),
            final(self).updated_at == timestamp,
            final(self).dir_name == old(self).dir_name,
            final(self).spec_path == old(self).spec_path,
            final(self).view_paths == old(self).view_paths,
            final(self).hard_constraints == old(self).hard_constraints,
            final(self).gate_spec_confirmed_at == old(self).gate_spec_confirmed_at,
            final(self).gate_views_confirmed_at == old(self).gate_views_confirmed_at,
    {
        self.state = CharacterState::S3RenderConfirmed;
        self.render_path = Some(render_path);
        self.gate_render_confirmed_at = Some(timestamp);
        self.updated_at = timestamp;
    }

    /// Checks that the views image chosen in `generation_ids` can be
    /// confirmed, given the character's views; gives its index.
    pub fn check_views_confirmation(&self, views: &[GenerationCandidate], generation_ids: &[String]) -> (r: Result<
        usize,
        GameServiceError,
    >)
        ensures
            match views_choice(self.state, views@, generation_ids@) {
                Ok(i) => r == Ok::<usize, GameServiceError>(i as usize),
                Err(m) => r matches Err(e) && refused(e, m),
            },
    {
        if self.state != CharacterState::S4ViewsGenerated {
            return Err(refuse("只能在 S4 确认四视图"));
        }
        if generation_ids.len() != 1 {
            return Err(refuse("必须选择一张完整的 2×2 四视图候选"));
        }
        let first: &String = &generation_ids[0];
        let i = match find_candidate(views, first.as_str()) {
            Some(i) => i,
            None => {
                return Err(refuse("四视图记录不存在"));
            },
        };
        let quad = match &views[i].variant {
            Some(v) => str_eq(v.as_str(), "quad"),
            None => false,
        };
        if !quad {
            return Err(refuse("四视图候选必须是完整的 2×2 四宫格"));
        }
        Ok(i)
    }

    /// Confirms the views image archived at `archived`: each of the four views
    /// points at it, the pipeline is done and the confirmation time is kept.
    pub fn confirm_views(&mut self, archived: String, timestamp: i64)
        requires
            old(self).state == CharacterState::S4ViewsGenerated,
        ensures
            gate_step(old(self).state, GateStep::ConfirmViews) == Some(final(self).state),
            pairs_view(final(self).view_paths@) == views_map(archived@),
            final(self).gate_views_confirmed_at == Some(timestamp),
            final(self).updated_at == timestamp,
            final(self).dir_name == old(self).dir_name,
            final(self).spec_path == old(self).spec_path,
            final(self).render_path == old(self).render_path,
            final(self).hard_constraints == old(self).hard_constraints,
            final(self).gate_spec_confirmed_at == old(self).gate_spec_confirmed_at,
            final(self).gate_render_confirmed_at == old(self).gate_render_confirmed_at,
    {
        let mut paths: Vec<(String, String)> = Vec::new();
        paths.push((owned("back"), archived.clone()));
        paths.push((owned("front"), archived.clone()));
        paths.push((owned("left"), archived.clone()));
        paths.push((owned("right"), archived));
        assert(pairs_view(paths@) =~= views_map(archived@));
        self.state = CharacterState::S5ViewsConfirmed;
        self.view_paths = paths;
        self.gate_views_confirmed_at = Some(timestamp);
        self.updated_at = timestamp;
    }

    /// Checks that the result of `stage` can be rejected for `reason`; gives
    /// the reason, trimmed. A rejection leaves the state as it is.
    pub fn check_rejection(&self, stage: &str, reason: &str) -> (r: Result<String, GameServiceError>)
        ensures
            match rejection_of(self.state, stage@, reason@) {
                Ok(t) => r matches Ok(x) && x@ == t,
                Err(m) => r matches Err(e) && refused(e, m),
            },
    {
        if is_blank(reason) {
            return Err(refuse("拒绝当前结果时必须说明原因"));
        }
        let reason = trimmed(reason);
        let expected = if str_eq(stage, "spec") {
            CharacterState::S0SpecDrafting
        } else if str_eq(stage, "render") {
            CharacterState::S2RenderGenerated
        } else if str_eq(stage, "views") {
            CharacterState::S4ViewsGenerated
        } else {
            return Err(refuse("拒绝阶段必须是 spec、render 或 views"));
        };
        if self.state != expected {
            let mut m = owned("当前角色状态不允许拒绝 ");
            m.append(stage);
            m.append(" 结果");
            return Err(GameServiceError::InvalidCharacterOperation(m));
        }
        Ok(reason)
    }
}

// --- registering images ------------------------------------------------------------

/// The step an image registration of `stage` takes, if `stage` takes images.
pub open spec fn registration_step(stage: Seq<char>) -> Option<GateStep> {
    if stage == "render"@ {
        Some(GateStep::RegisterRender)
    } else if stage == "views"@ {
        Some(GateStep::RegisterViews)
    } else {
        None
    }
}

/// The state that an image of `stage` moves the character to, when it moves.
pub open spec fn moved_state(state: CharacterState, step: GateStep) -> Option<CharacterState> {
    match gate_step(state, step) {
        Some(t) => if t == state {
            None
        } else {
            Some(t)
        },
        None => None,
    }
}

/// Whether an image of `stage` can be registered for a character in `state`,
/// and the state it then moves to, if it moves.
pub fn registration_next_state(stage: &str, state: CharacterState) -> (r: Result<Option<CharacterState>, GameServiceError>)
    ensures
        match registration_step(stage@) {
            None => r matches Err(e) && refused(e, "generation stage 必须为 render 或 views"@),
            Some(step) => if gate_step(state, step) is None {
                r matches Err(e) && refused(e, "当前角色状态不允许登记 "@ + stage@ + " 产物"@)
            } else {
                r == Ok::<Option<CharacterState>, GameServiceError>(moved_state(state, step))
            },
        },
{
    proof {
        reveal_strlit("render");
        reveal_strlit("views");
    }
    let render = str_eq(stage, "render");
    if !render && !str_eq(stage, "views") {
        return Err(refuse("generation stage 必须为 render 或 views"));
    }
    match (render, state) {
        (true, CharacterState::S1SpecConfirmed) => Ok(Some(CharacterState::S2RenderGenerated)),
        (true, CharacterState::S2RenderGenerated) => Ok(None),
        (false, CharacterState::S3RenderConfirmed) => Ok(Some(CharacterState::S4ViewsGenerated)),
        (false, CharacterState::S4ViewsGenerated) => Ok(None),
        _ => {
            let mut m = owned("当前角色状态不允许登记 ");
            m.append(stage);
            m.append(" 产物");
            Err(GameServiceError::InvalidCharacterOperation(m))
        },
    }
}

/// The variant a registered image of `stage` is kept as: the views are
/// always a quad, and may not be declared as anything else.
pub open spec fn registered_variant_of(stage: Seq<char>, variant: Option<Seq<char>>) -> Result<Option<Seq<char>>, ()> {
    if stage == "views"@ {
        match variant {
            Some(v) => if v == "quad"@ {
                Ok(Some("quad"@))
            } else {
                Err(())
            },
            None => Ok(Some("quad"@)),
        }
    } else {
        Ok(variant)
    }
}

/// The variant a registered image of `stage` is kept as.
pub fn registered_variant(stage: &str, variant: Option<&str>) -> (r: Result<Option<String>, GameServiceError>)
    ensures
        match registered_variant_of(stage@, opt_str_view(variant)) {
            Ok(v) => r matches Ok(x) && opt_string_view(x) == v,
            Err(()) => r matches Err(e) && refused(e, "四视图候选必须是单张 2×2 四宫格（variant=quad）"@),
        },
{
    if str_eq(stage, "views") {
        match variant {
            Some(v) => if !str_eq(v, "quad") {
                return Err(refuse("四视图候选必须是单张 2×2 四宫格（variant=quad）"));
            },
            None => {},
        }
        Ok(Some(owned("quad")))
    } else {
        match variant {
            Some(v) => Ok(Some(owned(v))),
            None => Ok(None),
        }
    }
}

impl CharacterGates {
    /// Records that an image was registered: the character moves to
    /// `next_state` when there is one, and is otherwise left as it was.
    pub fn record_registration(&mut self, next_state: Option<CharacterState>, timestamp: i64)
        requires
            next_state matches Some(n) ==> (moved_state(old(self).state, GateStep::RegisterRender) == Some(n)
                || moved_state(old(self).state, GateStep::RegisterViews) == Some(n)),
        ensures
            match next_state {
                Some(n) => final(self).state == n && final(self).updated_at == timestamp
                    && final(self).dir_name == old(self).dir_name
                    && final(self).spec_path == old(self).spec_path
                    && final(self).render_path == old(self).render_path
                    && final(self).view_paths == old(self).view_paths
                    && final(self).hard_constraints == old(self).hard_constraints
                    && final(self).gate_spec_confirmed_at == old(self).gate_spec_confirmed_at
                    && final(self).gate_render_confirmed_at == old(self).gate_render_confirmed_at
                    && final(self).gate_views_confirmed_at == old(self).gate_views_confirmed_at,
                None => *final(self) == *old(self),
            },
    {
        match next_state {
            Some(n) => {
                self.state = n;
                self.updated_at = timestamp;
            },
            None => {},
        }
    }
}

/// An image that a visual designer's turn registers moves a character just
/// as one registered by hand: both are refused in the same states and move
/// it to the same state.
pub proof fn law_turn_registration_matches_direct(stage: Seq<char>, state: CharacterState)
    requires
        registration_step(stage) is Some,
    ensures
        registration_state(stage, state) is Ok <==> gate_step(state, registration_step(stage)->0) is Some,
        registration_state(stage, state) matches Ok(o) ==> o == moved_state(state, registration_step(stage)->0),
{
    reveal_strlit("render");
    reveal_strlit("views");
    assert("render"@.len() != "views"@.len());
}

} // verus!
