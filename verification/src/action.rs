//! Validation of the action block that ends every agent reply.

use vstd::prelude::*;
use crate::domain::{
    AgentAction, AgentActionKind, AgentActionPayload, AgentResultStatus, AgentTurnOutput,
    ArtifactDraft, AssetSpec, ChoiceGroup, MemoryDraft, NamingOption, AgentVerdict, AgentResult,
    ACTION_END, ACTION_START, MAX_CHOICE_GROUPS,
};
use crate::text::{
    chars_eq, chars_of, chars_start_with, count_matches, count_matches_upto_two, find_chars,
    find_from, has_char, is_ascii_digit, is_ascii_lower, is_blank, is_whitespace, is_ws,
    lemma_find_from, lemma_trail_bounds, occurs_at, starts_with, string_from_range, trail, trim,
    trim_bounds, trim_end, trim_end_bound, string_views,
};

verus! {

/// Why an agent reply breaks the action protocol.
#[derive(Debug, Clone, PartialEq, Eq)]
pub enum ActionProtocolError {
    MissingOrDuplicate,
    NotLast,
    InvalidJson(String),
    InvalidReason,
    UnexpectedTarget(&'static str),
    InvalidHandoff,
    SpecialistMustReturnToDirector,
    InvalidChoices,
    ChoicesRequireAskUser,
    InvalidResult,
    InvalidPayload(String),
}

pub enum ActionProtocolErrorView {
    MissingOrDuplicate,
    NotLast,
    InvalidJson(Seq<char>),
    InvalidReason,
    UnexpectedTarget(Seq<char>),
    InvalidHandoff,
    SpecialistMustReturnToDirector,
    InvalidChoices,
    ChoicesRequireAskUser,
    InvalidResult,
    InvalidPayload(Seq<char>),
}

impl View for ActionProtocolError {
    type V = ActionProtocolErrorView;

    open spec fn view(&self) -> ActionProtocolErrorView {
        match self {
            ActionProtocolError::MissingOrDuplicate => ActionProtocolErrorView::MissingOrDuplicate,
            ActionProtocolError::NotLast => ActionProtocolErrorView::NotLast,
            ActionProtocolError::InvalidJson(s) => ActionProtocolErrorView::InvalidJson(s@),
            ActionProtocolError::InvalidReason => ActionProtocolErrorView::InvalidReason,
            ActionProtocolError::UnexpectedTarget(s) => ActionProtocolErrorView::UnexpectedTarget(s@),
            ActionProtocolError::InvalidHandoff => ActionProtocolErrorView::InvalidHandoff,
            ActionProtocolError::SpecialistMustReturnToDirector => ActionProtocolErrorView::SpecialistMustReturnToDirector,
            ActionProtocolError::InvalidChoices => ActionProtocolErrorView::InvalidChoices,
            ActionProtocolError::ChoicesRequireAskUser => ActionProtocolErrorView::ChoicesRequireAskUser,
            ActionProtocolError::InvalidResult => ActionProtocolErrorView::InvalidResult,
            ActionProtocolError::InvalidPayload(s) => ActionProtocolErrorView::InvalidPayload(s@),
        }
    }
}

pub const MSG_DRAFTS: &'static str = "drafts 必须包含安全相对路径和非空内容";
pub const MSG_MEMORIES: &'static str = "memories 的 scope、kind 或 content 不合法";
pub const MSG_NAMING: &'static str = "naming 必须包含一至三组合法名称与代号";
pub const MSG_ASSET_SPECS: &'static str = "asset_specs 缺少必填字段";
pub const MSG_VERDICT_SHAPE: &'static str = "verdict 结构或枚举值不合法";
pub const MSG_ASK_USER_ONLY: &'static str = "choices、drafts 与 naming 只能配合 ask_user";
pub const MSG_ASSET_SPECS_HANDOFF: &'static str = "asset_specs 只能配合 handoff";
pub const MSG_VERDICT_RETURN: &'static str = "verdict 必须随完成结果交回总管";
pub const MSG_NAMING_ALONE: &'static str = "naming 不能与 choices 或 drafts 同时出现";
pub const MSG_CHOICES_THEN_DRAFTS: &'static str = "choices 与 drafts 不能在同一轮出现；必须先让用户完成选择，下一轮才能输出 drafts";

/// The owned copy of a string slice.
pub fn owned(s: &str) -> (r: String)
    ensures
        r@ == s@,
{
    s.to_owned()
}

/// Whether two string slices hold the same characters.
pub fn str_eq(a: &str, b: &str) -> (r: bool)
    ensures
        r == (a@ == b@),
{
    let x = a.to_owned();
    let y = b.to_owned();
    x == y
}

/// The message of an action protocol error.
pub open spec fn protocol_error_text(e: ActionProtocolErrorView) -> Seq<char> {
    match e {
        ActionProtocolErrorView::MissingOrDuplicate => "每轮必须且只能输出一个完整 Action 块"@,
        ActionProtocolErrorView::NotLast => "Action 块必须是整条回复的最后内容"@,
        ActionProtocolErrorView::InvalidJson(d) => "Action JSON 不合法："@ + d,
        ActionProtocolErrorView::InvalidReason => "Action reason 必须是非空单句"@,
        ActionProtocolErrorView::UnexpectedTarget(k) => k + " 的 target_agent 必须是 null"@,
        ActionProtocolErrorView::InvalidHandoff => "handoff 必须指定当前阶段允许的其他 Agent"@,
        ActionProtocolErrorView::SpecialistMustReturnToDirector =>
            "专业 Agent 完成工作后必须 handoff 回总管，不能直接 done"@,
        ActionProtocolErrorView::InvalidChoices => "payload.choices 最多四组且每组至少两个不同选项"@,
        ActionProtocolErrorView::ChoicesRequireAskUser => "包含 choices 时 action 必须是 ask_user"@,
        ActionProtocolErrorView::InvalidResult => "payload.result 与 action 不一致"@,
        ActionProtocolErrorView::InvalidPayload(d) => "Action payload 不合法："@ + d,
    }
}

impl ActionProtocolError {
    /// The message that describes this error.
    pub fn message(&self) -> (r: String)
        ensures
            r@ == protocol_error_text(self@),
    {
        let mut s = String::new();
        match self {
            ActionProtocolError::MissingOrDuplicate => s.append("每轮必须且只能输出一个完整 Action 块"),
            ActionProtocolError::NotLast => s.append("Action 块必须是整条回复的最后内容"),
            ActionProtocolError::InvalidJson(detail) => {
                s.append("Action JSON 不合法：");
                s.append(detail.as_str());
            },
            ActionProtocolError::InvalidReason => s.append("Action reason 必须是非空单句"),
            ActionProtocolError::UnexpectedTarget(kind) => {
                s.append(kind);
                s.append(" 的 target_agent 必须是 null");
            },
            ActionProtocolError::InvalidHandoff => s.append("handoff 必须指定当前阶段允许的其他 Agent"),
            ActionProtocolError::SpecialistMustReturnToDirector => s.append(
                "专业 Agent 完成工作后必须 handoff 回总管，不能直接 done",
            ),
            ActionProtocolError::InvalidChoices => s.append("payload.choices 最多四组且每组至少两个不同选项"),
            ActionProtocolError::ChoicesRequireAskUser => s.append("包含 choices 时 action 必须是 ask_user"),
            ActionProtocolError::InvalidResult => s.append("payload.result 与 action 不一致"),
            ActionProtocolError::InvalidPayload(detail) => {
                s.append("Action payload 不合法：");
                s.append(detail.as_str());
            },
        }
        s
    }
}

// ---------------------------------------------------------------------------
// Reason
// ---------------------------------------------------------------------------

/// A character that ends a sentence.
pub open spec fn is_terminator(c: char) -> bool {
    c == '。' || c == '！' || c == '？' || c == '!' || c == '?'
}

/// A sentence ends somewhere before the last non-whitespace character.
pub open spec fn has_sentence_break(s: Seq<char>) -> bool {
    exists|i: int, j: int| 0 <= i < j < s.len() && #[trigger] is_terminator(s[i]) && !is_ws(#[trigger] s[j])
}

/// Whether a sentence ends before the last non-whitespace character of `reason`.
pub fn sentence_break_before_end(reason: &[char]) -> (r: bool)
    ensures
        r == has_sentence_break(reason@),
{
    let hi = trim_end_bound(reason);
    proof {
        lemma_trail_bounds(reason@, reason@.len() as int, 0);
    }
    if hi == 0 {
        assert forall|i: int, j: int| 0 <= i < j < reason@.len() && #[trigger] is_terminator(reason@[i]) implies is_ws(#[trigger] reason@[j]) by {}
        return false;
    }
    let last = hi - 1;
    for i in 0..last
        invariant
            last + 1 == hi,
            hi == trail(reason@, reason@.len() as int, 0),
            hi <= reason@.len(),
            !is_ws(reason@[last as int]),
            forall|k: int| hi <= k < reason@.len() ==> is_ws(#[trigger] reason@[k]),
            forall|k: int| 0 <= k < i ==> !is_terminator(#[trigger] reason@[k]),
    {
        if is_terminator_char(reason[i]) {
            assert(!is_ws(reason@[last as int]));
            assert(is_terminator(reason@[i as int]));
            return true;
        }
    }
    assert forall|i: int, j: int| 0 <= i < j < reason@.len() && #[trigger] is_terminator(reason@[i]) implies is_ws(#[trigger] reason@[j]) by {
        assert(i >= last);
        assert(j >= hi);
    }
    false
}

fn is_terminator_char(c: char) -> (r: bool)
    ensures
        r == is_terminator(c),
{
    c == '。' || c == '！' || c == '？' || c == '!' || c == '?'
}

/// The reason of an action must be one non-empty sentence on one line.
pub open spec fn reason_invalid(reason: Seq<char>) -> bool {
    let t = trim(reason);
    t.len() == 0 || t.contains('\n') || t.contains('\r') || has_sentence_break(t)
}

fn check_reason(reason: &String) -> (r: bool)
    ensures
        r == reason_invalid(reason@),
{
    let cs = chars_of(reason.as_str());
    let (lo, hi) = trim_bounds(cs.as_slice());
    let mut t: Vec<char> = Vec::new();
    for i in lo..hi
        invariant
            hi <= cs@.len(),
            t@ == cs@.subrange(lo as int, i as int),
    {
        t.push(cs[i]);
        assert(cs@.subrange(lo as int, i + 1) == cs@.subrange(lo as int, i as int).push(cs@[i as int]));
    }
    t.len() == 0 || has_char(t.as_slice(), '\n') || has_char(t.as_slice(), '\r') || sentence_break_before_end(
        t.as_slice(),
    )
}

// ---------------------------------------------------------------------------
// Paths and codes
// ---------------------------------------------------------------------------

/// A path separator: '/' or '\\'.
pub open spec fn is_path_sep(c: char) -> bool {
    c == '/' || c == '\\'
}

/// The index of the first separator at or after `from` (the length if none).
pub open spec fn next_sep(s: Seq<char>, from: int) -> int
    decreases s.len() - from,
{
    if from < 0 {
        0
    } else if from >= s.len() {
        s.len() as int
    } else if is_path_sep(s[from]) {
        from
    } else {
        next_sep(s, from + 1)
    }
}

pub proof fn lemma_next_sep_bounds(s: Seq<char>, from: int)
    requires
        0 <= from,
    ensures
        from <= next_sep(s, from) || (from > s.len() && next_sep(s, from) == s.len()),
        next_sep(s, from) <= s.len(),
        0 <= next_sep(s, from),
    decreases s.len() - from,
{
    if from < s.len() && !is_path_sep(s[from]) {
        lemma_next_sep_bounds(s, from + 1);
    }
}

pub proof fn lemma_next_sep_at(s: Seq<char>, from: int, m: int)
    requires
        0 <= from <= m <= s.len(),
        forall|k: int| from <= k < m ==> !is_path_sep(#[trigger] s[k]),
        m < s.len() ==> is_path_sep(s[m]),
    ensures
        next_sep(s, from) == m,
    decreases m - from,
{
    if from < m {
        lemma_next_sep_at(s, from + 1, m);
    }
}

/// A path part that may appear in a project-relative path.
pub open spec fn part_ok(p: Seq<char>) -> bool {
    p.len() > 0 && p != seq!['.'] && p != seq!['.', '.']
}

/// Every part of `s`, split at '/' and '\\', is non-empty and neither "." nor "..".
pub open spec fn parts_ok(s: Seq<char>) -> bool
    decreases s.len(),
{
    let k = next_sep(s, 0);
    proof {
        lemma_next_sep_bounds(s, 0);
    }
    part_ok(s.take(k)) && (k < s.len() ==> parts_ok(s.skip(k + 1)))
}

/// A path that stays inside the project: not blank, not rooted, and with no empty,
/// "." or ".." part.
pub open spec fn safe_relative_path(s: Seq<char>) -> bool {
    trim(s).len() > 0 && !(s.len() > 0 && is_path_sep(s[0])) && parts_ok(s)
}

fn part_ok_at(cs: &[char], from: usize, to: usize) -> (r: bool)
    requires
        from <= to <= cs@.len(),
    ensures
        r == part_ok(cs@.subrange(from as int, to as int)),
{
    let n = to - from;
    let ghost p = cs@.subrange(from as int, to as int);
    if n == 0 {
        return false;
    }
    if n == 1 && cs[from] == '.' {
        assert(p =~= seq!['.']);
        return false;
    }
    if n == 2 && cs[from] == '.' && cs[from + 1] == '.' {
        assert(p =~= seq!['.', '.']);
        return false;
    }
    assert(p.len() != 1 || p[0] != '.');
    assert(p != seq!['.']);
    assert(p.len() != 2 || p[0] != '.' || p[1] != '.');
    assert(p != seq!['.', '.']);
    true
}

/// Whether `value` is a safe project-relative path.
pub fn is_safe_relative_path(value: &str) -> (r: bool)
    ensures
        r == safe_relative_path(value@),
{
    if is_blank(value) {
        return false;
    }
    let cs = chars_of(value);
    let n = cs.len();
    if n > 0 && (cs[0] == '/' || cs[0] == '\\') {
        return false;
    }
    let ghost s = cs@;
    assert(s.skip(0) =~= s);
    let mut start: usize = 0;
    let mut i: usize = 0;
    while i < n
        invariant
            s == cs@,
            cs@ == value@,
            n == s.len(),
            start <= i <= n,
            parts_ok(s) == parts_ok(s.skip(start as int)),
            forall|k: int| start <= k < i ==> !is_path_sep(#[trigger] s[k]),
        decreases n - i,
    {
        if cs[i] == '/' || cs[i] == '\\' {
            let ghost t = s.skip(start as int);
            proof {
                assert forall|k: int| 0 <= k < i - start implies !is_path_sep(#[trigger] t[k]) by {
                    assert(t[k] == s[start + k]);
                }
                assert(t[i - start] == s[i as int]);
                lemma_next_sep_at(t, 0, i - start);
                assert(t.take(i - start) =~= s.subrange(start as int, i as int));
                assert(t.skip(i - start + 1) =~= s.skip(i + 1));
                assert(parts_ok(t) == (part_ok(t.take(i - start)) && parts_ok(t.skip(i - start + 1))));
            }
            if !part_ok_at(cs.as_slice(), start, i) {
                return false;
            }
            start = i + 1;
        }
        i = i + 1;
    }
    let ghost t = s.skip(start as int);
    proof {
        assert forall|k: int| 0 <= k < t.len() implies !is_path_sep(#[trigger] t[k]) by {
            assert(t[k] == s[start + k]);
        }
        lemma_next_sep_at(t, 0, t.len() as int);
        assert(t.take(t.len() as int) =~= s.subrange(start as int, n as int));
        assert(parts_ok(t) == part_ok(t.take(t.len() as int)));
    }
    part_ok_at(cs.as_slice(), start, n)
}

/// A character allowed after the first in a code.
pub open spec fn code_char(c: char) -> bool {
    is_ascii_lower(c) || is_ascii_digit(c) || c == '-' || c == '_'
}

/// A code: 1 to 64 characters, a lowercase letter or digit first, then lowercase
/// letters, digits, '-' or '_'.
pub open spec fn valid_code(s: Seq<char>) -> bool {
    &&& 0 < s.len() <= 64
    &&& (is_ascii_lower(s[0]) || is_ascii_digit(s[0]))
    &&& forall|i: int| 1 <= i < s.len() ==> code_char(#[trigger] s[i])
}

/// A project code: a code that does not begin with "draft-".
pub open spec fn valid_project_code(s: Seq<char>) -> bool {
    valid_code(s) && !starts_with(s, "draft-"@)
}

/// Whether `value` is a valid code.
pub fn is_valid_code(value: &str) -> (r: bool)
    ensures
        r == valid_code(value@),
{
    let cs = chars_of(value);
    if cs.len() == 0 || cs.len() > 64 {
        return false;
    }
    let first = cs[0];
    if !(('a' <= first && first <= 'z') || ('0' <= first && first <= '9')) {
        return false;
    }
    for i in 1..cs.len()
        invariant
            cs@ == value@,
            cs@.len() == cs.len(),
            forall|k: int| 1 <= k < i ==> code_char(#[trigger] cs@[k]),
    {
        let c = cs[i];
        if !(('a' <= c && c <= 'z') || ('0' <= c && c <= '9') || c == '-' || c == '_') {
            assert(!code_char(cs@[i as int]));
            return false;
        }
    }
    true
}

/// Whether `value` is a valid project code.
pub fn is_valid_project_code(value: &str) -> (r: bool)
    ensures
        r == valid_project_code(value@),
{
    if !is_valid_code(value) {
        return false;
    }
    let cs = chars_of(value);
    let prefix = chars_of("draft-");
    !chars_start_with(cs.as_slice(), prefix.as_slice())
}


// ---------------------------------------------------------------------------
// Action kind and target
// ---------------------------------------------------------------------------

/// The error that an action's kind and target agent give, if any.
pub open spec fn target_error(
    a: AgentAction,
    current: Seq<char>,
    director: Seq<char>,
    allowed: Seq<Seq<char>>,
) -> Option<ActionProtocolErrorView> {
    match a.action {
        AgentActionKind::Handoff => match a.target_agent {
            Some(t) => if t@ != current && allowed.contains(t@) && t@.len() > 0 && (current == director
                || t@ == director) {
                None
            } else {
                Some(ActionProtocolErrorView::InvalidHandoff)
            },
            None => Some(ActionProtocolErrorView::InvalidHandoff),
        },
        AgentActionKind::AskUser => if a.target_agent is Some {
            Some(ActionProtocolErrorView::UnexpectedTarget("ask_user"@))
        } else {
            None
        },
        AgentActionKind::Done => if a.target_agent is Some {
            Some(ActionProtocolErrorView::UnexpectedTarget("done"@))
        } else if current != director {
            Some(ActionProtocolErrorView::SpecialistMustReturnToDirector)
        } else {
            None
        },
        AgentActionKind::Blocked => if a.target_agent is Some {
            Some(ActionProtocolErrorView::UnexpectedTarget("blocked"@))
        } else {
            None
        },
    }
}

pub(crate) fn contains_string(list: &[String], s: &String) -> (r: bool)
    ensures
        r == string_views(list@).contains(s@),
{
    for i in 0..list.len()
        invariant
            forall|k: int| 0 <= k < i ==> list@[k]@ != s@,
    {
        if list[i] == *s {
            assert(string_views(list@)[i as int] == s@);
            return true;
        }
    }
    assert forall|k: int| 0 <= k < string_views(list@).len() implies string_views(list@)[k] != s@ by {
        assert(string_views(list@)[k] == list@[k]@);
    }
    false
}

fn check_target(
    a: &AgentAction,
    current: &str,
    director: &str,
    allowed: &[String],
) -> (r: Result<(), ActionProtocolError>)
    ensures
        match target_error(*a, current@, director@, string_views(allowed@)) {
            None => r is Ok,
            Some(e) => r matches Err(x) && x@ == e,
        },
{
    match a.action {
        AgentActionKind::Handoff => match &a.target_agent {
            Some(t) => {
                if !str_eq(t.as_str(), current) && contains_string(allowed, t) && !t.as_str().is_empty()
                    && (str_eq(current, director) || str_eq(t.as_str(), director)) {
                    Ok(())
                } else {
                    Err(ActionProtocolError::InvalidHandoff)
                }
            },
            None => Err(ActionProtocolError::InvalidHandoff),
        },
        AgentActionKind::AskUser => if a.target_agent.is_some() {
            Err(ActionProtocolError::UnexpectedTarget("ask_user"))
        } else {
            Ok(())
        },
        AgentActionKind::Done => if a.target_agent.is_some() {
            Err(ActionProtocolError::UnexpectedTarget("done"))
        } else if !str_eq(current, director) {
            Err(ActionProtocolError::SpecialistMustReturnToDirector)
        } else {
            Ok(())
        },
        AgentActionKind::Blocked => if a.target_agent.is_some() {
            Err(ActionProtocolError::UnexpectedTarget("blocked"))
        } else {
            Ok(())
        },
    }
}

// ---------------------------------------------------------------------------
// Choices
// ---------------------------------------------------------------------------

/// The group offers the non-empty trimmed option `x`.
pub open spec fn offers(g: ChoiceGroup, x: Seq<char>) -> bool {
    x.len() > 0 && exists|i: int| 0 <= i < g.options.len() && trim((#[trigger] g.options@[i])@) == x
}

/// The group has at least two different non-empty trimmed options.
pub open spec fn two_distinct_options(g: ChoiceGroup) -> bool {
    exists|i: int, j: int|
        0 <= i < g.options.len() && 0 <= j < g.options.len() && trim((#[trigger] g.options@[i])@).len() > 0
            && trim((#[trigger] g.options@[j])@).len() > 0 && trim(g.options@[i]@) != trim(g.options@[j]@)
}

/// A choice group is malformed: blank item, fewer than two distinct options, a
/// recommendation that is not an option, or several recommendations for a single choice.
pub open spec fn group_invalid(g: ChoiceGroup) -> bool {
    ||| trim(g.item@).len() == 0
    ||| !two_distinct_options(g)
    ||| exists|k: int| 0 <= k < g.recommended.len() && !offers(g, trim((#[trigger] g.recommended@[k])@))
    ||| (!g.multiple && g.recommended.len() > 1)
}

/// The error that an action's choices give, if any.
pub open spec fn choices_error(a: AgentAction) -> Option<ActionProtocolErrorView> {
    match a.payload.choices {
        Some(groups) => if groups.len() == 0 || groups.len() > MAX_CHOICE_GROUPS || exists|i: int|
            0 <= i < groups.len() && group_invalid(#[trigger] groups@[i]) {
            Some(ActionProtocolErrorView::InvalidChoices)
        } else if a.action != AgentActionKind::AskUser {
            Some(ActionProtocolErrorView::ChoicesRequireAskUser)
        } else {
            None
        },
        None => None,
    }
}

/// The characters of `s` with surrounding whitespace removed.
pub fn trimmed_chars(s: &str) -> (r: Vec<char>)
    ensures
        r@ == trim(s@),
{
    let cs = chars_of(s);
    let (lo, hi) = trim_bounds(cs.as_slice());
    let mut t: Vec<char> = Vec::new();
    for i in lo..hi
        invariant
            hi <= cs@.len(),
            t@ == cs@.subrange(lo as int, i as int),
    {
        t.push(cs[i]);
        assert(cs@.subrange(lo as int, i + 1) == cs@.subrange(lo as int, i as int).push(cs@[i as int]));
    }
    t
}

fn group_is_invalid(g: &ChoiceGroup) -> (r: bool)
    ensures
        r == group_invalid(*g),
{
    if is_blank(g.item.as_str()) {
        return true;
    }
    let n = g.options.len();
    let mut trims: Vec<Vec<char>> = Vec::new();
    for i in 0..n
        invariant
            n == g.options@.len(),
            trims@.len() == i,
            forall|k: int| 0 <= k < i ==> (#[trigger] trims@[k])@ == trim(g.options@[k]@),
    {
        trims.push(trimmed_chars(g.options[i].as_str()));
    }
    let mut first: usize = 0;
    while first < n && trims[first].len() == 0
        invariant
            first <= n,
            n == g.options@.len(),
            trims@.len() == n,
            forall|k: int| 0 <= k < n ==> (#[trigger] trims@[k])@ == trim(g.options@[k]@),
            forall|k: int| 0 <= k < first ==> trim((#[trigger] g.options@[k])@).len() == 0,
        decreases n - first,
    {
        first = first + 1;
    }
    if first == n {
        return true;
    }
    let mut distinct = false;
    for j in 0..n
        invariant
            n == g.options@.len(),
            trims@.len() == n,
            first < n,
            trim(g.options@[first as int]@).len() > 0,
            forall|k: int| 0 <= k < n ==> (#[trigger] trims@[k])@ == trim(g.options@[k]@),
            !distinct ==> forall|k: int| 0 <= k < j && trim((#[trigger] g.options@[k])@).len() > 0 ==> trim(g.options@[k]@) == trim(g.options@[first as int]@),
            distinct ==> two_distinct_options(*g),
    {
        if !distinct && trims[j].len() > 0 && !chars_eq(trims[j].as_slice(), trims[first].as_slice()) {
            distinct = true;
            assert(trim(g.options@[j as int]@).len() > 0);
        }
    }
    if !distinct {
        assert forall|i: int, j: int|
            0 <= i < n && 0 <= j < n && trim((#[trigger] g.options@[i])@).len() > 0 && trim(
                (#[trigger] g.options@[j])@,
            ).len() > 0 implies trim(g.options@[i]@) == trim(g.options@[j]@) by {}
        return true;
    }
    for k in 0..g.recommended.len()
        invariant
            n == g.options@.len(),
            trims@.len() == n,
            forall|m: int| 0 <= m < n ==> (#[trigger] trims@[m])@ == trim(g.options@[m]@),
            forall|m: int| 0 <= m < k ==> offers(*g, trim((#[trigger] g.recommended@[m])@)),
    {
        let t = trimmed_chars(g.recommended[k].as_str());
        let mut found = false;
        if t.len() > 0 {
            for m in 0..n
                invariant
                    n == g.options@.len(),
                    trims@.len() == n,
                    forall|q: int| 0 <= q < n ==> (#[trigger] trims@[q])@ == trim(g.options@[q]@),
                    t@ == trim(g.recommended@[k as int]@),
                    t@.len() > 0,
                    found ==> offers(*g, t@),
                    !found ==> forall|q: int| 0 <= q < m ==> trim((#[trigger] g.options@[q])@) != t@,
            {
                if !found && chars_eq(trims[m].as_slice(), t.as_slice()) {
                    found = true;
                    assert(trim(g.options@[m as int]@) == t@);
                }
            }
        }
        if !found {
            assert(!offers(*g, trim(g.recommended@[k as int]@)));
            return true;
        }
    }
    !g.multiple && g.recommended.len() > 1
}

fn check_choices(a: &AgentAction) -> (r: Result<(), ActionProtocolError>)
    ensures
        match choices_error(*a) {
            None => r is Ok,
            Some(e) => r matches Err(x) && x@ == e,
        },
{
    match &a.payload.choices {
        Some(groups) => {
            if groups.len() == 0 || groups.len() > MAX_CHOICE_GROUPS {
                return Err(ActionProtocolError::InvalidChoices);
            }
            for i in 0..groups.len()
                invariant
                    a.payload.choices == Some(*groups),
                    forall|k: int| 0 <= k < i ==> !group_invalid(#[trigger] groups@[k]),
            {
                if group_is_invalid(&groups[i]) {
                    assert(group_invalid(groups@[i as int]));
                    return Err(ActionProtocolError::InvalidChoices);
                }
            }
            if a.action != AgentActionKind::AskUser {
                return Err(ActionProtocolError::ChoicesRequireAskUser);
            }
            Ok(())
        },
        None => Ok(()),
    }
}

// ---------------------------------------------------------------------------
// Payload
// ---------------------------------------------------------------------------

pub open spec fn blank(s: String) -> bool {
    trim(s@).len() == 0
}

/// A draft with blank content or an unsafe target path.
pub open spec fn draft_invalid(d: ArtifactDraft) -> bool {
    blank(d.content) || !safe_relative_path(d.target_path@)
}

/// A memory whose scope is neither "project" nor "character", or with a blank kind or content.
pub open spec fn memory_invalid(m: MemoryDraft) -> bool {
    !(m.scope@ == "project"@ || m.scope@ == "character"@) || blank(m.kind) || blank(m.content)
}

/// A naming option with a blank name or reason or an invalid project code.
pub open spec fn naming_invalid(n: NamingOption) -> bool {
    blank(n.name) || blank(n.reason) || !valid_project_code(n.code@)
}

/// An asset specification with a blank required field.
pub open spec fn asset_invalid(x: AssetSpec) -> bool {
    blank(x.code) || blank(x.name) || blank(x.category) || blank(x.size) || blank(x.format) || blank(
        x.file_name,
    ) || blank(x.description) || blank(x.anchors) || blank(x.view_background_color) || blank(x.prompt)
        || blank(x.negative_prompt)
}

/// A verdict with an unknown token or decision, no sections, or a blank constraint.
pub open spec fn verdict_invalid(v: AgentVerdict) -> bool {
    ||| !(v.token@ == "SPEC-CHECK"@ || v.token@ == "VIEW-CHECK"@)
    ||| !(v.decision@ == "APPROVE"@ || v.decision@ == "CONCERNS"@ || v.decision@ == "REJECT"@)
    ||| v.sections.len() == 0
    ||| exists|i: int|
        0 <= i < v.constraints.len() && (blank((#[trigger] v.constraints@[i]).item) || blank(
            v.constraints@[i].value,
        ))
}

/// The action that must carry a result: a success hands off (specialists) or
/// finishes (the director); a failure blocks.
pub open spec fn expected_result_action(status: AgentResultStatus, current: Seq<char>, director: Seq<char>) -> AgentActionKind {
    match status {
        AgentResultStatus::Success => if current != director {
            AgentActionKind::Handoff
        } else {
            AgentActionKind::Done
        },
        AgentResultStatus::Failed => AgentActionKind::Blocked,
    }
}

/// A result that disagrees with its action: wrong action, a success with an error or
/// no artifacts, or a failure without an error message or with artifacts.
pub open spec fn result_invalid(kind: AgentActionKind, r: AgentResult, current: Seq<char>, director: Seq<char>) -> bool {
    ||| kind != expected_result_action(r.status, current, director)
    ||| (r.status == AgentResultStatus::Success && (r.error is Some || r.artifacts.len() == 0))
    ||| (r.status == AgentResultStatus::Failed && (match r.error {
        Some(e) => e@.len() == 0,
        None => true,
    } || r.artifacts.len() > 0))
}

/// The action with which a completed piece of work returns: `done` for the director,
/// `handoff` back to the director for everyone else.
pub open spec fn completion_action(current: Seq<char>, director: Seq<char>) -> AgentActionKind {
    if current == director {
        AgentActionKind::Done
    } else {
        AgentActionKind::Handoff
    }
}

pub open spec fn has_choices(p: AgentActionPayload) -> bool {
    p.choices matches Some(c) && c.len() > 0
}

pub open spec fn has_drafts(p: AgentActionPayload) -> bool {
    p.drafts matches Some(d) && d.len() > 0
}

pub open spec fn has_naming(p: AgentActionPayload) -> bool {
    p.naming matches Some(n) && n.len() > 0
}

/// The error that an action's payload gives, if any, in the order the checks run.
pub open spec fn payload_error(a: AgentAction, current: Seq<char>, director: Seq<char>) -> Option<ActionProtocolErrorView> {
    let p = a.payload;
    if p.drafts matches Some(ds) && exists|i: int| 0 <= i < ds.len() && draft_invalid(#[trigger] ds@[i]) {
        Some(ActionProtocolErrorView::InvalidPayload(MSG_DRAFTS@))
    } else if p.memories matches Some(ms) && exists|i: int| 0 <= i < ms.len() && memory_invalid(#[trigger] ms@[i]) {
        Some(ActionProtocolErrorView::InvalidPayload(MSG_MEMORIES@))
    } else if p.naming matches Some(ns) && (ns.len() == 0 || ns.len() > 3 || exists|i: int|
        0 <= i < ns.len() && naming_invalid(#[trigger] ns@[i])) {
        Some(ActionProtocolErrorView::InvalidPayload(MSG_NAMING@))
    } else if p.asset_specs matches Some(xs) && (xs.len() == 0 || exists|i: int|
        0 <= i < xs.len() && asset_invalid(#[trigger] xs@[i])) {
        Some(ActionProtocolErrorView::InvalidPayload(MSG_ASSET_SPECS@))
    } else if p.verdict matches Some(v) && verdict_invalid(v) {
        Some(ActionProtocolErrorView::InvalidPayload(MSG_VERDICT_SHAPE@))
    } else if p.result matches Some(r) && result_invalid(a.action, r, current, director) {
        Some(ActionProtocolErrorView::InvalidResult)
    } else if (has_choices(p) || has_drafts(p) || has_naming(p)) && a.action != AgentActionKind::AskUser {
        Some(ActionProtocolErrorView::InvalidPayload(MSG_ASK_USER_ONLY@))
    } else if p.asset_specs is Some && a.action != AgentActionKind::Handoff {
        Some(ActionProtocolErrorView::InvalidPayload(MSG_ASSET_SPECS_HANDOFF@))
    } else if p.verdict is Some && a.action != completion_action(current, director) {
        Some(ActionProtocolErrorView::InvalidPayload(MSG_VERDICT_RETURN@))
    } else if p.naming is Some && (p.choices is Some || p.drafts is Some) {
        Some(ActionProtocolErrorView::InvalidPayload(MSG_NAMING_ALONE@))
    } else if has_choices(p) && has_drafts(p) {
        Some(ActionProtocolErrorView::InvalidPayload(MSG_CHOICES_THEN_DRAFTS@))
    } else {
        None
    }
}

/// The first protocol violation of an action, if any: its reason, then its kind and
/// target, then its choices, then its payload.
pub open spec fn action_error(
    a: AgentAction,
    current: Seq<char>,
    director: Seq<char>,
    allowed: Seq<Seq<char>>,
) -> Option<ActionProtocolErrorView> {
    if reason_invalid(a.reason@) {
        Some(ActionProtocolErrorView::InvalidReason)
    } else if target_error(a, current, director, allowed) is Some {
        target_error(a, current, director, allowed)
    } else if choices_error(a) is Some {
        choices_error(a)
    } else {
        payload_error(a, current, director)
    }
}

fn draft_is_invalid(d: &ArtifactDraft) -> (r: bool)
    ensures
        r == draft_invalid(*d),
{
    is_blank(d.content.as_str()) || !is_safe_relative_path(d.target_path.as_str())
}

fn memory_is_invalid(m: &MemoryDraft) -> (r: bool)
    ensures
        r == memory_invalid(*m),
{
    !(str_eq(m.scope.as_str(), "project") || str_eq(m.scope.as_str(), "character")) || is_blank(m.kind.as_str())
        || is_blank(m.content.as_str())
}

fn naming_is_invalid(n: &NamingOption) -> (r: bool)
    ensures
        r == naming_invalid(*n),
{
    is_blank(n.name.as_str()) || is_blank(n.reason.as_str()) || !is_valid_project_code(n.code.as_str())
}

fn asset_is_invalid(x: &AssetSpec) -> (r: bool)
    ensures
        r == asset_invalid(*x),
{
    is_blank(x.code.as_str()) || is_blank(x.name.as_str()) || is_blank(x.category.as_str()) || is_blank(
        x.size.as_str(),
    ) || is_blank(x.format.as_str()) || is_blank(x.file_name.as_str()) || is_blank(x.description.as_str())
        || is_blank(x.anchors.as_str()) || is_blank(x.view_background_color.as_str()) || is_blank(
        x.prompt.as_str(),
    ) || is_blank(x.negative_prompt.as_str())
}

fn verdict_is_invalid(v: &AgentVerdict) -> (r: bool)
    ensures
        r == verdict_invalid(*v),
{
    let t = v.token.as_str();
    let d = v.decision.as_str();
    if !(str_eq(t, "SPEC-CHECK") || str_eq(t, "VIEW-CHECK")) {
        return true;
    }
    if !(str_eq(d, "APPROVE") || str_eq(d, "CONCERNS") || str_eq(d, "REJECT")) {
        return true;
    }
    if v.sections.len() == 0 {
        return true;
    }
    for i in 0..v.constraints.len()
        invariant
            forall|k: int|
                0 <= k < i ==> !(blank((#[trigger] v.constraints@[k]).item) || blank(v.constraints@[k].value)),
    {
        if is_blank(v.constraints[i].item.as_str()) || is_blank(v.constraints[i].value.as_str()) {
            assert(blank(v.constraints@[i as int].item) || blank(v.constraints@[i as int].value));
            return true;
        }
    }
    false
}

fn result_is_invalid(kind: AgentActionKind, r: &AgentResult, current: &str, director: &str) -> (b: bool)
    ensures
        b == result_invalid(kind, *r, current@, director@),
{
    let same = str_eq(current, director);
    let expected = match r.status {
        AgentResultStatus::Success => if !same {
            AgentActionKind::Handoff
        } else {
            AgentActionKind::Done
        },
        AgentResultStatus::Failed => AgentActionKind::Blocked,
    };
    if kind != expected {
        return true;
    }
    match r.status {
        AgentResultStatus::Success => r.error.is_some() || r.artifacts.len() == 0,
        AgentResultStatus::Failed => {
            let missing = match &r.error {
                Some(e) => e.as_str().is_empty(),
                None => true,
            };
            missing || r.artifacts.len() > 0
        },
    }
}

fn check_payload(a: &AgentAction, current: &str, director: &str) -> (r: Result<(), ActionProtocolError>)
    ensures
        match payload_error(*a, current@, director@) {
            None => r is Ok,
            Some(e) => r matches Err(x) && x@ == e,
        },
{
    let p = &a.payload;
    if let Some(ds) = &p.drafts {
        for i in 0..ds.len()
            invariant
                a.payload.drafts == Some(*ds),
                forall|k: int| 0 <= k < i ==> !draft_invalid(#[trigger] ds@[k]),
        {
            if draft_is_invalid(&ds[i]) {
                assert(draft_invalid(ds@[i as int]));
                return Err(ActionProtocolError::InvalidPayload(owned(MSG_DRAFTS)));
            }
        }
    }
    if let Some(ms) = &p.memories {
        for i in 0..ms.len()
            invariant
                a.payload.memories == Some(*ms),
                forall|k: int| 0 <= k < i ==> !memory_invalid(#[trigger] ms@[k]),
                a.payload.drafts matches Some(ds) ==> !exists|i: int| 0 <= i < ds.len() && draft_invalid(#[trigger] ds@[i]),
        {
            if memory_is_invalid(&ms[i]) {
                assert(memory_invalid(ms@[i as int]));
                assert(!(a.payload.drafts matches Some(ds) && exists|i: int| 0 <= i < ds.len() && draft_invalid(#[trigger] ds@[i])));
                assert(exists|j: int| 0 <= j < ms@.len() && memory_invalid(#[trigger] ms@[j]));
                assert(a.payload.memories->Some_0 == *ms);
                assert(a.payload.memories matches Some(ms2) && exists|i: int| 0 <= i < ms2.len() && memory_invalid(#[trigger] ms2@[i]));
                assert(payload_error(*a, current@, director@) == Some(ActionProtocolErrorView::InvalidPayload(MSG_MEMORIES@)));
                return Err(ActionProtocolError::InvalidPayload(owned(MSG_MEMORIES)));
            }
        }
    }
    if let Some(ns) = &p.naming {
        if ns.len() == 0 || ns.len() > 3 {
            return Err(ActionProtocolError::InvalidPayload(owned(MSG_NAMING)));
        }
        for i in 0..ns.len()
            invariant
                a.payload.naming == Some(*ns),
                forall|k: int| 0 <= k < i ==> !naming_invalid(#[trigger] ns@[k]),
                a.payload.drafts matches Some(ds) ==> !exists|i: int| 0 <= i < ds.len() && draft_invalid(#[trigger] ds@[i]),
                a.payload.memories matches Some(ms) ==> !exists|i: int| 0 <= i < ms.len() && memory_invalid(#[trigger] ms@[i]),
        {
            if naming_is_invalid(&ns[i]) {
                assert(naming_invalid(ns@[i as int]));
                return Err(ActionProtocolError::InvalidPayload(owned(MSG_NAMING)));
            }
        }
    }
    if let Some(xs) = &p.asset_specs {
        if xs.len() == 0 {
            return Err(ActionProtocolError::InvalidPayload(owned(MSG_ASSET_SPECS)));
        }
        for i in 0..xs.len()
            invariant
                a.payload.asset_specs == Some(*xs),
                forall|k: int| 0 <= k < i ==> !asset_invalid(#[trigger] xs@[k]),
                a.payload.drafts matches Some(ds) ==> !exists|i: int| 0 <= i < ds.len() && draft_invalid(#[trigger] ds@[i]),
                a.payload.memories matches Some(ms) ==> !exists|i: int| 0 <= i < ms.len() && memory_invalid(#[trigger] ms@[i]),
                a.payload.naming matches Some(ns) ==> !(ns.len() == 0 || ns.len() > 3 || exists|i: int| 0 <= i < ns.len() && naming_invalid(#[trigger] ns@[i])),
        {
            if asset_is_invalid(&xs[i]) {
                assert(asset_invalid(xs@[i as int]));
                return Err(ActionProtocolError::InvalidPayload(owned(MSG_ASSET_SPECS)));
            }
        }
    }
    if let Some(v) = &p.verdict {
        if verdict_is_invalid(v) {
            return Err(ActionProtocolError::InvalidPayload(owned(MSG_VERDICT_SHAPE)));
        }
    }
    if let Some(r) = &p.result {
        if result_is_invalid(a.action, r, current, director) {
            return Err(ActionProtocolError::InvalidResult);
        }
    }
    let choices = match &p.choices {
        Some(c) => c.len() > 0,
        None => false,
    };
    let drafts = match &p.drafts {
        Some(d) => d.len() > 0,
        None => false,
    };
    let naming = match &p.naming {
        Some(n) => n.len() > 0,
        None => false,
    };
    if (choices || drafts || naming) && a.action != AgentActionKind::AskUser {
        return Err(ActionProtocolError::InvalidPayload(owned(MSG_ASK_USER_ONLY)));
    }
    if p.asset_specs.is_some() && a.action != AgentActionKind::Handoff {
        return Err(ActionProtocolError::InvalidPayload(owned(MSG_ASSET_SPECS_HANDOFF)));
    }
    let completion = if str_eq(current, director) {
        AgentActionKind::Done
    } else {
        AgentActionKind::Handoff
    };
    if p.verdict.is_some() && a.action != completion {
        return Err(ActionProtocolError::InvalidPayload(owned(MSG_VERDICT_RETURN)));
    }
    if p.naming.is_some() && (p.choices.is_some() || p.drafts.is_some()) {
        return Err(ActionProtocolError::InvalidPayload(owned(MSG_NAMING_ALONE)));
    }
    if choices && drafts {
        return Err(ActionProtocolError::InvalidPayload(owned(MSG_CHOICES_THEN_DRAFTS)));
    }
    Ok(())
}

/// Checks an action against the protocol for the agent that sent it.
///
/// `allowed_handoffs` are the agents this one may hand off to; `director_agent`
/// is the agent that runs the conversation.
pub fn validate_action(
    action: &AgentAction,
    current_agent: &str,
    director_agent: &str,
    allowed_handoffs: &[String],
) -> (r: Result<(), ActionProtocolError>)
    ensures
        match action_error(*action, current_agent@, director_agent@, string_views(allowed_handoffs@)) {
            None => r is Ok,
            Some(e) => r matches Err(x) && x@ == e,
        },
{
    if check_reason(&action.reason) {
        return Err(ActionProtocolError::InvalidReason);
    }
    check_target(action, current_agent, director_agent, allowed_handoffs)?;
    check_choices(action)?;
    check_payload(action, current_agent, director_agent)
}

// ---------------------------------------------------------------------------
// Locating the action block
// ---------------------------------------------------------------------------

/// A reply cut at its action block: the display text before it and the block's body.
#[derive(Debug, Clone, PartialEq, Eq)]
pub struct ActionBlock {
    pub text: String,
    pub body: String,
}

/// Where the action block of `out` is: exactly one start and one end marker, the end
/// after the start, and only whitespace after the end. The text is what precedes the
/// block without trailing whitespace; the body is what lies between the markers, trimmed.
pub open spec fn split_action_block(out: Seq<char>) -> Result<(Seq<char>, Seq<char>), ActionProtocolErrorView> {
    let st = ACTION_START@;
    let en = ACTION_END@;
    if count_matches(out, st, 0) != 1 || count_matches(out, en, 0) != 1 {
        Err(ActionProtocolErrorView::MissingOrDuplicate)
    } else {
        match find_from(out, st, 0) {
            None => Err(ActionProtocolErrorView::MissingOrDuplicate),
            Some(start) => match find_from(out, en, start + st.len()) {
                None => Err(ActionProtocolErrorView::MissingOrDuplicate),
                Some(end) => if trim(out.subrange(end + en.len(), out.len() as int)).len() > 0 {
                    Err(ActionProtocolErrorView::NotLast)
                } else {
                    Ok((trim_end(out.take(start)), trim(out.subrange(start + st.len(), end))))
                },
            },
        }
    }
}

/// Cuts `output` at its action block, or says why the block is missing, repeated or
/// not last.
pub fn split_agent_turn(output: &str) -> (r: Result<ActionBlock, ActionProtocolError>)
    ensures
        match split_action_block(output@) {
            Ok((text, body)) => r matches Ok(b) && b.text@ == text && b.body@ == body,
            Err(e) => r matches Err(x) && x@ == e,
        },
{
    proof {
        reveal_strlit("<action>");
        reveal_strlit("</action>");
    }
    let out = chars_of(output);
    let st = chars_of(ACTION_START);
    let en = chars_of(ACTION_END);
    assert(st@.len() > 0 && en@.len() > 0);
    if count_matches_upto_two(out.as_slice(), st.as_slice()) != 1 || count_matches_upto_two(
        out.as_slice(),
        en.as_slice(),
    ) != 1 {
        return Err(ActionProtocolError::MissingOrDuplicate);
    }
    proof {
        lemma_find_from(out@, st@, 0);
    }
    let start = match find_chars(out.as_slice(), st.as_slice(), 0) {
        Some(i) => i,
        None => return Err(ActionProtocolError::MissingOrDuplicate),
    };
    assert(occurs_at(out@, st@, start as int));
    let total = out.len();
    assert(start + st@.len() <= total);
    let body_start = start + st.len();
    proof {
        lemma_find_from(out@, en@, body_start as int);
    }
    let end = match find_chars(out.as_slice(), en.as_slice(), body_start) {
        Some(i) => i,
        None => return Err(ActionProtocolError::MissingOrDuplicate),
    };
    assert(occurs_at(out@, en@, end as int));
    let after = end + en.len();
    let n = out.len();
    let mut tail: Vec<char> = Vec::new();
    for i in after..n
        invariant
            n == out@.len(),
            after <= n,
            tail@ == out@.subrange(after as int, i as int),
    {
        tail.push(out[i]);
        assert(out@.subrange(after as int, i + 1) == out@.subrange(after as int, i as int).push(out@[i as int]));
    }
    let (tlo, thi) = trim_bounds(tail.as_slice());
    if tlo != thi {
        return Err(ActionProtocolError::NotLast);
    }
    let mut before: Vec<char> = Vec::new();
    for i in 0..start
        invariant
            start <= out@.len(),
            before@ == out@.take(i as int),
    {
        before.push(out[i]);
        assert(out@.take(i + 1) == out@.take(i as int).push(out@[i as int]));
    }
    let text_end = trim_end_bound(before.as_slice());
    let text = string_from_range(before.as_slice(), 0, text_end);
    let mut body: Vec<char> = Vec::new();
    for i in body_start..end
        invariant
            end <= out@.len(),
            body_start <= end,
            body@ == out@.subrange(body_start as int, i as int),
    {
        body.push(out[i]);
        assert(out@.subrange(body_start as int, i + 1) == out@.subrange(body_start as int, i as int).push(out@[i as int]));
    }
    let (blo, bhi) = trim_bounds(body.as_slice());
    let body_text = string_from_range(body.as_slice(), blo, bhi);
    Ok(ActionBlock { text, body: body_text })
}

/// The turn made of a reply's display text and its action, once the action keeps the
/// protocol for the agent that sent it.
pub fn complete_agent_turn(
    text: String,
    action: AgentAction,
    current_agent: &str,
    director_agent: &str,
    allowed_handoffs: &[String],
) -> (r: Result<AgentTurnOutput, ActionProtocolError>)
    ensures
        match action_error(action, current_agent@, director_agent@, string_views(allowed_handoffs@)) {
            None => r matches Ok(t) && t.text == text && t.action == action,
            Some(e) => r matches Err(x) && x@ == e,
        },
{
    validate_action(&action, current_agent, director_agent, allowed_handoffs)?;
    Ok(AgentTurnOutput { text, action })
}

/// A specialist's accepted action never finishes the work itself: it hands
/// back to the director, asks the user, or reports a block.
pub proof fn law_specialist_actions_return_to_director(
    a: AgentAction,
    current: Seq<char>,
    director: Seq<char>,
    allowed: Seq<Seq<char>>,
)
    requires
        current != director,
        action_error(a, current, director, allowed) is None,
    ensures
        a.action != AgentActionKind::Done,
        a.action == AgentActionKind::Handoff ==> (a.target_agent matches Some(t) && t@ == director),
{
}

/// Every accepted handoff names an allowed agent other than the current one,
/// and every other accepted action names no target.
pub proof fn law_accepted_targets(
    a: AgentAction,
    current: Seq<char>,
    director: Seq<char>,
    allowed: Seq<Seq<char>>,
)
    requires
        action_error(a, current, director, allowed) is None,
    ensures
        a.action == AgentActionKind::Handoff ==> (a.target_agent matches Some(t) && allowed.contains(
            t@,
        ) && t@ != current),
        a.action != AgentActionKind::Handoff ==> a.target_agent is None,
{
}


/// A field an action may have at its top level.
pub open spec fn action_field(k: Seq<char>) -> bool {
    k == "action"@ || k == "target_agent"@ || k == "reason"@ || k == "payload"@
}

/// A field an action's payload may have.
pub open spec fn payload_field(k: Seq<char>) -> bool {
    k == "choices"@ || k == "progress"@ || k == "drafts"@ || k == "memories"@ || k == "naming"@ || k
        == "asset_specs"@ || k == "verdict"@ || k == "result"@
}

/// Which keys of `entries` are unknown, at an action's top level or else in
/// its payload.
pub open spec fn unknown_flags(entries: Seq<(String, crate::events::JsonValue)>, top: bool) -> Seq<bool> {
    entries.map_values(
        |e: (String, crate::events::JsonValue)| !(if top { action_field(e.0@) } else { payload_field(e.0@) }),
    )
}

/// The first unknown key of `entries`, if any.
pub open spec fn first_unknown(entries: Seq<(String, crate::events::JsonValue)>, top: bool) -> Option<Seq<char>> {
    match crate::gates::first_true(unknown_flags(entries, top)) {
        Some(i) => Some(entries[i].0@),
        None => None,
    }
}

/// The first field of an action read as JSON that the protocol does not know,
/// at its top level or else in its payload.
pub open spec fn unknown_action_field(v: crate::events::JsonValue) -> Option<Seq<char>> {
    match v {
        crate::events::JsonValue::Object(entries) => match first_unknown(entries@, true) {
            Some(k) => Some(k),
            None => match crate::audit::entry_value(entries@, "payload"@) {
                Some(crate::events::JsonValue::Object(p)) => first_unknown(p@, false),
                _ => None,
            },
        },
        _ => None,
    }
}

fn find_unknown(entries: &Vec<(String, crate::events::JsonValue)>, top: bool) -> (r: Option<usize>)
    ensures
        match r {
            Some(i) => i < entries@.len() && crate::gates::first_true(unknown_flags(entries@, top)) == Some(i as int),
            None => crate::gates::first_true(unknown_flags(entries@, top)) is None,
        },
{
    let ghost flags = unknown_flags(entries@, top);
    let mut i: usize = 0;
    while i < entries.len()
        invariant
            i <= entries@.len(),
            flags == unknown_flags(entries@, top),
            forall|j: int| 0 <= j < i ==> !flags[j],
        decreases entries.len() - i,
    {
        let k = entries[i].0.as_str();
        let known = if top {
            str_eq(k, "action") || str_eq(k, "target_agent") || str_eq(k, "reason") || str_eq(k, "payload")
        } else {
            str_eq(k, "choices") || str_eq(k, "progress") || str_eq(k, "drafts") || str_eq(k, "memories")
                || str_eq(k, "naming") || str_eq(k, "asset_specs") || str_eq(k, "verdict") || str_eq(k, "result")
        };
        if !known {
            proof {
                crate::gates::lemma_first_true_unique(flags, i as int);
            }
            return Some(i);
        }
        i = i + 1;
    }
    proof {
        crate::gates::lemma_first_true(flags);
    }
    None
}

/// Refuses an action read as JSON that has a field the protocol does not
/// know, at its top level or in its payload.
pub fn check_action_fields(value: &crate::events::JsonValue) -> (r: Result<(), ActionProtocolError>)
    ensures
        match unknown_action_field(*value) {
            Some(k) => r matches Err(ActionProtocolError::InvalidJson(m)) && m@ == "unknown field `"@ + k + "`"@,
            None => r is Ok,
        },
{
    let entries = match value {
        crate::events::JsonValue::Object(entries) => entries,
        _ => {
            return Ok(());
        },
    };
    let unknown = match find_unknown(entries, true) {
        Some(i) => Some(&entries[i].0),
        None => match crate::audit::entry_at(entries, "payload") {
            Some(crate::events::JsonValue::Object(p)) => match find_unknown(p, false) {
                Some(i) => Some(&p[i].0),
                None => None,
            },
            _ => None,
        },
    };
    match unknown {
        Some(k) => {
            let mut m = owned("unknown field `");
            m.append(k.as_str());
            m.append("`");
            Err(ActionProtocolError::InvalidJson(m))
        },
        None => Ok(()),
    }
}

} // verus!
