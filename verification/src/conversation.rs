//! What a conversation turn hands the model and what its reply decides: the
//! recent history, the memories, the handoffs already made, the subject under
//! review, and how a finished reply moves the conversation's focus.

use vstd::prelude::*;
use crate::action::{owned, str_eq};
use crate::domain::{AgentAction, AgentActionKind, CharacterState};
use crate::text::string_views;
use crate::workflow::opt_string_view;

verus! {

/// How many recent messages a turn's context carries.
pub const HISTORY_MESSAGES: usize = 12;

/// The version of the action contract the context declares.
pub const CONTEXT_CONTRACT_VERSION: u64 = 2;

/// A message as the context shows it.
#[derive(Debug, Clone, PartialEq, Eq)]
pub struct HistoryMessage {
    pub role: String,
    pub agent_code: String,
    pub content: String,
}

/// One line of the history: "role(agent): content".
pub open spec fn history_line(m: HistoryMessage) -> Seq<char> {
    m.role@ + "("@ + m.agent_code@ + "): "@ + m.content@
}

/// The history lines of the last messages, oldest first.
pub open spec fn history_text(messages: Seq<HistoryMessage>) -> Seq<Seq<char>> {
    let start = if messages.len() > HISTORY_MESSAGES {
        messages.len() - HISTORY_MESSAGES
    } else {
        0
    };
    messages.skip(start).map_values(|m: HistoryMessage| history_line(m))
}

fn line_of(m: &HistoryMessage) -> (r: String)
    ensures
        r@ == history_line(*m),
{
    let mut s = owned(m.role.as_str());
    s.append("(");
    s.append(m.agent_code.as_str());
    s.append("): ");
    s.append(m.content.as_str());
    s
}

/// The history a turn's context carries: the last messages, oldest first.
pub fn conversation_history(messages: &[HistoryMessage]) -> (r: Vec<String>)
    ensures
        string_views(r@) == history_text(messages@),
{
    let n = messages.len();
    let start: usize = if n > HISTORY_MESSAGES { n - HISTORY_MESSAGES } else { 0 };
    let ghost tail = messages@.skip(start as int);
    let mut out: Vec<String> = Vec::new();
    for i in start..n
        invariant
            n == messages@.len(),
            start <= n,
            tail == messages@.skip(start as int),
            string_views(out@) == tail.take(i - start).map_values(|m: HistoryMessage| history_line(m)),
    {
        let line = line_of(&messages[i]);
        let ghost before = out@;
        out.push(line);
        assert(tail[i - start] == messages@[i as int]);
        assert(tail.take(i + 1 - start) =~= tail.take(i - start).push(messages@[i as int]));
        assert(string_views(out@) =~= string_views(before).push(history_line(messages@[i as int])));
        assert(string_views(out@) =~= tail.take(i + 1 - start).map_values(
            |m: HistoryMessage| history_line(m),
        ));
    }
    assert(tail.take(n - start) =~= tail);
    out
}

/// A memory as the context shows it: "kind:content".
pub open spec fn memory_line(kind: Seq<char>, content: Seq<char>) -> Seq<char> {
    kind + ":"@ + content
}

pub open spec fn memory_text(memories: Seq<(String, String)>) -> Seq<Seq<char>> {
    memories.map_values(|m: (String, String)| memory_line(m.0@, m.1@))
}

/// The memory lines a turn's context carries, one per (kind, content) pair.
pub fn memory_lines(memories: &[(String, String)]) -> (r: Vec<String>)
    ensures
        string_views(r@) == memory_text(memories@),
{
    let mut out: Vec<String> = Vec::new();
    for i in 0..memories.len()
        invariant
            string_views(out@) == memory_text(memories@.take(i as int)),
    {
        let mut s = owned(memories[i].0.as_str());
        s.append(":");
        s.append(memories[i].1.as_str());
        let ghost before = out@;
        out.push(s);
        assert(memories@.take(i + 1) =~= memories@.take(i as int).push(memories@[i as int]));
        assert(string_views(out@) =~= string_views(before).push(
            memory_line(memories@[i as int].0@, memories@[i as int].1@),
        ));
        assert(memory_text(memories@.take(i + 1)) =~= memory_text(memories@.take(i as int)).push(
            memory_line(memories@[i as int].0@, memories@[i as int].1@),
        ));
    }
    assert(memories@.take(memories@.len() as int) =~= memories@);
    out
}

/// The number of entries of `turns` equal to `turn`.
pub open spec fn count_turn(turns: Seq<u64>, turn: u64) -> nat
    decreases turns.len(),
{
    if turns.len() == 0 {
        0
    } else {
        count_turn(turns.drop_last(), turn) + if turns.last() == turn { 1nat } else { 0nat }
    }
}

/// How many handoffs were made in `turn`, given the turn of each handoff.
pub fn handoffs_in_turn(handoff_turns: &[u64], turn: u64) -> (r: usize)
    ensures
        r == count_turn(handoff_turns@, turn),
{
    let mut count: usize = 0;
    for i in 0..handoff_turns.len()
        invariant
            count == count_turn(handoff_turns@.take(i as int), turn),
            count <= i,
    {
        assert(handoff_turns@.take(i + 1).drop_last() =~= handoff_turns@.take(i as int));
        if handoff_turns[i] == turn {
            count = count + 1;
        }
    }
    assert(handoff_turns@.take(handoff_turns@.len() as int) =~= handoff_turns@);
    count
}

/// The draft a turn hands the spec_reviewer agent to check: the pending spec
/// draft, and only for that agent.
pub fn review_subject(agent_code: &str, pending_spec: Option<usize>) -> (r: Option<usize>)
    ensures
        r == if agent_code@ == "spec_reviewer"@ { pending_spec } else { None },
{
    if str_eq(agent_code, "spec_reviewer") {
        pending_spec
    } else {
        None
    }
}

/// Why a spec_reviewer handoff is refused: it must carry a spec check verdict
/// on the draft under review.
pub open spec fn review_subject_refused(
    agent_code: Seq<char>,
    action: AgentAction,
    expected_subject: Option<Seq<char>>,
) -> bool {
    &&& agent_code == "spec_reviewer"@
    &&& action.action == AgentActionKind::Handoff
    &&& match (expected_subject, action.payload.verdict) {
        (Some(subject), Some(v)) => v.token@ != "SPEC-CHECK"@ || v.subject_id@ != subject,
        _ => true,
    }
}

/// The message a spec_reviewer handoff without a matching verdict is refused with.
pub open spec fn review_subject_message() -> Seq<char> {
    "Action 协议校验失败：SPEC-CHECK subject_id 必须匹配当前待审草稿"@
}

/// Checks that a spec_reviewer handoff carries a spec check verdict on the
/// draft under review.
pub fn check_review_subject(agent_code: &str, action: &AgentAction, expected_subject: Option<&str>) -> (r:
    Result<(), String>)
    ensures
        review_subject_refused(agent_code@, *action, crate::workflow::opt_str_view(expected_subject))
            ==> (r matches Err(m) && m@ == review_subject_message()),
        !review_subject_refused(agent_code@, *action, crate::workflow::opt_str_view(expected_subject))
            ==> r is Ok,
{
    if !str_eq(agent_code, "spec_reviewer") {
        return Ok(());
    }
    match action.action {
        AgentActionKind::Handoff => {},
        _ => {
            return Ok(());
        },
    }
    let matches = match (expected_subject, &action.payload.verdict) {
        (Some(subject), Some(v)) => str_eq(v.token.as_str(), "SPEC-CHECK") && str_eq(
            v.subject_id.as_str(),
            subject,
        ),
        _ => false,
    };
    if matches {
        Ok(())
    } else {
        Err(owned("Action 协议校验失败：SPEC-CHECK subject_id 必须匹配当前待审草稿"))
    }
}

/// The message of a reply that breaks the action protocol.
pub open spec fn violation_text(error: Option<Seq<char>>) -> Seq<char> {
    "Action 协议校验失败："@ + match error {
        Some(e) => e,
        None => "Agent 未返回输出"@,
    }
}

/// The message of a reply that breaks the action protocol; `None` when the
/// agent returned no output at all.
pub fn protocol_violation_message(error: Option<&str>) -> (r: String)
    ensures
        r@ == violation_text(crate::workflow::opt_str_view(error)),
{
    let mut s = owned("Action 协议校验失败：");
    match error {
        Some(e) => s.append(e),
        None => s.append("Agent 未返回输出"),
    }
    s
}

/// The message of a reply whose artifacts could not be accepted.
pub fn artifact_failure_message(error: &str) -> (r: String)
    ensures
        r@ == "Action 产物校验失败："@ + error@,
{
    let mut s = owned("Action 产物校验失败：");
    s.append(error);
    s
}

/// The message of a reply whose character metadata could not be written.
pub fn metadata_failure_message(error: &str) -> (r: String)
    ensures
        r@ == "Action 产物元数据写入失败："@ + error@,
{
    let mut s = owned("Action 产物元数据写入失败：");
    s.append(error);
    s
}

/// Who holds the conversation's focus after an accepted action: its target, or
/// the replying agent unless it handed off.
pub open spec fn next_focus(action: AgentAction, agent_code: Seq<char>) -> Option<Seq<char>> {
    match action.target_agent {
        Some(t) => Some(t@),
        None => if action.action == AgentActionKind::Handoff {
            None
        } else {
            Some(agent_code)
        },
    }
}

/// Who holds the conversation's focus after an accepted action.
pub fn next_focus_agent(action: &AgentAction, agent_code: &str) -> (r: Option<String>)
    ensures
        opt_string_view(r) == next_focus(*action, agent_code@),
{
    match &action.target_agent {
        Some(t) => Some(owned(t.as_str())),
        None => match action.action {
            AgentActionKind::Handoff => None,
            _ => Some(owned(agent_code)),
        },
    }
}

/// The confirmation times of a character file that records only its state:
/// each stage its state has passed counts as confirmed at the file's time.
pub open spec fn gate_times(state: CharacterState, timestamp: i64) -> (Option<i64>, Option<i64>, Option<i64>) {
    (
        if state != CharacterState::S0SpecDrafting { Some(timestamp) } else { None },
        if state == CharacterState::S3RenderConfirmed || state == CharacterState::S4ViewsGenerated
            || state == CharacterState::S5ViewsConfirmed {
            Some(timestamp)
        } else {
            None
        },
        if state == CharacterState::S5ViewsConfirmed { Some(timestamp) } else { None },
    )
}

/// The spec, render and views confirmation times of a character file that
/// records only its state, taken from the file's modification time.
pub fn inferred_gate_times(state: CharacterState, timestamp: i64) -> (r: (Option<i64>, Option<i64>, Option<i64>))
    ensures
        r == gate_times(state, timestamp),
{
    let spec = match state {
        CharacterState::S0SpecDrafting => None,
        _ => Some(timestamp),
    };
    let render = match state {
        CharacterState::S3RenderConfirmed | CharacterState::S4ViewsGenerated
        | CharacterState::S5ViewsConfirmed => Some(timestamp),
        _ => None,
    };
    let views = match state {
        CharacterState::S5ViewsConfirmed => Some(timestamp),
        _ => None,
    };
    (spec, render, views)
}


/// A turn's history never holds more than the last twelve messages, and it
/// ends with the latest one.
pub proof fn law_history_is_recent(messages: Seq<HistoryMessage>)
    ensures
        history_text(messages).len() <= HISTORY_MESSAGES,
        history_text(messages).len() == if messages.len() > HISTORY_MESSAGES {
            HISTORY_MESSAGES as nat
        } else {
            messages.len()
        },
        messages.len() > 0 ==> history_text(messages).last() == history_line(messages.last()),
{
}

} // verus!
