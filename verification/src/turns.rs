//! A conversation's turns as the runtime keeps them in memory: a user message
//! opens a turn and hands it to an agent, a handoff passes it on, and the
//! agent's reply, a failure or an interruption closes it.

use vstd::prelude::*;
use crate::action::{contains_string, owned, str_eq};
use crate::conversation::next_focus;
use crate::domain::{AgentAction, AgentActionKind, ConversationStatus, MessageStatus, MAX_HANDOFFS};
use crate::project::GameServiceError;
use crate::facts::last_true;
use crate::domain::TaskAttemptStatus;
use crate::text::{decimal, is_blank, push_chars, string_views, trim, u64_decimal};
use crate::workflow::{opt_str_view, opt_string_view};

verus! {

/// What a reply that was still thinking when the application stopped shows,
/// if it had nothing yet.
pub const RESTART_FALLBACK: &'static str = "运行在应用退出后中断，可重新发送。";

/// The message given when a conversation already has a turn running.
pub const CONVERSATION_ALREADY_RUNNING: &'static str = "该会话已有一轮正在运行";

/// One message of a conversation.
#[derive(Debug, Clone, PartialEq, Eq)]
pub struct TurnMessage {
    pub id: String,
    pub turn: u64,
    pub role: String,
    pub agent_code: String,
    pub recipient_agent_code: Option<String>,
    pub content: String,
    pub status: MessageStatus,
    pub folded: bool,
    pub action: Option<AgentAction>,
    pub created_at: i64,
}

/// A conversation as a turn sees it: its counters, who holds its focus, who
/// directs it, and its messages in order.
#[derive(Debug, Clone, PartialEq, Eq)]
pub struct ConversationTurns {
    pub turn: u64,
    pub focus_agent_code: Option<String>,
    pub director_agent_code: String,
    pub status: ConversationStatus,
    pub updated_at: i64,
    pub messages: Vec<TurnMessage>,
}

/// Whether `e` is a refused action with message `m`.
pub open spec fn invalid(e: GameServiceError, m: Seq<char>) -> bool {
    e matches GameServiceError::InvalidAction(x) && x@ == m
}

fn invalid_action(m: &str) -> (e: GameServiceError)
    ensures
        invalid(e, m@),
{
    GameServiceError::InvalidAction(owned(m))
}

/// The message refusing `agent` in `stage`.
pub open spec fn stage_refusal(agent: Seq<char>, stage: Seq<char>) -> Seq<char> {
    "Agent "@ + agent + " 不允许处理 "@ + stage + " 阶段"@
}

fn refuse_in_stage(agent: &str, stage: &str) -> (e: GameServiceError)
    ensures
        invalid(e, stage_refusal(agent@, stage@)),
{
    let mut m = owned("Agent ");
    m.append(agent);
    m.append(" 不允许处理 ");
    m.append(stage);
    m.append(" 阶段");
    GameServiceError::InvalidAction(m)
}

/// The agent a user message goes to: the one it names, else the one holding
/// the focus, else the director.
pub open spec fn addressed_agent(recipient: Option<Seq<char>>, focus: Option<Seq<char>>, director: Seq<char>) -> Seq<char> {
    match recipient {
        Some(r) => r,
        None => match focus {
            Some(f) => f,
            None => director,
        },
    }
}

/// Why a user message cannot open a turn, if it cannot.
pub open spec fn user_turn_refusal(
    c: ConversationTurns,
    content: Seq<char>,
    recipient: Option<Seq<char>>,
    stage: Seq<char>,
    stage_agents: Seq<Seq<char>>,
) -> Option<Seq<char>> {
    let agent = addressed_agent(recipient, opt_string_view(c.focus_agent_code), c.director_agent_code@);
    if trim(content).len() == 0 {
        Some("消息不能为空"@)
    } else if c.status == ConversationStatus::Running {
        Some(CONVERSATION_ALREADY_RUNNING@)
    } else if !stage_agents.contains(agent) {
        Some(stage_refusal(agent, stage))
    } else {
        None
    }
}

/// The two messages a user turn adds: the user's, and the addressed agent's
/// reply, still thinking.
pub open spec fn opened_messages(
    old_turn: u64,
    user_id: Seq<char>,
    assistant_id: Seq<char>,
    content: Seq<char>,
    recipient: Option<Seq<char>>,
    agent: Seq<char>,
    folded: bool,
    timestamp: i64,
    user: TurnMessage,
    assistant: TurnMessage,
) -> bool {
    &&& user.id@ == user_id && user.turn == old_turn + 1 && user.role@ == "user"@
    &&& user.agent_code@ == "user"@ && opt_string_view(user.recipient_agent_code) == recipient
    &&& user.content@ == content && user.status == MessageStatus::Completed && user.folded == folded
    &&& user.action is None && user.created_at == timestamp
    &&& assistant.id@ == assistant_id && assistant.turn == old_turn + 1 && assistant.role@ == "assistant"@
    &&& assistant.agent_code@ == agent && assistant.recipient_agent_code is None
    &&& assistant.content@ == Seq::<char>::empty() && assistant.status == MessageStatus::Thinking
    &&& !assistant.folded && assistant.action is None && assistant.created_at == timestamp
}

fn copy_opt(o: Option<&str>) -> (r: Option<String>)
    ensures
        opt_string_view(r) == opt_str_view(o),
{
    match o {
        Some(s) => Some(owned(s)),
        None => None,
    }
}

impl ConversationTurns {
    /// A new conversation directed by `director_agent_code`: no turn yet, no
    /// agent holding the focus, waiting for the user.
    pub fn new(director_agent_code: String, updated_at: i64) -> (r: Self)
        ensures
            r.turn == 0,
            r.focus_agent_code is None,
            r.director_agent_code == director_agent_code,
            r.status == ConversationStatus::Active,
            r.updated_at == updated_at,
            r.messages@.len() == 0,
    {
        ConversationTurns {
            turn: 0,
            focus_agent_code: None,
            director_agent_code,
            status: ConversationStatus::Active,
            updated_at,
            messages: Vec::new(),
        }
    }

    /// Opens a turn for a user message: the message goes to the agent it
    /// names, else to the one holding the focus, else to the director, who
    /// must be allowed in the conversation's stage. The turn counter moves on,
    /// the agent takes the focus, the conversation runs, and the user's
    /// message and the agent's thinking reply are added. Gives the agent.
    pub fn begin_user_turn(
        &mut self,
        user_id: &str,
        assistant_id: &str,
        content: &str,
        recipient: Option<&str>,
        folded: bool,
        stage: &str,
        stage_agents: &Vec<String>,
        timestamp: i64,
    ) -> (r: Result<String, GameServiceError>)
        requires
            old(self).turn < u64::MAX,
        ensures
            match user_turn_refusal(*old(self), content@, opt_str_view(recipient), stage@, string_views(stage_agents@)) {
                Some(m) => r matches Err(e) && invalid(e, m) && *final(self) == *old(self),
                None => r matches Ok(agent) && {
                    let n = old(self).messages@.len();
                    &&& agent@ == addressed_agent(
                        opt_str_view(recipient),
                        opt_string_view(old(self).focus_agent_code),
                        old(self).director_agent_code@,
                    )
                    &&& final(self).turn == old(self).turn + 1
                    &&& final(self).focus_agent_code == Some(agent)
                    &&& final(self).status == ConversationStatus::Running
                    &&& final(self).updated_at == timestamp
                    &&& final(self).director_agent_code == old(self).director_agent_code
                    &&& final(self).messages@.len() == n + 2
                    &&& final(self).messages@.take(n as int) == old(self).messages@
                    &&& opened_messages(
                        old(self).turn,
                        user_id@,
                        assistant_id@,
                        content@,
                        opt_str_view(recipient),
                        agent@,
                        folded,
                        timestamp,
                        final(self).messages@[n as int],
                        final(self).messages@[n as int + 1],
                    )
                },
            },
    {
        if is_blank(content) {
            return Err(invalid_action("消息不能为空"));
        }
        if self.status == ConversationStatus::Running {
            return Err(invalid_action(CONVERSATION_ALREADY_RUNNING));
        }
        let agent = match recipient {
            Some(r) => owned(r),
            None => match &self.focus_agent_code {
                Some(f) => f.clone(),
                None => self.director_agent_code.clone(),
            },
        };
        if !contains_string(stage_agents.as_slice(), &agent) {
            return Err(refuse_in_stage(agent.as_str(), stage));
        }
        let turn = self.turn + 1;
        let user = TurnMessage {
            id: owned(user_id),
            turn,
            role: owned("user"),
            agent_code: owned("user"),
            recipient_agent_code: copy_opt(recipient),
            content: owned(content),
            status: MessageStatus::Completed,
            folded,
            action: None,
            created_at: timestamp,
        };
        let assistant = TurnMessage {
            id: owned(assistant_id),
            turn,
            role: owned("assistant"),
            agent_code: agent.clone(),
            recipient_agent_code: None,
            content: String::new(),
            status: MessageStatus::Thinking,
            folded: false,
            action: None,
            created_at: timestamp,
        };
        let ghost before = self.messages@;
        self.turn = turn;
        self.focus_agent_code = Some(agent.clone());
        self.status = ConversationStatus::Running;
        self.updated_at = timestamp;
        self.messages.push(user);
        self.messages.push(assistant);
        assert(self.messages@.take(before.len() as int) =~= before);
        Ok(agent)
    }
}

/// The messages other than those with either id, in order.
pub open spec fn without_ids(s: Seq<TurnMessage>, a: Seq<char>, b: Seq<char>) -> Seq<TurnMessage>
    decreases s.len(),
{
    if s.len() == 0 {
        s
    } else {
        let rest = without_ids(s.drop_first(), a, b);
        if s[0].id@ == a || s[0].id@ == b {
            rest
        } else {
            seq![s[0]] + rest
        }
    }
}

/// Whether no message has id `a` or `b`.
pub open spec fn ids_unused(s: Seq<TurnMessage>, a: Seq<char>, b: Seq<char>) -> bool {
    forall|i: int| 0 <= i < s.len() ==> s[i].id@ != a && s[i].id@ != b
}

proof fn lemma_without_unused(s: Seq<TurnMessage>, a: Seq<char>, b: Seq<char>)
    requires
        ids_unused(s, a, b),
    ensures
        without_ids(s, a, b) == s,
    decreases s.len(),
{
    if s.len() > 0 {
        assert(s[0].id@ != a && s[0].id@ != b);
        assert(ids_unused(s.drop_first(), a, b)) by {
            assert forall|i: int| 0 <= i < s.drop_first().len() implies s.drop_first()[i].id@ != a
                && s.drop_first()[i].id@ != b by {
                assert(s.drop_first()[i] == s[i + 1]);
            }
        }
        lemma_without_unused(s.drop_first(), a, b);
        assert(seq![s[0]] + s.drop_first() =~= s);
    }
}

proof fn lemma_without_concat(s: Seq<TurnMessage>, t: Seq<TurnMessage>, a: Seq<char>, b: Seq<char>)
    ensures
        without_ids(s + t, a, b) == without_ids(s, a, b) + without_ids(t, a, b),
    decreases s.len(),
{
    if s.len() == 0 {
        assert(s + t =~= t);
    } else {
        assert((s + t).drop_first() =~= s.drop_first() + t);
        assert((s + t)[0] == s[0]);
        lemma_without_concat(s.drop_first(), t, a, b);
        let w = without_ids(s.drop_first(), a, b);
        let v = without_ids(t, a, b);
        assert(seq![s[0]] + (w + v) =~= (seq![s[0]] + w) + v);
    }
}

impl ConversationTurns {
    /// Takes back a turn whose messages could not be stored: its two messages
    /// leave, the counter steps back, the focus returns to `previous_focus`,
    /// and the conversation waits again.
    pub fn undo_user_turn(&mut self, user_id: &str, assistant_id: &str, previous_focus: Option<String>)
        ensures
            final(self).messages@ == without_ids(old(self).messages@, user_id@, assistant_id@),
            final(self).turn == if old(self).turn > 0 { (old(self).turn - 1) as u64 } else { 0 },
            final(self).focus_agent_code == previous_focus,
            final(self).status == ConversationStatus::Active,
            final(self).updated_at == old(self).updated_at,
            final(self).director_agent_code == old(self).director_agent_code,
    {
        let ghost all = self.messages@;
        let mut rest: Vec<TurnMessage> = Vec::new();
        std::mem::swap(&mut rest, &mut self.messages);
        let mut kept: Vec<TurnMessage> = Vec::new();
        while rest.len() > 0
            invariant
                without_ids(all, user_id@, assistant_id@) == kept@ + without_ids(rest@, user_id@, assistant_id@),
            decreases rest.len(),
        {
            let ghost before = rest@;
            let m = rest.remove(0);
            assert(before.drop_first() =~= rest@);
            if !str_eq(m.id.as_str(), user_id) && !str_eq(m.id.as_str(), assistant_id) {
                let ghost w = without_ids(rest@, user_id@, assistant_id@);
                kept.push(m);
                assert(kept@ + w =~= kept@.drop_last() + (seq![kept@.last()] + w));
            }
        }
        assert(kept@ + without_ids(rest@, user_id@, assistant_id@) =~= kept@);
        self.messages = kept;
        self.turn = if self.turn > 0 { self.turn - 1 } else { 0 };
        self.focus_agent_code = previous_focus;
        self.status = ConversationStatus::Active;
    }
}

/// A user turn whose messages could not be stored is taken back whole: after
/// opening the turn and undoing it, the conversation has its messages, turn
/// counter, focus and status as before (only its time of change moves),
/// provided the two new ids were not in use.
pub proof fn law_undone_turn_restores_conversation(
    before: ConversationTurns,
    opened: ConversationTurns,
    undone: ConversationTurns,
    user_id: Seq<char>,
    assistant_id: Seq<char>,
)
    requires
        before.status == ConversationStatus::Active,
        before.turn < u64::MAX,
        ids_unused(before.messages@, user_id, assistant_id),
        opened.turn == before.turn + 1,
        opened.messages@.len() == before.messages@.len() + 2,
        opened.messages@.take(before.messages@.len() as int) == before.messages@,
        opened.messages@[before.messages@.len() as int].id@ == user_id,
        opened.messages@[before.messages@.len() as int + 1].id@ == assistant_id,
        undone.messages@ == without_ids(opened.messages@, user_id, assistant_id),
        undone.turn == if opened.turn > 0 { (opened.turn - 1) as u64 } else { 0 },
        undone.focus_agent_code == before.focus_agent_code,
        undone.status == ConversationStatus::Active,
    ensures
        undone.messages@ == before.messages@,
        undone.turn == before.turn,
        undone.focus_agent_code == before.focus_agent_code,
        undone.status == before.status,
{
    let n = before.messages@.len() as int;
    let user = opened.messages@[n];
    let assistant = opened.messages@[n + 1];
    let tail = seq![user, assistant];
    assert(opened.messages@ =~= before.messages@ + tail);
    lemma_without_concat(before.messages@, tail, user_id, assistant_id);
    lemma_without_unused(before.messages@, user_id, assistant_id);
    let one = tail.drop_first();
    assert(one =~= seq![assistant]);
    assert(one.drop_first() =~= Seq::<TurnMessage>::empty());
    assert(without_ids(one.drop_first(), user_id, assistant_id) =~= Seq::<TurnMessage>::empty());
    assert(without_ids(one, user_id, assistant_id) =~= Seq::<TurnMessage>::empty());
    assert(without_ids(tail, user_id, assistant_id) =~= Seq::<TurnMessage>::empty());
    assert(before.messages@ + Seq::<TurnMessage>::empty() =~= before.messages@);
}

// --- handoffs ----------------------------------------------------------------------

pub open spec fn with_action(s: Seq<TurnMessage>) -> Seq<bool> {
    Seq::new(s.len(), |i: int| s[i].action is Some)
}

/// The message refusing a handoff beyond the limit of one turn.
pub open spec fn handoff_limit_text() -> Seq<char> {
    "单轮自动 handoff 不得超过 "@ + decimal(MAX_HANDOFFS as nat) + " 次"@
}

/// Why the turn cannot be handed on to `target`, if it cannot: the latest
/// action must be a handoff to `target`, a specialist may hand back only to
/// the director, and a turn allows only so many handoffs.
pub open spec fn handoff_refusal(c: ConversationTurns, target: Seq<char>, handoff_count: nat) -> Option<Seq<char>> {
    match last_true(with_action(c.messages@)) {
        None => Some("没有可继续的 handoff"@),
        Some(i) => {
            let m = c.messages@[i];
            let a = m.action->0;
            if a.action != AgentActionKind::Handoff || !(a.target_agent matches Some(t) && t@ == target) {
                Some("handoff 目标与上一条 Action 不一致"@)
            } else if m.agent_code@ != c.director_agent_code@ && target != c.director_agent_code@ {
                Some("专业 Agent 只能将控制权交回总管"@)
            } else if handoff_count > MAX_HANDOFFS {
                Some(handoff_limit_text())
            } else {
                None
            }
        },
    }
}

/// The index of the latest message of the current turn written by the user.
pub open spec fn turn_user_messages(s: Seq<TurnMessage>, turn: u64) -> Seq<bool> {
    Seq::new(s.len(), |i: int| s[i].role@ == "user"@ && s[i].turn == turn)
}

impl ConversationTurns {
    /// Checks that the turn can be handed on to `target`, given how many
    /// handoffs the current turn has made.
    pub fn check_handoff_continuation(&self, target: &str, handoff_count: usize) -> (r: Result<(), GameServiceError>)
        ensures
            match handoff_refusal(*self, target@, handoff_count as nat) {
                Some(m) => r matches Err(e) && invalid(e, m),
                None => r is Ok,
            },
    {
        let ghost want = with_action(self.messages@);
        let mut i: usize = self.messages.len();
        while i > 0
            invariant
                i <= self.messages.len(),
                want == with_action(self.messages@),
                forall|j: int| i <= j < self.messages.len() ==> !want[j],
            decreases i,
        {
            let m = &self.messages[i - 1];
            match &m.action {
                Some(a) => {
                    proof {
                        crate::gates::lemma_last_true_unique(want, i - 1);
                    }
                    let aimed = match &a.target_agent {
                        Some(t) => str_eq(t.as_str(), target),
                        None => false,
                    };
                    if a.action != AgentActionKind::Handoff || !aimed {
                        return Err(invalid_action("handoff 目标与上一条 Action 不一致"));
                    }
                    if !str_eq(m.agent_code.as_str(), self.director_agent_code.as_str()) && !str_eq(
                        target,
                        self.director_agent_code.as_str(),
                    ) {
                        return Err(invalid_action("专业 Agent 只能将控制权交回总管"));
                    }
                    if handoff_count > MAX_HANDOFFS {
                        let mut text = owned("单轮自动 handoff 不得超过 ");
                        let digits = u64_decimal(MAX_HANDOFFS as u64);
                        push_chars(&mut text, digits.as_slice());
                        text.append(" 次");
                        return Err(GameServiceError::InvalidAction(text));
                    }
                    return Ok(());
                },
                None => {},
            }
            i = i - 1;
        }
        proof {
            crate::gates::lemma_last_true(want);
        }
        Err(invalid_action("没有可继续的 handoff"))
    }

    /// Hands the current turn on to `target`, who must be the director or an
    /// agent of the conversation's stage: `target` takes the focus, the
    /// conversation runs, and its thinking reply is added to the same turn.
    pub fn begin_handoff_turn(
        &mut self,
        assistant_id: &str,
        target: &str,
        stage: &str,
        stage_agents: &Vec<String>,
        timestamp: i64,
    ) -> (r: Result<(), GameServiceError>)
        ensures
            if target@ != old(self).director_agent_code@ && !string_views(stage_agents@).contains(target@) {
                r matches Err(e) && invalid(e, stage_refusal(target@, stage@)) && *final(self) == *old(self)
            } else {
                let n = old(self).messages@.len();
                &&& r is Ok
                &&& final(self).turn == old(self).turn
                &&& final(self).focus_agent_code matches Some(f) && f@ == target@
                &&& final(self).status == ConversationStatus::Running
                &&& final(self).updated_at == timestamp
                &&& final(self).director_agent_code == old(self).director_agent_code
                &&& final(self).messages@.len() == n + 1
                &&& final(self).messages@.take(n as int) == old(self).messages@
                &&& {
                    let m = final(self).messages@[n as int];
                    &&& m.id@ == assistant_id@ && m.turn == old(self).turn && m.role@ == "assistant"@
                    &&& m.agent_code@ == target@ && m.recipient_agent_code is None
                    &&& m.content@ == Seq::<char>::empty() && m.status == MessageStatus::Thinking
                    &&& !m.folded && m.action is None && m.created_at == timestamp
                }
            },
    {
        let t = owned(target);
        if !str_eq(target, self.director_agent_code.as_str()) && !contains_string(stage_agents.as_slice(), &t) {
            return Err(refuse_in_stage(target, stage));
        }
        let ghost before = self.messages@;
        let message = TurnMessage {
            id: owned(assistant_id),
            turn: self.turn,
            role: owned("assistant"),
            agent_code: owned(target),
            recipient_agent_code: None,
            content: String::new(),
            status: MessageStatus::Thinking,
            folded: false,
            action: None,
            created_at: timestamp,
        };
        self.focus_agent_code = Some(t);
        self.status = ConversationStatus::Running;
        self.updated_at = timestamp;
        self.messages.push(message);
        assert(self.messages@.take(before.len() as int) =~= before);
        Ok(())
    }

    /// The user message that opened the current turn, which a handoff hands
    /// on with the turn: the latest one of this turn.
    pub fn turn_user_message(&self) -> (r: Result<usize, GameServiceError>)
        ensures
            match last_true(turn_user_messages(self.messages@, self.turn)) {
                Some(i) => r == Ok::<usize, GameServiceError>(i as usize) && 0 <= i < self.messages.len(),
                None => r matches Err(e) && invalid(e, "handoff 缺少原始用户消息"@),
            },
    {
        let ghost want = turn_user_messages(self.messages@, self.turn);
        let mut i: usize = self.messages.len();
        while i > 0
            invariant
                i <= self.messages.len(),
                want == turn_user_messages(self.messages@, self.turn),
                forall|j: int| i <= j < self.messages.len() ==> !want[j],
            decreases i,
        {
            let m = &self.messages[i - 1];
            if str_eq(m.role.as_str(), "user") && m.turn == self.turn {
                proof {
                    crate::gates::lemma_last_true_unique(want, i - 1);
                }
                return Ok(i - 1);
            }
            i = i - 1;
        }
        proof {
            crate::gates::lemma_last_true(want);
        }
        Err(invalid_action("handoff 缺少原始用户消息"))
    }
}

// --- closing a turn -------------------------------------------------------------------

pub open spec fn with_id(s: Seq<TurnMessage>, id: Seq<char>) -> Seq<bool> {
    Seq::new(s.len(), |i: int| s[i].id@ == id)
}

pub open spec fn pending_replies(s: Seq<TurnMessage>, agent_code: Seq<char>) -> Seq<bool> {
    Seq::new(
        s.len(),
        |i: int| s[i].role@ == "assistant"@ && s[i].agent_code@ == agent_code && s[i].status == MessageStatus::Thinking,
    )
}

pub open spec fn thinking(s: Seq<TurnMessage>) -> Seq<bool> {
    Seq::new(s.len(), |i: int| s[i].status == MessageStatus::Thinking)
}

/// Whether `n` is `m` with its content, status and action as given.
pub open spec fn rewrites(m: TurnMessage, n: TurnMessage, content: Seq<char>, status: MessageStatus, action: Option<AgentAction>) -> bool {
    &&& n.id == m.id && n.turn == m.turn && n.role == m.role && n.agent_code == m.agent_code
    &&& n.recipient_agent_code == m.recipient_agent_code && n.folded == m.folded && n.created_at == m.created_at
    &&& n.content@ == content && n.status == status && n.action == action
}

/// The blocked action that ends a turn an agent could not take.
pub open spec fn blocked_action(a: AgentAction, reason: Seq<char>) -> bool {
    &&& a.action == AgentActionKind::Blocked && a.target_agent is None && a.reason@ == reason
    &&& a.payload.choices is None && a.payload.progress is None && a.payload.drafts is None
    &&& a.payload.memories is None && a.payload.naming is None && a.payload.asset_specs is None
    &&& a.payload.verdict is None && a.payload.result is None
}

/// The status a reply takes when its attempt ends in `status`.
pub open spec fn reply_status_of(status: TaskAttemptStatus) -> MessageStatus {
    match status {
        TaskAttemptStatus::Cancelled | TaskAttemptStatus::Interrupted => MessageStatus::Interrupted,
        TaskAttemptStatus::Failed | TaskAttemptStatus::Unknown => MessageStatus::Failed,
        _ => MessageStatus::Completed,
    }
}

/// The status a reply takes when its attempt ends in `status`.
pub fn reply_status(status: TaskAttemptStatus) -> (r: MessageStatus)
    ensures
        r == reply_status_of(status),
{
    match status {
        TaskAttemptStatus::Cancelled | TaskAttemptStatus::Interrupted => MessageStatus::Interrupted,
        TaskAttemptStatus::Failed | TaskAttemptStatus::Unknown => MessageStatus::Failed,
        _ => MessageStatus::Completed,
    }
}

/// What an unfinished reply shows once its turn ends in `status`.
pub open spec fn fallback_text(status: MessageStatus) -> Seq<char> {
    match status {
        MessageStatus::Interrupted => "运行已中断"@,
        MessageStatus::Failed => "Agent 执行失败，可重试本轮。"@,
        _ => Seq::<char>::empty(),
    }
}

/// How a reply settles when its attempt has ended: it is completed exactly
/// when the attempt succeeded; a failed attempt, or one whose end is unknown,
/// leaves a failed reply that offers to retry the turn; a cancelled or
/// interrupted one leaves an interrupted reply. A reply that did not complete
/// always shows a fallback.
pub proof fn law_reply_settles_by_attempt(status: TaskAttemptStatus)
    requires
        status != TaskAttemptStatus::Pending,
        status != TaskAttemptStatus::Running,
    ensures
        reply_status_of(status) == MessageStatus::Completed <==> status == TaskAttemptStatus::Succeeded,
        (status == TaskAttemptStatus::Failed || status == TaskAttemptStatus::Unknown) <==> reply_status_of(status)
            == MessageStatus::Failed,
        (status == TaskAttemptStatus::Cancelled || status == TaskAttemptStatus::Interrupted) <==> reply_status_of(
            status,
        ) == MessageStatus::Interrupted,
        reply_status_of(status) == MessageStatus::Failed ==> fallback_text(reply_status_of(status))
            == "Agent 执行失败，可重试本轮。"@,
        reply_status_of(status) == MessageStatus::Interrupted ==> fallback_text(reply_status_of(status))
            == "运行已中断"@,
        status != TaskAttemptStatus::Succeeded ==> fallback_text(reply_status_of(status)).len() > 0,
{
    reveal_strlit("Agent 执行失败，可重试本轮。");
    reveal_strlit("运行已中断");
}

/// What an unfinished reply shows once its turn ends in `status`.
pub fn reply_fallback(status: MessageStatus) -> (r: String)
    ensures
        r@ == fallback_text(status),
{
    match status {
        MessageStatus::Interrupted => owned("运行已中断"),
        MessageStatus::Failed => owned("Agent 执行失败，可重试本轮。"),
        _ => String::new(),
    }
}

/// The text a stored reply keeps when its turn ends in `status`: its own text
/// if it has one, else the partial output when that is not blank, else the
/// fallback of its status.
pub open spec fn settled_text(content: Seq<char>, partial: Option<Seq<char>>, status: MessageStatus) -> Seq<char> {
    if content.len() != 0 {
        content
    } else {
        match partial {
            Some(p) => if trim(p).len() != 0 {
                p
            } else {
                fallback_text(status)
            },
            None => fallback_text(status),
        }
    }
}

/// The text a stored reply keeps when its turn ends in `status`.
pub fn settled_reply_text(content: &str, partial: Option<&str>, status: MessageStatus) -> (r: String)
    ensures
        r@ == settled_text(content@, opt_str_view(partial), status),
{
    if crate::text::chars_of(content).len() != 0 {
        return owned(content);
    }
    match partial {
        Some(p) => if is_blank(p) {
            reply_fallback(status)
        } else {
            owned(p)
        },
        None => reply_fallback(status),
    }
}

fn find_by_id(s: &Vec<TurnMessage>, id: &str) -> (r: Option<usize>)
    ensures
        match crate::gates::first_true(with_id(s@, id@)) {
            Some(i) => 0 <= i < s.len() && r == Some(i as usize),
            None => r is None,
        },
{
    let ghost want = with_id(s@, id@);
    let mut i: usize = 0;
    while i < s.len()
        invariant
            i <= s.len(),
            want == with_id(s@, id@),
            forall|j: int| 0 <= j < i ==> !want[j],
        decreases s.len() - i,
    {
        if str_eq(s[i].id.as_str(), id) {
            proof {
                crate::gates::lemma_first_true_unique(want, i as int);
            }
            return Some(i);
        }
        i = i + 1;
    }
    proof {
        crate::gates::lemma_first_true(want);
    }
    None
}

fn latest_thinking(s: &Vec<TurnMessage>) -> (r: Option<usize>)
    ensures
        match last_true(thinking(s@)) {
            Some(i) => 0 <= i < s.len() && r == Some(i as usize),
            None => r is None,
        },
{
    let ghost want = thinking(s@);
    let mut i: usize = s.len();
    while i > 0
        invariant
            i <= s.len(),
            want == thinking(s@),
            forall|j: int| i <= j < s.len() ==> !want[j],
        decreases i,
    {
        if s[i - 1].status == MessageStatus::Thinking {
            proof {
                crate::gates::lemma_last_true_unique(want, i - 1);
            }
            return Some(i - 1);
        }
        i = i - 1;
    }
    proof {
        crate::gates::lemma_last_true(want);
    }
    None
}

impl ConversationTurns {
    /// Rewrites message `i`: its content, status and action as given.
    fn rewrite(&mut self, i: usize, content: Option<String>, status: MessageStatus, action: Option<Option<AgentAction>>)
        requires
            i < old(self).messages@.len(),
        ensures
            final(self).messages@ == old(self).messages@.update(i as int, final(self).messages@[i as int]),
            rewrites(
                old(self).messages@[i as int],
                final(self).messages@[i as int],
                match content {
                    Some(c) => c@,
                    None => old(self).messages@[i as int].content@,
                },
                status,
                match action {
                    Some(a) => a,
                    None => old(self).messages@[i as int].action,
                },
            ),
            final(self).turn == old(self).turn,
            final(self).focus_agent_code == old(self).focus_agent_code,
            final(self).director_agent_code == old(self).director_agent_code,
            final(self).status == old(self).status,
            final(self).updated_at == old(self).updated_at,
    {
        let ghost before = self.messages@;
        let mut m = self.messages.remove(i);
        match content {
            Some(c) => {
                m.content = c;
            },
            None => {},
        }
        m.status = status;
        match action {
            Some(a) => {
                m.action = a;
            },
            None => {},
        }
        self.messages.insert(i, m);
        assert(self.messages@ =~= before.update(i as int, self.messages@[i as int]));
    }

    /// The reply of `agent_code` still thinking in this turn: the latest one.
    pub fn pending_reply(&self, agent_code: &str) -> (r: Result<usize, GameServiceError>)
        ensures
            match last_true(pending_replies(self.messages@, agent_code@)) {
                Some(i) => 0 <= i < self.messages.len() && r == Ok::<usize, GameServiceError>(i as usize),
                None => r matches Err(e) && invalid(e, "找不到本轮待完成的 Agent 消息"@),
            },
    {
        let ghost want = pending_replies(self.messages@, agent_code@);
        let mut i: usize = self.messages.len();
        while i > 0
            invariant
                i <= self.messages.len(),
                want == pending_replies(self.messages@, agent_code@),
                forall|j: int| i <= j < self.messages.len() ==> !want[j],
            decreases i,
        {
            let m = &self.messages[i - 1];
            if str_eq(m.role.as_str(), "assistant") && str_eq(m.agent_code.as_str(), agent_code)
                && m.status == MessageStatus::Thinking {
                proof {
                    crate::gates::lemma_last_true_unique(want, i - 1);
                }
                return Ok(i - 1);
            }
            i = i - 1;
        }
        proof {
            crate::gates::lemma_last_true(want);
        }
        Err(invalid_action("找不到本轮待完成的 Agent 消息"))
    }

    /// Closes the turn with the reply of `agent_code`: the reply takes its text
    /// and action and is completed, the focus goes where the action leads, and
    /// the conversation waits for the user again.
    pub fn complete_reply(
        &mut self,
        assistant_id: &str,
        content: String,
        action: AgentAction,
        agent_code: &str,
        timestamp: i64,
    ) -> (r: Result<(), GameServiceError>)
        ensures
            match crate::gates::first_true(with_id(old(self).messages@, assistant_id@)) {
                None => r matches Err(e) && invalid(e, "找不到本轮 Agent 消息"@) && *final(self) == *old(self),
                Some(i) => {
                    &&& r is Ok
                    &&& 0 <= i < old(self).messages@.len()
                    &&& final(self).messages@ == old(self).messages@.update(i, final(self).messages@[i])
                    &&& rewrites(old(self).messages@[i], final(self).messages@[i], content@, MessageStatus::Completed, Some(action))
                    &&& opt_string_view(final(self).focus_agent_code) == next_focus(action, agent_code@)
                    &&& final(self).status == ConversationStatus::Active
                    &&& final(self).updated_at == timestamp
                    &&& final(self).turn == old(self).turn
                    &&& final(self).director_agent_code == old(self).director_agent_code
                },
            },
    {
        let i = match find_by_id(&self.messages, assistant_id) {
            Some(i) => i,
            None => {
                return Err(invalid_action("找不到本轮 Agent 消息"));
            },
        };
        let focus = crate::conversation::next_focus_agent(&action, agent_code);
        self.focus_agent_code = focus;
        self.status = ConversationStatus::Active;
        self.updated_at = timestamp;
        self.rewrite(i, Some(content), MessageStatus::Completed, Some(Some(action)));
        Ok(())
    }

    /// Closes the turn with a failed reply showing `content`.
    pub fn fail_reply(&mut self, assistant_id: &str, content: String, timestamp: i64) -> (r: Result<(), GameServiceError>)
        ensures
            match crate::gates::first_true(with_id(old(self).messages@, assistant_id@)) {
                None => r matches Err(e) && invalid(e, "找不到本轮 Agent 消息"@) && *final(self) == *old(self),
                Some(i) => {
                    &&& r is Ok
                    &&& 0 <= i < old(self).messages@.len()
                    &&& final(self).messages@ == old(self).messages@.update(i, final(self).messages@[i])
                    &&& rewrites(old(self).messages@[i], final(self).messages@[i], content@, MessageStatus::Failed, old(self).messages@[i].action)
                    &&& final(self).focus_agent_code == old(self).focus_agent_code
                    &&& final(self).status == ConversationStatus::Active
                    &&& final(self).updated_at == timestamp
                    &&& final(self).turn == old(self).turn
                    &&& final(self).director_agent_code == old(self).director_agent_code
                },
            },
    {
        let i = match find_by_id(&self.messages, assistant_id) {
            Some(i) => i,
            None => {
                return Err(invalid_action("找不到本轮 Agent 消息"));
            },
        };
        self.rewrite(i, Some(content), MessageStatus::Failed, None);
        self.status = ConversationStatus::Active;
        self.updated_at = timestamp;
        Ok(())
    }

    /// Closes the turn with a blocked reply giving `reason`.
    pub fn complete_blocked(&mut self, assistant_id: &str, reason: String, timestamp: i64) -> (r: Result<(), GameServiceError>)
        ensures
            match crate::gates::first_true(with_id(old(self).messages@, assistant_id@)) {
                None => r matches Err(e) && invalid(e, "找不到待完成的 Agent 消息"@) && *final(self) == *old(self),
                Some(i) => {
                    &&& r is Ok
                    &&& 0 <= i < old(self).messages@.len()
                    &&& final(self).messages@ == old(self).messages@.update(i, final(self).messages@[i])
                    &&& final(self).messages@[i].action matches Some(a) && blocked_action(a, reason@)
                    &&& rewrites(old(self).messages@[i], final(self).messages@[i], reason@, MessageStatus::Completed, final(self).messages@[i].action)
                    &&& final(self).focus_agent_code == old(self).focus_agent_code
                    &&& final(self).status == ConversationStatus::Active
                    &&& final(self).updated_at == timestamp
                    &&& final(self).turn == old(self).turn
                    &&& final(self).director_agent_code == old(self).director_agent_code
                },
            },
    {
        let i = match find_by_id(&self.messages, assistant_id) {
            Some(i) => i,
            None => {
                return Err(invalid_action("找不到待完成的 Agent 消息"));
            },
        };
        let action = AgentAction {
            action: AgentActionKind::Blocked,
            target_agent: None,
            reason: reason.clone(),
            payload: crate::domain::AgentActionPayload::empty(),
        };
        self.rewrite(i, Some(reason), MessageStatus::Completed, Some(Some(action)));
        self.status = ConversationStatus::Active;
        self.updated_at = timestamp;
        Ok(())
    }

    /// Ends the running turn in `status`: the latest reply still thinking takes
    /// that status, and `fallback` as its text if it has none; the
    /// conversation waits for the user again.
    pub fn settle_running_reply(&mut self, status: MessageStatus, fallback: String, timestamp: i64)
        ensures
            match last_true(thinking(old(self).messages@)) {
                None => final(self).messages@ == old(self).messages@,
                Some(i) => {
                    &&& 0 <= i < old(self).messages@.len()
                    &&& final(self).messages@ == old(self).messages@.update(i, final(self).messages@[i])
                    &&& rewrites(
                        old(self).messages@[i],
                        final(self).messages@[i],
                        if old(self).messages@[i].content@.len() == 0 { fallback@ } else { old(self).messages@[i].content@ },
                        status,
                        old(self).messages@[i].action,
                    )
                },
            },
            final(self).status == ConversationStatus::Active,
            final(self).updated_at == timestamp,
            final(self).focus_agent_code == old(self).focus_agent_code,
            final(self).turn == old(self).turn,
            final(self).director_agent_code == old(self).director_agent_code,
    {
        let found = latest_thinking(&self.messages);
        match found {
            Some(k) => {
                let empty = crate::text::chars_of(self.messages[k].content.as_str()).len() == 0;
                if empty {
                    self.rewrite(k, Some(fallback), status, None);
                } else {
                    self.rewrite(k, None, status, None);
                }
            },
            None => {},
        }
        self.status = ConversationStatus::Active;
        self.updated_at = timestamp;
    }
}


/// A message after the application restarted: one still thinking is
/// interrupted, keeping what it had said or else explaining why it stopped.
pub open spec fn after_restart(m: TurnMessage, n: TurnMessage) -> bool {
    if m.status == MessageStatus::Thinking {
        rewrites(
            m,
            n,
            if m.content@.len() == 0 { RESTART_FALLBACK@ } else { m.content@ },
            MessageStatus::Interrupted,
            m.action,
        )
    } else {
        n == m
    }
}

impl ConversationTurns {
    /// Settles the conversation after the application restarted: every reply
    /// still thinking is interrupted, and a running conversation waits for
    /// the user again. Afterwards nothing is left thinking or running.
    pub fn recover_after_restart(&mut self)
        ensures
            final(self).messages@.len() == old(self).messages@.len(),
            forall|i: int|
                0 <= i < old(self).messages@.len() ==> after_restart(old(self).messages@[i], #[trigger] final(self).messages@[i]),
            final(self).status == (if old(self).status == ConversationStatus::Running {
                ConversationStatus::Active
            } else {
                old(self).status
            }),
            final(self).turn == old(self).turn,
            final(self).focus_agent_code == old(self).focus_agent_code,
            final(self).director_agent_code == old(self).director_agent_code,
            final(self).updated_at == old(self).updated_at,
            forall|i: int| 0 <= i < final(self).messages@.len() ==> (#[trigger] final(self).messages@[i]).status != MessageStatus::Thinking,
            final(self).status != ConversationStatus::Running,
    {
        let ghost before = *self;
        let n = self.messages.len();
        let mut i: usize = 0;
        while i < n
            invariant
                n == self.messages@.len(),
                n == before.messages@.len(),
                i <= n,
                forall|j: int| 0 <= j < i ==> after_restart(before.messages@[j], #[trigger] self.messages@[j]),
                forall|j: int| i <= j < n ==> #[trigger] self.messages@[j] == before.messages@[j],
                self.status == before.status,
                self.turn == before.turn,
                self.focus_agent_code == before.focus_agent_code,
                self.director_agent_code == before.director_agent_code,
                self.updated_at == before.updated_at,
            decreases n - i,
        {
            if self.messages[i].status == MessageStatus::Thinking {
                let empty = crate::text::chars_of(self.messages[i].content.as_str()).len() == 0;
                if empty {
                    self.rewrite(i, Some(owned(RESTART_FALLBACK)), MessageStatus::Interrupted, None);
                } else {
                    self.rewrite(i, None, MessageStatus::Interrupted, None);
                }
            }
            i = i + 1;
        }
        if self.status == ConversationStatus::Running {
            self.status = ConversationStatus::Active;
        }
    }
}

} // verus!
