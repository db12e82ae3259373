//! Names and paths inside a game project, the runtime's protocol instruction,
//! and the errors of the game service.

use vstd::prelude::*;
use crate::action::{owned, str_eq};
use crate::domain::{ACTION_END, ACTION_START};
use crate::text::{chars_of, has_char, range_eq, string_from_range, trim, trim_bounds, trimmed};

verus! {

/// A project directory as offered to the user.
#[derive(Debug, Clone, PartialEq, Eq)]
pub struct ProjectDirState {
    pub root: String,
    pub occupied: bool,
    pub project_id: Option<String>,
    pub supported: bool,
}

/// Why a game service request failed.
#[derive(Debug, Clone, PartialEq, Eq)]
pub enum GameServiceError {
    StateUnavailable,
    ProjectNotFound(String),
    ConversationNotFound(String),
    ReadOnly(String),
    InvalidProjectPath(String),
    InvalidAction(String),
    ProjectGate(String),
    CharacterNotFound(String),
    InvalidCharacterOperation(String),
}

/// The message of a game service error.
pub open spec fn game_service_error_text(e: GameServiceError) -> Seq<char> {
    match e {
        GameServiceError::StateUnavailable => "game runtime state is unavailable"@,
        GameServiceError::ProjectNotFound(m) => "project not found: "@ + m@,
        GameServiceError::ConversationNotFound(m) => "conversation not found: "@ + m@,
        GameServiceError::ReadOnly(m) => "project is read-only: "@ + m@,
        GameServiceError::InvalidProjectPath(m) => "invalid project path: "@ + m@,
        GameServiceError::InvalidAction(m) => "invalid action output: "@ + m@,
        GameServiceError::ProjectGate(m) => "project gate is not satisfied: "@ + m@,
        GameServiceError::CharacterNotFound(m) => "character not found: "@ + m@,
        GameServiceError::InvalidCharacterOperation(m) => "invalid character operation: "@ + m@,
    }
}

impl GameServiceError {
    /// The message that describes this error.
    pub fn message(&self) -> (r: String)
        ensures
            r@ == game_service_error_text(*self),
    {
        let (mut s, m) = match self {
            GameServiceError::StateUnavailable => {
                return owned("game runtime state is unavailable");
            },
            GameServiceError::ProjectNotFound(m) => (owned("project not found: "), m),
            GameServiceError::ConversationNotFound(m) => (owned("conversation not found: "), m),
            GameServiceError::ReadOnly(m) => (owned("project is read-only: "), m),
            GameServiceError::InvalidProjectPath(m) => (owned("invalid project path: "), m),
            GameServiceError::InvalidAction(m) => (owned("invalid action output: "), m),
            GameServiceError::ProjectGate(m) => (owned("project gate is not satisfied: "), m),
            GameServiceError::CharacterNotFound(m) => (owned("character not found: "), m),
            GameServiceError::InvalidCharacterOperation(m) => (
                owned("invalid character operation: "),
                m,
            ),
        };
        s.append(m.as_str());
        s
    }
}

/// A control character (Unicode category Cc).
pub open spec fn is_control(c: char) -> bool {
    (c as u32) <= 0x1f || (0x7f <= (c as u32) && (c as u32) <= 0x9f)
}

/// A name that can serve as a directory: not blank once trimmed, not "." or
/// "..", and free of path separators and control characters.
pub open spec fn segment_ok(t: Seq<char>) -> bool {
    &&& t.len() > 0
    &&& t != "."@
    &&& t != ".."@
    &&& !t.contains('/')
    &&& !t.contains('\\')
    &&& forall|i: int| 0 <= i < t.len() ==> !is_control(#[trigger] t[i])
}

fn has_control(cs: &[char]) -> (r: bool)
    ensures
        r == exists|i: int| 0 <= i < cs@.len() && is_control(#[trigger] cs@[i]),
{
    for i in 0..cs.len()
        invariant
            forall|k: int| 0 <= k < i ==> !is_control(#[trigger] cs@[k]),
    {
        let u = cs[i] as u32;
        if u <= 0x1f || (0x7f <= u && u <= 0x9f) {
            return true;
        }
    }
    false
}

/// The trimmed name, if it can serve as a directory.
pub fn safe_segment(value: &str) -> (r: Result<String, GameServiceError>)
    ensures
        match r {
            Ok(s) => segment_ok(trim(value@)) && s@ == trim(value@),
            Err(e) => !segment_ok(trim(value@)) && (e matches GameServiceError::InvalidCharacterOperation(
                m,
            ) && m@ == "名称不能用于目录"@),
        },
{
    let t = trimmed(value);
    let cs = chars_of(t.as_str());
    if cs.len() == 0 || str_eq(t.as_str(), ".") || str_eq(t.as_str(), "..") || has_char(
        cs.as_slice(),
        '/',
    ) || has_char(cs.as_slice(), '\\') || has_control(cs.as_slice()) {
        return Err(GameServiceError::InvalidCharacterOperation(owned("名称不能用于目录")));
    }
    Ok(t)
}

/// A ".." part of a path, whose parts are separated by '/'.
pub open spec fn has_parent_part(s: Seq<char>) -> bool {
    exists|i: int|
        0 <= i && i + 2 <= s.len() && #[trigger] s[i] == '.' && s[i + 1] == '.' && (i == 0 || s[i
            - 1] == '/') && (i + 2 == s.len() || s[i + 2] == '/')
}

/// A path inside the project: relative, and with no ".." part.
pub open spec fn inside_project(relative: Seq<char>) -> bool {
    !(relative.len() > 0 && relative[0] == '/') && !has_parent_part(relative)
}

/// `relative` under `root`, joined as paths are.
pub open spec fn joined_path(root: Seq<char>, relative: Seq<char>) -> Seq<char> {
    if root.len() == 0 || root.last() == '/' {
        root + relative
    } else {
        root + "/"@ + relative
    }
}

fn has_parent(cs: &[char]) -> (r: bool)
    ensures
        r == has_parent_part(cs@),
{
    let n = cs.len();
    if n < 2 {
        return false;
    }
    for i in 0..n - 1
        invariant
            n == cs@.len(),
            n >= 2,
            forall|k: int|
                0 <= k < i ==> !(#[trigger] cs@[k] == '.' && cs@[k + 1] == '.' && (k == 0 || cs@[k
                    - 1] == '/') && (k + 2 == n || cs@[k + 2] == '/')),
    {
        if cs[i] == '.' && cs[i + 1] == '.' && (i == 0 || cs[i - 1] == '/') && (i + 2 == n || cs[i
            + 2] == '/') {
            return true;
        }
    }
    proof {
        assert forall|k: int|
            0 <= k && k + 2 <= cs@.len() && #[trigger] cs@[k] == '.' && cs@[k + 1] == '.' && (k == 0
                || cs@[k - 1] == '/') implies !(k + 2 == cs@.len() || cs@[k + 2] == '/') by {
            assert(k < n - 1);
        }
    }
    false
}

/// The path of `relative` inside the project at `root`; a rooted path, or one
/// that climbs out with "..", is refused.
pub fn safe_project_path(root: &str, relative: &str) -> (r: Result<String, GameServiceError>)
    ensures
        match r {
            Ok(p) => inside_project(relative@) && p@ == joined_path(root@, relative@),
            Err(e) => !inside_project(relative@) && (e matches GameServiceError::InvalidCharacterOperation(
                m,
            ) && m@ == "文件路径必须位于项目内"@),
        },
{
    let rel = chars_of(relative);
    if (rel.len() > 0 && rel[0] == '/') || has_parent(rel.as_slice()) {
        return Err(GameServiceError::InvalidCharacterOperation(owned("文件路径必须位于项目内")));
    }
    let base = chars_of(root);
    let mut p = owned(root);
    if base.len() > 0 && base[base.len() - 1] != '/' {
        p.append("/");
    }
    p.append(relative);
    Ok(p)
}

/// The project root, which must be an absolute path.
pub fn absolute_root(root: &str) -> (r: Result<String, GameServiceError>)
    ensures
        match r {
            Ok(p) => root@.len() > 0 && root@[0] == '/' && p@ == root@,
            Err(e) => !(root@.len() > 0 && root@[0] == '/') && (e matches GameServiceError::InvalidProjectPath(
                m,
            ) && m@ == root@),
        },
{
    let cs = chars_of(root);
    if cs.len() > 0 && cs[0] == '/' {
        Ok(owned(root))
    } else {
        Err(GameServiceError::InvalidProjectPath(owned(root)))
    }
}

/// The part of the protocol instruction that says who decides the next step.
pub open spec fn control_flow_text(current_agent: Seq<char>, director_agent: Seq<char>) -> Seq<
    char,
> {
    if current_agent == director_agent {
        "你是当前会话总管，只有你可以决定并 handoff 给下一位专业 Agent；无需继续派单时才可使用 done。"@
    } else {
        "你是专业 Agent，只负责当前任务；工作完成后必须 handoff 回总管 "@ + director_agent
            + "，不得直接 done，也不得 handoff 给其他专业 Agent。"@
    }
}

/// The protocol instruction that every turn carries.
pub open spec fn protocol_instruction_text(current_agent: Seq<char>, director_agent: Seq<char>) -> Seq<
    char,
> {
    "每次回复最后必须且只能包含一个 "@ + ACTION_START@ + " JSON "@ + ACTION_END@
        + " 块。顶层只允许 action、target_agent、reason、payload；action 只允许 ask_user、handoff、done、blocked。handoff 目标必须来自 allowed_handoffs，其他动作 target_agent 必须为 null。"@
        + control_flow_text(current_agent, director_agent)
        + " 一次只允许一个待用户完成的交互阶段：payload.choices 与非空 payload.drafts 不得同轮出现；存在待确认问题时只输出 choices，用户完成选择后的下一轮才能输出 drafts 进入最终确认。"@
}

/// Builds the protocol instruction that every turn carries.
pub fn action_protocol_instruction(current_agent: &str, director_agent: &str) -> (r: String)
    ensures
        r@ == protocol_instruction_text(current_agent@, director_agent@),
{
    let mut s = owned("每次回复最后必须且只能包含一个 ");
    s.append(ACTION_START);
    s.append(" JSON ");
    s.append(ACTION_END);
    s.append(
        " 块。顶层只允许 action、target_agent、reason、payload；action 只允许 ask_user、handoff、done、blocked。handoff 目标必须来自 allowed_handoffs，其他动作 target_agent 必须为 null。",
    );
    if str_eq(current_agent, director_agent) {
        s.append(
            "你是当前会话总管，只有你可以决定并 handoff 给下一位专业 Agent；无需继续派单时才可使用 done。",
        );
    } else {
        s.append("你是专业 Agent，只负责当前任务；工作完成后必须 handoff 回总管 ");
        s.append(director_agent);
        s.append("，不得直接 done，也不得 handoff 给其他专业 Agent。");
    }
    s.append(
        " 一次只允许一个待用户完成的交互阶段：payload.choices 与非空 payload.drafts 不得同轮出现；存在待确认问题时只输出 choices，用户完成选择后的下一轮才能输出 drafts 进入最终确认。",
    );
    s
}

/// The index of the first line break at or after `from` (or the length).
pub open spec fn newline_from(s: Seq<char>, from: int) -> int
    decreases s.len() - from,
{
    if from < 0 {
        0
    } else if from >= s.len() {
        s.len() as int
    } else if s[from] == '\n' {
        from
    } else {
        newline_from(s, from + 1)
    }
}

pub proof fn lemma_newline_from(s: Seq<char>, from: int)
    requires
        0 <= from <= s.len(),
    ensures
        from <= newline_from(s, from) <= s.len(),
        newline_from(s, from) < s.len() ==> s[newline_from(s, from)] == '\n',
        forall|k: int| from <= k < newline_from(s, from) ==> s[k] != '\n',
    decreases s.len() - from,
{
    if from < s.len() && s[from] != '\n' {
        lemma_newline_from(s, from + 1);
    }
}

/// Whether a line of `s` that starts at or after `from` (a line start) equals
/// `line` once trimmed.
pub open spec fn trimmed_line_from(s: Seq<char>, from: int, line: Seq<char>) -> bool
    decreases s.len() - from,
{
    if from < 0 || from >= s.len() {
        false
    } else {
        let k = newline_from(s, from);
        proof {
            lemma_newline_from(s, from);
        }
        trim(s.subrange(from, k)) == line || (k < s.len() && trimmed_line_from(s, k + 1, line))
    }
}

/// The entry that keeps the project's local storage out of version control.
pub open spec fn local_storage_ignore_entry() -> Seq<char> {
    "/.codex-game/local/"@
}

/// What to append to a `.gitignore` holding `existing` so that it ignores the
/// local storage: nothing if a line already says so, else the entry on a line
/// of its own.
pub open spec fn ignore_addition(existing: Seq<char>) -> Option<Seq<char>> {
    if trimmed_line_from(existing, 0, local_storage_ignore_entry()) {
        None
    } else if existing.len() > 0 && existing.last() != '\n' {
        Some("\n"@ + local_storage_ignore_entry() + "\n"@)
    } else {
        Some(local_storage_ignore_entry() + "\n"@)
    }
}

fn newline_at(cs: &[char], from: usize) -> (r: usize)
    requires
        from <= cs@.len(),
    ensures
        r == newline_from(cs@, from as int),
{
    let mut k = from;
    while k < cs.len() && cs[k] != '\n'
        invariant
            from <= k <= cs@.len(),
            newline_from(cs@, from as int) == newline_from(cs@, k as int),
        decreases cs@.len() - k,
    {
        k = k + 1;
    }
    k
}

/// Whether a line of `content` equals `line` once trimmed.
pub fn has_trimmed_line(content: &str, line: &str) -> (r: bool)
    ensures
        r == trimmed_line_from(content@, 0, line@),
{
    let cs = chars_of(content);
    let want = chars_of(line);
    let n = cs.len();
    let mut i: usize = 0;
    while i < n
        invariant
            n == cs@.len(),
            cs@ == content@,
            want@ == line@,
            i <= n,
            trimmed_line_from(cs@, 0, want@) == trimmed_line_from(cs@, i as int, want@),
        decreases n - i,
    {
        let k = newline_at(cs.as_slice(), i);
        proof {
            lemma_newline_from(cs@, i as int);
        }
        let seg = string_from_range(cs.as_slice(), i, k);
        let segc = chars_of(seg.as_str());
        let (lo, hi) = trim_bounds(segc.as_slice());
        if range_eq(segc.as_slice(), lo, hi, want.as_slice()) {
            return true;
        }
        if k >= n {
            return false;
        }
        i = k + 1;
    }
    false
}

/// What to append to a `.gitignore` holding `existing` so that it ignores the
/// project's local storage, or `None` when it already does.
pub fn local_storage_ignore_addition(existing: &str) -> (r: Option<String>)
    ensures
        opt_view(r) == ignore_addition(existing@),
{
    if has_trimmed_line(existing, "/.codex-game/local/") {
        return None;
    }
    let cs = chars_of(existing);
    let mut s = String::new();
    if cs.len() > 0 && cs[cs.len() - 1] != '\n' {
        s.append("\n");
    }
    s.append("/.codex-game/local/");
    s.append("\n");
    Some(s)
}

/// The view of an optional string.
pub open spec fn opt_view(o: Option<String>) -> Option<Seq<char>> {
    match o {
        Some(s) => Some(s@),
        None => None,
    }
}


proof fn lemma_newline_at(s: Seq<char>, from: int, k: int)
    requires
        0 <= from <= k < s.len(),
        s[k] == '\n',
        forall|j: int| from <= j < k ==> s[j] != '\n',
    ensures
        newline_from(s, from) == k,
    decreases k - from,
{
    if from < k {
        lemma_newline_at(s, from + 1, k);
    }
}

proof fn lemma_line_found(s: Seq<char>, from: int, p: int, line: Seq<char>)
    requires
        0 <= from <= p < s.len(),
        p == from || s[p - 1] == '\n',
        trim(s.subrange(p, newline_from(s, p))) == line,
    ensures
        trimmed_line_from(s, from, line),
    decreases p - from,
{
    lemma_newline_from(s, from);
    if p > from {
        let k = newline_from(s, from);
        assert(k <= p - 1) by {
            if k > p - 1 {
                assert(s[p - 1] != '\n');
            }
        }
        lemma_line_found(s, k + 1, p, line);
    }
}

/// Appending what `local_storage_ignore_addition` asks for leaves nothing more
/// to add: the entry is then ignored.
pub proof fn law_ignore_addition_is_idempotent(existing: Seq<char>)
    ensures
        match ignore_addition(existing) {
            Some(add) => ignore_addition(existing + add) is None,
            None => true,
        },
{
    let e = local_storage_ignore_entry();
    reveal_strlit("/.codex-game/local/");
    reveal_strlit("\n");
    assert(e.len() == 19);
    assert forall|j: int| 0 <= j < e.len() implies e[j] != '\n' && e[j] != ' ' by {}
    assert(!crate::text::is_ws(e[0]) && !crate::text::is_ws(e[18]));
    assert(crate::text::lead(e, 0) == 0);
    assert(crate::text::trail(e, 19, 0) == 19);
    assert(trim(e) =~= e);
    match ignore_addition(existing) {
        Some(add) => {
            let s = existing + add;
            let p: int = if existing.len() > 0 && existing.last() != '\n' {
                existing.len() + 1int
            } else {
                existing.len() as int
            };
            assert(s.subrange(p, p + 19) =~= e);
            assert(s[p + 19] == '\n');
            assert forall|j: int| p <= j < p + 19 implies s[j] != '\n' by {
                assert(s[j] == e[j - p]);
            }
            lemma_newline_at(s, p, p + 19);
            if p > 0 {
                assert(s[p - 1] == '\n');
            }
            lemma_line_found(s, 0, p, e);
        },
        None => {},
    }
}

} // verus!
