//! The attempts a project store keeps for its tasks, and the rules by which
//! an attempt is created, retried, bound to a turn, finished and recovered
//! after the application stopped in the middle of a run.

use vstd::prelude::*;
use crate::action::{owned, str_eq};
use crate::domain::{TaskAttemptStatus, TaskStatus};
use crate::gates::{first_true, lemma_first_true, lemma_first_true_unique};
use crate::store::{task_status_for_attempt_of, ProjectAccess};
use crate::workflow::opt_string_view;

verus! {

/// Why the store refused an operation.
#[derive(Debug, Clone, PartialEq, Eq)]
pub enum StoreError {
    ReadOnly,
    NotFound(String),
    Conflict(String),
    InvalidData(String),
    Database(String),
}

pub enum StoreErrorView {
    ReadOnly,
    NotFound(Seq<char>),
    Conflict(Seq<char>),
    InvalidData(Seq<char>),
    Database(Seq<char>),
}

impl View for StoreError {
    type V = StoreErrorView;

    open spec fn view(&self) -> StoreErrorView {
        match self {
            StoreError::ReadOnly => StoreErrorView::ReadOnly,
            StoreError::NotFound(m) => StoreErrorView::NotFound(m@),
            StoreError::Conflict(m) => StoreErrorView::Conflict(m@),
            StoreError::InvalidData(m) => StoreErrorView::InvalidData(m@),
            StoreError::Database(m) => StoreErrorView::Database(m@),
        }
    }
}

/// The message of a store error.
pub open spec fn store_error_text(e: StoreErrorView) -> Seq<char> {
    match e {
        StoreErrorView::ReadOnly => "project store is read-only"@,
        StoreErrorView::NotFound(m) => "store record was not found: "@ + m,
        StoreErrorView::Conflict(m) => "store conflict: "@ + m,
        StoreErrorView::InvalidData(m) => "invalid store data: "@ + m,
        StoreErrorView::Database(m) => "database error: "@ + m,
    }
}

impl StoreError {
    /// The message that describes this error.
    pub fn message(&self) -> (r: String)
        ensures
            r@ == store_error_text(self@),
    {
        match self {
            StoreError::ReadOnly => owned("project store is read-only"),
            StoreError::NotFound(m) => {
                let mut s = owned("store record was not found: ");
                s.append(m.as_str());
                s
            },
            StoreError::Conflict(m) => {
                let mut s = owned("store conflict: ");
                s.append(m.as_str());
                s
            },
            StoreError::InvalidData(m) => {
                let mut s = owned("invalid store data: ");
                s.append(m.as_str());
                s
            },
            StoreError::Database(m) => {
                let mut s = owned("database error: ");
                s.append(m.as_str());
                s
            },
        }
    }
}

pub const MSG_RETRY_ENDED: &'static str = "自动重试的原始尝试已结束";
pub const MSG_RETRY_MISMATCH: &'static str = "自动重试上下文与原始尝试不一致";
pub const MSG_RETRY_STARTED: &'static str = "自动重试已经开始，无法回滚";
pub const MSG_RETRY_UNRESTORABLE: &'static str = "自动重试的原始尝试无法恢复";
pub const MSG_DUPLICATE_ATTEMPT: &'static str = "UNIQUE constraint failed: task_attempts.id";
pub const MSG_DUPLICATE_TURN: &'static str = "UNIQUE constraint failed: task_attempts.codex_turn_id";
pub const MSG_DUPLICATE_NUMBER: &'static str = "UNIQUE constraint failed: task_attempts.task_id, task_attempts.attempt_no";
pub const MSG_DUPLICATE_TASK: &'static str = "UNIQUE constraint failed: tasks.id";

/// A new attempt at a task, on a conversation's provider thread.
#[derive(Debug, Clone, PartialEq, Eq)]
pub struct TaskAttempt {
    pub id: String,
    pub task_id: String,
    pub attempt_no: u32,
    pub conversation_codex_thread_id: String,
}

impl View for TaskAttempt {
    type V = AttemptView;

    /// A new attempt is written pending, with no turn.
    open spec fn view(&self) -> AttemptView {
        AttemptView {
            id: self.id@,
            task_id: self.task_id@,
            attempt_no: self.attempt_no,
            thread: self.conversation_codex_thread_id@,
            turn: None,
            status: TaskAttemptStatus::Pending,
        }
    }
}

/// An attempt as the store keeps it: the turn it runs in, once bound, and
/// where it stands.
#[derive(Debug, Clone, PartialEq, Eq)]
pub struct StoredAttempt {
    pub id: String,
    pub task_id: String,
    pub attempt_no: u32,
    pub conversation_codex_thread_id: String,
    pub codex_turn_id: Option<String>,
    pub status: TaskAttemptStatus,
}

pub struct AttemptView {
    pub id: Seq<char>,
    pub task_id: Seq<char>,
    pub attempt_no: u32,
    pub thread: Seq<char>,
    pub turn: Option<Seq<char>>,
    pub status: TaskAttemptStatus,
}

impl View for StoredAttempt {
    type V = AttemptView;

    open spec fn view(&self) -> AttemptView {
        AttemptView {
            id: self.id@,
            task_id: self.task_id@,
            attempt_no: self.attempt_no,
            thread: self.conversation_codex_thread_id@,
            turn: opt_string_view(self.codex_turn_id),
            status: self.status,
        }
    }
}

/// A task as the store keeps it.
#[derive(Debug, Clone, PartialEq, Eq)]
pub struct StoredTask {
    pub id: String,
    pub status: TaskStatus,
}

pub struct TaskView {
    pub id: Seq<char>,
    pub status: TaskStatus,
}

impl View for StoredTask {
    type V = TaskView;

    open spec fn view(&self) -> TaskView {
        TaskView { id: self.id@, status: self.status }
    }
}

/// The attempts and tasks of a store, and whether it may be written.
pub struct LedgerView {
    pub writable: bool,
    pub attempts: Seq<AttemptView>,
    pub tasks: Seq<TaskView>,
}

/// Two attempts that the store's keys let stand side by side: distinct ids,
/// distinct turns where bound, and distinct numbers within a task.
pub open spec fn apart(a: AttemptView, b: AttemptView) -> bool {
    &&& a.id != b.id
    &&& a.turn is Some ==> a.turn != b.turn
    &&& !(a.task_id == b.task_id && a.attempt_no == b.attempt_no)
}

/// What the store's keys guarantee of its attempts.
pub open spec fn attempts_ok(s: Seq<AttemptView>) -> bool {
    forall|i: int, j: int| 0 <= i < j < s.len() ==> apart(s[i], s[j])
}

/// What the store's keys guarantee of its tasks.
pub open spec fn tasks_ok(ts: Seq<TaskView>) -> bool {
    forall|i: int, j: int| 0 <= i < j < ts.len() ==> ts[i].id != ts[j].id
}

/// What the store's keys guarantee of its attempts and tasks.
pub open spec fn ledger_ok(v: LedgerView) -> bool {
    attempts_ok(v.attempts) && tasks_ok(v.tasks)
}

/// The attempt kept under `id`, by its position.
pub open spec fn attempt_index(s: Seq<AttemptView>, id: Seq<char>) -> Option<int> {
    first_true(s.map_values(|a: AttemptView| a.id == id))
}

/// Why the store refuses to keep attempt `a` beside `s`, if it does.
pub open spec fn attempt_refusal(s: Seq<AttemptView>, a: AttemptView) -> Option<Seq<char>> {
    if exists|k: int| 0 <= k < s.len() && s[k].id == a.id {
        Some(MSG_DUPLICATE_ATTEMPT@)
    } else if a.turn is Some && exists|k: int| 0 <= k < s.len() && s[k].turn == a.turn {
        Some(MSG_DUPLICATE_TURN@)
    } else if exists|k: int| 0 <= k < s.len() && s[k].task_id == a.task_id && s[k].attempt_no == a.attempt_no {
        Some(MSG_DUPLICATE_NUMBER@)
    } else {
        None
    }
}

/// The store after attempt `a` is written into it.
pub open spec fn with_attempt(v: LedgerView, a: AttemptView) -> Result<LedgerView, StoreErrorView> {
    if !v.writable {
        Err(StoreErrorView::ReadOnly)
    } else {
        match attempt_refusal(v.attempts, a) {
            Some(m) => Err(StoreErrorView::Database(m)),
            None => Ok(LedgerView { writable: v.writable, attempts: v.attempts.push(a), tasks: v.tasks }),
        }
    }
}

/// The store after task `t` is written into it.
pub open spec fn with_task(v: LedgerView, t: TaskView) -> Result<LedgerView, StoreErrorView> {
    if !v.writable {
        Err(StoreErrorView::ReadOnly)
    } else if exists|k: int| 0 <= k < v.tasks.len() && v.tasks[k].id == t.id {
        Err(StoreErrorView::Database(MSG_DUPLICATE_TASK@))
    } else {
        Ok(LedgerView { writable: v.writable, attempts: v.attempts, tasks: v.tasks.push(t) })
    }
}

/// The view of a store operation's outcome.
pub open spec fn outcome_view(r: Result<(), StoreError>) -> Result<(), StoreErrorView> {
    match r {
        Ok(()) => Ok(()),
        Err(e) => Err(e@),
    }
}

/// That an operation whose effect is `expected` left the store as it says:
/// changed on success, untouched on refusal.
pub open spec fn settles(
    before: LedgerView,
    after: LedgerView,
    r: Result<(), StoreErrorView>,
    expected: Result<LedgerView, StoreErrorView>,
) -> bool {
    match expected {
        Ok(v) => r is Ok && after == v,
        Err(e) => r == Err::<(), StoreErrorView>(e) && after == before,
    }
}

/// The attempts and tasks of one project store.
pub struct AttemptLedger {
    access: ProjectAccess,
    attempts: Vec<StoredAttempt>,
    tasks: Vec<StoredTask>,
}

impl View for AttemptLedger {
    type V = LedgerView;

    closed spec fn view(&self) -> LedgerView {
        LedgerView {
            writable: self.access == ProjectAccess::ReadWrite,
            attempts: self.attempts@.map_values(|a: StoredAttempt| a@),
            tasks: self.tasks@.map_values(|t: StoredTask| t@),
        }
    }
}

fn copy_opt(o: &Option<String>) -> (r: Option<String>)
    ensures
        opt_string_view(r) == opt_string_view(*o),
{
    match o {
        Some(s) => Some(s.clone()),
        None => None,
    }
}

fn copy_attempt(a: &StoredAttempt) -> (r: StoredAttempt)
    ensures
        r@ == a@,
{
    StoredAttempt {
        id: a.id.clone(),
        task_id: a.task_id.clone(),
        attempt_no: a.attempt_no,
        conversation_codex_thread_id: a.conversation_codex_thread_id.clone(),
        codex_turn_id: copy_opt(&a.codex_turn_id),
        status: a.status,
    }
}

/// The position of the attempt kept under `id`, if any.
fn find_attempt(attempts: &Vec<StoredAttempt>, id: &str) -> (r: Option<usize>)
    ensures
        match r {
            Some(i) => i < attempts@.len() && attempt_index(attempts@.map_values(|a: StoredAttempt| a@), id@)
                == Some(i as int),
            None => attempt_index(attempts@.map_values(|a: StoredAttempt| a@), id@) is None,
        },
{
    let ghost s = attempts@.map_values(|a: StoredAttempt| a@);
    let ghost flags = s.map_values(|a: AttemptView| a.id == id@);
    let mut i: usize = 0;
    while i < attempts.len()
        invariant
            i <= attempts@.len(),
            s == attempts@.map_values(|a: StoredAttempt| a@),
            flags == s.map_values(|a: AttemptView| a.id == id@),
            forall|j: int| 0 <= j < i ==> !flags[j],
        decreases attempts.len() - i,
    {
        if str_eq(attempts[i].id.as_str(), id) {
            proof {
                lemma_first_true_unique(flags, i as int);
            }
            return Some(i);
        }
        i = i + 1;
    }
    proof {
        lemma_first_true(flags);
    }
    None
}

impl AttemptLedger {
    /// An empty store with the given access.
    pub fn new(access: ProjectAccess) -> (r: Self)
        ensures
            r@.writable == (access == ProjectAccess::ReadWrite),
            r@.attempts == Seq::<AttemptView>::empty(),
            r@.tasks == Seq::<TaskView>::empty(),
    {
        let r = AttemptLedger { access, attempts: Vec::new(), tasks: Vec::new() };
        assert(r@.attempts =~= Seq::<AttemptView>::empty());
        assert(r@.tasks =~= Seq::<TaskView>::empty());
        r
    }

    fn require_writable(&self) -> (r: Result<(), StoreError>)
        ensures
            r is Ok <==> self@.writable,
            r is Err ==> r == Err::<(), StoreError>(StoreError::ReadOnly),
    {
        match self.access {
            ProjectAccess::ReadOnly => Err(StoreError::ReadOnly),
            ProjectAccess::ReadWrite => Ok(()),
        }
    }

    /// The attempt kept under `id`, if any.
    pub fn attempt(&self, id: &str) -> (r: Option<StoredAttempt>)
        ensures
            match attempt_index(self@.attempts, id@) {
                Some(i) => r matches Some(a) && a@ == self@.attempts[i],
                None => r is None,
            },
    {
        match find_attempt(&self.attempts, id) {
            Some(i) => Some(copy_attempt(&self.attempts[i])),
            None => None,
        }
    }

    /// The status of the task kept under `id`, if any.
    pub fn task_status(&self, id: &str) -> (r: Option<TaskStatus>)
        ensures
            match r {
                Some(st) => exists|k: int| 0 <= k < self@.tasks.len() && self@.tasks[k].id == id@ && self@.tasks[k].status == st
                    && forall|j: int| 0 <= j < k ==> self@.tasks[j].id != id@,
                None => forall|k: int| 0 <= k < self@.tasks.len() ==> self@.tasks[k].id != id@,
            },
    {
        let mut i: usize = 0;
        while i < self.tasks.len()
            invariant
                i <= self.tasks@.len(),
                forall|j: int| 0 <= j < i ==> self@.tasks[j].id != id@,
            decreases self.tasks.len() - i,
        {
            if str_eq(self.tasks[i].id.as_str(), id) {
                assert(self@.tasks[i as int].id == id@);
                return Some(self.tasks[i].status);
            }
            i = i + 1;
        }
        None
    }

    /// Writes attempt `a` into the store, unless the store is read-only or one
    /// of its keys (id, turn, number within the task) is taken.
    pub fn insert_attempt(&mut self, a: StoredAttempt) -> (r: Result<(), StoreError>)
        requires
            ledger_ok(old(self)@),
        ensures
            ledger_ok(final(self)@),
            settles(old(self)@, final(self)@, outcome_view(r), with_attempt(old(self)@, a@)),
    {
        if let Err(e) = self.require_writable() {
            return Err(e);
        }
        let ghost s = self@.attempts;
        let mut id_taken = false;
        let mut turn_taken = false;
        let mut number_taken = false;
        let mut i: usize = 0;
        while i < self.attempts.len()
            invariant
                i <= self.attempts@.len(),
                s == self@.attempts,
                s.len() == self.attempts@.len(),
                id_taken == exists|k: int| 0 <= k < i && s[k].id == a@.id,
                turn_taken == (a@.turn is Some && exists|k: int| 0 <= k < i && s[k].turn == a@.turn),
                number_taken == exists|k: int| 0 <= k < i && s[k].task_id == a@.task_id && s[k].attempt_no == a@.attempt_no,
            decreases self.attempts.len() - i,
        {
            let b = &self.attempts[i];
            proof {
                assert(s[i as int] == b@);
            }
            if str_eq(b.id.as_str(), a.id.as_str()) {
                id_taken = true;
            }
            match (&a.codex_turn_id, &b.codex_turn_id) {
                (Some(x), Some(y)) => {
                    if str_eq(x.as_str(), y.as_str()) {
                        turn_taken = true;
                    }
                },
                _ => {},
            }
            if str_eq(b.task_id.as_str(), a.task_id.as_str()) && b.attempt_no == a.attempt_no {
                number_taken = true;
            }
            i = i + 1;
        }
        if id_taken {
            return Err(StoreError::Database(owned(MSG_DUPLICATE_ATTEMPT)));
        }
        if turn_taken {
            return Err(StoreError::Database(owned(MSG_DUPLICATE_TURN)));
        }
        if number_taken {
            return Err(StoreError::Database(owned(MSG_DUPLICATE_NUMBER)));
        }
        let ghost before = self@;
        self.attempts.push(a);
        proof {
            assert(self@.attempts =~= before.attempts.push(a@));
            assert(self@.tasks =~= before.tasks);
        }
        Ok(())
    }

    /// Writes task `t` into the store, unless the store is read-only or the
    /// task's id is taken.
    pub fn insert_task(&mut self, t: StoredTask) -> (r: Result<(), StoreError>)
        requires
            ledger_ok(old(self)@),
        ensures
            ledger_ok(final(self)@),
            settles(old(self)@, final(self)@, outcome_view(r), with_task(old(self)@, t@)),
    {
        if let Err(e) = self.require_writable() {
            return Err(e);
        }
        let mut taken = false;
        let mut i: usize = 0;
        while i < self.tasks.len()
            invariant
                i <= self.tasks@.len(),
                taken == exists|k: int| 0 <= k < i && self@.tasks[k].id == t@.id,
            decreases self.tasks.len() - i,
        {
            if str_eq(self.tasks[i].id.as_str(), t.id.as_str()) {
                taken = true;
            }
            assert(self@.tasks[i as int] == self.tasks@[i as int]@);
            i = i + 1;
        }
        if taken {
            return Err(StoreError::Database(owned(MSG_DUPLICATE_TASK)));
        }
        let ghost before = self@;
        self.tasks.push(t);
        proof {
            assert(self@.attempts =~= before.attempts);
            assert(self@.tasks =~= before.tasks.push(t@));
        }
        Ok(())
    }
}


// --- transitions -------------------------------------------------------------

/// Attempt `a` in status `st`.
pub open spec fn with_status(a: AttemptView, st: TaskAttemptStatus) -> AttemptView {
    AttemptView { id: a.id, task_id: a.task_id, attempt_no: a.attempt_no, thread: a.thread, turn: a.turn, status: st }
}

/// The tasks with every task kept under `id` in status `st`.
pub open spec fn set_task_status(ts: Seq<TaskView>, id: Seq<char>, st: TaskStatus) -> Seq<TaskView> {
    ts.map_values(|t: TaskView| if t.id == id { TaskView { id: t.id, status: st } } else { t })
}

/// The store after a running attempt `current` gives way to `retry`: the
/// running attempt fails, the retry is written pending, and the task runs.
/// The retry must continue the same task on the same thread with the next
/// number.
pub open spec fn retried(v: LedgerView, current: Seq<char>, retry: AttemptView) -> Result<LedgerView, StoreErrorView> {
    if !v.writable {
        Err(StoreErrorView::ReadOnly)
    } else {
        match attempt_index(v.attempts, current) {
            Some(i) => if v.attempts[i].status != TaskAttemptStatus::Running {
                Err(StoreErrorView::Conflict(MSG_RETRY_ENDED@))
            } else if retry.task_id != v.attempts[i].task_id || retry.attempt_no != v.attempts[i].attempt_no + 1
                || retry.thread != v.attempts[i].thread {
                Err(StoreErrorView::Conflict(MSG_RETRY_MISMATCH@))
            } else {
                let s = v.attempts.update(i, with_status(v.attempts[i], TaskAttemptStatus::Failed));
                match attempt_refusal(s, retry) {
                    Some(m) => Err(StoreErrorView::Database(m)),
                    None => Ok(
                        LedgerView {
                            writable: v.writable,
                            attempts: s.push(retry),
                            tasks: set_task_status(v.tasks, v.attempts[i].task_id, TaskStatus::Running),
                        },
                    ),
                }
            },
            None => Err(StoreErrorView::Conflict(MSG_RETRY_ENDED@)),
        }
    }
}

/// The store after a retry that has not started is taken back: the retry is
/// removed, the attempt it replaced runs again, and so does its task.
pub open spec fn rolled_back(v: LedgerView, current: Seq<char>, retry_id: Seq<char>) -> Result<LedgerView, StoreErrorView> {
    if !v.writable {
        Err(StoreErrorView::ReadOnly)
    } else {
        match attempt_index(v.attempts, retry_id) {
            Some(j) => if v.attempts[j].status != TaskAttemptStatus::Pending || v.attempts[j].turn is Some {
                Err(StoreErrorView::Conflict(MSG_RETRY_STARTED@))
            } else {
                let s = v.attempts.remove(j);
                match attempt_index(s, current) {
                    Some(i) => if s[i].status != TaskAttemptStatus::Failed {
                        Err(StoreErrorView::Conflict(MSG_RETRY_UNRESTORABLE@))
                    } else {
                        Ok(
                            LedgerView {
                                writable: v.writable,
                                attempts: s.update(i, with_status(s[i], TaskAttemptStatus::Running)),
                                tasks: set_task_status(v.tasks, s[i].task_id, TaskStatus::Running),
                            },
                        )
                    },
                    None => Err(StoreErrorView::Conflict(MSG_RETRY_UNRESTORABLE@)),
                }
            },
            None => Err(StoreErrorView::Conflict(MSG_RETRY_STARTED@)),
        }
    }
}

/// The store after attempt `id` is put in status `st`; its task follows.
pub open spec fn marked(v: LedgerView, id: Seq<char>, st: TaskAttemptStatus) -> Result<LedgerView, StoreErrorView> {
    if !v.writable {
        Err(StoreErrorView::ReadOnly)
    } else {
        match attempt_index(v.attempts, id) {
            Some(i) => Ok(
                LedgerView {
                    writable: v.writable,
                    attempts: v.attempts.update(i, with_status(v.attempts[i], st)),
                    tasks: set_task_status(v.tasks, v.attempts[i].task_id, task_status_for_attempt_of(st)),
                },
            ),
            None => Err(StoreErrorView::NotFound("task attempt "@ + id)),
        }
    }
}

/// Attempt `a` bound to `turn` and running.
pub open spec fn on_turn(a: AttemptView, turn: Seq<char>) -> AttemptView {
    AttemptView {
        id: a.id,
        task_id: a.task_id,
        attempt_no: a.attempt_no,
        thread: a.thread,
        turn: Some(turn),
        status: TaskAttemptStatus::Running,
    }
}

/// The store after attempt `id`, not yet bound, is bound to `turn`: it runs,
/// and so does its task. A turn binds one attempt only.
pub open spec fn bound(v: LedgerView, id: Seq<char>, turn: Seq<char>) -> Result<LedgerView, StoreErrorView> {
    if !v.writable {
        Err(StoreErrorView::ReadOnly)
    } else {
        match attempt_index(v.attempts, id) {
            Some(i) => if v.attempts[i].turn is Some {
                Err(StoreErrorView::NotFound("unbound task attempt "@ + id))
            } else if exists|k: int| 0 <= k < v.attempts.len() && v.attempts[k].turn == Some(turn) {
                Err(StoreErrorView::Database(MSG_DUPLICATE_TURN@))
            } else {
                Ok(
                    LedgerView {
                        writable: v.writable,
                        attempts: v.attempts.update(i, on_turn(v.attempts[i], turn)),
                        tasks: set_task_status(v.tasks, v.attempts[i].task_id, TaskStatus::Running),
                    },
                )
            },
            None => Err(StoreErrorView::NotFound("unbound task attempt "@ + id)),
        }
    }
}

/// Whether an attempt has not ended.
pub open spec fn unfinished(st: TaskAttemptStatus) -> bool {
    st == TaskAttemptStatus::Pending || st == TaskAttemptStatus::Running
}

/// The attempt that runs in `turn` and has not ended, by its position.
pub open spec fn turn_index(s: Seq<AttemptView>, turn: Seq<char>) -> Option<int> {
    first_true(s.map_values(|a: AttemptView| a.turn == Some(turn) && unfinished(a.status)))
}

/// The store after the turn `turn` ends with its attempt in status `st`: the
/// attempt and its task take that status. With no such attempt nothing
/// changes.
pub open spec fn completed(v: LedgerView, turn: Seq<char>, st: TaskAttemptStatus) -> LedgerView {
    match turn_index(v.attempts, turn) {
        Some(i) => LedgerView {
            writable: v.writable,
            attempts: v.attempts.update(i, with_status(v.attempts[i], st)),
            tasks: set_task_status(v.tasks, v.attempts[i].task_id, task_status_for_attempt_of(st)),
        },
        None => v,
    }
}

/// An attempt after the application restarted: one that had not ended is
/// interrupted.
pub open spec fn interrupted(a: AttemptView) -> AttemptView {
    if unfinished(a.status) {
        with_status(a, TaskAttemptStatus::Interrupted)
    } else {
        a
    }
}

/// Whether some attempt at task `id` was interrupted.
pub open spec fn has_interrupted(s: Seq<AttemptView>, id: Seq<char>) -> bool {
    exists|k: int| 0 <= k < s.len() && s[k].task_id == id && s[k].status == TaskAttemptStatus::Interrupted
}

/// A task after the application restarted: one that had not ended fails
/// where one of its attempts was interrupted.
pub open spec fn task_after_restart(t: TaskView, s: Seq<AttemptView>) -> TaskView {
    if (t.status == TaskStatus::Pending || t.status == TaskStatus::Running) && has_interrupted(s, t.id) {
        TaskView { id: t.id, status: TaskStatus::Failed }
    } else {
        t
    }
}

/// The store after the application restarted.
pub open spec fn recovered(v: LedgerView) -> LedgerView {
    let s = v.attempts.map_values(|a: AttemptView| interrupted(a));
    LedgerView { writable: v.writable, attempts: s, tasks: v.tasks.map_values(|t: TaskView| task_after_restart(t, s)) }
}

/// The attempts that had not ended, in the store's order.
pub open spec fn unfinished_attempts(s: Seq<AttemptView>) -> Seq<AttemptView>
    decreases s.len(),
{
    if s.len() == 0 {
        s
    } else if unfinished(s.last().status) {
        unfinished_attempts(s.drop_last()).push(s.last())
    } else {
        unfinished_attempts(s.drop_last())
    }
}

// --- keeping the keys ---------------------------------------------------------

proof fn lemma_update_keeps_keys(s: Seq<AttemptView>, i: int, b: AttemptView)
    requires
        attempts_ok(s),
        0 <= i < s.len(),
        b.id == s[i].id,
        b.task_id == s[i].task_id,
        b.attempt_no == s[i].attempt_no,
        b.turn == s[i].turn || (b.turn is Some && forall|k: int| 0 <= k < s.len() ==> s[k].turn != b.turn),
    ensures
        attempts_ok(s.update(i, b)),
{
    let u = s.update(i, b);
    assert forall|x: int, y: int| 0 <= x < y < u.len() implies apart(u[x], u[y]) by {
        assert(apart(s[x], s[y]));
    }
}

proof fn lemma_push_keeps_keys(s: Seq<AttemptView>, a: AttemptView)
    requires
        attempts_ok(s),
        attempt_refusal(s, a) is None,
    ensures
        attempts_ok(s.push(a)),
{
    let u = s.push(a);
    assert forall|x: int, y: int| 0 <= x < y < u.len() implies apart(u[x], u[y]) by {
        if y < s.len() {
            assert(apart(s[x], s[y]));
        } else {
            assert(u[x] == s[x]);
            assert(s[x].id != a.id);
            assert(!(s[x].task_id == a.task_id && s[x].attempt_no == a.attempt_no));
        }
    }
}

proof fn lemma_remove_keeps_keys(s: Seq<AttemptView>, j: int)
    requires
        attempts_ok(s),
        0 <= j < s.len(),
    ensures
        attempts_ok(s.remove(j)),
{
    let u = s.remove(j);
    assert forall|x: int, y: int| 0 <= x < y < u.len() implies apart(u[x], u[y]) by {
        let x0 = if x < j { x } else { x + 1 };
        let y0 = if y < j { y } else { y + 1 };
        assert(u[x] == s[x0]);
        assert(u[y] == s[y0]);
        assert(apart(s[x0], s[y0]));
    }
}

proof fn lemma_task_status_keeps_keys(ts: Seq<TaskView>, id: Seq<char>, st: TaskStatus)
    requires
        tasks_ok(ts),
    ensures
        tasks_ok(set_task_status(ts, id, st)),
{
    let u = set_task_status(ts, id, st);
    assert forall|x: int, y: int| 0 <= x < y < u.len() implies u[x].id != u[y].id by {
        assert(ts[x].id != ts[y].id);
    }
}

proof fn lemma_refusal_ignores_status(s: Seq<AttemptView>, i: int, st: TaskAttemptStatus, a: AttemptView)
    requires
        0 <= i < s.len(),
    ensures
        attempt_refusal(s.update(i, with_status(s[i], st)), a) == attempt_refusal(s, a),
{
    let u = s.update(i, with_status(s[i], st));
    assert forall|k: int| 0 <= k < s.len() implies u[k].id == s[k].id && u[k].turn == s[k].turn
        && u[k].task_id == s[k].task_id && u[k].attempt_no == s[k].attempt_no by {}
    if exists|k: int| 0 <= k < s.len() && s[k].id == a.id {
        let k = choose|k: int| 0 <= k < s.len() && s[k].id == a.id;
        assert(u[k].id == a.id);
    }
    if exists|k: int| 0 <= k < s.len() && s[k].turn == a.turn {
        let k = choose|k: int| 0 <= k < s.len() && s[k].turn == a.turn;
        assert(u[k].turn == a.turn);
    }
    if exists|k: int| 0 <= k < s.len() && s[k].task_id == a.task_id && s[k].attempt_no == a.attempt_no {
        let k = choose|k: int| 0 <= k < s.len() && s[k].task_id == a.task_id && s[k].attempt_no == a.attempt_no;
        assert(u[k].task_id == a.task_id);
    }
}

// --- the executable side ------------------------------------------------------

/// Why the store refuses to keep `a` beside `attempts`, if it does.
fn refusal(attempts: &Vec<StoredAttempt>, a: &StoredAttempt) -> (r: Option<&'static str>)
    ensures
        match attempt_refusal(attempts@.map_values(|x: StoredAttempt| x@), a@) {
            Some(m) => r matches Some(t) && t@ == m,
            None => r is None,
        },
{
    let ghost s = attempts@.map_values(|x: StoredAttempt| x@);
    let mut id_taken = false;
    let mut turn_taken = false;
    let mut number_taken = false;
    let mut i: usize = 0;
    while i < attempts.len()
        invariant
            i <= attempts@.len(),
            s == attempts@.map_values(|x: StoredAttempt| x@),
            id_taken == exists|k: int| 0 <= k < i && s[k].id == a@.id,
            turn_taken == (a@.turn is Some && exists|k: int| 0 <= k < i && s[k].turn == a@.turn),
            number_taken == exists|k: int| 0 <= k < i && s[k].task_id == a@.task_id && s[k].attempt_no == a@.attempt_no,
        decreases attempts.len() - i,
    {
        let b = &attempts[i];
        proof {
            assert(s[i as int] == b@);
        }
        if str_eq(b.id.as_str(), a.id.as_str()) {
            id_taken = true;
        }
        match (&a.codex_turn_id, &b.codex_turn_id) {
            (Some(x), Some(y)) => {
                if str_eq(x.as_str(), y.as_str()) {
                    turn_taken = true;
                }
            },
            _ => {},
        }
        if str_eq(b.task_id.as_str(), a.task_id.as_str()) && b.attempt_no == a.attempt_no {
            number_taken = true;
        }
        i = i + 1;
    }
    if id_taken {
        Some(MSG_DUPLICATE_ATTEMPT)
    } else if turn_taken {
        Some(MSG_DUPLICATE_TURN)
    } else if number_taken {
        Some(MSG_DUPLICATE_NUMBER)
    } else {
        None
    }
}

fn task_status_after(status: TaskAttemptStatus) -> (r: TaskStatus)
    ensures
        r == task_status_for_attempt_of(status),
{
    match status {
        TaskAttemptStatus::Pending => TaskStatus::Pending,
        TaskAttemptStatus::Running => TaskStatus::Running,
        TaskAttemptStatus::Succeeded => TaskStatus::Succeeded,
        TaskAttemptStatus::Cancelled => TaskStatus::Cancelled,
        TaskAttemptStatus::Failed | TaskAttemptStatus::Interrupted | TaskAttemptStatus::Unknown => TaskStatus::Failed,
    }
}

/// The stored form of a new attempt.
fn stored(a: &TaskAttempt) -> (r: StoredAttempt)
    ensures
        r@ == a@,
{
    StoredAttempt {
        id: a.id.clone(),
        task_id: a.task_id.clone(),
        attempt_no: a.attempt_no,
        conversation_codex_thread_id: a.conversation_codex_thread_id.clone(),
        codex_turn_id: None,
        status: TaskAttemptStatus::Pending,
    }
}

fn set_status_at(attempts: &mut Vec<StoredAttempt>, i: usize, st: TaskAttemptStatus)
    requires
        i < old(attempts)@.len(),
    ensures
        final(attempts)@.len() == old(attempts)@.len(),
        forall|j: int| 0 <= j < old(attempts)@.len() && j != i ==> final(attempts)@[j] == old(attempts)@[j],
        final(attempts)@[i as int]@ == with_status(old(attempts)@[i as int]@, st),
        final(attempts)@.map_values(|x: StoredAttempt| x@) == old(attempts)@.map_values(|x: StoredAttempt| x@).update(
            i as int,
            with_status(old(attempts)@[i as int]@, st),
        ),
{
    let ghost before = attempts@.map_values(|x: StoredAttempt| x@);
    let b = &attempts[i];
    let c = StoredAttempt {
        id: b.id.clone(),
        task_id: b.task_id.clone(),
        attempt_no: b.attempt_no,
        conversation_codex_thread_id: b.conversation_codex_thread_id.clone(),
        codex_turn_id: copy_opt(&b.codex_turn_id),
        status: st,
    };
    attempts.set(i, c);
    assert(attempts@.map_values(|x: StoredAttempt| x@) =~= before.update(i as int, with_status(before[i as int], st)));
}

fn set_turn_at(attempts: &mut Vec<StoredAttempt>, i: usize, turn: &str)
    requires
        i < old(attempts)@.len(),
    ensures
        final(attempts)@.map_values(|x: StoredAttempt| x@) == old(attempts)@.map_values(|x: StoredAttempt| x@).update(
            i as int,
            on_turn(old(attempts)@[i as int]@, turn@),
        ),
{
    let ghost before = attempts@.map_values(|x: StoredAttempt| x@);
    let b = &attempts[i];
    let c = StoredAttempt {
        id: b.id.clone(),
        task_id: b.task_id.clone(),
        attempt_no: b.attempt_no,
        conversation_codex_thread_id: b.conversation_codex_thread_id.clone(),
        codex_turn_id: Some(owned(turn)),
        status: TaskAttemptStatus::Running,
    };
    attempts.set(i, c);
    assert(attempts@.map_values(|x: StoredAttempt| x@) =~= before.update(i as int, on_turn(before[i as int], turn@)));
}

fn set_tasks(tasks: &mut Vec<StoredTask>, id: &str, st: TaskStatus)
    ensures
        final(tasks)@.map_values(|t: StoredTask| t@) == set_task_status(old(tasks)@.map_values(|t: StoredTask| t@), id@, st),
{
    let ghost before = tasks@.map_values(|t: StoredTask| t@);
    let ghost target = set_task_status(before, id@, st);
    let n = tasks.len();
    let mut i: usize = 0;
    while i < n
        invariant
            n == tasks@.len(),
            n == before.len(),
            i <= n,
            target == set_task_status(before, id@, st),
            forall|j: int| 0 <= j < i ==> (#[trigger] tasks@[j])@ == target[j],
            forall|j: int| i <= j < n ==> (#[trigger] tasks@[j])@ == before[j],
        decreases n - i,
    {
        if str_eq(tasks[i].id.as_str(), id) {
            let t = StoredTask { id: tasks[i].id.clone(), status: st };
            tasks.set(i, t);
        }
        i = i + 1;
    }
    assert(tasks@.map_values(|t: StoredTask| t@) =~= target);
}

impl AttemptLedger {
    /// Writes a new task and its first attempt, both pending.
    pub fn create_task_attempt(&mut self, task_id: &str, attempt: &TaskAttempt) -> (r: Result<(), StoreError>)
        requires
            ledger_ok(old(self)@),
        ensures
            ledger_ok(final(self)@),
            settles(
                old(self)@,
                final(self)@,
                outcome_view(r),
                match with_task(old(self)@, TaskView { id: task_id@, status: TaskStatus::Pending }) {
                    Ok(v) => with_attempt(v, attempt@),
                    Err(e) => Err(e),
                },
            ),
    {
        if let Err(e) = self.require_writable() {
            return Err(e);
        }
        let ghost before = self@;
        let a = stored(attempt);
        let refused = refusal(&self.attempts, &a);
        let t = StoredTask { id: owned(task_id), status: TaskStatus::Pending };
        let mut taken = false;
        let mut i: usize = 0;
        while i < self.tasks.len()
            invariant
                i <= self.tasks@.len(),
                taken == exists|k: int| 0 <= k < i && self@.tasks[k].id == task_id@,
            decreases self.tasks.len() - i,
        {
            if str_eq(self.tasks[i].id.as_str(), task_id) {
                taken = true;
            }
            assert(self@.tasks[i as int] == self.tasks@[i as int]@);
            i = i + 1;
        }
        if taken {
            return Err(StoreError::Database(owned(MSG_DUPLICATE_TASK)));
        }
        if let Some(m) = refused {
            return Err(StoreError::Database(owned(m)));
        }
        self.tasks.push(t);
        self.attempts.push(a);
        proof {
            assert(self@.attempts =~= before.attempts.push(attempt@));
            assert(self@.tasks =~= before.tasks.push(TaskView { id: task_id@, status: TaskStatus::Pending }));
            lemma_push_keeps_keys(before.attempts, attempt@);
        }
        Ok(())
    }

    /// Starts `retry` in place of the running attempt `current_attempt_id`.
    pub fn begin_task_attempt_retry(&mut self, current_attempt_id: &str, retry_attempt: &TaskAttempt) -> (r: Result<
        (),
        StoreError,
    >)
        requires
            ledger_ok(old(self)@),
        ensures
            ledger_ok(final(self)@),
            settles(old(self)@, final(self)@, outcome_view(r), retried(old(self)@, current_attempt_id@, retry_attempt@)),
    {
        if let Err(e) = self.require_writable() {
            return Err(e);
        }
        let ghost before = self@;
        let i = match find_attempt(&self.attempts, current_attempt_id) {
            Some(i) => i,
            None => {
                return Err(StoreError::Conflict(owned(MSG_RETRY_ENDED)));
            },
        };
        if self.attempts[i].status != TaskAttemptStatus::Running {
            return Err(StoreError::Conflict(owned(MSG_RETRY_ENDED)));
        }
        let same_task = str_eq(retry_attempt.task_id.as_str(), self.attempts[i].task_id.as_str());
        let next_number = retry_attempt.attempt_no as u64 == self.attempts[i].attempt_no as u64 + 1;
        let same_thread = str_eq(
            retry_attempt.conversation_codex_thread_id.as_str(),
            self.attempts[i].conversation_codex_thread_id.as_str(),
        );
        if !same_task || !next_number || !same_thread {
            return Err(StoreError::Conflict(owned(MSG_RETRY_MISMATCH)));
        }
        let a = stored(retry_attempt);
        let refused = refusal(&self.attempts, &a);
        proof {
            lemma_refusal_ignores_status(before.attempts, i as int, TaskAttemptStatus::Failed, retry_attempt@);
        }
        if let Some(m) = refused {
            return Err(StoreError::Database(owned(m)));
        }
        let task_id = self.attempts[i].task_id.clone();
        set_status_at(&mut self.attempts, i, TaskAttemptStatus::Failed);
        let ghost mid = self@.attempts;
        self.attempts.push(a);
        set_tasks(&mut self.tasks, task_id.as_str(), TaskStatus::Running);
        proof {
            assert(self@.attempts =~= mid.push(retry_attempt@));
            lemma_update_keeps_keys(before.attempts, i as int, with_status(before.attempts[i as int], TaskAttemptStatus::Failed));
            lemma_push_keeps_keys(mid, retry_attempt@);
            lemma_task_status_keeps_keys(before.tasks, task_id@, TaskStatus::Running);
        }
        Ok(())
    }

    /// Takes back a retry that has not started, and lets the attempt it
    /// replaced run again.
    pub fn rollback_task_attempt_retry(&mut self, current_attempt_id: &str, retry_attempt_id: &str) -> (r: Result<
        (),
        StoreError,
    >)
        requires
            ledger_ok(old(self)@),
        ensures
            ledger_ok(final(self)@),
            settles(old(self)@, final(self)@, outcome_view(r), rolled_back(old(self)@, current_attempt_id@, retry_attempt_id@)),
    {
        if let Err(e) = self.require_writable() {
            return Err(e);
        }
        let ghost before = self@;
        let j = match find_attempt(&self.attempts, retry_attempt_id) {
            Some(j) => j,
            None => {
                return Err(StoreError::Conflict(owned(MSG_RETRY_STARTED)));
            },
        };
        if self.attempts[j].status != TaskAttemptStatus::Pending || self.attempts[j].codex_turn_id.is_some() {
            return Err(StoreError::Conflict(owned(MSG_RETRY_STARTED)));
        }
        let removed = self.attempts.remove(j);
        proof {
            assert(self@.attempts =~= before.attempts.remove(j as int));
        }
        let i = match find_attempt(&self.attempts, current_attempt_id) {
            Some(i) => i,
            None => {
                self.attempts.insert(j, removed);
                proof {
                    assert(self@.attempts =~= before.attempts);
                }
                return Err(StoreError::Conflict(owned(MSG_RETRY_UNRESTORABLE)));
            },
        };
        if self.attempts[i].status != TaskAttemptStatus::Failed {
            self.attempts.insert(j, removed);
            proof {
                assert(self@.attempts =~= before.attempts);
            }
            return Err(StoreError::Conflict(owned(MSG_RETRY_UNRESTORABLE)));
        }
        let ghost s = self@.attempts;
        let task_id = self.attempts[i].task_id.clone();
        set_status_at(&mut self.attempts, i, TaskAttemptStatus::Running);
        set_tasks(&mut self.tasks, task_id.as_str(), TaskStatus::Running);
        proof {
            lemma_remove_keeps_keys(before.attempts, j as int);
            lemma_update_keeps_keys(s, i as int, with_status(s[i as int], TaskAttemptStatus::Running));
            lemma_task_status_keeps_keys(before.tasks, task_id@, TaskStatus::Running);
        }
        Ok(())
    }

    /// Puts attempt `attempt_id` in `status`; its task follows.
    pub fn mark_attempt_status(&mut self, attempt_id: &str, status: TaskAttemptStatus) -> (r: Result<(), StoreError>)
        requires
            ledger_ok(old(self)@),
        ensures
            ledger_ok(final(self)@),
            settles(old(self)@, final(self)@, outcome_view(r), marked(old(self)@, attempt_id@, status)),
    {
        if let Err(e) = self.require_writable() {
            return Err(e);
        }
        let ghost before = self@;
        let i = match find_attempt(&self.attempts, attempt_id) {
            Some(i) => i,
            None => {
                let mut m = owned("task attempt ");
                m.append(attempt_id);
                return Err(StoreError::NotFound(m));
            },
        };
        let task_id = self.attempts[i].task_id.clone();
        set_status_at(&mut self.attempts, i, status);
        set_tasks(&mut self.tasks, task_id.as_str(), task_status_after(status));
        proof {
            lemma_update_keeps_keys(before.attempts, i as int, with_status(before.attempts[i as int], status));
            lemma_task_status_keeps_keys(before.tasks, task_id@, task_status_for_attempt_of(status));
        }
        Ok(())
    }
}


/// The position of the attempt that runs in `turn` and has not ended, if any.
fn find_turn(attempts: &Vec<StoredAttempt>, turn: &str) -> (r: Option<usize>)
    ensures
        match r {
            Some(i) => i < attempts@.len() && turn_index(attempts@.map_values(|a: StoredAttempt| a@), turn@)
                == Some(i as int),
            None => turn_index(attempts@.map_values(|a: StoredAttempt| a@), turn@) is None,
        },
{
    let ghost s = attempts@.map_values(|a: StoredAttempt| a@);
    let ghost flags = s.map_values(|a: AttemptView| a.turn == Some(turn@) && unfinished(a.status));
    let mut i: usize = 0;
    while i < attempts.len()
        invariant
            i <= attempts@.len(),
            s == attempts@.map_values(|a: StoredAttempt| a@),
            flags == s.map_values(|a: AttemptView| a.turn == Some(turn@) && unfinished(a.status)),
            forall|j: int| 0 <= j < i ==> !flags[j],
        decreases attempts.len() - i,
    {
        let a = &attempts[i];
        let on = match &a.codex_turn_id {
            Some(t) => str_eq(t.as_str(), turn),
            None => false,
        };
        let open = a.status == TaskAttemptStatus::Pending || a.status == TaskAttemptStatus::Running;
        proof {
            assert(s[i as int] == a@);
        }
        if on && open {
            proof {
                lemma_first_true_unique(flags, i as int);
            }
            return Some(i);
        }
        i = i + 1;
    }
    proof {
        lemma_first_true(flags);
    }
    None
}

/// Whether some attempt runs in `turn`.
fn turn_taken(attempts: &Vec<StoredAttempt>, turn: &str) -> (r: bool)
    ensures
        r == exists|k: int| 0 <= k < attempts@.len() && attempts@[k]@.turn == Some(turn@),
{
    let mut i: usize = 0;
    while i < attempts.len()
        invariant
            i <= attempts@.len(),
            forall|k: int| 0 <= k < i ==> attempts@[k]@.turn != Some(turn@),
        decreases attempts.len() - i,
    {
        match &attempts[i].codex_turn_id {
            Some(t) => {
                if str_eq(t.as_str(), turn) {
                    return true;
                }
            },
            None => {},
        }
        i = i + 1;
    }
    false
}

/// Whether some attempt at task `id` was interrupted.
fn any_interrupted(attempts: &Vec<StoredAttempt>, id: &str) -> (r: bool)
    ensures
        r == has_interrupted(attempts@.map_values(|a: StoredAttempt| a@), id@),
{
    let ghost s = attempts@.map_values(|a: StoredAttempt| a@);
    let mut i: usize = 0;
    while i < attempts.len()
        invariant
            i <= attempts@.len(),
            s == attempts@.map_values(|a: StoredAttempt| a@),
            forall|k: int| 0 <= k < i ==> !(s[k].task_id == id@ && s[k].status == TaskAttemptStatus::Interrupted),
        decreases attempts.len() - i,
    {
        proof {
            assert(s[i as int] == attempts@[i as int]@);
        }
        if str_eq(attempts[i].task_id.as_str(), id) && attempts[i].status == TaskAttemptStatus::Interrupted {
            return true;
        }
        i = i + 1;
    }
    false
}

impl AttemptLedger {
    /// Binds attempt `attempt_id`, not yet bound, to the turn `codex_turn_id`;
    /// the attempt and its task run.
    pub fn bind_turn_to_attempt(&mut self, attempt_id: &str, codex_turn_id: &str) -> (r: Result<(), StoreError>)
        requires
            ledger_ok(old(self)@),
        ensures
            ledger_ok(final(self)@),
            settles(old(self)@, final(self)@, outcome_view(r), bound(old(self)@, attempt_id@, codex_turn_id@)),
    {
        if let Err(e) = self.require_writable() {
            return Err(e);
        }
        let ghost before = self@;
        let found = find_attempt(&self.attempts, attempt_id);
        let i = match found {
            Some(i) => {
                if self.attempts[i].codex_turn_id.is_some() {
                    let mut m = owned("unbound task attempt ");
                    m.append(attempt_id);
                    return Err(StoreError::NotFound(m));
                }
                i
            },
            None => {
                let mut m = owned("unbound task attempt ");
                m.append(attempt_id);
                return Err(StoreError::NotFound(m));
            },
        };
        if turn_taken(&self.attempts, codex_turn_id) {
            proof {
                let k = choose|k: int| 0 <= k < self.attempts@.len() && self.attempts@[k]@.turn == Some(codex_turn_id@);
                assert(before.attempts[k] == self.attempts@[k]@);
            }
            return Err(StoreError::Database(owned(MSG_DUPLICATE_TURN)));
        }
        proof {
            assert forall|k: int| 0 <= k < before.attempts.len() implies before.attempts[k].turn != Some(codex_turn_id@) by {
                assert(before.attempts[k] == self.attempts@[k]@);
            }
        }
        let task_id = self.attempts[i].task_id.clone();
        set_turn_at(&mut self.attempts, i, codex_turn_id);
        set_tasks(&mut self.tasks, task_id.as_str(), TaskStatus::Running);
        proof {
            lemma_update_keeps_keys(before.attempts, i as int, on_turn(before.attempts[i as int], codex_turn_id@));
            lemma_task_status_keeps_keys(before.tasks, task_id@, TaskStatus::Running);
        }
        Ok(())
    }

    /// Ends the turn `codex_turn_id`: the attempt that runs in it and its task
    /// take `attempt_status`. Gives back the attempt and task it ended, or
    /// nothing when no unfinished attempt runs in that turn.
    pub fn complete_turn(&mut self, codex_turn_id: &str, attempt_status: TaskAttemptStatus) -> (r: Result<
        Option<(String, String)>,
        StoreError,
    >)
        requires
            ledger_ok(old(self)@),
        ensures
            ledger_ok(final(self)@),
            !old(self)@.writable ==> (r matches Err(e) && e@ == StoreErrorView::ReadOnly && final(self)@ == old(self)@),
            old(self)@.writable ==> final(self)@ == completed(old(self)@, codex_turn_id@, attempt_status) && match turn_index(
                old(self)@.attempts,
                codex_turn_id@,
            ) {
                Some(i) => r matches Ok(Some((a, t))) && a@ == old(self)@.attempts[i].id && t@ == old(self)@.attempts[i].task_id,
                None => r matches Ok(None),
            },
    {
        if let Err(e) = self.require_writable() {
            return Err(e);
        }
        let ghost before = self@;
        let i = match find_turn(&self.attempts, codex_turn_id) {
            Some(i) => i,
            None => {
                return Ok(None);
            },
        };
        let attempt_id = self.attempts[i].id.clone();
        let task_id = self.attempts[i].task_id.clone();
        set_status_at(&mut self.attempts, i, attempt_status);
        set_tasks(&mut self.tasks, task_id.as_str(), task_status_after(attempt_status));
        proof {
            lemma_update_keeps_keys(before.attempts, i as int, with_status(before.attempts[i as int], attempt_status));
            lemma_task_status_keeps_keys(before.tasks, task_id@, task_status_for_attempt_of(attempt_status));
        }
        Ok(Some((attempt_id, task_id)))
    }

    /// After the application restarted: every attempt that had not ended is
    /// interrupted, and every task that had not ended fails where one of its
    /// attempts was interrupted. Gives back the attempts that were
    /// interrupted, as they stood.
    pub fn recover_incomplete_attempts(&mut self) -> (r: Result<Vec<StoredAttempt>, StoreError>)
        requires
            ledger_ok(old(self)@),
        ensures
            ledger_ok(final(self)@),
            !old(self)@.writable ==> (r matches Err(e) && e@ == StoreErrorView::ReadOnly && final(self)@ == old(self)@),
            old(self)@.writable ==> final(self)@ == recovered(old(self)@),
            old(self)@.writable ==> (r matches Ok(list) && list@.map_values(|a: StoredAttempt| a@) == unfinished_attempts(
                old(self)@.attempts,
            )),
    {
        if let Err(e) = self.require_writable() {
            return Err(e);
        }
        let ghost before = self@;
        let ghost target = before.attempts.map_values(|a: AttemptView| interrupted(a));
        let mut list: Vec<StoredAttempt> = Vec::new();
        let n = self.attempts.len();
        let mut i: usize = 0;
        while i < n
            invariant
                n == self.attempts@.len(),
                n == before.attempts.len(),
                i <= n,
                self@.tasks == before.tasks,
                self@.writable == before.writable,
                target == before.attempts.map_values(|a: AttemptView| interrupted(a)),
                forall|j: int| 0 <= j < i ==> (#[trigger] self.attempts@[j])@ == target[j],
                forall|j: int| i <= j < n ==> (#[trigger] self.attempts@[j])@ == before.attempts[j],
                list@.map_values(|a: StoredAttempt| a@) == unfinished_attempts(before.attempts.take(i as int)),
            decreases n - i,
        {
            proof {
                assert(before.attempts.take(i as int + 1).drop_last() =~= before.attempts.take(i as int));
                assert(before.attempts.take(i as int + 1).last() == before.attempts[i as int]);
            }
            let st = self.attempts[i].status;
            if st == TaskAttemptStatus::Pending || st == TaskAttemptStatus::Running {
                let c = copy_attempt(&self.attempts[i]);
                let ghost l0 = list@.map_values(|a: StoredAttempt| a@);
                list.push(c);
                proof {
                    assert(list@.map_values(|a: StoredAttempt| a@) =~= l0.push(before.attempts[i as int]));
                }
                set_status_at(&mut self.attempts, i, TaskAttemptStatus::Interrupted);
            }
            i = i + 1;
        }
        proof {
            assert(before.attempts.take(n as int) =~= before.attempts);
            assert(self@.attempts =~= target);
        }
        let ghost tasks_before = self@.tasks;
        let ghost tasks_target = tasks_before.map_values(|t: TaskView| task_after_restart(t, target));
        let m = self.tasks.len();
        let mut k: usize = 0;
        while k < m
            invariant
                m == self.tasks@.len(),
                m == tasks_before.len(),
                k <= m,
                self@.writable == before.writable,
                self@.attempts == target,
                self.attempts@.map_values(|a: StoredAttempt| a@) == target,
                tasks_target == tasks_before.map_values(|t: TaskView| task_after_restart(t, target)),
                forall|j: int| 0 <= j < k ==> (#[trigger] self.tasks@[j])@ == tasks_target[j],
                forall|j: int| k <= j < m ==> (#[trigger] self.tasks@[j])@ == tasks_before[j],
            decreases m - k,
        {
            let st = self.tasks[k].status;
            if st == TaskStatus::Pending || st == TaskStatus::Running {
                if any_interrupted(&self.attempts, self.tasks[k].id.as_str()) {
                    let t = StoredTask { id: self.tasks[k].id.clone(), status: TaskStatus::Failed };
                    self.tasks.set(k, t);
                }
            }
            k = k + 1;
        }
        proof {
            assert(self@.tasks =~= tasks_target);
            assert forall|x: int, y: int| 0 <= x < y < target.len() implies apart(target[x], target[y]) by {
                assert(apart(before.attempts[x], before.attempts[y]));
            }
            assert forall|x: int, y: int| 0 <= x < y < tasks_target.len() implies tasks_target[x].id != tasks_target[y].id by {
                assert(tasks_before[x].id != tasks_before[y].id);
            }
        }
        Ok(list)
    }
}


// --- laws -------------------------------------------------------------------

proof fn lemma_same_ids_same_index(s: Seq<AttemptView>, u: Seq<AttemptView>, id: Seq<char>)
    requires
        s.len() == u.len(),
        forall|k: int| 0 <= k < s.len() ==> s[k].id == u[k].id,
    ensures
        attempt_index(s, id) == attempt_index(u, id),
{
    assert(s.map_values(|a: AttemptView| a.id == id) =~= u.map_values(|a: AttemptView| a.id == id));
}

/// Taking back a retry that was just started leaves the attempts as they were
/// before it: the replaced attempt runs again and the retry is gone; the tasks
/// stay as the retry left them, with the retried task running.
pub proof fn law_rollback_undoes_retry(v: LedgerView, current: Seq<char>, retry: TaskAttempt)
    requires
        ledger_ok(v),
        retried(v, current, retry@) is Ok,
    ensures
        rolled_back(retried(v, current, retry@)->Ok_0, current, retry@.id) == Ok::<LedgerView, StoreErrorView>(
            LedgerView { writable: v.writable, attempts: v.attempts, tasks: (retried(v, current, retry@)->Ok_0).tasks },
        ),
{
    let v1 = retried(v, current, retry@)->Ok_0;
    let i = attempt_index(v.attempts, current)->Some_0;
    lemma_first_true(v.attempts.map_values(|a: AttemptView| a.id == current));
    let a = v.attempts[i];
    let s = v.attempts.update(i, with_status(a, TaskAttemptStatus::Failed));
    assert(v1.attempts == s.push(retry@));
    let last = s.len() as int;
    let flags = v1.attempts.map_values(|x: AttemptView| x.id == retry@.id);
    assert forall|k: int| 0 <= k < last implies !flags[k] by {
        assert(v1.attempts[k] == s[k]);
        if s[k].id == retry@.id {
            assert(exists|m: int| 0 <= m < s.len() && s[m].id == retry@.id);
        }
    }
    lemma_first_true_unique(flags, last);
    assert(v1.attempts.remove(last) =~= s);
    lemma_same_ids_same_index(s, v.attempts, current);
    assert(s[i].status == TaskAttemptStatus::Failed);
    assert(s.update(i, with_status(s[i], TaskAttemptStatus::Running)) =~= v.attempts);
    let t1 = set_task_status(v.tasks, a.task_id, TaskStatus::Running);
    assert(set_task_status(t1, a.task_id, TaskStatus::Running) =~= t1);
}

/// After recovery no attempt is left pending or running, and no task that
/// has an interrupted attempt is left pending or running.
pub proof fn law_recovery_leaves_nothing_unfinished(v: LedgerView)
    ensures
        forall|k: int| 0 <= k < recovered(v).attempts.len() ==> !unfinished(#[trigger] recovered(v).attempts[k].status),
        forall|k: int|
            0 <= k < recovered(v).tasks.len() && has_interrupted(recovered(v).attempts, #[trigger] recovered(v).tasks[k].id)
                ==> recovered(v).tasks[k].status != TaskStatus::Pending && recovered(v).tasks[k].status != TaskStatus::Running,
{
}

proof fn lemma_nothing_unfinished(s: Seq<AttemptView>)
    requires
        forall|k: int| 0 <= k < s.len() ==> !unfinished(#[trigger] s[k].status),
    ensures
        unfinished_attempts(s) =~= Seq::<AttemptView>::empty(),
    decreases s.len(),
{
    if s.len() > 0 {
        lemma_nothing_unfinished(s.drop_last());
    }
}

/// Recovering twice is recovering once: the second recovery changes nothing
/// and finds no attempt to interrupt.
pub proof fn law_recovery_is_idempotent(v: LedgerView)
    ensures
        recovered(recovered(v)) == recovered(v),
        unfinished_attempts(recovered(v).attempts) == Seq::<AttemptView>::empty(),
{
    let r = recovered(v);
    law_recovery_leaves_nothing_unfinished(v);
    assert(r.attempts.map_values(|a: AttemptView| interrupted(a)) =~= r.attempts);
    assert(r.tasks.map_values(|t: TaskView| task_after_restart(t, r.attempts)) =~= r.tasks);
    lemma_nothing_unfinished(r.attempts);
}

/// Once an attempt is bound to a turn, ending that turn ends that attempt:
/// it takes the status the turn ended with, and its task follows.
pub proof fn law_bound_turn_ends_its_attempt(v: LedgerView, id: Seq<char>, turn: Seq<char>, st: TaskAttemptStatus)
    requires
        ledger_ok(v),
        bound(v, id, turn) is Ok,
    ensures
        ({
            let v1 = bound(v, id, turn)->Ok_0;
            let i = attempt_index(v.attempts, id)->Some_0;
            &&& turn_index(v1.attempts, turn) == Some(i)
            &&& completed(v1, turn, st).attempts[i] == with_status(on_turn(v.attempts[i], turn), st)
            &&& completed(v1, turn, st).tasks == set_task_status(v1.tasks, v.attempts[i].task_id, task_status_for_attempt_of(st))
        }),
{
    let v1 = bound(v, id, turn)->Ok_0;
    let i = attempt_index(v.attempts, id)->Some_0;
    lemma_first_true(v.attempts.map_values(|a: AttemptView| a.id == id));
    let flags = v1.attempts.map_values(|a: AttemptView| a.turn == Some(turn) && unfinished(a.status));
    assert forall|k: int| 0 <= k < i implies !flags[k] by {
        assert(v1.attempts[k] == v.attempts[k]);
        if v.attempts[k].turn == Some(turn) {
            assert(exists|m: int| 0 <= m < v.attempts.len() && v.attempts[m].turn == Some(turn));
        }
    }
    lemma_first_true_unique(flags, i);
}

} // verus!
