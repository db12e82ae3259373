//! The rules for a project's `project.json`: it is an object whose project id
//! never changes, and the runtime keeps its id, schema version, name, state
//! and audit setting.

use vstd::prelude::*;
use crate::action::{owned, str_eq};
use crate::audit::{entry_at, entry_value};
use crate::domain::ProjectState;
use crate::project::{GameServiceError, ProjectDirState};
use crate::records::{law_project_state_round_trip, project_state_of, project_state_text};
use crate::store::ProjectAccess;
use crate::workflow::opt_string_view;
use crate::events::JsonValue;

verus! {

/// The entries of a project document; a missing document is an empty object.
pub open spec fn document_entries(document: Option<JsonValue>) -> Result<Seq<(String, JsonValue)>, Seq<char>> {
    match document {
        None => Ok(Seq::empty()),
        Some(JsonValue::Object(entries)) => Ok(entries@),
        Some(_) => Err("project.json must be an object"@),
    }
}

/// The project id a document records: `projectId`, or failing that `id`.
pub open spec fn recorded_id(entries: Seq<(String, JsonValue)>) -> Option<JsonValue> {
    match entry_value(entries, "projectId"@) {
        Some(v) => Some(v),
        None => entry_value(entries, "id"@),
    }
}

/// The document records a project id other than `project_id` (or one that is
/// not a string).
pub open spec fn id_conflict(entries: Seq<(String, JsonValue)>, project_id: Seq<char>) -> bool {
    match recorded_id(entries) {
        Some(JsonValue::String(s)) => s@ != project_id,
        Some(_) => true,
        None => false,
    }
}

/// The value under `key` is the string `text`.
pub open spec fn holds_text(entries: Seq<(String, JsonValue)>, key: Seq<char>, text: Seq<char>) -> bool {
    entry_value(entries, key) matches Some(JsonValue::String(s)) && s@ == text
}

/// A key the runtime writes into the document.
pub open spec fn managed_key(k: Seq<char>) -> bool {
    k == "projectId"@ || k == "schemaVersion"@ || k == "name"@ || k == "state"@ || k
        == "conversationAudit"@
}

/// `after` is `before` with the project's id, schema version, name and state
/// set, the audit setting kept or else turned on, and every other entry kept.
pub open spec fn updated_document(
    after: Seq<(String, JsonValue)>,
    before: Seq<(String, JsonValue)>,
    project_id: Seq<char>,
    name: Seq<char>,
    state: Seq<char>,
) -> bool {
    &&& holds_text(after, "projectId"@, project_id)
    &&& entry_value(after, "schemaVersion"@) matches Some(JsonValue::Number(n)) && n@ == "2"@
    &&& holds_text(after, "name"@, name)
    &&& holds_text(after, "state"@, state)
    &&& entry_value(after, "conversationAudit"@) == match entry_value(before, "conversationAudit"@) {
        Some(v) => Some(v),
        None => Some(JsonValue::Bool(true)),
    }
    &&& forall|k: Seq<char>| !managed_key(k) ==> entry_value(after, k) == entry_value(before, k)
}

proof fn lemma_absent(s: Seq<(String, JsonValue)>, key: Seq<char>)
    requires
        forall|j: int| 0 <= j < s.len() ==> (#[trigger] s[j]).0@ != key,
    ensures
        entry_value(s, key) is None,
    decreases s.len(),
{
    if s.len() > 0 {
        assert forall|j: int| 0 <= j < s.skip(1).len() implies (#[trigger] s.skip(1)[j]).0@ != key by {
            assert(s.skip(1)[j] == s[j + 1]);
        }
        lemma_absent(s.skip(1), key);
    }
}

proof fn lemma_set_at(s: Seq<(String, JsonValue)>, i: int, v: JsonValue)
    requires
        0 <= i < s.len(),
        forall|j: int| 0 <= j < i ==> (#[trigger] s[j]).0@ != s[i].0@,
    ensures
        entry_value(s.update(i, (s[i].0, v)), s[i].0@) == Some(v),
        forall|k: Seq<char>|
            k != s[i].0@ ==> entry_value(s.update(i, (s[i].0, v)), k) == entry_value(s, k),
    decreases i,
{
    let t = s.update(i, (s[i].0, v));
    if i == 0 {
        assert(t.skip(1) =~= s.skip(1));
        assert forall|k: Seq<char>| k != s[i].0@ implies entry_value(t, k) == entry_value(s, k) by {
            assert(t[0].0@ == s[0].0@);
        }
    } else {
        assert(t.skip(1) =~= s.skip(1).update(i - 1, (s[i].0, v)));
        assert(s.skip(1)[i - 1] == s[i]);
        assert forall|j: int| 0 <= j < i - 1 implies (#[trigger] s.skip(1)[j]).0@ != s.skip(1)[i - 1].0@ by {
            assert(s.skip(1)[j] == s[j + 1]);
        }
        lemma_set_at(s.skip(1), i - 1, v);
        assert(t[0] == s[0]);
        assert(s[0].0@ != s[i].0@);
        assert forall|k: Seq<char>| k != s[i].0@ implies entry_value(t, k) == entry_value(s, k) by {
            if s[0].0@ != k {
                assert(entry_value(t.skip(1), k) == entry_value(s.skip(1), k));
            }
        }
    }
}

proof fn lemma_push_new(s: Seq<(String, JsonValue)>, e: (String, JsonValue))
    requires
        entry_value(s, e.0@) is None,
    ensures
        entry_value(s.push(e), e.0@) == Some(e.1),
        forall|k: Seq<char>| k != e.0@ ==> entry_value(s.push(e), k) == entry_value(s, k),
    decreases s.len(),
{
    let t = s.push(e);
    if s.len() > 0 {
        assert(t.skip(1) =~= s.skip(1).push(e));
        assert(t[0] == s[0]);
        lemma_push_new(s.skip(1), e);
        assert forall|k: Seq<char>| k != e.0@ implies entry_value(t, k) == entry_value(s, k) by {
            if s[0].0@ != k {
                assert(entry_value(t.skip(1), k) == entry_value(s.skip(1), k));
            }
        }
    } else {
        assert(t.skip(1) =~= Seq::<(String, JsonValue)>::empty());
        assert forall|k: Seq<char>| k != e.0@ implies entry_value(t, k) == entry_value(s, k) by {
            assert(t[0] == e);
            assert(entry_value(t.skip(1), k) is None);
        }
    }
}

/// Sets the entry `key` to `value`, in place if the key is there and else at
/// the end.
fn set_entry(entries: &mut Vec<(String, JsonValue)>, key: &str, value: JsonValue)
    ensures
        entry_value(final(entries)@, key@) == Some(value),
        forall|k: Seq<char>| k != key@ ==> entry_value(final(entries)@, k) == entry_value(old(entries)@, k),
{
    let n = entries.len();
    let mut i: usize = 0;
    while i < n
        invariant
            entries@ == old(entries)@,
            n == entries@.len(),
            i <= n,
            forall|j: int| 0 <= j < i ==> (#[trigger] entries@[j]).0@ != key@,
        decreases n - i,
    {
        if str_eq(entries[i].0.as_str(), key) {
            let ghost before = entries@;
            let k = owned(entries[i].0.as_str());
            proof {
                lemma_set_at(before, i as int, value);
            }
            let ghost kv = k@;
            entries.set(i, (k, value));
            proof {
                let target = before.update(i as int, (before[i as int].0, value));
                assert(kv == before[i as int].0@);
                assert forall|j: int| 0 <= j < entries@.len() implies (#[trigger] entries@[j]).0@
                    == target[j].0@ && entries@[j].1 == target[j].1 by {
                    if j != i {
                        assert(entries@[j] == before[j]);
                    }
                }
                assert forall|kk: Seq<char>| #[trigger] entry_value(entries@, kk) == entry_value(target, kk) by {
                    lemma_same_keys(entries@, target, kk);
                }
                assert forall|kk: Seq<char>| kk != key@ implies entry_value(entries@, kk) == entry_value(before, kk) by {
                    assert(entry_value(entries@, kk) == entry_value(target, kk));
                }
            }
            return;
        }
        i = i + 1;
    }
    let ghost before = entries@;
    proof {
        lemma_absent(before, key@);
    }
    let k = owned(key);
    let ghost e = (k, value);
    proof {
        lemma_push_new(before, e);
    }
    entries.push((k, value));
    assert(entries@ == before.push(e));
}

/// Lookups only see keys by their view and values as they are.
proof fn lemma_same_keys(a: Seq<(String, JsonValue)>, b: Seq<(String, JsonValue)>, k: Seq<char>)
    requires
        a.len() == b.len(),
        forall|j: int| 0 <= j < a.len() ==> (#[trigger] a[j]).0@ == b[j].0@ && a[j].1 == b[j].1,
    ensures
        entry_value(a, k) == entry_value(b, k),
    decreases a.len(),
{
    if a.len() > 0 {
        assert forall|j: int| 0 <= j < a.skip(1).len() implies (#[trigger] a.skip(1)[j]).0@ == b.skip(1)[j].0@
            && a.skip(1)[j].1 == b.skip(1)[j].1 by {
            assert(a.skip(1)[j] == a[j + 1]);
            assert(b.skip(1)[j] == b[j + 1]);
        }
        lemma_same_keys(a.skip(1), b.skip(1), k);
    }
}


fn recorded_id_of<'a>(entries: &'a Vec<(String, JsonValue)>) -> (r: Option<&'a JsonValue>)
    ensures
        match r {
            Some(v) => recorded_id(entries@) == Some(*v),
            None => recorded_id(entries@) is None,
        },
{
    match crate::audit::entry_at(entries, "projectId") {
        Some(v) => Some(v),
        None => crate::audit::entry_at(entries, "id"),
    }
}

/// The updated entries of a project document, or why it cannot be updated.
pub open spec fn project_update_error(document: Option<JsonValue>, project_id: Seq<char>) -> Option<Seq<char>> {
    match document_entries(document) {
        Err(m) => Some(m),
        Ok(entries) => if id_conflict(entries, project_id) {
            Some("project.json projectId cannot be changed"@)
        } else {
            None
        },
    }
}

fn update_entries(entries: &mut Vec<(String, JsonValue)>, project_id: &str, name: &str, state: &str)
    ensures
        updated_document(final(entries)@, old(entries)@, project_id@, name@, state@),
{
    let ghost before = entries@;
    let audit_setting = crate::audit::entry_at(entries, "conversationAudit").is_some();
    set_entry(entries, "projectId", JsonValue::String(owned(project_id)));
    set_entry(entries, "schemaVersion", JsonValue::Number(owned("2")));
    set_entry(entries, "name", JsonValue::String(owned(name)));
    set_entry(entries, "state", JsonValue::String(owned(state)));
    if !audit_setting {
        set_entry(entries, "conversationAudit", JsonValue::Bool(true));
    }
    proof {
        reveal_strlit("projectId");
        reveal_strlit("schemaVersion");
        reveal_strlit("name");
        reveal_strlit("state");
        reveal_strlit("conversationAudit");
        assert("projectId"@.len() == 9 && "schemaVersion"@.len() == 13 && "name"@.len() == 4
            && "state"@.len() == 5 && "conversationAudit"@.len() == 17);
        assert("projectId"@ != "schemaVersion"@ && "projectId"@ != "name"@ && "projectId"@ != "state"@
            && "projectId"@ != "conversationAudit"@);
        assert("schemaVersion"@ != "name"@ && "schemaVersion"@ != "state"@ && "schemaVersion"@
            != "conversationAudit"@);
        assert("name"@ != "state"@ && "name"@ != "conversationAudit"@);
        assert("state"@ != "conversationAudit"@);
    }
}

/// Updates a project document (`None` when there is none yet) with the
/// project's id, name and state. The id recorded in it may not change.
pub fn update_project_document(
    document: Option<JsonValue>,
    project_id: &str,
    name: &str,
    state: &str,
) -> (r: Result<JsonValue, String>)
    ensures
        match project_update_error(document, project_id@) {
            Some(m) => r matches Err(e) && e@ == m,
            None => r matches Ok(JsonValue::Object(after)) && updated_document(
                after@,
                document_entries(document)->Ok_0,
                project_id@,
                name@,
                state@,
            ),
        },
{
    let mut entries = match document {
        None => Vec::new(),
        Some(JsonValue::Object(entries)) => entries,
        Some(_) => {
            return Err(owned("project.json must be an object"));
        },
    };
    let conflict = match recorded_id_of(&entries) {
        Some(JsonValue::String(s)) => !str_eq(s.as_str(), project_id),
        Some(_) => true,
        None => false,
    };
    if conflict {
        return Err(owned("project.json projectId cannot be changed"));
    }
    update_entries(&mut entries, project_id, name, state);
    Ok(JsonValue::Object(entries))
}

/// Marks a project document ready under its final name and code.
pub fn finalize_project_document(
    document: Option<JsonValue>,
    project_id: &str,
    name: &str,
    code: &str,
) -> (r: Result<JsonValue, String>)
    ensures
        match project_update_error(document, project_id@) {
            Some(m) => r matches Err(e) && e@ == m,
            None => r matches Ok(JsonValue::Object(after)) && holds_text(after@, "code"@, code@)
                && exists|mid: Seq<(String, JsonValue)>|
                updated_document(mid, document_entries(document)->Ok_0, project_id@, name@, "ready"@)
                    && forall|k: Seq<char>| k != "code"@ ==> entry_value(after@, k) == entry_value(mid, k),
        },
{
    match update_project_document(document, project_id, name, "ready") {
        Err(e) => Err(e),
        Ok(JsonValue::Object(mut entries)) => {
            let ghost mid = entries@;
            set_entry(&mut entries, "code", JsonValue::String(owned(code)));
            Ok(JsonValue::Object(entries))
        },
        Ok(other) => Ok(other),
    }
}


/// Once a document records a project, updating it for another project is
/// refused, and updating it again for the same project is accepted.
pub proof fn law_project_id_is_stable(
    after: Seq<(String, JsonValue)>,
    before: Seq<(String, JsonValue)>,
    project_id: Seq<char>,
    name: Seq<char>,
    state: Seq<char>,
    other_id: Seq<char>,
)
    requires
        updated_document(after, before, project_id, name, state),
    ensures
        other_id != project_id ==> id_conflict(after, other_id),
        !id_conflict(after, project_id),
{
}

/// The project id and schema support that a directory's `project.json`
/// shows, given the document when it was read and parsed: the id is the
/// string under `projectId`, or failing that under `id`; only schema version
/// 2 is supported.
pub open spec fn shown_project(document: Option<JsonValue>) -> (Option<Seq<char>>, bool) {
    match document {
        Some(JsonValue::Object(entries)) => (
            match recorded_id(entries@) {
                Some(JsonValue::String(s)) => Some(s@),
                _ => None,
            },
            entry_value(entries@, "schemaVersion"@) matches Some(JsonValue::Number(n)) && n@ == "2"@,
        ),
        _ => (None, false),
    }
}

/// What a directory holds for a new or opened project: a free directory is
/// supported; an occupied one shows the id and schema of its `project.json`.
pub fn project_dir_state(root: String, occupied: bool, document: Option<JsonValue>) -> (r: ProjectDirState)
    ensures
        r.root == root,
        r.occupied == occupied,
        !occupied ==> r.project_id is None && r.supported,
        occupied ==> (opt_string_view(r.project_id), r.supported) == shown_project(document),
{
    if !occupied {
        return ProjectDirState { root, occupied, project_id: None, supported: true };
    }
    let (project_id, supported) = match &document {
        Some(JsonValue::Object(entries)) => {
            let id = match entry_at(entries, "projectId") {
                Some(v) => Some(v),
                None => entry_at(entries, "id"),
            };
            let project_id = match id {
                Some(JsonValue::String(s)) => Some(owned(s.as_str())),
                _ => None,
            };
            let supported = match entry_at(entries, "schemaVersion") {
                Some(JsonValue::Number(n)) => str_eq(n.as_str(), "2"),
                _ => false,
            };
            (project_id, supported)
        },
        _ => (None, false),
    };
    ProjectDirState { root, occupied, project_id, supported }
}

/// A project as its `project.json` describes it.
#[derive(Debug, Clone, PartialEq, Eq)]
pub struct Project {
    pub id: String,
    pub name: String,
    pub code: Option<String>,
    pub root: String,
    pub state: ProjectState,
}

/// The string under `key`, if the value there is a string.
pub open spec fn text_entry(entries: Seq<(String, JsonValue)>, key: Seq<char>) -> Option<Seq<char>> {
    match entry_value(entries, key) {
        Some(JsonValue::String(s)) => Some(s@),
        _ => None,
    }
}

/// The project a `project.json` document describes (id, name, code, state),
/// or why it cannot be opened: only schema version 2 is supported, the id is
/// the string under `projectId` or else `id`, a missing name reads as
/// "Untitled Game", and the state must be one the runtime writes. A document
/// without an id is refused with the project's root as the message.
pub open spec fn project_of_document(root: Seq<char>, document: JsonValue) -> Result<
    (Seq<char>, Seq<char>, Option<Seq<char>>, ProjectState),
    Seq<char>,
> {
    match document {
        JsonValue::Object(entries) => {
            let e = entries@;
            if !(entry_value(e, "schemaVersion"@) matches Some(JsonValue::Number(n)) && n@ == "2"@) {
                Err("不支持旧项目，请新建项目"@)
            } else if !(recorded_id(e) matches Some(JsonValue::String(_))) {
                Err(root)
            } else {
                let id = match recorded_id(e) {
                    Some(JsonValue::String(s)) => s@,
                    _ => Seq::empty(),
                };
                let name = match text_entry(e, "name"@) {
                    Some(n) => n,
                    None => "Untitled Game"@,
                };
                match text_entry(e, "state"@) {
                    Some(t) => match project_state_of(t) {
                        Some(state) => Ok((id, name, text_entry(e, "code"@), state)),
                        None => Err("不支持旧项目，请新建项目"@),
                    },
                    None => Err("不支持旧项目，请新建项目"@),
                }
            }
        },
        _ => Err("不支持旧项目，请新建项目"@),
    }
}

fn text_at(entries: &Vec<(String, JsonValue)>, key: &str) -> (r: Option<String>)
    ensures
        opt_string_view(r) == text_entry(entries@, key@),
{
    match entry_at(entries, key) {
        Some(JsonValue::String(s)) => Some(owned(s.as_str())),
        _ => None,
    }
}

/// Reads the project that a parsed `project.json` describes, for the
/// project at `root`.
pub fn project_from_document(root: &str, document: &JsonValue) -> (r: Result<Project, GameServiceError>)
    ensures
        match project_of_document(root@, *document) {
            Ok((id, name, code, state)) => r matches Ok(p) && p.id@ == id && p.name@ == name
                && opt_string_view(p.code) == code && p.root@ == root@ && p.state == state,
            Err(m) => r matches Err(GameServiceError::InvalidProjectPath(x)) && x@ == m,
        },
{
    let entries = match document {
        JsonValue::Object(entries) => entries,
        _ => {
            return Err(GameServiceError::InvalidProjectPath(owned("不支持旧项目，请新建项目")));
        },
    };
    let supported = match entry_at(entries, "schemaVersion") {
        Some(JsonValue::Number(n)) => str_eq(n.as_str(), "2"),
        _ => false,
    };
    if !supported {
        return Err(GameServiceError::InvalidProjectPath(owned("不支持旧项目，请新建项目")));
    }
    let id = match recorded_id_of(entries) {
        Some(JsonValue::String(s)) => owned(s.as_str()),
        _ => {
            return Err(GameServiceError::InvalidProjectPath(owned(root)));
        },
    };
    let name = match text_at(entries, "name") {
        Some(n) => n,
        None => owned("Untitled Game"),
    };
    let state = match text_at(entries, "state") {
        Some(t) => if str_eq(t.as_str(), "drafting") {
            ProjectState::Drafting
        } else if str_eq(t.as_str(), "styleSettled") {
            ProjectState::StyleSettled
        } else if str_eq(t.as_str(), "ready") {
            ProjectState::Ready
        } else {
            return Err(GameServiceError::InvalidProjectPath(owned("不支持旧项目，请新建项目")));
        },
        None => {
            return Err(GameServiceError::InvalidProjectPath(owned("不支持旧项目，请新建项目")));
        },
    };
    let code = text_at(entries, "code");
    Ok(Project { id, name, code, root: owned(root), state })
}

/// What opening a project reads back is what updating its `project.json`
/// wrote: its id, name and state, with its code as the document had it.
pub proof fn law_opened_project_is_what_was_written(
    root: Seq<char>,
    after: Vec<(String, JsonValue)>,
    before: Seq<(String, JsonValue)>,
    project_id: Seq<char>,
    name: Seq<char>,
    state: ProjectState,
)
    requires
        updated_document(after@, before, project_id, name, project_state_text(state)),
    ensures
        project_of_document(root, JsonValue::Object(after)) == Ok::<_, Seq<char>>(
            (project_id, name, text_entry(before, "code"@), state),
        ),
{
    law_project_state_round_trip(state);
    reveal_strlit("code");
    reveal_strlit("projectId");
    reveal_strlit("schemaVersion");
    reveal_strlit("name");
    reveal_strlit("state");
    reveal_strlit("conversationAudit");
    assert("code"@.len() != "projectId"@.len() && "code"@.len() != "schemaVersion"@.len());
    assert("code"@.len() != "state"@.len() && "code"@.len() != "conversationAudit"@.len());
    assert("code"@[0] != "name"@[0]);
    assert(!managed_key("code"@));
    assert(entry_value(after@, "code"@) == entry_value(before, "code"@));
}


/// The entries of a `project.json` that the list of registered projects
/// trusts: only a schema version 2 object.
pub open spec fn listed_entries(document: Option<JsonValue>) -> Option<Seq<(String, JsonValue)>> {
    match document {
        Some(JsonValue::Object(entries)) => if entry_value(entries@, "schemaVersion"@) matches Some(
            JsonValue::Number(n),
        ) && n@ == "2"@ {
            Some(entries@)
        } else {
            None
        },
        _ => None,
    }
}

/// The string under `key` of trusted entries, if any.
pub open spec fn listed_text(entries: Option<Seq<(String, JsonValue)>>, key: Seq<char>) -> Option<Seq<char>> {
    match entries {
        Some(e) => text_entry(e, key),
        None => None,
    }
}

/// The project a registration lists (name, code, state, access), given the
/// registry's row and the project's `project.json` when it could be read:
/// the document's name, code and state win over the registry's name when it
/// is of schema version 2; a state other than `styleSettled` or `ready` reads
/// as drafting. An access mode other than `readWrite` or `readOnly` is refused.
pub open spec fn registered_project_of(
    registered_name: Seq<char>,
    access_mode: Seq<char>,
    document: Option<JsonValue>,
) -> Result<(Seq<char>, Option<Seq<char>>, ProjectState, ProjectAccess), Seq<char>> {
    let access = if access_mode == "readWrite"@ {
        Some(ProjectAccess::ReadWrite)
    } else if access_mode == "readOnly"@ {
        Some(ProjectAccess::ReadOnly)
    } else {
        None
    };
    match access {
        None => Err("unknown project access mode: "@ + access_mode),
        Some(a) => {
            let e = listed_entries(document);
            let name = match listed_text(e, "name"@) {
                Some(n) => n,
                None => registered_name,
            };
            let state = match listed_text(e, "state"@) {
                Some(t) => if t == "styleSettled"@ {
                    ProjectState::StyleSettled
                } else if t == "ready"@ {
                    ProjectState::Ready
                } else {
                    ProjectState::Drafting
                },
                None => ProjectState::Drafting,
            };
            Ok((name, listed_text(e, "code"@), state, a))
        },
    }
}

/// The project a registration lists, with the access it was registered
/// with; see `registered_project_of`.
pub fn registered_project(
    id: String,
    registered_name: String,
    root: String,
    access_mode: &str,
    document: Option<JsonValue>,
) -> (r: Result<(Project, ProjectAccess), String>)
    ensures
        match registered_project_of(registered_name@, access_mode@, document) {
            Ok((name, code, state, access)) => r matches Ok((p, a)) && p.id == id && p.root == root && p.name@ == name
                && opt_string_view(p.code) == code && p.state == state && a == access,
            Err(m) => r matches Err(e) && e@ == m,
        },
{
    proof {
        reveal_strlit("readWrite");
        reveal_strlit("readOnly");
    }
    let access = if str_eq(access_mode, "readWrite") {
        ProjectAccess::ReadWrite
    } else if str_eq(access_mode, "readOnly") {
        ProjectAccess::ReadOnly
    } else {
        let mut m = owned("unknown project access mode: ");
        m.append(access_mode);
        return Err(m);
    };
    let entries = match &document {
        Some(JsonValue::Object(entries)) => match entry_at(entries, "schemaVersion") {
            Some(JsonValue::Number(n)) => if str_eq(n.as_str(), "2") {
                Some(entries)
            } else {
                None
            },
            _ => None,
        },
        _ => None,
    };
    let (name, code, state_text) = match entries {
        Some(e) => (text_at(e, "name"), text_at(e, "code"), text_at(e, "state")),
        None => (None, None, None),
    };
    let name = match name {
        Some(n) => n,
        None => registered_name,
    };
    let state = match state_text {
        Some(t) => if str_eq(t.as_str(), "styleSettled") {
            ProjectState::StyleSettled
        } else if str_eq(t.as_str(), "ready") {
            ProjectState::Ready
        } else {
            ProjectState::Drafting
        },
        None => ProjectState::Drafting,
    };
    Ok((Project { id, name, code, root, state }, access))
}

} // verus!
