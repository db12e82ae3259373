use game_runtime::events::JsonValue;
use game_runtime::domain::ProjectState;
use game_runtime::project::GameServiceError;
use game_runtime::project_json::{
    finalize_project_document, project_dir_state, project_from_document, registered_project, update_project_document,
};
use game_runtime::store::ProjectAccess;

fn get<'a>(document: &'a JsonValue, key: &str) -> Option<&'a JsonValue> {
    match document {
        JsonValue::Object(entries) => entries.iter().find(|(k, _)| k == key).map(|(_, v)| v),
        _ => None,
    }
}

fn text(value: &str) -> JsonValue {
    JsonValue::String(value.to_string())
}

#[test]
fn enables_conversation_audit_for_new_projects() {
    let document = update_project_document(None, "project-1", "Game", "drafting").expect("project config");
    assert_eq!(get(&document, "conversationAudit"), Some(&JsonValue::Bool(true)));
}

#[test]
fn preserves_disabled_conversation_audit() {
    let existing = JsonValue::Object(vec![
        ("projectId".to_string(), text("project-1")),
        ("conversationAudit".to_string(), JsonValue::Bool(false)),
    ]);
    let document = update_project_document(Some(existing), "project-1", "Game", "drafting")
        .expect("update project config");
    assert_eq!(get(&document, "conversationAudit"), Some(&JsonValue::Bool(false)));
}

#[test]
fn project_documents_keep_their_id_and_other_entries() {
    let existing = JsonValue::Object(vec![
        ("id".to_string(), text("project-1")),
        ("custom".to_string(), JsonValue::Number("7".to_string())),
    ]);
    let document = update_project_document(Some(existing), "project-1", "Game", "drafting").expect("update");
    assert_eq!(get(&document, "projectId"), Some(&text("project-1")));
    assert_eq!(get(&document, "schemaVersion"), Some(&JsonValue::Number("2".to_string())));
    assert_eq!(get(&document, "name"), Some(&text("Game")));
    assert_eq!(get(&document, "state"), Some(&text("drafting")));
    assert_eq!(get(&document, "custom"), Some(&JsonValue::Number("7".to_string())));

    assert_eq!(
        update_project_document(Some(document), "project-2", "Game", "drafting"),
        Err("project.json projectId cannot be changed".to_string())
    );
    assert_eq!(
        update_project_document(Some(JsonValue::Array(Vec::new())), "project-1", "Game", "drafting"),
        Err("project.json must be an object".to_string())
    );
    let numeric_id = JsonValue::Object(vec![("projectId".to_string(), JsonValue::Number("1".to_string()))]);
    assert_eq!(
        update_project_document(Some(numeric_id), "1", "Game", "drafting"),
        Err("project.json projectId cannot be changed".to_string())
    );
}

#[test]
fn finalized_projects_are_ready_with_their_code() {
    let document = finalize_project_document(None, "project-1", "Game", "game-one").expect("finalize");
    assert_eq!(get(&document, "state"), Some(&text("ready")));
    assert_eq!(get(&document, "code"), Some(&text("game-one")));
    assert_eq!(get(&document, "name"), Some(&text("Game")));
}

#[test]
fn a_directory_shows_the_project_it_holds() {
    let free = project_dir_state("/game".to_string(), false, None);
    assert_eq!(free.root, "/game");
    assert!(!free.occupied && free.supported && free.project_id.is_none());

    let current = JsonValue::Object(vec![
        ("id".to_string(), text("old")),
        ("projectId".to_string(), text("p-1")),
        ("schemaVersion".to_string(), JsonValue::Number("2".to_string())),
    ]);
    let state = project_dir_state("/game".to_string(), true, Some(current));
    assert_eq!(state.project_id.as_deref(), Some("p-1"));
    assert!(state.occupied && state.supported);

    let legacy = JsonValue::Object(vec![
        ("id".to_string(), text("p-0")),
        ("schemaVersion".to_string(), JsonValue::Number("1".to_string())),
    ]);
    let state = project_dir_state("/game".to_string(), true, Some(legacy));
    assert_eq!(state.project_id.as_deref(), Some("p-0"));
    assert!(!state.supported);

    let numbered = JsonValue::Object(vec![("projectId".to_string(), JsonValue::Number("7".to_string()))]);
    let state = project_dir_state("/game".to_string(), true, Some(numbered));
    assert_eq!(state.project_id, None);

    let unreadable = project_dir_state("/game".to_string(), true, None);
    assert!(unreadable.occupied && !unreadable.supported && unreadable.project_id.is_none());
}

#[test]
fn an_opened_project_reads_what_was_written() {
    let written = update_project_document(None, "p-1", "西游", "styleSettled").unwrap();
    let project = project_from_document("/game", &written).unwrap();
    assert_eq!(project.id, "p-1");
    assert_eq!(project.name, "西游");
    assert_eq!(project.state, ProjectState::StyleSettled);
    assert_eq!(project.code, None);
    assert_eq!(project.root, "/game");

    let finalized = finalize_project_document(Some(written), "p-1", "西游记", "xiyou").unwrap();
    let project = project_from_document("/game", &finalized).unwrap();
    assert_eq!(project.state, ProjectState::Ready);
    assert_eq!(project.code.as_deref(), Some("xiyou"));
    assert_eq!(project.name, "西游记");
}

#[test]
fn old_or_incomplete_documents_are_not_opened() {
    let old = Err(GameServiceError::InvalidProjectPath("不支持旧项目，请新建项目".to_string()));
    let schema = |v: &str| ("schemaVersion".to_string(), JsonValue::Number(v.to_string()));
    let v1 = JsonValue::Object(vec![schema("1"), ("projectId".to_string(), text("p"))]);
    assert_eq!(project_from_document("/game", &v1), old);
    let no_id = JsonValue::Object(vec![schema("2"), ("state".to_string(), text("ready"))]);
    assert_eq!(
        project_from_document("/game", &no_id),
        Err(GameServiceError::InvalidProjectPath("/game".to_string()))
    );
    let bad_state = JsonValue::Object(vec![
        schema("2"),
        ("id".to_string(), text("p")),
        ("state".to_string(), text("archived")),
    ]);
    assert_eq!(project_from_document("/game", &bad_state), old);
    let unnamed = JsonValue::Object(vec![
        schema("2"),
        ("id".to_string(), text("p")),
        ("state".to_string(), text("drafting")),
    ]);
    let project = project_from_document("/game", &unnamed).unwrap();
    assert_eq!(project.name, "Untitled Game");
    assert_eq!(project.id, "p");
    assert_eq!(project_from_document("/game", &JsonValue::Null), old);
}

fn listed(access: &str, document: Option<JsonValue>) -> Result<(game_runtime::project_json::Project, ProjectAccess), String> {
    registered_project("p1".to_string(), "Registered".to_string(), "/games/p1".to_string(), access, document)
}

#[test]
fn a_registered_project_shows_what_its_project_json_says() {
    let document = JsonValue::Object(vec![
        ("schemaVersion".to_string(), JsonValue::Number("2".to_string())),
        ("name".to_string(), text("西游")),
        ("code".to_string(), text("xy")),
        ("state".to_string(), text("styleSettled")),
    ]);
    let (project, access) = listed("readOnly", Some(document)).expect("listed");
    assert_eq!(project.id, "p1");
    assert_eq!(project.root, "/games/p1");
    assert_eq!(project.name, "西游");
    assert_eq!(project.code.as_deref(), Some("xy"));
    assert_eq!(project.state, ProjectState::StyleSettled);
    assert_eq!(access, ProjectAccess::ReadOnly);
}

#[test]
fn a_registered_project_without_a_current_project_json_keeps_its_registered_name() {
    let old = JsonValue::Object(vec![
        ("schemaVersion".to_string(), JsonValue::Number("1".to_string())),
        ("name".to_string(), text("旧名")),
        ("state".to_string(), text("ready")),
    ]);
    for document in [None, Some(old), Some(text("not an object"))] {
        let (project, access) = listed("readWrite", document).expect("listed");
        assert_eq!(project.name, "Registered");
        assert_eq!(project.code, None);
        assert_eq!(project.state, ProjectState::Drafting);
        assert_eq!(access, ProjectAccess::ReadWrite);
    }
    let unknown_state = JsonValue::Object(vec![
        ("schemaVersion".to_string(), JsonValue::Number("2".to_string())),
        ("state".to_string(), text("archived")),
    ]);
    assert_eq!(listed("readWrite", Some(unknown_state)).expect("listed").0.state, ProjectState::Drafting);
    let ready = JsonValue::Object(vec![
        ("schemaVersion".to_string(), JsonValue::Number("2".to_string())),
        ("state".to_string(), text("ready")),
    ]);
    assert_eq!(listed("readWrite", Some(ready)).expect("listed").0.state, ProjectState::Ready);
}

#[test]
fn a_registration_with_an_unknown_access_mode_is_refused() {
    assert_eq!(listed("admin", None).expect_err("refused"), "unknown project access mode: admin");
}
