use game_runtime::contract_schema::profile_schema;
use game_runtime::events::JsonValue;

fn text(s: &str) -> JsonValue {
    JsonValue::String(s.to_string())
}

fn object(entries: Vec<(&str, JsonValue)>) -> JsonValue {
    JsonValue::Object(entries.into_iter().map(|(k, v)| (k.to_string(), v)).collect())
}

fn get<'a>(v: &'a JsonValue, key: &str) -> Option<&'a JsonValue> {
    match v {
        JsonValue::Object(entries) => entries.iter().find(|(k, _)| k == key).map(|(_, v)| v),
        _ => None,
    }
}

fn contains_text(v: &JsonValue, needle: &str) -> bool {
    match v {
        JsonValue::String(s) => s.contains(needle),
        JsonValue::Array(items) => items.iter().any(|x| contains_text(x, needle)),
        JsonValue::Object(entries) => entries
            .iter()
            .any(|(k, x)| k.contains(needle) || contains_text(x, needle)),
        _ => false,
    }
}

fn generated() -> JsonValue {
    object(vec![
        ("title", text("AgentAction")),
        (
            "definitions",
            object(vec![
                ("ChoiceGroup", object(vec![("type", text("object"))])),
                ("AgentProgress", object(vec![("type", text("object"))])),
                ("ArtifactDraft", object(vec![("target_path", text("x"))])),
            ]),
        ),
    ])
}

#[test]
fn spec_writer_schema_has_three_branches_and_its_definitions() {
    let schema = profile_schema(generated(), "spec_writer", "spec", &[], None);
    match get(&schema, "oneOf") {
        Some(JsonValue::Array(branches)) => assert_eq!(branches.len(), 3),
        other => panic!("oneOf: {other:?}"),
    }
    assert!(contains_text(&schema, "artifact_slot"));
    assert!(!contains_text(&schema, "target_path"));
    match get(&schema, "definitions") {
        Some(JsonValue::Object(entries)) => {
            let names = entries.iter().map(|(k, _)| k.as_str()).collect::<Vec<_>>();
            assert_eq!(names, vec!["AgentProgress", "ChoiceGroup"]);
        }
        other => panic!("definitions: {other:?}"),
    }
    assert_eq!(
        get(&schema, "$schema"),
        Some(&text("http://json-schema.org/draft-07/schema#"))
    );
}

#[test]
fn director_schema_offers_only_the_allowed_targets() {
    let allowed = vec!["visual_designer".to_string()];
    let schema = profile_schema(generated(), "studio_director", "render", &allowed, None);
    assert!(contains_text(&schema, "visual_designer"));
    assert!(!contains_text(&schema, "spec_writer"));
}

#[test]
fn agents_without_a_profile_get_the_whole_schema() {
    assert_eq!(profile_schema(generated(), "image_t2i", "render", &[], None), generated());
}

#[test]
fn visual_schema_names_no_paths() {
    let allowed = vec!["studio_director".to_string()];
    let schema = profile_schema(generated(), "visual_designer", "render", &allowed, None);
    match get(&schema, "oneOf") {
        Some(JsonValue::Array(branches)) => assert_eq!(branches.len(), 3),
        other => panic!("oneOf: {other:?}"),
    }
    assert!(!contains_text(&schema, "artifacts"));
    assert!(contains_text(&schema, "revision_scope"));
}
