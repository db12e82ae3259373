//! The JSON Schema of the actions an agent may return this turn, built from
//! the branches that `action_contract::schema_branches` plans.

use vstd::prelude::*;
use crate::action::{owned, str_eq};
use crate::action_contract::{
    definition_plan, schema_branches, schema_definition_names, schema_plan, PayloadSchema, SchemaBranch,
    TargetSchema,
};
use crate::domain::AgentActionKind;
use crate::events::{copy_json, json_of, Json, JsonValue};
use crate::text::string_views;
use crate::workflow::opt_str_view;

verus! {

// --- building values ------------------------------------------------------------

fn text(s: &str) -> (r: JsonValue)
    ensures
        json_of(r) == Json::Str(s@),
{
    JsonValue::String(owned(s))
}

fn number(digits: &str) -> (r: JsonValue)
    ensures
        json_of(r) == Json::Number(digits@),
{
    JsonValue::Number(owned(digits))
}

fn object0() -> (r: JsonValue)
    ensures
        json_of(r) == Json::Object(seq![]),
{
    let es: Vec<(String, JsonValue)> = Vec::new();
    let r = JsonValue::Object(es);
    assert(json_of(r)->Object_0 =~= seq![]);
    r
}

fn object1(k0: &str, v0: JsonValue) -> (r: JsonValue)
    ensures
        json_of(r) == Json::Object(seq![(k0@, json_of(v0))]),
{
    let ghost g = seq![(k0@, json_of(v0))];
    let r = JsonValue::Object(vec![(owned(k0), v0)]);
    assert(json_of(r)->Object_0 =~= g);
    r
}

fn object2(k0: &str, v0: JsonValue, k1: &str, v1: JsonValue) -> (r: JsonValue)
    ensures
        json_of(r) == Json::Object(seq![(k0@, json_of(v0)), (k1@, json_of(v1))]),
{
    let ghost g = seq![(k0@, json_of(v0)), (k1@, json_of(v1))];
    let r = JsonValue::Object(vec![(owned(k0), v0), (owned(k1), v1)]);
    assert(json_of(r)->Object_0 =~= g);
    r
}

fn object3(k0: &str, v0: JsonValue, k1: &str, v1: JsonValue, k2: &str, v2: JsonValue) -> (r: JsonValue)
    ensures
        json_of(r) == Json::Object(seq![(k0@, json_of(v0)), (k1@, json_of(v1)), (k2@, json_of(v2))]),
{
    let ghost g = seq![(k0@, json_of(v0)), (k1@, json_of(v1)), (k2@, json_of(v2))];
    let r = JsonValue::Object(vec![(owned(k0), v0), (owned(k1), v1), (owned(k2), v2)]);
    assert(json_of(r)->Object_0 =~= g);
    r
}

fn object4(
    k0: &str,
    v0: JsonValue,
    k1: &str,
    v1: JsonValue,
    k2: &str,
    v2: JsonValue,
    k3: &str,
    v3: JsonValue,
) -> (r: JsonValue)
    ensures
        json_of(r) == Json::Object(
            seq![(k0@, json_of(v0)), (k1@, json_of(v1)), (k2@, json_of(v2)), (k3@, json_of(v3))],
        ),
{
    let ghost g = seq![(k0@, json_of(v0)), (k1@, json_of(v1)), (k2@, json_of(v2)), (k3@, json_of(v3))];
    let r = JsonValue::Object(vec![(owned(k0), v0), (owned(k1), v1), (owned(k2), v2), (owned(k3), v3)]);
    assert(json_of(r)->Object_0 =~= g);
    r
}

fn texts1(a: &str) -> (r: JsonValue)
    ensures
        json_of(r) == Json::Array(seq![Json::Str(a@)]),
{
    let ghost g = seq![Json::Str(a@)];
    let r = JsonValue::Array(vec![text(a)]);
    assert(json_of(r)->Array_0 =~= g);
    r
}

fn texts2(a: &str, b: &str) -> (r: JsonValue)
    ensures
        json_of(r) == Json::Array(seq![Json::Str(a@), Json::Str(b@)]),
{
    let ghost g = seq![Json::Str(a@), Json::Str(b@)];
    let r = JsonValue::Array(vec![text(a), text(b)]);
    assert(json_of(r)->Array_0 =~= g);
    r
}

fn texts_then_null(a: &str, b: &str) -> (r: JsonValue)
    ensures
        json_of(r) == Json::Array(seq![Json::Str(a@), Json::Str(b@), Json::Null]),
{
    let ghost g = seq![Json::Str(a@), Json::Str(b@), Json::Null];
    let r = JsonValue::Array(vec![text(a), text(b), JsonValue::Null]);
    assert(json_of(r)->Array_0 =~= g);
    r
}

fn texts4(a: &str, b: &str, c: &str, d: &str) -> (r: JsonValue)
    ensures
        json_of(r) == Json::Array(seq![Json::Str(a@), Json::Str(b@), Json::Str(c@), Json::Str(d@)]),
{
    let ghost g = seq![Json::Str(a@), Json::Str(b@), Json::Str(c@), Json::Str(d@)];
    let r = JsonValue::Array(vec![text(a), text(b), text(c), text(d)]);
    assert(json_of(r)->Array_0 =~= g);
    r
}

/// The strings `names`, as a JSON array.
pub open spec fn strings_json(names: Seq<Seq<char>>) -> Json {
    Json::Array(names.map_values(|n: Seq<char>| Json::Str(n)))
}

fn strings(names: &[String]) -> (r: JsonValue)
    ensures
        json_of(r) == strings_json(string_views(names@)),
{
    let mut items: Vec<JsonValue> = Vec::new();
    for i in 0..names.len()
        invariant
            items@.len() == i,
            forall|j: int| 0 <= j < i ==> json_of(#[trigger] items@[j]) == Json::Str(names@[j]@),
    {
        items.push(text(names[i].as_str()));
    }
    let r = JsonValue::Array(items);
    assert(json_of(r)->Array_0 =~= strings_json(string_views(names@))->Array_0);
    r
}

// --- the schema's parts -------------------------------------------------------------

/// `{"$ref": "#/definitions/<name>"}`.
pub open spec fn ref_json(name: Seq<char>) -> Json {
    Json::Object(seq![("$ref"@, Json::Str("#/definitions/"@ + name))])
}

/// A non-empty string.
pub open spec fn nonempty_text_json() -> Json {
    Json::Object(seq![("type"@, Json::Str("string"@)), ("minLength"@, Json::Number("1"@))])
}

/// An object that allows exactly the given properties.
pub open spec fn closed_object_json(properties: Seq<(Seq<char>, Json)>) -> Json {
    Json::Object(
        seq![
            ("type"@, Json::Str("object"@)),
            ("additionalProperties"@, Json::Bool(false)),
            ("properties"@, Json::Object(properties)),
        ],
    )
}

/// An object that allows the given properties and requires the named ones.
pub open spec fn required_object_json(required: Seq<Json>, properties: Seq<(Seq<char>, Json)>) -> Json {
    Json::Object(
        seq![
            ("type"@, Json::Str("object"@)),
            ("additionalProperties"@, Json::Bool(false)),
            ("required"@, Json::Array(required)),
            ("properties"@, Json::Object(properties)),
        ],
    )
}

fn reference(name: &str) -> (r: JsonValue)
    ensures
        json_of(r) == ref_json(name@),
{
    let mut target = owned("#/definitions/");
    target.append(name);
    object1("$ref", JsonValue::String(target))
}

fn nonempty_text() -> (r: JsonValue)
    ensures
        json_of(r) == nonempty_text_json(),
{
    object2("type", text("string"), "minLength", number("1"))
}

fn with_required(required: JsonValue, properties: JsonValue) -> (r: JsonValue)
    requires
        json_of(required) is Array,
        json_of(properties) is Object,
    ensures
        json_of(r) == required_object_json(json_of(required)->Array_0, json_of(properties)->Object_0),
{
    object4("type", text("object"), "additionalProperties", JsonValue::Bool(false), "required", required, "properties", properties)
}

/// The schema of an empty payload.
pub open spec fn empty_payload_json() -> Json {
    closed_object_json(seq![])
}

/// The schema of a payload that asks the user to choose.
pub open spec fn choices_payload_json() -> Json {
    required_object_json(
        seq![Json::Str("choices"@)],
        seq![
            ("choices"@, Json::Object(
                seq![
                    ("type"@, Json::Str("array"@)),
                    ("minItems"@, Json::Number("1"@)),
                    ("maxItems"@, Json::Number("4"@)),
                    ("items"@, ref_json("ChoiceGroup"@)),
                ],
            )),
            ("progress"@, ref_json("AgentProgress"@)),
        ],
    )
}

/// The schema of a payload that carries drafts of the character spec.
pub open spec fn drafts_payload_json() -> Json {
    required_object_json(
        seq![Json::Str("drafts"@)],
        seq![
            ("drafts"@, Json::Object(
                seq![
                    ("type"@, Json::Str("array"@)),
                    ("minItems"@, Json::Number("1"@)),
                    ("items"@, required_object_json(
                        seq![Json::Str("artifact_slot"@), Json::Str("content"@)],
                        seq![
                            ("artifact_slot"@, Json::Object(seq![("const"@, Json::Str("character_spec"@))])),
                            ("content"@, nonempty_text_json()),
                            ("based_on_hash"@, Json::Object(
                                seq![("type"@, Json::Array(seq![Json::Str("string"@), Json::Str("null"@)]))],
                            )),
                        ],
                    )),
                ],
            )),
            ("progress"@, ref_json("AgentProgress"@)),
        ],
    )
}

/// The schema of a payload that carries a review verdict.
pub open spec fn verdict_payload_json() -> Json {
    required_object_json(seq![Json::Str("verdict"@)], seq![("verdict"@, ref_json("AgentVerdict"@))])
}

/// The schema of the result a visual specialist hands back: on success, the
/// stages it may name for revision (the views and the render once the views
/// are being worked on, else the render); on failure, its error.
pub open spec fn visual_result_json(status: Seq<char>, views: Option<bool>) -> Json {
    let result = match views {
        Some(v) => required_object_json(
            seq![
                Json::Str("status"@),
                Json::Str("error"@),
                Json::Str("revision_scope"@),
                Json::Str("focus_changes_summary"@),
            ],
            seq![
                ("status"@, Json::Object(seq![("const"@, Json::Str(status))])),
                ("error"@, Json::Object(seq![("type"@, Json::Str("null"@))])),
                ("revision_scope"@, Json::Object(
                    seq![
                        ("type"@, Json::Str("string"@)),
                        ("enum"@, if v {
                            Json::Array(seq![Json::Str("views"@), Json::Str("render"@)])
                        } else {
                            Json::Array(seq![Json::Str("render"@)])
                        }),
                    ],
                )),
                ("focus_changes_summary"@, nonempty_text_json()),
            ],
        ),
        None => required_object_json(
            seq![Json::Str("status"@), Json::Str("error"@)],
            seq![
                ("status"@, Json::Object(seq![("const"@, Json::Str(status))])),
                ("error"@, nonempty_text_json()),
                ("revision_scope"@, Json::Object(
                    seq![
                        ("type"@, Json::Array(seq![Json::Str("string"@), Json::Str("null"@)])),
                        ("enum"@, Json::Array(seq![Json::Str("render"@), Json::Str("views"@), Json::Null])),
                    ],
                )),
                ("focus_changes_summary"@, Json::Object(
                    seq![("type"@, Json::Array(seq![Json::Str("string"@), Json::Str("null"@)]))],
                )),
            ],
        ),
    };
    required_object_json(seq![Json::Str("result"@)], seq![("result"@, result)])
}

/// The schema of a branch's payload.
pub open spec fn payload_json(p: PayloadSchema) -> Json {
    match p {
        PayloadSchema::Empty => empty_payload_json(),
        PayloadSchema::Choices => choices_payload_json(),
        PayloadSchema::Drafts => drafts_payload_json(),
        PayloadSchema::Verdict => verdict_payload_json(),
        PayloadSchema::VisualSuccess { views } => visual_result_json("success"@, Some(views)),
        PayloadSchema::VisualFailure => visual_result_json("failed"@, None),
    }
}

/// The name of an action kind on the wire.
pub open spec fn action_name(kind: AgentActionKind) -> Seq<char> {
    match kind {
        AgentActionKind::AskUser => "ask_user"@,
        AgentActionKind::Handoff => "handoff"@,
        AgentActionKind::Done => "done"@,
        AgentActionKind::Blocked => "blocked"@,
    }
}

/// The schema of one branch: the action it is for, its target (null, or one
/// of the allowed handoff targets), a non-empty reason and its payload.
pub open spec fn branch_json(b: SchemaBranch, allowed: Seq<Seq<char>>) -> Json {
    required_object_json(
        seq![
            Json::Str("action"@),
            Json::Str("target_agent"@),
            Json::Str("reason"@),
            Json::Str("payload"@),
        ],
        seq![
            ("action"@, Json::Object(seq![("const"@, Json::Str(action_name(b.action)))])),
            ("target_agent"@, match b.target {
                TargetSchema::Null => Json::Object(seq![("type"@, Json::Str("null"@))]),
                TargetSchema::AllowedHandoffs => Json::Object(
                    seq![("type"@, Json::Str("string"@)), ("enum"@, strings_json(allowed))],
                ),
            }),
            ("reason"@, nonempty_text_json()),
            ("payload"@, payload_json(b.payload)),
        ],
    )
}

fn const_text(value: &str) -> (r: JsonValue)
    ensures
        json_of(r) == Json::Object(seq![("const"@, Json::Str(value@))]),
{
    object1("const", text(value))
}

fn type_only(name: &str) -> (r: JsonValue)
    ensures
        json_of(r) == Json::Object(seq![("type"@, Json::Str(name@))]),
{
    object1("type", text(name))
}

fn string_or_null() -> (r: JsonValue)
    ensures
        json_of(r) == Json::Array(seq![Json::Str("string"@), Json::Str("null"@)]),
{
    texts2("string", "null")
}

fn empty_payload() -> (r: JsonValue)
    ensures
        json_of(r) == empty_payload_json(),
{
    object3("type", text("object"), "additionalProperties", JsonValue::Bool(false), "properties", object0())
}

fn choices_payload() -> (r: JsonValue)
    ensures
        json_of(r) == choices_payload_json(),
{
    let choices = object4(
        "type",
        text("array"),
        "minItems",
        number("1"),
        "maxItems",
        number("4"),
        "items",
        reference("ChoiceGroup"),
    );
    let properties = object2("choices", choices, "progress", reference("AgentProgress"));
    with_required(texts1("choices"), properties)
}

fn drafts_payload() -> (r: JsonValue)
    ensures
        json_of(r) == drafts_payload_json(),
{
    let based_on_hash = object1("type", string_or_null());
    let item_properties = object3(
        "artifact_slot",
        const_text("character_spec"),
        "content",
        nonempty_text(),
        "based_on_hash",
        based_on_hash,
    );
    let item = with_required(texts2("artifact_slot", "content"), item_properties);
    let drafts = object3("type", text("array"), "minItems", number("1"), "items", item);
    let properties = object2("drafts", drafts, "progress", reference("AgentProgress"));
    with_required(texts1("drafts"), properties)
}

fn verdict_payload() -> (r: JsonValue)
    ensures
        json_of(r) == verdict_payload_json(),
{
    with_required(texts1("verdict"), object1("verdict", reference("AgentVerdict")))
}

fn visual_result_payload(status: &str, views: Option<bool>) -> (r: JsonValue)
    ensures
        json_of(r) == visual_result_json(status@, views),
{
    let result = match views {
        Some(v) => {
            let scopes = if v {
                texts2("views", "render")
            } else {
                texts1("render")
            };
            let revision_scope = object2("type", text("string"), "enum", scopes);
            let properties = object4(
                "status",
                const_text(status),
                "error",
                type_only("null"),
                "revision_scope",
                revision_scope,
                "focus_changes_summary",
                nonempty_text(),
            );
            with_required(texts4("status", "error", "revision_scope", "focus_changes_summary"), properties)
        },
        None => {
            let revision_scope = object2(
                "type",
                string_or_null(),
                "enum",
                texts_then_null("render", "views"),
            );
            let properties = object4(
                "status",
                const_text(status),
                "error",
                nonempty_text(),
                "revision_scope",
                revision_scope,
                "focus_changes_summary",
                object1("type", string_or_null()),
            );
            with_required(texts2("status", "error"), properties)
        },
    };
    with_required(texts1("result"), object1("result", result))
}

fn payload_schema(p: PayloadSchema) -> (r: JsonValue)
    ensures
        json_of(r) == payload_json(p),
{
    match p {
        PayloadSchema::Empty => empty_payload(),
        PayloadSchema::Choices => choices_payload(),
        PayloadSchema::Drafts => drafts_payload(),
        PayloadSchema::Verdict => verdict_payload(),
        PayloadSchema::VisualSuccess { views } => visual_result_payload("success", Some(views)),
        PayloadSchema::VisualFailure => visual_result_payload("failed", None),
    }
}

fn action_text(kind: AgentActionKind) -> (r: &'static str)
    ensures
        r@ == action_name(kind),
{
    match kind {
        AgentActionKind::AskUser => "ask_user",
        AgentActionKind::Handoff => "handoff",
        AgentActionKind::Done => "done",
        AgentActionKind::Blocked => "blocked",
    }
}

/// The schema of one branch of an agent's profile.
pub fn branch_schema(branch: &SchemaBranch, allowed_handoffs: &[String]) -> (r: JsonValue)
    ensures
        json_of(r) == branch_json(*branch, string_views(allowed_handoffs@)),
{
    let target = match branch.target {
        TargetSchema::Null => type_only("null"),
        TargetSchema::AllowedHandoffs => object2("type", text("string"), "enum", strings(allowed_handoffs)),
    };
    let properties = object4(
        "action",
        const_text(action_text(branch.action)),
        "target_agent",
        target,
        "reason",
        nonempty_text(),
        "payload",
        payload_schema(branch.payload),
    );
    with_required(texts4("action", "target_agent", "reason", "payload"), properties)
}

// --- the whole profile --------------------------------------------------------------

/// The value of the first entry named `key`.
pub open spec fn json_entry(entries: Seq<(Seq<char>, Json)>, key: Seq<char>) -> Option<Json>
    decreases entries.len(),
{
    if entries.len() == 0 {
        None
    } else if entries[0].0 == key {
        Some(entries[0].1)
    } else {
        json_entry(entries.drop_first(), key)
    }
}

proof fn lemma_json_entry(entries: Seq<(Seq<char>, Json)>, key: Seq<char>, i: int)
    requires
        0 <= i <= entries.len(),
        forall|j: int| 0 <= j < i ==> entries[j].0 != key,
    ensures
        i < entries.len() && entries[i].0 == key ==> json_entry(entries, key) == Some(entries[i].1),
        i == entries.len() ==> json_entry(entries, key) is None,
    decreases i,
{
    if i > 0 {
        lemma_json_entry(entries.drop_first(), key, i - 1);
    }
}

/// The definitions of a generated schema, if it has them.
pub open spec fn definitions_of(generated: Json) -> Option<Json> {
    match generated {
        Json::Object(entries) => json_entry(entries, "definitions"@),
        _ => None,
    }
}

/// The definitions named `names`, in that order, that `definitions` holds.
pub open spec fn selected_definitions(definitions: Option<Json>, names: Seq<Seq<char>>) -> Seq<(Seq<char>, Json)>
    decreases names.len(),
{
    if names.len() == 0 {
        seq![]
    } else {
        let earlier = selected_definitions(definitions, names.drop_last());
        match definitions {
            Some(Json::Object(entries)) => match json_entry(entries, names.last()) {
                Some(d) => earlier.push((names.last(), d)),
                None => earlier,
            },
            _ => earlier,
        }
    }
}

/// The JSON Schema draft the profile declares.
pub open spec fn schema_draft() -> Seq<char> {
    "http://json-schema.org/draft-07/schema#"@
}

/// The schema an agent is given this turn. `generated` is the schema of the
/// whole action type; an agent without a profile is given it as it is. An
/// agent with a profile is given one branch per planned shape, and the
/// definitions its profile keeps (all of them where it names none).
pub open spec fn profile_json(
    generated: Json,
    agent: Seq<char>,
    task: Option<Seq<char>>,
    stage: Seq<char>,
    allowed: Seq<Seq<char>>,
) -> Json {
    match schema_plan(agent, task, stage, allowed.len() > 0) {
        None => generated,
        Some(plan) => {
            let definitions = match definition_plan(agent) {
                Some(names) => Json::Object(selected_definitions(definitions_of(generated), names)),
                None => match definitions_of(generated) {
                    Some(d) => d,
                    None => Json::Object(seq![]),
                },
            };
            Json::Object(
                seq![
                    ("$schema"@, Json::Str(schema_draft())),
                    ("definitions"@, definitions),
                    ("oneOf"@, Json::Array(plan.map_values(|b: SchemaBranch| branch_json(b, allowed)))),
                ],
            )
        },
    }
}

/// Where the first entry named `key` is.
fn entry_index(entries: &Vec<(String, JsonValue)>, key: &str) -> (r: Option<usize>)
    ensures
        ({
            let es = json_of(JsonValue::Object(*entries))->Object_0;
            match r {
                Some(i) => i < entries@.len() && json_entry(es, key@) == Some(json_of(entries@[i as int].1)),
                None => json_entry(es, key@) is None,
            }
        }),
{
    let ghost es = json_of(JsonValue::Object(*entries))->Object_0;
    for i in 0..entries.len()
        invariant
            es == json_of(JsonValue::Object(*entries))->Object_0,
            es.len() == entries@.len(),
            forall|j: int| 0 <= j < i ==> es[j].0 != key@,
    {
        if str_eq(entries[i].0.as_str(), key) {
            proof {
                lemma_json_entry(es, key@, i as int);
            }
            return Some(i);
        }
    }
    proof {
        lemma_json_entry(es, key@, es.len() as int);
    }
    None
}

/// The definitions of `generated`, if it is an object that has them.
fn definitions_in(generated: &JsonValue) -> (r: Option<&JsonValue>)
    ensures
        match r {
            Some(d) => definitions_of(json_of(*generated)) == Some(json_of(*d)),
            None => definitions_of(json_of(*generated)) is None,
        },
{
    match generated {
        JsonValue::Object(entries) => match entry_index(entries, "definitions") {
            Some(i) => Some(&entries[i].1),
            None => None,
        },
        _ => None,
    }
}

fn select_definitions(definitions: Option<&JsonValue>, names: &Vec<&'static str>) -> (r: JsonValue)
    ensures
        json_of(r) == Json::Object(
            selected_definitions(
                match definitions {
                    Some(d) => Some(json_of(*d)),
                    None => None,
                },
                names@.map_values(|n: &'static str| n@),
            ),
        ),
{
    let ghost defs = match definitions {
        Some(d) => Some(json_of(*d)),
        None => None,
    };
    let ghost ns = names@.map_values(|n: &'static str| n@);
    let mut out: Vec<(String, JsonValue)> = Vec::new();
    for i in 0..names.len()
        invariant
            ns == names@.map_values(|n: &'static str| n@),
            defs == match definitions {
                Some(d) => Some(json_of(*d)),
                None => None,
            },
            json_of(JsonValue::Object(out))->Object_0 == selected_definitions(defs, ns.take(i as int)),
    {
        proof {
            assert(ns.take(i + 1).drop_last() =~= ns.take(i as int));
            assert(ns.take(i + 1).last() == names@[i as int]@);
        }
        let ghost prev = json_of(JsonValue::Object(out))->Object_0;
        match definitions {
            Some(JsonValue::Object(entries)) => {
                match entry_index(entries, names[i]) {
                    Some(k) => {
                        let d = copy_json(&entries[k].1);
                        out.push((owned(names[i]), d));
                        assert(json_of(JsonValue::Object(out))->Object_0 =~= prev.push(
                            (names@[i as int]@, json_of(entries@[k as int].1)),
                        ));
                    },
                    None => {},
                }
            },
            _ => {},
        }
        assert(json_of(JsonValue::Object(out))->Object_0 == selected_definitions(defs, ns.take(i + 1)));
    }
    assert(ns.take(names@.len() as int) =~= ns);
    JsonValue::Object(out)
}

/// The schema an agent is given this turn; see `profile_json`.
pub fn profile_schema(
    generated: JsonValue,
    agent_code: &str,
    stage: &str,
    allowed_handoffs: &[String],
    project_task: Option<&str>,
) -> (r: JsonValue)
    ensures
        json_of(r) == profile_json(
            json_of(generated),
            agent_code@,
            opt_str_view(project_task),
            stage@,
            string_views(allowed_handoffs@),
        ),
{
    let branches = match schema_branches(agent_code, project_task, stage, allowed_handoffs) {
        Some(b) => b,
        None => return generated,
    };
    let definitions = match schema_definition_names(agent_code) {
        Some(names) => select_definitions(definitions_in(&generated), &names),
        None => match definitions_in(&generated) {
            Some(d) => copy_json(d),
            None => object0(),
        },
    };
    let ghost allowed = string_views(allowed_handoffs@);
    let mut one_of: Vec<JsonValue> = Vec::new();
    for i in 0..branches.len()
        invariant
            allowed == string_views(allowed_handoffs@),
            one_of@.len() == i,
            forall|j: int| 0 <= j < i ==> json_of(#[trigger] one_of@[j]) == branch_json(branches@[j], allowed),
    {
        one_of.push(branch_schema(&branches[i], allowed_handoffs));
    }
    let one_of = JsonValue::Array(one_of);
    assert(json_of(one_of)->Array_0 =~= branches@.map_values(|b: SchemaBranch| branch_json(b, allowed)));
    object3("$schema", text("http://json-schema.org/draft-07/schema#"), "definitions", definitions, "oneOf", one_of)
}

} // verus!
