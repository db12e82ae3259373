use game_runtime::character_files::{
    admit_character, character_document, character_from_metadata, character_location, check_character_rewrite,
    file_restore, metadata_rollback, FileRestore,
    CharacterFile, CharacterLocation, CharacterMetadata, CharacterRecord, VersionedCharacter,
    CHARACTER_FILE_NAME, CHARACTER_SCHEMA_VERSION, MSG_CHARACTER_ID_CHANGED, MSG_EMPTY_CHARACTER_ID,
    MSG_UNSUPPORTED_METADATA,
};
use game_runtime::domain::{CharacterState, VerdictConstraint};
use game_runtime::gates::CharacterGates;

fn components(path: &str) -> Vec<String> {
    path.split('/').map(str::to_string).collect()
}

fn location(path: &str) -> CharacterLocation {
    character_location(&components(path)).expect("location")
}

fn character(project_id: &str) -> CharacterRecord {
    CharacterRecord {
        id: "stable-id".to_string(),
        project_id: project_id.to_string(),
        name: "孙悟空".to_string(),
        group: Some("玩家角色".to_string()),
        created_at: 1,
        gates: CharacterGates {
            state: CharacterState::S0SpecDrafting,
            dir_name: "characters/玩家角色/孙悟空".to_string(),
            spec_path: None,
            render_path: None,
            view_paths: Vec::new(),
            hard_constraints: Vec::new(),
            gate_spec_confirmed_at: None,
            gate_render_confirmed_at: None,
            gate_views_confirmed_at: None,
            updated_at: 2,
        },
    }
}

fn versioned(schema_version: u32, id: &str) -> CharacterMetadata {
    CharacterMetadata::Versioned {
        schema_version,
        character: VersionedCharacter {
            id: id.to_string(),
            name: "孙悟空".to_string(),
            state: CharacterState::S0SpecDrafting,
            spec_path: None,
            render_path: None,
            view_paths: Vec::new(),
            hard_constraints: Vec::new(),
            gate_spec_confirmed_at: None,
            gate_render_confirmed_at: None,
            gate_views_confirmed_at: None,
            created_at: 1,
            updated_at: 2,
        },
    }
}

#[test]
fn character_file_uses_disk_location_as_ownership_source() {
    let source = character("source-project");
    let document = character_document(&source);
    let CharacterMetadata::Versioned { schema_version, .. } = &document else {
        panic!("versioned document");
    };
    assert_eq!(*schema_version, 3);
    assert_eq!(CHARACTER_SCHEMA_VERSION, 3);

    let loaded = character_from_metadata("target-project", document, location("characters/共享角色/孙悟空"))
        .expect("read target character");
    let mut expected = source.clone();
    expected.project_id = "target-project".to_string();
    expected.group = Some("共享角色".to_string());
    expected.gates.dir_name = "characters/共享角色/孙悟空".to_string();
    assert_eq!(loaded, expected);
}

#[test]
fn legacy_character_location_fields_are_ignored() {
    let loaded = character_from_metadata("current-project", versioned(2, "stable-id"), location("characters/新分组/孙悟空"))
        .expect("read character");
    assert_eq!(loaded.project_id, "current-project");
    assert_eq!(loaded.group.as_deref(), Some("新分组"));
    assert_eq!(loaded.gates.dir_name, "characters/新分组/孙悟空");
    assert_eq!(loaded.created_at, 1);
    assert_eq!(loaded.gates.updated_at, 2);
}

#[test]
fn a_written_character_reads_back_with_its_gates_and_constraints() {
    let mut c = character("p");
    c.gates.state = CharacterState::S3RenderConfirmed;
    c.gates.spec_path = Some("characters/玩家角色/孙悟空/设定.md".to_string());
    c.gates.view_paths = vec![("front".to_string(), "f.png".to_string())];
    c.gates.hard_constraints = vec![VerdictConstraint {
        scope: "character".to_string(),
        item: "hair".to_string(),
        value: "red".to_string(),
    }];
    c.gates.gate_spec_confirmed_at = Some(5);
    c.gates.gate_render_confirmed_at = Some(6);
    let loaded = character_from_metadata("p", character_document(&c), location("characters/玩家角色/孙悟空"))
        .expect("read back");
    assert_eq!(loaded, c);
}

#[test]
fn a_plain_file_takes_its_times_from_the_file() {
    let metadata = CharacterMetadata::Flat {
        file: CharacterFile {
            id: "c1".to_string(),
            name: "名".to_string(),
            state: CharacterState::S3RenderConfirmed,
            spec_path: None,
            render_path: Some("r.png".to_string()),
            view_paths: Vec::new(),
        },
        modified_at: 77,
    };
    let loaded = character_from_metadata("p", metadata, location("characters/名")).expect("plain");
    assert_eq!(loaded.created_at, 77);
    assert_eq!(loaded.gates.updated_at, 77);
    assert_eq!(loaded.gates.gate_spec_confirmed_at, Some(77));
    assert_eq!(loaded.gates.gate_render_confirmed_at, Some(77));
    assert_eq!(loaded.gates.gate_views_confirmed_at, None);
    assert!(loaded.gates.hard_constraints.is_empty());
    assert_eq!(loaded.group, None);
    assert_eq!(loaded.gates.dir_name, "characters/名");
}

#[test]
fn old_or_anonymous_documents_are_refused() {
    let old = character_from_metadata("p", versioned(1, "stable-id"), location("characters/a")).expect_err("old");
    assert_eq!(old, MSG_UNSUPPORTED_METADATA);
    let blank = character_from_metadata("p", versioned(3, "  "), location("characters/a")).expect_err("blank");
    assert_eq!(blank, "unsupported character metadata");
    let plain = CharacterMetadata::Flat {
        file: CharacterFile {
            id: " ".to_string(),
            name: "n".to_string(),
            state: CharacterState::S0SpecDrafting,
            spec_path: None,
            render_path: None,
            view_paths: Vec::new(),
        },
        modified_at: 0,
    };
    let empty = character_from_metadata("p", plain, location("characters/a")).expect_err("empty id");
    assert_eq!(empty, MSG_EMPTY_CHARACTER_ID);
    assert_eq!(empty, "character id cannot be empty");
}

#[test]
fn a_character_lives_under_characters_and_its_groups() {
    assert_eq!(
        location("characters/a/b/孙悟空"),
        CharacterLocation { dir_name: "characters/a/b/孙悟空".to_string(), group: Some("a/b".to_string()) }
    );
    assert_eq!(location("characters").group, None);
    assert_eq!(location("characters").dir_name, "characters");
    assert!(character_location(&components("assets/孙悟空")).is_err());
    assert!(character_location(&Vec::new()).is_err());
    assert_eq!(CHARACTER_FILE_NAME, ".model.json");
}

#[test]
fn two_files_may_not_hold_the_same_character() {
    let mut characters = Vec::new();
    admit_character(&mut characters, character("p")).expect("first");
    let mut other = character("p");
    other.name = "另一个".to_string();
    let error = admit_character(&mut characters, other).expect_err("duplicate");
    assert_eq!(error, "duplicate character id: stable-id");
    assert_eq!(characters.len(), 1);
    let mut second = character("p");
    second.id = "other-id".to_string();
    admit_character(&mut characters, second).expect("second");
    assert_eq!(characters.len(), 2);
}

#[test]
fn a_character_file_keeps_its_character() {
    assert_eq!(check_character_rewrite(None, "a"), Ok(()));
    assert_eq!(check_character_rewrite(Some("a"), "a"), Ok(()));
    assert_eq!(check_character_rewrite(Some("a"), "b"), Err(MSG_CHARACTER_ID_CHANGED.to_string()));
}

#[test]
fn a_failed_commit_brings_the_metadata_back() {
    assert_eq!(file_restore(Some("old".to_string())), FileRestore::Write("old".to_string()));
    assert_eq!(file_restore(None), FileRestore::Remove);
    assert_eq!(
        metadata_rollback(false, Some(Some("old".to_string()))),
        Some(FileRestore::Write("old".to_string()))
    );
    assert_eq!(metadata_rollback(false, Some(None)), Some(FileRestore::Remove));
    assert_eq!(metadata_rollback(true, Some(Some("old".to_string()))), None);
    assert_eq!(metadata_rollback(false, None), None);
}
