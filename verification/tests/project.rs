use game_runtime::project::{
    absolute_root, action_protocol_instruction, has_trimmed_line, local_storage_ignore_addition,
    safe_project_path, safe_segment, GameServiceError,
};
use game_runtime::domain::{ACTION_END, ACTION_START};

#[test]
fn appends_local_storage_ignore_without_overwriting_existing_rules() {
    let mut gitignore = "target/\n".to_string();
    if let Some(addition) = local_storage_ignore_addition(&gitignore) {
        gitignore.push_str(&addition);
    }
    assert_eq!(local_storage_ignore_addition(&gitignore), None);
    assert_eq!(gitignore, "target/\n/.codex-game/local/\n");
}

#[test]
fn ignore_entry_goes_on_a_line_of_its_own() {
    assert_eq!(
        local_storage_ignore_addition("target/").as_deref(),
        Some("\n/.codex-game/local/\n")
    );
    assert_eq!(
        local_storage_ignore_addition("").as_deref(),
        Some("/.codex-game/local/\n")
    );
    assert_eq!(local_storage_ignore_addition("a\n  /.codex-game/local/  \r\nb"), None);
    assert!(has_trimmed_line("x\n\n y \n", "y"));
    assert!(!has_trimmed_line("xy\n", "y"));
}

#[test]
fn directory_names_must_be_plain_segments() {
    assert_eq!(safe_segment("  孙悟空 ").unwrap(), "孙悟空");
    for bad in ["", "  ", ".", "..", "a/b", "a\\b", "a\tb"] {
        assert_eq!(
            safe_segment(bad),
            Err(GameServiceError::InvalidCharacterOperation("名称不能用于目录".to_string())),
            "{bad:?}"
        );
    }
}

#[test]
fn project_paths_stay_inside_the_root() {
    assert_eq!(safe_project_path("/game", "docs/a.md").unwrap(), "/game/docs/a.md");
    assert_eq!(safe_project_path("/game/", "docs/a.md").unwrap(), "/game/docs/a.md");
    assert_eq!(safe_project_path("/game", "a/..b/c").unwrap(), "/game/a/..b/c");
    for bad in ["/etc/passwd", "../x", "a/../../x", "a/.."] {
        assert_eq!(
            safe_project_path("/game", bad),
            Err(GameServiceError::InvalidCharacterOperation("文件路径必须位于项目内".to_string())),
            "{bad}"
        );
    }
    assert_eq!(absolute_root("/game").unwrap(), "/game");
    let error = absolute_root("game").unwrap_err();
    assert_eq!(error, GameServiceError::InvalidProjectPath("game".to_string()));
    assert_eq!(error.message(), "invalid project path: game");
    assert_eq!(
        GameServiceError::StateUnavailable.message(),
        "game runtime state is unavailable"
    );
}

#[test]
fn protocol_instruction_names_the_markers_and_who_decides() {
    let director = action_protocol_instruction("studio_director", "studio_director");
    assert!(director.starts_with(&format!("每次回复最后必须且只能包含一个 {ACTION_START} JSON {ACTION_END} 块。")));
    assert!(director.contains("你是当前会话总管"));
    let specialist = action_protocol_instruction("spec_writer", "studio_director");
    assert!(specialist.contains("必须 handoff 回总管 studio_director，不得直接 done"));
    assert!(specialist.ends_with("用户完成选择后的下一轮才能输出 drafts 进入最终确认。"));
}
