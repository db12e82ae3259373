use game_runtime::domain::{ConversationTargetKind, ProjectState};
use game_runtime::drafts::{
    check_art_bible_draft, finalize_naming, require_draft_choice, require_style_settled,
    select_draft,
};
use game_runtime::facts::DraftRecord;
use game_runtime::project::GameServiceError;

fn draft(id: &str, status: &str, target: &str) -> DraftRecord {
    DraftRecord {
        id: id.to_string(),
        status: status.to_string(),
        target_path: target.to_string(),
        created_at: 1,
    }
}

fn invalid(m: &str) -> GameServiceError {
    GameServiceError::InvalidAction(m.to_string())
}

fn ids(list: &[&str]) -> Vec<String> {
    list.iter().map(|s| s.to_string()).collect()
}

#[test]
fn the_art_bible_is_confirmed_from_its_own_draft() {
    let drafts = vec![
        draft("d1", "committed", "art-bible.md"),
        draft("d2", "pending", "art-bible.md"),
        draft("d3", "pending", "docs/world.md"),
    ];
    assert_eq!(check_art_bible_draft(ConversationTargetKind::Project, &drafts, "d2"), Ok(1));
    assert_eq!(
        check_art_bible_draft(ConversationTargetKind::Character, &drafts, "d2"),
        Err(GameServiceError::ProjectGate("只有项目会话可以确认 Art Bible".to_string()))
    );
    assert_eq!(
        check_art_bible_draft(ConversationTargetKind::Project, &drafts, "d1"),
        Err(invalid("Art Bible 草稿不存在或已提交"))
    );
    assert_eq!(
        check_art_bible_draft(ConversationTargetKind::Project, &drafts, "d3"),
        Err(invalid("Art Bible 草稿目标必须是 art-bible.md"))
    );
}

#[test]
fn chosen_drafts_are_ordinary_project_files() {
    let drafts = vec![
        draft("a", "pending", "docs/world.md"),
        draft("b", "pending", "project.json"),
        draft("c", "pending", ".codex-game/local/x"),
        draft("d", "pending", "../escape.md"),
        draft("e", "committed", "docs/old.md"),
        draft("f", "pending", "art-bible.md"),
    ];
    assert_eq!(require_draft_choice(&[]), Err(invalid("至少选择一个草稿")));
    assert_eq!(require_draft_choice(&ids(&["a"])), Ok(()));
    assert_eq!(
        select_draft("/game", &drafts, &ids(&["a"]), 0),
        Ok((0, "/game/docs/world.md".to_string()))
    );
    assert_eq!(
        select_draft("/game", &drafts, &ids(&["a", "a"]), 1),
        Err(invalid("草稿列表不能包含重复项"))
    );
    assert_eq!(
        select_draft("/game", &drafts, &ids(&["e"]), 0),
        Err(invalid("草稿不存在或已提交：e"))
    );
    for (id, path) in [("b", "project.json"), ("c", ".codex-game/local/x"), ("f", "art-bible.md")] {
        assert_eq!(
            select_draft("/game", &drafts, &ids(&[id]), 0),
            Err(invalid(&format!("该文件必须通过专用人工门禁提交：{path}")))
        );
    }
    assert_eq!(
        select_draft("/game", &drafts, &ids(&["d"]), 0),
        Err(GameServiceError::InvalidCharacterOperation("文件路径必须位于项目内".to_string()))
    );
}

#[test]
fn finalizing_needs_a_name_a_code_and_a_settled_style() {
    assert_eq!(finalize_naming("  西游 ", "xiyou-1"), Ok("西游".to_string()));
    let refused = Err(GameServiceError::ProjectGate("项目名或代号不合法".to_string()));
    assert_eq!(finalize_naming("  ", "xiyou"), refused);
    assert_eq!(finalize_naming("西游", "Xiyou"), refused);
    assert_eq!(finalize_naming("西游", ""), refused);
    assert_eq!(require_style_settled(ProjectState::StyleSettled), Ok(()));
    assert_eq!(
        require_style_settled(ProjectState::Drafting),
        Err(GameServiceError::ProjectGate("必须先确认 Art Bible".to_string()))
    );
}
