//! Committing an agent's drafts into the project: the Art Bible through its
//! own confirmation, other documents by the user's choice, and the naming
//! that finalizes a project.

use vstd::prelude::*;
use crate::action::{is_valid_code, owned, str_eq, valid_code};
use crate::domain::{ConversationTargetKind, ProjectState};
use crate::facts::DraftRecord;
use crate::gates::{first_true, lemma_first_true, lemma_first_true_unique};
use crate::project::{inside_project, joined_path, safe_project_path, GameServiceError};
use crate::text::{chars_of, chars_start_with, is_blank, starts_with, trim, trimmed};
use crate::turns::invalid;

verus! {

/// Whether a draft is the pending one asked for.
pub open spec fn pending_with_id(ds: Seq<DraftRecord>, id: Seq<char>) -> Seq<bool> {
    Seq::new(ds.len(), |i: int| ds[i].id@ == id && ds[i].status@ == "pending"@)
}

fn find_pending(drafts: &[DraftRecord], id: &str) -> (r: Option<usize>)
    ensures
        match first_true(pending_with_id(drafts@, id@)) {
            Some(i) => 0 <= i < drafts.len() && r == Some(i as usize),
            None => r is None,
        },
{
    let ghost want = pending_with_id(drafts@, id@);
    let mut i: usize = 0;
    while i < drafts.len()
        invariant
            i <= drafts.len(),
            want == pending_with_id(drafts@, id@),
            forall|j: int| 0 <= j < i ==> !want[j],
        decreases drafts.len() - i,
    {
        if str_eq(drafts[i].id.as_str(), id) && str_eq(drafts[i].status.as_str(), "pending") {
            proof {
                lemma_first_true_unique(want, i as int);
            }
            return Some(i);
        }
        i = i + 1;
    }
    proof {
        lemma_first_true(want);
    }
    None
}

/// Which draft confirms the Art Bible, or why none can: only a project
/// conversation confirms it, from a pending draft of `art-bible.md`.
pub open spec fn art_bible_choice(target_kind: ConversationTargetKind, drafts: Seq<DraftRecord>, draft_id: Seq<char>) -> Result<
    int,
    (bool, Seq<char>),
> {
    if target_kind != ConversationTargetKind::Project {
        Err((true, "只有项目会话可以确认 Art Bible"@))
    } else {
        match first_true(pending_with_id(drafts, draft_id)) {
            None => Err((false, "Art Bible 草稿不存在或已提交"@)),
            Some(i) => if drafts[i].target_path@ == "art-bible.md"@ {
                Ok(i)
            } else {
                Err((false, "Art Bible 草稿目标必须是 art-bible.md"@))
            },
        }
    }
}

/// The draft that confirms the Art Bible, by its index among the
/// conversation's drafts. A refusal for the wrong conversation is a project
/// gate (`true` in the view), the others refuse the action.
pub fn check_art_bible_draft(target_kind: ConversationTargetKind, drafts: &[DraftRecord], draft_id: &str) -> (r: Result<
    usize,
    GameServiceError,
>)
    ensures
        match art_bible_choice(target_kind, drafts@, draft_id@) {
            Ok(i) => r == Ok::<usize, GameServiceError>(i as usize),
            Err((true, m)) => r matches Err(GameServiceError::ProjectGate(x)) && x@ == m,
            Err((false, m)) => r matches Err(e) && invalid(e, m),
        },
{
    if target_kind != ConversationTargetKind::Project {
        return Err(GameServiceError::ProjectGate(owned("只有项目会话可以确认 Art Bible")));
    }
    let i = match find_pending(drafts, draft_id) {
        Some(i) => i,
        None => {
            return Err(GameServiceError::InvalidAction(owned("Art Bible 草稿不存在或已提交")));
        },
    };
    if !str_eq(drafts[i].target_path.as_str(), "art-bible.md") {
        return Err(GameServiceError::InvalidAction(owned("Art Bible 草稿目标必须是 art-bible.md")));
    }
    Ok(i)
}

/// A file that only its own confirmation may write: the project file, the Art
/// Bible, and the runtime's own directory.
pub open spec fn gate_only_path(p: Seq<char>) -> bool {
    p == "project.json"@ || p == "art-bible.md"@ || starts_with(p, ".codex-game/"@)
}

/// Which draft the `k`-th chosen id commits and where its file goes, or why it
/// cannot be committed: ids may not repeat, the draft must be pending, and
/// its file must be an ordinary file inside the project.
pub open spec fn draft_choice(
    root: Seq<char>,
    drafts: Seq<DraftRecord>,
    ids: Seq<String>,
    k: int,
) -> Result<(int, Seq<char>), Seq<char>> {
    if exists|j: int| 0 <= j < k && ids[j]@ == ids[k]@ {
        Err("草稿列表不能包含重复项"@)
    } else {
        match first_true(pending_with_id(drafts, ids[k]@)) {
            None => Err("草稿不存在或已提交："@ + ids[k]@),
            Some(i) => {
                let p = drafts[i].target_path@;
                if gate_only_path(p) {
                    Err("该文件必须通过专用人工门禁提交："@ + p)
                } else if !inside_project(p) {
                    Err("文件路径必须位于项目内"@)
                } else {
                    Ok((i, joined_path(root, p)))
                }
            },
        }
    }
}

/// Whether the error refusing a draft choice is the one with message `m`: a
/// path outside the project is refused as a character operation, the rest as
/// an action.
pub open spec fn draft_refusal(e: GameServiceError, m: Seq<char>) -> bool {
    if m == "文件路径必须位于项目内"@ {
        e matches GameServiceError::InvalidCharacterOperation(x) && x@ == m
    } else {
        invalid(e, m)
    }
}

/// At least one draft must be chosen.
pub fn require_draft_choice(draft_ids: &[String]) -> (r: Result<(), GameServiceError>)
    ensures
        draft_ids.len() > 0 ==> r is Ok,
        draft_ids.len() == 0 ==> (r matches Err(e) && invalid(e, "至少选择一个草稿"@)),
{
    if draft_ids.len() == 0 {
        return Err(GameServiceError::InvalidAction(owned("至少选择一个草稿")));
    }
    Ok(())
}

/// The draft that the `k`-th chosen id commits, by index, and the path of its
/// file in the project at `root`; each file's baseline is then checked before
/// the next id is taken.
pub fn select_draft(root: &str, drafts: &[DraftRecord], draft_ids: &[String], k: usize) -> (r: Result<
    (usize, String),
    GameServiceError,
>)
    requires
        k < draft_ids.len(),
    ensures
        match draft_choice(root@, drafts@, draft_ids@, k as int) {
            Ok((i, p)) => r matches Ok((x, y)) && x == i && y@ == p,
            Err(m) => r matches Err(e) && draft_refusal(e, m),
        },
{
    proof {
        reveal_strlit("文件路径必须位于项目内");
        reveal_strlit("草稿列表不能包含重复项");
        reveal_strlit("草稿不存在或已提交：");
        assert("文件路径必须位于项目内"@[0] != "草稿列表不能包含重复项"@[0]);
        assert(("草稿不存在或已提交："@ + draft_ids@[k as int]@)[0] == "草稿不存在或已提交："@[0]);
    }
    let id = &draft_ids[k];
    let mut j: usize = 0;
    while j < k
        invariant
            j <= k < draft_ids.len(),
            id@ == draft_ids@[k as int]@,
            forall|q: int| 0 <= q < j ==> draft_ids@[q]@ != draft_ids@[k as int]@,
        decreases k - j,
    {
        if str_eq(draft_ids[j].as_str(), id.as_str()) {
            assert(draft_ids@[j as int]@ == draft_ids@[k as int]@);
            proof {
                reveal_strlit("文件路径必须位于项目内");
                reveal_strlit("草稿列表不能包含重复项");
                assert("文件路径必须位于项目内"@[0] != "草稿列表不能包含重复项"@[0]);
            }
            return Err(GameServiceError::InvalidAction(owned("草稿列表不能包含重复项")));
        }
        j = j + 1;
    }
    let i = match find_pending(drafts, id.as_str()) {
        Some(i) => i,
        None => {
            let mut m = owned("草稿不存在或已提交：");
            m.append(id.as_str());
            return Err(GameServiceError::InvalidAction(m));
        },
    };
    let p = drafts[i].target_path.as_str();
    proof {
        reveal_strlit("文件路径必须位于项目内");
        reveal_strlit("该文件必须通过专用人工门禁提交：");
        assert("文件路径必须位于项目内"@[0] != "该文件必须通过专用人工门禁提交："@[0]);
    }
    let cs = chars_of(p);
    let prefix = chars_of(".codex-game/");
    if str_eq(p, "project.json") || str_eq(p, "art-bible.md") || chars_start_with(cs.as_slice(), prefix.as_slice()) {
        let mut m = owned("该文件必须通过专用人工门禁提交：");
        m.append(p);
        proof {
            let t = "该文件必须通过专用人工门禁提交："@ + p@;
            assert(t[0] == "该文件必须通过专用人工门禁提交："@[0]);
        }
        return Err(GameServiceError::InvalidAction(m));
    }
    match safe_project_path(root, p) {
        Ok(path) => Ok((i, path)),
        Err(e) => Err(e),
    }
}

/// The name a project is finalized under, trimmed, when its name and code
/// are acceptable.
pub fn finalize_naming(name: &str, code: &str) -> (r: Result<String, GameServiceError>)
    ensures
        trim(name@).len() != 0 && valid_code(code@) ==> (r matches Ok(n) && n@ == trim(name@)),
        !(trim(name@).len() != 0 && valid_code(code@)) ==> (r matches Err(GameServiceError::ProjectGate(m))
            && m@ == "项目名或代号不合法"@),
{
    if is_blank(name) || !is_valid_code(code) {
        return Err(GameServiceError::ProjectGate(owned("项目名或代号不合法")));
    }
    Ok(trimmed(name))
}

/// A project is finalized only once its Art Bible is confirmed.
pub fn require_style_settled(state: ProjectState) -> (r: Result<(), GameServiceError>)
    ensures
        state == ProjectState::StyleSettled ==> r is Ok,
        state != ProjectState::StyleSettled ==> (r matches Err(GameServiceError::ProjectGate(m)) && m@
            == "必须先确认 Art Bible"@),
{
    if state != ProjectState::StyleSettled {
        return Err(GameServiceError::ProjectGate(owned("必须先确认 Art Bible")));
    }
    Ok(())
}

/// No plain draft commit writes a file that only its own confirmation may
/// write, or a file outside the project.
pub proof fn law_gate_only_files_are_not_committed_as_drafts(
    root: Seq<char>,
    drafts: Seq<DraftRecord>,
    ids: Seq<String>,
    k: int,
)
    requires
        0 <= k < ids.len(),
        draft_choice(root, drafts, ids, k) is Ok,
    ensures
        ({
            let i = draft_choice(root, drafts, ids, k)->Ok_0.0;
            &&& 0 <= i < drafts.len()
            &&& !gate_only_path(drafts[i].target_path@)
            &&& inside_project(drafts[i].target_path@)
            &&& drafts[i].status@ == "pending"@
            &&& drafts[i].id@ == ids[k]@
        }),
{
    let i = first_true(pending_with_id(drafts, ids[k]@))->0;
    lemma_first_true(pending_with_id(drafts, ids[k]@));
}

} // verus!
