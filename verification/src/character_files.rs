//! A character's metadata file, `.model.json`: what a character read from it
//! is, where its ownership comes from (the file's place on disk, never what
//! the file says about it), and when a project's files are refused.

use vstd::prelude::*;
use crate::action::{owned, str_eq};
use crate::conversation::{gate_times, inferred_gate_times};
use crate::domain::{CharacterState, VerdictConstraint};
use crate::gates::{copy_constraints, CharacterGates};
use crate::text::{is_blank, trim};
use crate::workflow::{opt_str_view, opt_string_view};

verus! {

/// The name of a character's metadata file inside its directory.
pub const CHARACTER_FILE_NAME: &'static str = ".model.json";
pub const MSG_UNSUPPORTED_METADATA: &'static str = "unsupported character metadata";
pub const MSG_EMPTY_CHARACTER_ID: &'static str = "character id cannot be empty";
pub const MSG_CHARACTER_ID_CHANGED: &'static str = "character id cannot be changed";
pub const MSG_DUPLICATE_CHARACTER_ID: &'static str = "duplicate character id: ";
pub const MSG_OUTSIDE_CHARACTERS: &'static str = "prefix not found";

/// The schema version under which character files are written.
pub const CHARACTER_SCHEMA_VERSION: u32 = 3;

/// The metadata of a plain character file: the character's identity, state
/// and files, with nothing of its gates or times.
#[derive(Debug, Clone, PartialEq, Eq)]
pub struct CharacterFile {
    pub id: String,
    pub name: String,
    pub state: CharacterState,
    pub spec_path: Option<String>,
    pub render_path: Option<String>,
    pub view_paths: Vec<(String, String)>,
}

/// The character a versioned character file holds.
#[derive(Debug, Clone, PartialEq, Eq)]
pub struct VersionedCharacter {
    pub id: String,
    pub name: String,
    pub state: CharacterState,
    pub spec_path: Option<String>,
    pub render_path: Option<String>,
    pub view_paths: Vec<(String, String)>,
    pub hard_constraints: Vec<VerdictConstraint>,
    pub gate_spec_confirmed_at: Option<i64>,
    pub gate_render_confirmed_at: Option<i64>,
    pub gate_views_confirmed_at: Option<i64>,
    pub created_at: i64,
    pub updated_at: i64,
}

/// What a character file was read as: a plain file, with the file's
/// modification time, or a versioned document.
#[derive(Debug, Clone, PartialEq, Eq)]
pub enum CharacterMetadata {
    Flat { file: CharacterFile, modified_at: i64 },
    Versioned { schema_version: u32, character: VersionedCharacter },
}

/// Where a character lives in its project: its directory relative to the
/// project root, and the group directories between `characters` and it.
#[derive(Debug, Clone, PartialEq, Eq)]
pub struct CharacterLocation {
    pub dir_name: String,
    pub group: Option<String>,
}

/// A character as read from its file.
#[derive(Debug, Clone, PartialEq, Eq)]
pub struct CharacterRecord {
    pub id: String,
    pub project_id: String,
    pub name: String,
    pub group: Option<String>,
    pub created_at: i64,
    pub gates: CharacterGates,
}

/// Path components joined by `/`.
pub open spec fn slash_joined(cs: Seq<Seq<char>>) -> Seq<char>
    decreases cs.len(),
{
    if cs.len() == 0 {
        Seq::empty()
    } else if cs.len() == 1 {
        cs[0]
    } else {
        slash_joined(cs.drop_last()) + "/"@ + cs.last()
    }
}

/// Where a character directory with the given components below the project
/// root lives: it must lie under `characters`; the components between
/// `characters` and the directory itself name its group.
pub open spec fn location_of(cs: Seq<Seq<char>>) -> Result<(Seq<char>, Option<Seq<char>>), Seq<char>> {
    if cs.len() == 0 || cs[0] != "characters"@ {
        Err(MSG_OUTSIDE_CHARACTERS@)
    } else {
        Ok((slash_joined(cs), if cs.len() >= 3 { Some(slash_joined(cs.subrange(1, cs.len() - 1))) } else { None }))
    }
}

fn joined(cs: &Vec<String>, from: usize, to: usize) -> (r: String)
    requires
        from <= to <= cs@.len(),
    ensures
        r@ == slash_joined(cs@.subrange(from as int, to as int).map_values(|s: String| s@)),
{
    let mut r = String::new();
    let mut i = from;
    while i < to
        invariant
            from <= i <= to <= cs@.len(),
            r@ == slash_joined(cs@.subrange(from as int, i as int).map_values(|s: String| s@)),
        decreases to - i,
    {
        let ghost prev = cs@.subrange(from as int, i as int).map_values(|s: String| s@);
        let ghost next = cs@.subrange(from as int, i as int + 1).map_values(|s: String| s@);
        proof {
            assert(next.drop_last() =~= prev);
            assert(next.last() == cs@[i as int]@);
            reveal_strlit("/");
        }
        if i > from {
            r.append("/");
        } else {
            assert(next =~= seq![cs@[i as int]@]);
        }
        r.append(cs[i].as_str());
        i = i + 1;
    }
    r
}

/// Where a character lives, from the components of its directory below the
/// project root.
pub fn character_location(components: &Vec<String>) -> (r: Result<CharacterLocation, String>)
    ensures
        match location_of(components@.map_values(|s: String| s@)) {
            Ok((dir, group)) => r matches Ok(l) && l.dir_name@ == dir && crate::workflow::opt_string_view(l.group)
                == group,
            Err(m) => r matches Err(e) && e@ == m,
        },
{
    let ghost cs = components@.map_values(|s: String| s@);
    proof {
        reveal_strlit("characters");
    }
    if components.len() == 0 || !str_eq(components[0].as_str(), "characters") {
        return Err(owned(MSG_OUTSIDE_CHARACTERS));
    }
    let n = components.len();
    let dir_name = joined(components, 0, n);
    assert(components@.subrange(0, n as int) =~= components@);
    let group = if n >= 3 {
        let g = joined(components, 1, n - 1);
        assert(components@.subrange(1, n - 1).map_values(|s: String| s@) =~= cs.subrange(1, cs.len() - 1));
        Some(g)
    } else {
        None
    };
    Ok(CharacterLocation { dir_name, group })
}

/// Why a character's metadata is refused, if it is: a versioned file must be
/// of version 2 or later and name its character; any character needs an id.
pub open spec fn metadata_refusal(m: CharacterMetadata) -> Option<Seq<char>> {
    match m {
        CharacterMetadata::Flat { file, .. } => if trim(file.id@).len() == 0 {
            Some(MSG_EMPTY_CHARACTER_ID@)
        } else {
            None
        },
        CharacterMetadata::Versioned { schema_version, character } => if schema_version < 2 || trim(character.id@).len()
            == 0 {
            Some(MSG_UNSUPPORTED_METADATA@)
        } else {
            None
        },
    }
}

/// Whether `r` is the character of the plain file `f`, modified at
/// `modified_at`, living at `loc` in project `project_id`: it has no hard
/// constraints yet, and each stage its state has passed counts as confirmed
/// at the file's time.
pub open spec fn flat_record(
    r: CharacterRecord,
    project_id: Seq<char>,
    f: CharacterFile,
    modified_at: i64,
    loc: CharacterLocation,
) -> bool {
    &&& r.id == f.id && r.project_id@ == project_id && r.name == f.name && r.group == loc.group
    &&& r.created_at == modified_at && r.gates.updated_at == modified_at
    &&& r.gates.state == f.state && r.gates.dir_name == loc.dir_name
    &&& r.gates.spec_path == f.spec_path && r.gates.render_path == f.render_path && r.gates.view_paths == f.view_paths
    &&& r.gates.hard_constraints@.len() == 0
    &&& (r.gates.gate_spec_confirmed_at, r.gates.gate_render_confirmed_at, r.gates.gate_views_confirmed_at) == gate_times(
        f.state,
        modified_at,
    )
}

/// Whether `r` is the character of the versioned file's character `l`,
/// living at `loc` in project `project_id`.
pub open spec fn versioned_record(r: CharacterRecord, project_id: Seq<char>, l: VersionedCharacter, loc: CharacterLocation) -> bool {
    &&& r.id == l.id && r.project_id@ == project_id && r.name == l.name && r.group == loc.group
    &&& r.created_at == l.created_at && r.gates.updated_at == l.updated_at
    &&& r.gates.state == l.state && r.gates.dir_name == loc.dir_name
    &&& r.gates.spec_path == l.spec_path && r.gates.render_path == l.render_path && r.gates.view_paths == l.view_paths
    &&& r.gates.hard_constraints == l.hard_constraints
    &&& r.gates.gate_spec_confirmed_at == l.gate_spec_confirmed_at
    &&& r.gates.gate_render_confirmed_at == l.gate_render_confirmed_at
    &&& r.gates.gate_views_confirmed_at == l.gate_views_confirmed_at
}

/// Whether `r` is the character that metadata `m`, found at `loc`, describes
/// in project `project_id`.
pub open spec fn record_of(r: CharacterRecord, project_id: Seq<char>, m: CharacterMetadata, loc: CharacterLocation) -> bool {
    match m {
        CharacterMetadata::Flat { file, modified_at } => flat_record(r, project_id, file, modified_at, loc),
        CharacterMetadata::Versioned { character, .. } => versioned_record(r, project_id, character, loc),
    }
}

/// The character that `metadata`, found at `location`, describes in project
/// `project_id`. Where the character lives and which project owns it come
/// from the file's place on disk, never from the file itself.
pub fn character_from_metadata(project_id: &str, metadata: CharacterMetadata, location: CharacterLocation) -> (r: Result<
    CharacterRecord,
    String,
>)
    ensures
        match metadata_refusal(metadata) {
            Some(m) => r matches Err(e) && e@ == m,
            None => r matches Ok(c) && record_of(c, project_id@, metadata, location),
        },
{
    match metadata {
        CharacterMetadata::Flat { file, modified_at } => {
            if is_blank(file.id.as_str()) {
                return Err(owned(MSG_EMPTY_CHARACTER_ID));
            }
            let (spec, render, views) = inferred_gate_times(file.state, modified_at);
            Ok(
                CharacterRecord {
                    id: file.id,
                    project_id: owned(project_id),
                    name: file.name,
                    group: location.group,
                    created_at: modified_at,
                    gates: CharacterGates {
                        state: file.state,
                        dir_name: location.dir_name,
                        spec_path: file.spec_path,
                        render_path: file.render_path,
                        view_paths: file.view_paths,
                        hard_constraints: Vec::new(),
                        gate_spec_confirmed_at: spec,
                        gate_render_confirmed_at: render,
                        gate_views_confirmed_at: views,
                        updated_at: modified_at,
                    },
                },
            )
        },
        CharacterMetadata::Versioned { schema_version, character } => {
            if schema_version < 2 || is_blank(character.id.as_str()) {
                return Err(owned(MSG_UNSUPPORTED_METADATA));
            }
            Ok(
                CharacterRecord {
                    id: character.id,
                    project_id: owned(project_id),
                    name: character.name,
                    group: location.group,
                    created_at: character.created_at,
                    gates: CharacterGates {
                        state: character.state,
                        dir_name: location.dir_name,
                        spec_path: character.spec_path,
                        render_path: character.render_path,
                        view_paths: character.view_paths,
                        hard_constraints: character.hard_constraints,
                        gate_spec_confirmed_at: character.gate_spec_confirmed_at,
                        gate_render_confirmed_at: character.gate_render_confirmed_at,
                        gate_views_confirmed_at: character.gate_views_confirmed_at,
                        updated_at: character.updated_at,
                    },
                },
            )
        },
    }
}

/// Whether some character of `s` has id `id`.
pub open spec fn id_read(s: Seq<CharacterRecord>, id: Seq<char>) -> bool {
    exists|k: int| 0 <= k < s.len() && s[k].id@ == id
}

/// Adds a character read from the project's files to those read before it,
/// unless one of them has the same id.
pub fn admit_character(characters: &mut Vec<CharacterRecord>, character: CharacterRecord) -> (r: Result<(), String>)
    ensures
        id_read(old(characters)@, character.id@) ==> (r matches Err(e) && e@ == MSG_DUPLICATE_CHARACTER_ID@
            + character.id@ && final(characters)@ == old(characters)@),
        !id_read(old(characters)@, character.id@) ==> (r is Ok && final(characters)@ == old(characters)@.push(character)),
{
    let mut i: usize = 0;
    while i < characters.len()
        invariant
            i <= characters@.len(),
            forall|k: int| 0 <= k < i ==> characters@[k].id@ != character.id@,
        decreases characters.len() - i,
    {
        if str_eq(characters[i].id.as_str(), character.id.as_str()) {
            let mut m = owned(MSG_DUPLICATE_CHARACTER_ID);
            m.append(character.id.as_str());
            return Err(m);
        }
        i = i + 1;
    }
    characters.push(character);
    Ok(())
}

/// A character file may be rewritten only for the character it already
/// holds.
pub fn check_character_rewrite(existing_id: Option<&str>, id: &str) -> (r: Result<(), String>)
    ensures
        match opt_str_view(existing_id) {
            Some(x) => if x != id@ {
                r matches Err(e) && e@ == MSG_CHARACTER_ID_CHANGED@
            } else {
                r is Ok
            },
            None => r is Ok,
        },
{
    match existing_id {
        Some(x) => if str_eq(x, id) {
            Ok(())
        } else {
            Err(owned(MSG_CHARACTER_ID_CHANGED))
        },
        None => Ok(()),
    }
}

fn copy_opt(o: &Option<String>) -> (r: Option<String>)
    ensures
        r == *o,
{
    match o {
        Some(s) => Some(s.clone()),
        None => None,
    }
}

fn copy_pairs(v: &Vec<(String, String)>) -> (r: Vec<(String, String)>)
    ensures
        r@ == v@,
{
    let mut r: Vec<(String, String)> = Vec::new();
    let mut i: usize = 0;
    while i < v.len()
        invariant
            i <= v@.len(),
            r@ == v@.subrange(0, i as int),
        decreases v.len() - i,
    {
        let p = (v[i].0.clone(), v[i].1.clone());
        r.push(p);
        proof {
            assert(v@.subrange(0, i as int + 1) =~= v@.subrange(0, i as int).push(v@[i as int]));
        }
        i = i + 1;
    }
    assert(v@.subrange(0, v@.len() as int) =~= v@);
    r
}

/// Whether `d` is the document a character's file holds: the current schema
/// version and everything about the character but where it lives.
pub open spec fn document_of(c: CharacterRecord, d: CharacterMetadata) -> bool {
    d matches CharacterMetadata::Versioned { schema_version, character: v } && {
        &&& schema_version == CHARACTER_SCHEMA_VERSION
        &&& v.id == c.id && v.name == c.name && v.state == c.gates.state
        &&& v.spec_path == c.gates.spec_path && v.render_path == c.gates.render_path
        &&& v.view_paths@ == c.gates.view_paths@ && v.hard_constraints@ == c.gates.hard_constraints@
        &&& v.gate_spec_confirmed_at == c.gates.gate_spec_confirmed_at
        &&& v.gate_render_confirmed_at == c.gates.gate_render_confirmed_at
        &&& v.gate_views_confirmed_at == c.gates.gate_views_confirmed_at
        &&& v.created_at == c.created_at && v.updated_at == c.gates.updated_at
    }
}

/// The document a character's file holds.
pub fn character_document(c: &CharacterRecord) -> (r: CharacterMetadata)
    ensures
        document_of(*c, r),
{
    CharacterMetadata::Versioned {
        schema_version: CHARACTER_SCHEMA_VERSION,
        character: VersionedCharacter {
            id: c.id.clone(),
            name: c.name.clone(),
            state: c.gates.state,
            spec_path: copy_opt(&c.gates.spec_path),
            render_path: copy_opt(&c.gates.render_path),
            view_paths: copy_pairs(&c.gates.view_paths),
            hard_constraints: copy_constraints(&c.gates.hard_constraints),
            gate_spec_confirmed_at: c.gates.gate_spec_confirmed_at,
            gate_render_confirmed_at: c.gates.gate_render_confirmed_at,
            gate_views_confirmed_at: c.gates.gate_views_confirmed_at,
            created_at: c.created_at,
            updated_at: c.gates.updated_at,
        },
    }
}

/// A character written to its file reads back as itself wherever the file is
/// found: everything the file holds is as written, while its project, group
/// and directory are those of the place the file lies in; it is refused only
/// when its id is blank.
pub proof fn law_written_character_reads_back(
    project_id: Seq<char>,
    c: CharacterRecord,
    d: CharacterMetadata,
    loc: CharacterLocation,
    r: CharacterRecord,
)
    requires
        document_of(c, d),
    ensures
        metadata_refusal(d) is None <==> trim(c.id@).len() > 0,
        record_of(r, project_id, d, loc) ==> {
            &&& r.id == c.id && r.name == c.name && r.created_at == c.created_at
            &&& r.gates.state == c.gates.state && r.gates.spec_path == c.gates.spec_path
            &&& r.gates.render_path == c.gates.render_path
            &&& r.gates.view_paths@ == c.gates.view_paths@ && r.gates.hard_constraints@ == c.gates.hard_constraints@
            &&& r.gates.gate_spec_confirmed_at == c.gates.gate_spec_confirmed_at
            &&& r.gates.gate_render_confirmed_at == c.gates.gate_render_confirmed_at
            &&& r.gates.gate_views_confirmed_at == c.gates.gate_views_confirmed_at
            &&& r.gates.updated_at == c.gates.updated_at
            &&& r.gates.dir_name == loc.dir_name && r.group == loc.group && r.project_id@ == project_id
        },
{
}


// --- undoing a metadata write ---------------------------------------------------

/// What bringing a file back to what it held before a write does: write the
/// earlier content back, or remove the file where there was none.
#[derive(Debug, Clone, PartialEq, Eq)]
pub enum FileRestore {
    Write(String),
    Remove,
}

/// The file's content once `restore` is carried out: the content written
/// back, or no file.
pub open spec fn restored_content(restore: FileRestore) -> Option<Seq<char>> {
    match restore {
        FileRestore::Write(c) => Some(c@),
        FileRestore::Remove => None,
    }
}

/// How to bring a file back to `previous`, what it held before it was
/// written (`None`: it did not exist).
pub fn file_restore(previous: Option<String>) -> (r: FileRestore)
    ensures
        restored_content(r) == opt_string_view(previous),
{
    match previous {
        Some(p) => FileRestore::Write(p),
        None => FileRestore::Remove,
    }
}

/// After a turn's commit: where the commit failed and the character's
/// `.model.json` was written before it, the file is brought back to what it
/// held; otherwise it is left as it is.
pub fn metadata_rollback(commit_succeeded: bool, backup: Option<Option<String>>) -> (r: Option<FileRestore>)
    ensures
        match backup {
            Some(previous) if !commit_succeeded => r matches Some(x) && restored_content(x) == opt_string_view(previous),
            _ => r is None,
        },
{
    if commit_succeeded {
        return None;
    }
    match backup {
        Some(previous) => Some(file_restore(previous)),
        None => None,
    }
}

} // verus!
