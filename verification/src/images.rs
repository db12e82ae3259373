//! The review lifecycle of a character's generated images: a new candidate
//! retires the pending ones of its stage (and a new render retires the
//! views), the user reviews a pending candidate, and a confirmation accepts
//! the chosen ones and marks what is final.

use vstd::prelude::*;
use crate::action::{owned, str_eq};
use crate::domain::GenerationReviewStatus;
use crate::gates::{first_true, lemma_first_true, lemma_first_true_unique};
use crate::workflow::opt_string_view;

verus! {

/// One generated image of a character, as its review reads it.
#[derive(Debug, Clone, PartialEq, Eq)]
pub struct ImageRecord {
    pub id: String,
    pub stage: String,
    pub file_hash: Option<String>,
    pub review_status: GenerationReviewStatus,
    pub review_feedback: Option<String>,
    pub reviewed_at: Option<i64>,
    pub is_final: bool,
}

/// An image by its view.
pub struct ImageView {
    pub id: Seq<char>,
    pub stage: Seq<char>,
    pub file_hash: Option<Seq<char>>,
    pub review_status: GenerationReviewStatus,
    pub review_feedback: Option<Seq<char>>,
    pub reviewed_at: Option<i64>,
    pub is_final: bool,
}

pub open spec fn image_view(r: ImageRecord) -> ImageView {
    ImageView {
        id: r.id@,
        stage: r.stage@,
        file_hash: opt_string_view(r.file_hash),
        review_status: r.review_status,
        review_feedback: opt_string_view(r.review_feedback),
        reviewed_at: r.reviewed_at,
        is_final: r.is_final,
    }
}

pub open spec fn image_views(s: Seq<ImageRecord>) -> Seq<ImageView> {
    s.map_values(|r: ImageRecord| image_view(r))
}

/// Whether an image still waits for a decision: pending, or sent back for
/// revision.
pub open spec fn open_status(s: GenerationReviewStatus) -> bool {
    s == GenerationReviewStatus::Pending || s == GenerationReviewStatus::RevisionRequested
}

/// What becomes of image `v` when a new candidate of `stage` comes in at
/// `at`: an open image of the same stage is superseded; a new render also
/// supersedes the views, accepted ones included, which stop being final.
pub open spec fn retired_by(v: ImageView, stage: Seq<char>, at: i64) -> ImageView {
    if v.stage == stage && open_status(v.review_status) {
        ImageView { review_status: GenerationReviewStatus::Superseded, reviewed_at: Some(at), ..v }
    } else if stage == "render"@ && v.stage == "views"@ && (open_status(v.review_status) || v.review_status
        == GenerationReviewStatus::Accepted) {
        ImageView { review_status: GenerationReviewStatus::Superseded, reviewed_at: Some(at), is_final: false, ..v }
    } else {
        v
    }
}

/// Whether an image of `stage` with the same content is already kept.
pub open spec fn duplicate_of(s: Seq<ImageView>, stage: Seq<char>, hash: Option<Seq<char>>) -> bool {
    hash is Some && exists|i: int| 0 <= i < s.len() && s[i].stage == stage && s[i].file_hash == hash
}

/// The images after candidate `c` comes in at `at`: a candidate whose content
/// is already kept for its stage changes nothing; any other retires what it
/// replaces and is added.
pub open spec fn with_candidate(s: Seq<ImageView>, c: ImageView, at: i64) -> Seq<ImageView> {
    if duplicate_of(s, c.stage, c.file_hash) {
        s
    } else {
        s.map_values(|v: ImageView| retired_by(v, c.stage, at)).push(c)
    }
}

/// No two images share an id.
pub open spec fn ids_distinct(s: Seq<ImageView>) -> bool {
    forall|i: int, j: int| 0 <= i < j < s.len() ==> s[i].id != s[j].id
}

fn copy_opt(o: &Option<String>) -> (r: Option<String>)
    ensures
        r == *o,
{
    match o {
        Some(s) => Some(s.clone()),
        None => None,
    }
}

fn opt_eq(a: &Option<String>, b: &Option<String>) -> (r: bool)
    ensures
        r == (opt_string_view(*a) == opt_string_view(*b)),
{
    match (a, b) {
        (Some(x), Some(y)) => str_eq(x.as_str(), y.as_str()),
        (None, None) => true,
        _ => false,
    }
}

/// Replaces image `i` by one with the given review fields.
fn rewrite_review(
    images: &mut Vec<ImageRecord>,
    i: usize,
    status: GenerationReviewStatus,
    feedback: Option<Option<String>>,
    reviewed_at: Option<i64>,
    is_final: Option<bool>,
)
    requires
        i < old(images)@.len(),
    ensures
        final(images)@.len() == old(images)@.len(),
        forall|j: int| 0 <= j < old(images)@.len() && j != i ==> final(images)@[j] == old(images)@[j],
        ({
            let o = image_view(old(images)@[i as int]);
            image_view(final(images)@[i as int]) == ImageView {
                review_status: status,
                review_feedback: match feedback {
                    Some(f) => opt_string_view(f),
                    None => o.review_feedback,
                },
                reviewed_at: match reviewed_at {
                    Some(t) => Some(t),
                    None => o.reviewed_at,
                },
                is_final: match is_final {
                    Some(b) => b,
                    None => o.is_final,
                },
                ..o
            }
        }),
{
    let old_one = &images[i];
    let updated = ImageRecord {
        id: old_one.id.clone(),
        stage: old_one.stage.clone(),
        file_hash: copy_opt(&old_one.file_hash),
        review_status: status,
        review_feedback: match feedback {
            Some(f) => f,
            None => copy_opt(&old_one.review_feedback),
        },
        reviewed_at: match reviewed_at {
            Some(t) => Some(t),
            None => old_one.reviewed_at,
        },
        is_final: match is_final {
            Some(b) => b,
            None => old_one.is_final,
        },
    };
    images.set(i, updated);
}

fn is_open(s: GenerationReviewStatus) -> (r: bool)
    ensures
        r == open_status(s),
{
    match s {
        GenerationReviewStatus::Pending | GenerationReviewStatus::RevisionRequested => true,
        _ => false,
    }
}

/// Takes in candidate `candidate` at `at`; gives whether it was added (a
/// candidate with content already kept for its stage is not).
pub fn add_candidate(images: &mut Vec<ImageRecord>, candidate: ImageRecord, at: i64) -> (r: bool)
    ensures
        image_views(final(images)@) == with_candidate(image_views(old(images)@), image_view(candidate), at),
        r == !duplicate_of(image_views(old(images)@), candidate.stage@, opt_string_view(candidate.file_hash)),
{
    let ghost before = image_views(images@);
    let n = images.len();
    if candidate.file_hash.is_some() {
        let mut k: usize = 0;
        while k < n
            invariant
                n == images@.len(),
                before == image_views(images@),
                candidate.file_hash is Some,
                k <= n,
                forall|j: int| 0 <= j < k ==> !(before[j].stage == candidate.stage@ && before[j].file_hash
                    == opt_string_view(candidate.file_hash)),
            decreases n - k,
        {
            if str_eq(images[k].stage.as_str(), candidate.stage.as_str()) && opt_eq(&images[k].file_hash, &candidate.file_hash) {
                assert(before[k as int].stage == candidate.stage@);
                return false;
            }
            k = k + 1;
        }
    }
    let render = str_eq(candidate.stage.as_str(), "render");
    let mut i: usize = 0;
    while i < n
        invariant
            n == images@.len(),
            n == before.len(),
            i <= n,
            render == (candidate.stage@ == "render"@),
            forall|j: int| 0 <= j < i ==> image_view(#[trigger] images@[j]) == retired_by(before[j], candidate.stage@, at),
            forall|j: int| i <= j < n ==> image_view(#[trigger] images@[j]) == before[j],
        decreases n - i,
    {
        let same_stage = str_eq(images[i].stage.as_str(), candidate.stage.as_str());
        let status = images[i].review_status;
        if same_stage && is_open(status) {
            rewrite_review(images, i, GenerationReviewStatus::Superseded, None, Some(at), None);
        } else if render && str_eq(images[i].stage.as_str(), "views") && (is_open(status) || status
            == GenerationReviewStatus::Accepted) {
            rewrite_review(images, i, GenerationReviewStatus::Superseded, None, Some(at), Some(false));
        }
        i = i + 1;
    }
    images.push(candidate);
    proof {
        let t = image_views(images@);
        let expect = before.map_values(|v: ImageView| retired_by(v, candidate.stage@, at)).push(image_view(candidate));
        assert forall|j: int| 0 <= j < t.len() implies t[j] == expect[j] by {
            if j < n {
                assert(t[j] == image_view(images@[j]));
            }
        }
        assert(t =~= expect);
    }
    true
}

/// Whether image `id` can be reviewed: it is there and pending.
pub open spec fn reviewable(s: Seq<ImageView>, id: Seq<char>) -> bool {
    exists|i: int| 0 <= i < s.len() && s[i].id == id && s[i].review_status == GenerationReviewStatus::Pending
}

/// Records the user's review of the pending image `id`: its status, the
/// feedback and the time; an image that is not pending is a conflict.
pub fn review_image(
    images: &mut Vec<ImageRecord>,
    id: &str,
    status: GenerationReviewStatus,
    feedback: Option<String>,
    at: i64,
) -> (r: Result<(), String>)
    requires
        ids_distinct(image_views(old(images)@)),
    ensures
        reviewable(image_views(old(images)@), id@) ==> r is Ok && exists|i: int|
            0 <= i < old(images)@.len() && old(images)@[i].id@ == id@ && image_views(final(images)@)
                == image_views(old(images)@).update(
                i,
                ImageView {
                    review_status: status,
                    review_feedback: opt_string_view(feedback),
                    reviewed_at: Some(at),
                    ..image_view(old(images)@[i])
                },
            ),
        !reviewable(image_views(old(images)@), id@) ==> (r matches Err(m) && m@ == "generation "@ + id@
            + " is not pending"@) && final(images)@ == old(images)@,
{
    let ghost before = image_views(images@);
    let n = images.len();
    let mut i: usize = 0;
    while i < n
        invariant
            n == images@.len(),
            before == image_views(images@),
            images@ == old(images)@,
            i <= n,
            forall|j: int| 0 <= j < i ==> !(before[j].id == id@ && before[j].review_status
                == GenerationReviewStatus::Pending),
        decreases n - i,
    {
        if str_eq(images[i].id.as_str(), id) && images[i].review_status == GenerationReviewStatus::Pending {
            let ghost k = i as int;
            assert(before[k].id == id@ && before[k].review_status == GenerationReviewStatus::Pending);
            assert(old(images)@[k].id@ == id@);
            rewrite_review(images, i, status, Some(feedback), Some(at), None);
            proof {
                assert(image_views(images@) =~= before.update(
                    k,
                    ImageView {
                        review_status: status,
                        review_feedback: opt_string_view(feedback),
                        reviewed_at: Some(at),
                        ..before[k]
                    },
                ));
            }
            return Ok(());
        }
        i = i + 1;
    }
    let mut m = owned("generation ");
    m.append(id);
    m.append(" is not pending");
    Err(m)
}

/// The images after confirming `ids` for `stage` at `at`: nothing stays
/// final; the open images of the stage are superseded; the chosen ones are
/// accepted, final when they are the views; and once the views are confirmed
/// the accepted renders are final too.
pub open spec fn confirmed_image(v: ImageView, stage: Seq<char>, chosen: bool, at: i64) -> ImageView {
    let cleared = ImageView { is_final: false, ..v };
    let retired = if v.stage == stage && open_status(v.review_status) {
        ImageView { review_status: GenerationReviewStatus::Superseded, reviewed_at: Some(at), ..cleared }
    } else {
        cleared
    };
    let accepted = if chosen && v.stage == stage {
        ImageView {
            review_status: GenerationReviewStatus::Accepted,
            reviewed_at: Some(at),
            is_final: stage == "views"@,
            ..retired
        }
    } else {
        retired
    };
    if stage == "views"@ && v.stage == "render"@ && accepted.review_status == GenerationReviewStatus::Accepted {
        ImageView { is_final: true, ..accepted }
    } else {
        accepted
    }
}

/// Whether image `v` is among the chosen ids.
pub open spec fn is_chosen(v: ImageView, ids: Seq<String>) -> bool {
    exists|k: int| 0 <= k < ids.len() && ids[k]@ == v.id
}

/// Whether an image of `stage` has id `id`.
pub open spec fn has_stage_image(s: Seq<ImageView>, id: Seq<char>, stage: Seq<char>) -> bool {
    exists|i: int| 0 <= i < s.len() && #[trigger] s[i].id == id && s[i].stage == stage
}

pub open spec fn missing_flags(s: Seq<ImageView>, stage: Seq<char>, ids: Seq<String>) -> Seq<bool> {
    Seq::new(ids.len(), |k: int| !has_stage_image(s, ids[k]@, stage))
}

/// The first chosen id with no image of the stage, if any.
pub open spec fn missing_choice(s: Seq<ImageView>, stage: Seq<char>, ids: Seq<String>) -> Option<int> {
    first_true(missing_flags(s, stage, ids))
}

fn has_image(images: &Vec<ImageRecord>, id: &str, stage: &str) -> (r: bool)
    ensures
        r == has_stage_image(image_views(images@), id@, stage@),
{
    let ghost s = image_views(images@);
    let mut i: usize = 0;
    while i < images.len()
        invariant
            i <= images.len(),
            s == image_views(images@),
            forall|j: int| 0 <= j < i ==> !(s[j].id == id@ && s[j].stage == stage@),
        decreases images.len() - i,
    {
        if str_eq(images[i].id.as_str(), id) && str_eq(images[i].stage.as_str(), stage) {
            assert(s[i as int].id == id@ && s[i as int].stage == stage@);
            return true;
        }
        i = i + 1;
    }
    false
}

fn chosen(ids: &[String], id: &str) -> (r: bool)
    ensures
        r == exists|k: int| 0 <= k < ids@.len() && ids@[k]@ == id@,
{
    let mut k: usize = 0;
    while k < ids.len()
        invariant
            k <= ids.len(),
            forall|q: int| 0 <= q < k ==> ids@[q]@ != id@,
        decreases ids.len() - k,
    {
        if str_eq(ids[k].as_str(), id) {
            return true;
        }
        k = k + 1;
    }
    false
}

/// Confirms `ids` as the chosen images of `stage` at `at`. When a chosen id
/// has no image of the stage, nothing changes and the first such id is
/// named.
pub fn confirm_images(images: &mut Vec<ImageRecord>, stage: &str, ids: &[String], at: i64) -> (r: Result<(), String>)
    ensures
        match missing_choice(image_views(old(images)@), stage@, ids@) {
            Some(k) => r matches Err(m) && m@ == "generation "@ + ids@[k]@ && final(images)@ == old(images)@,
            None => r is Ok && image_views(final(images)@) == image_views(old(images)@).map_values(
                |v: ImageView| confirmed_image(v, stage@, is_chosen(v, ids@), at),
            ),
        },
{
    let ghost before = image_views(images@);
    let ghost missing = missing_flags(before, stage@, ids@);
    let mut k: usize = 0;
    while k < ids.len()
        invariant
            k <= ids.len(),
            before == image_views(images@),
            missing == missing_flags(before, stage@, ids@),
            forall|q: int| 0 <= q < k ==> !missing[q],
        decreases ids.len() - k,
    {
        if !has_image(images, ids[k].as_str(), stage) {
            proof {
                lemma_first_true_unique(missing, k as int);
            }
            let mut m = owned("generation ");
            m.append(ids[k].as_str());
            return Err(m);
        }
        k = k + 1;
    }
    proof {
        lemma_first_true(missing);
    }
    let views = str_eq(stage, "views");
    let n = images.len();
    let mut i: usize = 0;
    while i < n
        invariant
            n == images@.len(),
            n == before.len(),
            i <= n,
            views == (stage@ == "views"@),
            forall|j: int| 0 <= j < i ==> image_view(#[trigger] images@[j]) == confirmed_image(
                before[j],
                stage@,
                is_chosen(before[j], ids@),
                at,
            ),
            forall|j: int| i <= j < n ==> image_view(#[trigger] images@[j]) == before[j],
        decreases n - i,
    {
        let same_stage = str_eq(images[i].stage.as_str(), stage);
        let status = images[i].review_status;
        let pick = chosen(ids, images[i].id.as_str());
        let ghost v = before[i as int];
        let new_status = if pick && same_stage {
            GenerationReviewStatus::Accepted
        } else if same_stage && is_open(status) {
            GenerationReviewStatus::Superseded
        } else {
            status
        };
        let touched = same_stage && (pick || is_open(status));
        let final_flag = if pick && same_stage {
            views
        } else {
            views && str_eq(images[i].stage.as_str(), "render") && new_status == GenerationReviewStatus::Accepted
        };
        if touched {
            rewrite_review(images, i, new_status, None, Some(at), Some(final_flag));
        } else {
            rewrite_review(images, i, new_status, None, None, Some(final_flag));
        }
        proof {
            reveal_strlit("views");
            reveal_strlit("render");
            assert("views"@.len() != "render"@.len());
            assert(is_chosen(v, ids@) == pick);
            assert(image_view(images@[i as int]) == confirmed_image(v, stage@, pick, at));
        }
        i = i + 1;
    }
    proof {
        let t = image_views(images@);
        let expect = before.map_values(|v: ImageView| confirmed_image(v, stage@, is_chosen(v, ids@), at));
        assert forall|j: int| 0 <= j < t.len() implies t[j] == expect[j] by {
            assert(t[j] == image_view(images@[j]));
        }
        assert(t =~= expect);
    }
    Ok(())
}

/// A candidate whose content is already kept for its stage changes nothing:
/// taking in the same image twice (under a new id) is taking it in once.
pub proof fn law_duplicate_candidates_are_kept_once(s: Seq<ImageView>, c1: ImageView, c2: ImageView, at1: i64, at2: i64)
    requires
        c1.file_hash is Some,
        c2.stage == c1.stage,
        c2.file_hash == c1.file_hash,
    ensures
        with_candidate(with_candidate(s, c1, at1), c2, at2) == with_candidate(s, c1, at1),
{
    let t = with_candidate(s, c1, at1);
    if !duplicate_of(s, c1.stage, c1.file_hash) {
        let last = t.len() - 1;
        assert(t[last] == c1);
        assert(duplicate_of(t, c2.stage, c2.file_hash));
    } else {
        assert(duplicate_of(t, c2.stage, c2.file_hash));
    }
}

/// Only an accepted image is ever final.
pub open spec fn finals_accepted(s: Seq<ImageView>) -> bool {
    forall|i: int| 0 <= i < s.len() ==> (#[trigger] s[i]).is_final ==> s[i].review_status
        == GenerationReviewStatus::Accepted
}

/// Every step of the lifecycle keeps only accepted images final: taking in a
/// candidate that is not itself final unless accepted, reviewing a pending
/// image, and confirming a stage.
pub proof fn law_only_accepted_images_are_final(
    s: Seq<ImageView>,
    c: ImageView,
    at: i64,
    i: int,
    status: GenerationReviewStatus,
    feedback: Option<Seq<char>>,
    stage: Seq<char>,
    ids: Seq<String>,
)
    requires
        finals_accepted(s),
        c.is_final ==> c.review_status == GenerationReviewStatus::Accepted,
        0 <= i < s.len(),
        s[i].review_status == GenerationReviewStatus::Pending,
    ensures
        finals_accepted(with_candidate(s, c, at)),
        finals_accepted(
            s.update(i, ImageView { review_status: status, review_feedback: feedback, reviewed_at: Some(at), ..s[i] }),
        ),
        finals_accepted(s.map_values(|v: ImageView| confirmed_image(v, stage, is_chosen(v, ids), at))),
{
    let t = with_candidate(s, c, at);
    assert forall|j: int| 0 <= j < t.len() implies (#[trigger] t[j]).is_final ==> t[j].review_status
        == GenerationReviewStatus::Accepted by {
        if !duplicate_of(s, c.stage, c.file_hash) && j < s.len() {
            assert(t[j] == retired_by(s[j], c.stage, at));
        }
    }
    let u = s.update(i, ImageView { review_status: status, review_feedback: feedback, reviewed_at: Some(at), ..s[i] });
    assert forall|j: int| 0 <= j < u.len() implies (#[trigger] u[j]).is_final ==> u[j].review_status
        == GenerationReviewStatus::Accepted by {
        if j == i {
            assert(!s[i].is_final);
        }
    }
}

/// A new render sends the views back to be made again: while only accepted
/// images are final, no views image stays open, accepted or final once a new
/// render comes in.
pub proof fn law_new_render_retires_views(s: Seq<ImageView>, c: ImageView, at: i64, i: int)
    requires
        finals_accepted(s),
        c.stage == "render"@,
        !duplicate_of(s, c.stage, c.file_hash),
        0 <= i < s.len(),
        s[i].stage == "views"@,
    ensures
        ({
            let v = with_candidate(s, c, at)[i];
            &&& !open_status(v.review_status)
            &&& v.review_status != GenerationReviewStatus::Accepted
            &&& !v.is_final
        }),
{
    reveal_strlit("render");
    reveal_strlit("views");
    assert("render"@.len() != "views"@.len());
    assert(s[i].is_final ==> s[i].review_status == GenerationReviewStatus::Accepted);
}

/// Confirming a stage settles it: no image of the stage is left open, the
/// chosen ones are accepted, and once the views are confirmed exactly the
/// chosen views and the accepted renders are final.
pub proof fn law_confirmation_settles_the_stage(s: Seq<ImageView>, stage: Seq<char>, ids: Seq<String>, at: i64, i: int)
    requires
        0 <= i < s.len(),
    ensures
        ({
            let v = s.map_values(|v: ImageView| confirmed_image(v, stage, is_chosen(v, ids), at))[i];
            &&& s[i].stage == stage ==> !open_status(v.review_status)
            &&& s[i].stage == stage && is_chosen(s[i], ids) ==> v.review_status == GenerationReviewStatus::Accepted
            &&& stage == "views"@ ==> (v.is_final <==> ((s[i].stage == stage && is_chosen(s[i], ids)) || (
                s[i].stage == "render"@ && v.review_status == GenerationReviewStatus::Accepted)))
            &&& stage != "views"@ ==> !v.is_final
        }),
{
    reveal_strlit("render");
    reveal_strlit("views");
    assert("render"@.len() != "views"@.len());
}

} // verus!
