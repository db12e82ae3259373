//! The decisions of a character's 3D model job: which confirmed views feed
//! it, which paid call comes next when a job resumes from its checkpoint, and
//! how a failed job is reported.

use vstd::prelude::*;
use crate::action::{owned, str_eq};
use crate::domain::{CharacterState, Model3dJobStatus, Model3dStage};
use crate::gates::refused;
use crate::project::{inside_project, joined_path, safe_project_path, GameServiceError};
use crate::workflow::opt_string_view;

verus! {

/// How many views a model is made from.
pub const MODEL_VIEW_COUNT: usize = 4;

/// The views a model is made from, in the order they are uploaded.
pub open spec fn model_view_text(i: int) -> Seq<char> {
    if i == 0 {
        "front"@
    } else if i == 1 {
        "left"@
    } else if i == 2 {
        "back"@
    } else {
        "right"@
    }
}

/// The view uploaded in position `i`.
pub fn model_view_name(i: usize) -> (r: &'static str)
    requires
        i < MODEL_VIEW_COUNT,
    ensures
        r@ == model_view_text(i as int),
{
    if i == 0 {
        "front"
    } else if i == 1 {
        "left"
    } else if i == 2 {
        "back"
    } else {
        "right"
    }
}

/// What a job has already had done remotely: the tokens of the uploaded views
/// and the ids of the submitted tasks.
#[derive(Debug, Clone, PartialEq, Eq)]
pub struct Model3dCheckpoint {
    pub uploaded_view_tokens: Vec<Option<String>>,
    pub model_task_id: Option<String>,
    pub rig_check_task_id: Option<String>,
    pub rig_task_id: Option<String>,
    pub animation_task_id: Option<String>,
}

impl Default for Model3dCheckpoint {
    /// A checkpoint of a job that has done nothing remotely yet.
    fn default() -> (r: Self)
        ensures
            r.uploaded_view_tokens@ == seq![None::<String>, None, None, None],
            r.model_task_id is None && r.rig_check_task_id is None,
            r.rig_task_id is None && r.animation_task_id is None,
    {
        let mut tokens: Vec<Option<String>> = Vec::new();
        tokens.push(None);
        tokens.push(None);
        tokens.push(None);
        tokens.push(None);
        assert(tokens@ =~= seq![None::<String>, None, None, None]);
        Model3dCheckpoint {
            uploaded_view_tokens: tokens,
            model_task_id: None,
            rig_check_task_id: None,
            rig_task_id: None,
            animation_task_id: None,
        }
    }
}

/// Only a character with confirmed views can be made into a model.
pub fn validate_model3d_character(state: CharacterState) -> (r: Result<(), GameServiceError>)
    ensures
        state == CharacterState::S5ViewsConfirmed ==> r is Ok,
        state != CharacterState::S5ViewsConfirmed ==> (r matches Err(e) && refused(
            e,
            "只有已确认四视图的角色才能生成 3D 模型"@,
        )),
{
    if state != CharacterState::S5ViewsConfirmed {
        return Err(GameServiceError::InvalidCharacterOperation(owned("只有已确认四视图的角色才能生成 3D 模型")));
    }
    Ok(())
}

/// The archived image of `view`, by the character's view paths (view name,
/// path), if there is one.
pub open spec fn view_entry(view_paths: Seq<(String, String)>, view: Seq<char>) -> Option<Seq<char>>
    decreases view_paths.len(),
{
    if view_paths.len() == 0 {
        None
    } else if view_paths[0].0@ == view {
        Some(view_paths[0].1@)
    } else {
        view_entry(view_paths.skip(1), view)
    }
}

/// Where the image of a view lies in the project, or why it cannot be used.
pub open spec fn model_view_source(root: Seq<char>, view_paths: Seq<(String, String)>, view: Seq<char>) -> Result<
    Seq<char>,
    Seq<char>,
> {
    match view_entry(view_paths, view) {
        None => Err("缺少已确认的 "@ + view + " 视图"@),
        Some(p) => if inside_project(p) {
            Ok(joined_path(root, p))
        } else {
            Err("3D 输入图片路径必须位于项目目录内"@)
        },
    }
}

/// Where the confirmed image of `view` lies in the project at `root`; the
/// file is then checked on disk.
pub fn model_view_path(root: &str, view_paths: &Vec<(String, String)>, view: &str) -> (r: Result<
    String,
    GameServiceError,
>)
    ensures
        match model_view_source(root@, view_paths@, view@) {
            Ok(p) => r matches Ok(x) && x@ == p,
            Err(m) => r matches Err(e) && refused(e, m),
        },
{
    let n = view_paths.len();
    let mut i: usize = 0;
    assert(view_paths@.skip(0) =~= view_paths@);
    while i < n
        invariant
            n == view_paths@.len(),
            i <= n,
            view_entry(view_paths@, view@) == view_entry(view_paths@.skip(i as int), view@),
        decreases n - i,
    {
        assert(view_paths@.skip(i as int).skip(1) =~= view_paths@.skip(i as int + 1));
        if str_eq(view_paths[i].0.as_str(), view) {
            return match safe_project_path(root, view_paths[i].1.as_str()) {
                Ok(p) => Ok(p),
                Err(_) => Err(GameServiceError::InvalidCharacterOperation(owned("3D 输入图片路径必须位于项目目录内"))),
            };
        }
        i = i + 1;
    }
    let mut m = owned("缺少已确认的 ");
    m.append(view);
    m.append(" 视图");
    Err(GameServiceError::InvalidCharacterOperation(m))
}

/// The token of uploaded view `index`, which every later step needs.
pub fn required_token(tokens: &Vec<Option<String>>, index: usize) -> (r: Result<String, String>)
    requires
        index < tokens.len(),
    ensures
        match tokens@[index as int] {
            Some(t) => r matches Ok(x) && x == t,
            None => r matches Err(m) && m@ == "四视图上传检查点不完整"@,
        },
{
    match &tokens[index] {
        Some(t) => Ok(t.clone()),
        None => Err(owned("四视图上传检查点不完整")),
    }
}

// --- resuming from the checkpoint ------------------------------------------------------

/// The paid task that `stage` submits, as recorded in the checkpoint.
pub open spec fn stage_task(stage: Model3dStage, c: Model3dCheckpoint) -> Option<Option<String>> {
    match stage {
        Model3dStage::GeneratingModel => Some(c.model_task_id),
        Model3dStage::CheckingRig => Some(c.rig_check_task_id),
        Model3dStage::Rigging => Some(c.rig_task_id),
        Model3dStage::Retargeting => Some(c.animation_task_id),
        _ => None,
    }
}

/// What a resumed job does in a stage that submits a paid task.
#[derive(Debug, Clone, PartialEq, Eq)]
pub enum StageCall {
    /// Submit the stage's task; its id is then recorded.
    Submit,
    /// Wait for the task already submitted under this id.
    Resume(String),
}

/// What a resumed job does in `stage`, when the stage submits a paid task: a
/// task whose id the checkpoint holds is never submitted again.
pub fn stage_call(stage: Model3dStage, checkpoint: &Model3dCheckpoint) -> (r: Option<StageCall>)
    ensures
        match stage_task(stage, *checkpoint) {
            None => r is None,
            Some(None) => r == Some(StageCall::Submit),
            Some(Some(id)) => r == Some(StageCall::Resume(id)),
        },
{
    let recorded = match stage {
        Model3dStage::GeneratingModel => &checkpoint.model_task_id,
        Model3dStage::CheckingRig => &checkpoint.rig_check_task_id,
        Model3dStage::Rigging => &checkpoint.rig_task_id,
        Model3dStage::Retargeting => &checkpoint.animation_task_id,
        _ => {
            return None;
        },
    };
    match recorded {
        Some(id) => Some(StageCall::Resume(id.clone())),
        None => Some(StageCall::Submit),
    }
}

/// The first view still to upload, if any.
pub open spec fn next_upload_of(tokens: Seq<Option<String>>) -> Option<int>
    decreases tokens.len(),
{
    if tokens.len() == 0 {
        None
    } else if tokens.last() is None {
        match next_upload_of(tokens.drop_last()) {
            Some(i) => Some(i),
            None => Some(tokens.len() - 1),
        }
    } else {
        next_upload_of(tokens.drop_last())
    }
}

proof fn lemma_next_upload(tokens: Seq<Option<String>>)
    ensures
        next_upload_of(tokens) matches Some(i) ==> 0 <= i < tokens.len() && tokens[i] is None && forall|j: int|
            0 <= j < i ==> tokens[j] is Some,
        next_upload_of(tokens) is None ==> forall|j: int| 0 <= j < tokens.len() ==> tokens[j] is Some,
    decreases tokens.len(),
{
    if tokens.len() > 0 {
        lemma_next_upload(tokens.drop_last());
        assert forall|j: int| 0 <= j < tokens.len() - 1 implies tokens[j] == tokens.drop_last()[j] by {}
    }
}

proof fn lemma_next_upload_unique(tokens: Seq<Option<String>>, i: int)
    requires
        0 <= i < tokens.len(),
        tokens[i] is None,
        forall|j: int| 0 <= j < i ==> tokens[j] is Some,
    ensures
        next_upload_of(tokens) == Some(i),
    decreases tokens.len(),
{
    lemma_next_upload(tokens.drop_last());
    if i < tokens.len() - 1 {
        lemma_next_upload_unique(tokens.drop_last(), i);
    } else {
        assert forall|j: int| 0 <= j < tokens.drop_last().len() implies tokens.drop_last()[j] is Some by {}
    }
}

/// The first view still to upload, if any: views already uploaded keep their
/// tokens and are not uploaded again.
pub fn next_upload(tokens: &Vec<Option<String>>) -> (r: Option<usize>)
    ensures
        match next_upload_of(tokens@) {
            Some(i) => 0 <= i < tokens.len() && r == Some(i as usize),
            None => r is None,
        },
{
    let mut i: usize = 0;
    while i < tokens.len()
        invariant
            i <= tokens.len(),
            forall|j: int| 0 <= j < i ==> tokens@[j] is Some,
        decreases tokens.len() - i,
    {
        if tokens[i].is_none() {
            proof {
                lemma_next_upload_unique(tokens@, i as int);
            }
            return Some(i);
        }
        i = i + 1;
    }
    proof {
        lemma_next_upload(tokens@);
    }
    None
}

/// The checkpoint after the task of `stage` was submitted under `id`.
pub open spec fn with_task(stage: Model3dStage, c: Model3dCheckpoint, id: String) -> Model3dCheckpoint {
    match stage {
        Model3dStage::GeneratingModel => Model3dCheckpoint { model_task_id: Some(id), ..c },
        Model3dStage::CheckingRig => Model3dCheckpoint { rig_check_task_id: Some(id), ..c },
        Model3dStage::Rigging => Model3dCheckpoint { rig_task_id: Some(id), ..c },
        Model3dStage::Retargeting => Model3dCheckpoint { animation_task_id: Some(id), ..c },
        _ => c,
    }
}

impl Model3dCheckpoint {
    /// Records that the task of `stage` was submitted under `id`.
    pub fn record_task(&mut self, stage: Model3dStage, id: String)
        ensures
            *final(self) == with_task(stage, *old(self), id),
    {
        match stage {
            Model3dStage::GeneratingModel => {
                self.model_task_id = Some(id);
            },
            Model3dStage::CheckingRig => {
                self.rig_check_task_id = Some(id);
            },
            Model3dStage::Rigging => {
                self.rig_task_id = Some(id);
            },
            Model3dStage::Retargeting => {
                self.animation_task_id = Some(id);
            },
            _ => {},
        }
    }

    /// Records that view `index` was uploaded under `token`.
    pub fn record_upload(&mut self, index: usize, token: String)
        requires
            index < old(self).uploaded_view_tokens@.len(),
        ensures
            final(self).uploaded_view_tokens@ == old(self).uploaded_view_tokens@.update(index as int, Some(token)),
            final(self).model_task_id == old(self).model_task_id,
            final(self).rig_check_task_id == old(self).rig_check_task_id,
            final(self).rig_task_id == old(self).rig_task_id,
            final(self).animation_task_id == old(self).animation_task_id,
    {
        self.uploaded_view_tokens.set(index, Some(token));
    }
}

/// A resumed job never pays twice: once the task of a stage is recorded, the
/// stage only waits for that task and a failure in it is no longer uncertain;
/// once a view's token is recorded, that view is not uploaded again.
pub proof fn law_recorded_tasks_are_not_resubmitted(stage: Model3dStage, c: Model3dCheckpoint, id: String, index: int, token: String, rejection: bool)
    requires
        0 <= index < c.uploaded_view_tokens@.len(),
    ensures
        stage_task(stage, c) is Some ==> stage_task(stage, with_task(stage, c, id)) == Some(Some(id)),
        !submission_uncertain(stage, with_task(stage, c, id), rejection),
        next_upload_of(c.uploaded_view_tokens@.update(index, Some(token))) != Some(index),
{
    lemma_next_upload(c.uploaded_view_tokens@.update(index, Some(token)));
}

// --- failures ----------------------------------------------------------------------------

/// Whether a paid submission may have been accepted remotely although the job
/// failed: only in a stage that submits a paid task whose id was not recorded,
/// and never when the provider answered with a refusal.
pub open spec fn submission_uncertain(stage: Model3dStage, c: Model3dCheckpoint, provider_rejection: bool) -> bool {
    !provider_rejection && stage_task(stage, c) == Some(None::<String>)
}

/// Whether a paid submission may have been accepted remotely although the job
/// failed.
pub fn submission_may_be_uncertain(stage: Model3dStage, checkpoint: &Model3dCheckpoint, provider_rejection: bool) -> (r:
    bool)
    ensures
        r == submission_uncertain(stage, *checkpoint, provider_rejection),
{
    if provider_rejection {
        return false;
    }
    match stage_call(stage, checkpoint) {
        Some(StageCall::Submit) => true,
        _ => false,
    }
}

/// How a failed job is reported: an uncertain paid submission needs the
/// user's attention and is not retried automatically; any other failure is a
/// plain failure with the error's message.
pub fn failed_job_outcome(uncertain: bool, error: &str) -> (r: (Model3dJobStatus, String))
    ensures
        uncertain ==> r.0 == Model3dJobStatus::NeedsAttention && r.1@ == "远程付费请求结果不确定，已停止自动重试："@
            + error@,
        !uncertain ==> r.0 == Model3dJobStatus::Failed && r.1@ == error@,
{
    if uncertain {
        let mut m = owned("远程付费请求结果不确定，已停止自动重试：");
        m.append(error);
        (Model3dJobStatus::NeedsAttention, m)
    } else {
        (Model3dJobStatus::Failed, owned(error))
    }
}

/// Whether a job found for the same source is handed back as it is, without
/// being claimed again: a job that succeeded or is running.
pub fn job_is_settled(status: Model3dJobStatus) -> (r: bool)
    ensures
        r == (status == Model3dJobStatus::Succeeded || status == Model3dJobStatus::Running),
{
    match status {
        Model3dJobStatus::Succeeded | Model3dJobStatus::Running => true,
        _ => false,
    }
}

/// The rig check's verdict on a model: a model that is not riggable stops the
/// job for the user's attention; a riggable one needs the rig type that the
/// check returned.
pub fn rig_check_result(riggable: Option<bool>, rig_type: Option<&str>) -> (r: Result<Option<String>, String>)
    ensures
        !(riggable == Some(true)) ==> r == Ok::<Option<String>, String>(None),
        riggable == Some(true) ==> (match rig_type {
            Some(t) => if crate::text::trim(t@).len() != 0 {
                r matches Ok(Some(x)) && x@ == t@
            } else {
                r matches Err(m) && m@ == "绑骨检查未返回 rig_type"@
            },
            None => r matches Err(m) && m@ == "绑骨检查未返回 rig_type"@,
        }),
{
    match riggable {
        Some(true) => {},
        _ => {
            return Ok(None);
        },
    }
    match rig_type {
        Some(t) => if crate::text::is_blank(t) {
            Err(owned("绑骨检查未返回 rig_type"))
        } else {
            Ok(Some(owned(t)))
        },
        None => Err(owned("绑骨检查未返回 rig_type")),
    }
}

/// Why a job stops for the user's attention when its model cannot be rigged.
pub fn unriggable_message() -> (r: String)
    ensures
        r@ == "Tripo 检测结果为不可绑骨，请调整四视图后重试"@,
{
    owned("Tripo 检测结果为不可绑骨，请调整四视图后重试")
}


// --- the pipeline, one step at a time ------------------------------------------------

/// The stage that follows `stage` in a job's pipeline.
pub open spec fn next_stage_of(stage: Model3dStage) -> Model3dStage {
    match stage {
        Model3dStage::UploadingViews => Model3dStage::GeneratingModel,
        Model3dStage::GeneratingModel => Model3dStage::CheckingRig,
        Model3dStage::CheckingRig => Model3dStage::Rigging,
        Model3dStage::Rigging => Model3dStage::Retargeting,
        Model3dStage::Retargeting => Model3dStage::Downloading,
        Model3dStage::Downloading => Model3dStage::Validating,
        Model3dStage::Validating => Model3dStage::Completed,
        Model3dStage::Completed => Model3dStage::Completed,
    }
}

/// How far along its pipeline a stage lies.
pub open spec fn stage_rank(stage: Model3dStage) -> nat {
    match stage {
        Model3dStage::UploadingViews => 0,
        Model3dStage::GeneratingModel => 1,
        Model3dStage::CheckingRig => 2,
        Model3dStage::Rigging => 3,
        Model3dStage::Retargeting => 4,
        Model3dStage::Downloading => 5,
        Model3dStage::Validating => 6,
        Model3dStage::Completed => 7,
    }
}

/// What a job does next.
#[derive(Debug, Clone, PartialEq, Eq)]
pub enum PipelineStep {
    /// Upload view `index` and record its token.
    Upload(usize),
    /// Submit the paid task of the stage and record its id.
    Submit(Model3dStage),
    /// Wait for the stage's task, submitted under this id.
    Wait(Model3dStage, String),
    /// Download the finished animated model.
    Download,
    /// Check the downloaded model and keep it.
    Validate,
    /// Move on to this stage.
    Advance(Model3dStage),
    /// The job is complete.
    Finished,
}

/// What a job in `stage` does next, given its checkpoint and whether the
/// stage's work is done in this run: views are uploaded one by one until each
/// has a token; a stage with a paid task submits it unless the checkpoint
/// holds its id, and then waits for it; once a stage's work is done the job
/// moves on to the next stage, in the pipeline's fixed order.
pub open spec fn pipeline_step_of(stage: Model3dStage, c: Model3dCheckpoint, done: bool) -> PipelineStep {
    match stage {
        Model3dStage::UploadingViews => match next_upload_of(c.uploaded_view_tokens@) {
            Some(i) => PipelineStep::Upload(i as usize),
            None => PipelineStep::Advance(Model3dStage::GeneratingModel),
        },
        Model3dStage::Completed => PipelineStep::Finished,
        _ => if done {
            PipelineStep::Advance(next_stage_of(stage))
        } else {
            match stage_task(stage, c) {
                Some(None) => PipelineStep::Submit(stage),
                Some(Some(id)) => PipelineStep::Wait(stage, id),
                None => if stage == Model3dStage::Downloading {
                    PipelineStep::Download
                } else {
                    PipelineStep::Validate
                },
            }
        },
    }
}

/// What a job in `stage` does next; see `pipeline_step_of`.
pub fn pipeline_step(stage: Model3dStage, checkpoint: &Model3dCheckpoint, done: bool) -> (r: PipelineStep)
    ensures
        r == pipeline_step_of(stage, *checkpoint, done),
{
    match stage {
        Model3dStage::UploadingViews => match next_upload(&checkpoint.uploaded_view_tokens) {
            Some(i) => PipelineStep::Upload(i),
            None => PipelineStep::Advance(Model3dStage::GeneratingModel),
        },
        Model3dStage::Completed => PipelineStep::Finished,
        _ => if done {
            let next = match stage {
                Model3dStage::GeneratingModel => Model3dStage::CheckingRig,
                Model3dStage::CheckingRig => Model3dStage::Rigging,
                Model3dStage::Rigging => Model3dStage::Retargeting,
                Model3dStage::Retargeting => Model3dStage::Downloading,
                Model3dStage::Downloading => Model3dStage::Validating,
                _ => Model3dStage::Completed,
            };
            PipelineStep::Advance(next)
        } else {
            match stage_call(stage, checkpoint) {
                Some(StageCall::Submit) => PipelineStep::Submit(stage),
                Some(StageCall::Resume(id)) => PipelineStep::Wait(stage, id),
                None => match stage {
                    Model3dStage::Downloading => PipelineStep::Download,
                    _ => PipelineStep::Validate,
                },
            }
        },
    }
}

/// The pipeline keeps its order: a job only ever moves on to the stage right
/// after its own; it leaves the uploads only once every view has a token; and
/// it never submits a task whose id the checkpoint holds.
pub proof fn law_pipeline_keeps_its_order(stage: Model3dStage, c: Model3dCheckpoint, done: bool)
    requires
        c.uploaded_view_tokens@.len() <= usize::MAX,
    ensures
        pipeline_step_of(stage, c, done) matches PipelineStep::Advance(next) ==> next == next_stage_of(stage)
            && stage_rank(next) == stage_rank(stage) + 1,
        (stage == Model3dStage::UploadingViews && pipeline_step_of(stage, c, done) is Advance) ==> forall|j: int|
            0 <= j < c.uploaded_view_tokens@.len() ==> c.uploaded_view_tokens@[j] is Some,
        pipeline_step_of(stage, c, done) matches PipelineStep::Submit(s) ==> s == stage && stage_task(stage, c)
            == Some(None::<String>),
        pipeline_step_of(stage, c, done) matches PipelineStep::Upload(i) ==> c.uploaded_view_tokens@[i as int] is None,
{
    lemma_next_upload(c.uploaded_view_tokens@);
}

} // verus!
