use game_runtime::domain::{CharacterState, Model3dJobStatus, Model3dStage};
use game_runtime::model3d::{
    failed_job_outcome, job_is_settled, model_view_name, model_view_path, next_upload,
    required_token, rig_check_result, stage_call, submission_may_be_uncertain,
    unriggable_message, validate_model3d_character, Model3dCheckpoint, StageCall, pipeline_step, PipelineStep,
    MODEL_VIEW_COUNT,
};
use game_runtime::project::GameServiceError;

fn refused(m: &str) -> GameServiceError {
    GameServiceError::InvalidCharacterOperation(m.to_string())
}

#[test]
fn provider_rejection_is_a_definitive_failure_before_the_task_exists() {
    let checkpoint = Model3dCheckpoint::default();
    assert_eq!(checkpoint.model_task_id, None);
    assert!(!submission_may_be_uncertain(Model3dStage::GeneratingModel, &checkpoint, true));
    assert!(submission_may_be_uncertain(Model3dStage::GeneratingModel, &checkpoint, false));
}

#[test]
fn recorded_tasks_are_waited_for_and_not_resubmitted() {
    let mut checkpoint = Model3dCheckpoint::default();
    assert_eq!(stage_call(Model3dStage::Rigging, &checkpoint), Some(StageCall::Submit));
    checkpoint.record_task(Model3dStage::Rigging, "rig-task".to_string());
    assert_eq!(checkpoint.rig_task_id.as_deref(), Some("rig-task"));
    assert_eq!(
        stage_call(Model3dStage::Rigging, &checkpoint),
        Some(StageCall::Resume("rig-task".to_string()))
    );
    assert!(!submission_may_be_uncertain(Model3dStage::Rigging, &checkpoint, false));
    assert_eq!(stage_call(Model3dStage::Downloading, &checkpoint), None);
    assert!(!submission_may_be_uncertain(Model3dStage::UploadingViews, &checkpoint, false));
    assert!(!submission_may_be_uncertain(Model3dStage::Validating, &checkpoint, false));

    assert_eq!(next_upload(&checkpoint.uploaded_view_tokens), Some(0));
    checkpoint.record_upload(0, "t0".to_string());
    checkpoint.record_upload(2, "t2".to_string());
    assert_eq!(next_upload(&checkpoint.uploaded_view_tokens), Some(1));
    checkpoint.record_upload(1, "t1".to_string());
    checkpoint.record_upload(3, "t3".to_string());
    assert_eq!(next_upload(&checkpoint.uploaded_view_tokens), None);
    assert_eq!(required_token(&checkpoint.uploaded_view_tokens, 2), Ok("t2".to_string()));
    let fresh = Model3dCheckpoint::default();
    assert_eq!(
        required_token(&fresh.uploaded_view_tokens, 3),
        Err("四视图上传检查点不完整".to_string())
    );
}

#[test]
fn failed_jobs_are_reported_by_certainty() {
    assert_eq!(
        failed_job_outcome(true, "request error: connection reset"),
        (
            Model3dJobStatus::NeedsAttention,
            "远程付费请求结果不确定，已停止自动重试：request error: connection reset".to_string()
        )
    );
    assert_eq!(
        failed_job_outcome(false, "bad input"),
        (Model3dJobStatus::Failed, "bad input".to_string())
    );
    assert!(job_is_settled(Model3dJobStatus::Succeeded));
    assert!(job_is_settled(Model3dJobStatus::Running));
    assert!(!job_is_settled(Model3dJobStatus::NeedsAttention));
    assert!(!job_is_settled(Model3dJobStatus::Failed));
}

#[test]
fn only_confirmed_views_feed_a_model() {
    assert_eq!(validate_model3d_character(CharacterState::S5ViewsConfirmed), Ok(()));
    assert_eq!(
        validate_model3d_character(CharacterState::S4ViewsGenerated),
        Err(refused("只有已确认四视图的角色才能生成 3D 模型"))
    );
    let names: Vec<&str> = (0..MODEL_VIEW_COUNT).map(model_view_name).collect();
    assert_eq!(names, ["front", "left", "back", "right"]);
    let views = vec![
        ("back".to_string(), "characters/hero/images/views-final.png".to_string()),
        ("front".to_string(), "characters/hero/images/views-final.png".to_string()),
        ("left".to_string(), "../outside.png".to_string()),
    ];
    assert_eq!(
        model_view_path("/game", &views, "front"),
        Ok("/game/characters/hero/images/views-final.png".to_string())
    );
    assert_eq!(
        model_view_path("/game", &views, "left"),
        Err(refused("3D 输入图片路径必须位于项目目录内"))
    );
    assert_eq!(model_view_path("/game", &views, "right"), Err(refused("缺少已确认的 right 视图")));
}

#[test]
fn the_rig_check_decides_whether_rigging_goes_on() {
    assert_eq!(rig_check_result(Some(false), Some("biped")), Ok(None));
    assert_eq!(rig_check_result(None, None), Ok(None));
    assert_eq!(rig_check_result(Some(true), Some("biped")), Ok(Some("biped".to_string())));
    assert_eq!(
        rig_check_result(Some(true), Some("  ")),
        Err("绑骨检查未返回 rig_type".to_string())
    );
    assert_eq!(rig_check_result(Some(true), None), Err("绑骨检查未返回 rig_type".to_string()));
    assert_eq!(unriggable_message(), "Tripo 检测结果为不可绑骨，请调整四视图后重试");
}

#[test]
fn a_fresh_job_runs_the_pipeline_in_order_and_a_resumed_one_skips_what_is_recorded() {
    let mut checkpoint = Model3dCheckpoint::default();
    let mut stage = Model3dStage::UploadingViews;
    let mut done = false;
    let mut trace = Vec::new();
    for _ in 0..40 {
        let step = pipeline_step(stage, &checkpoint, done);
        trace.push(step.clone());
        match step {
            PipelineStep::Upload(i) => checkpoint.record_upload(i, format!("token-{i}")),
            PipelineStep::Submit(s) => checkpoint.record_task(s, format!("task-{s:?}")),
            PipelineStep::Wait(..) | PipelineStep::Download | PipelineStep::Validate => done = true,
            PipelineStep::Advance(next) => {
                stage = next;
                done = false;
            }
            PipelineStep::Finished => break,
        }
    }
    assert_eq!(trace.iter().filter(|s| matches!(s, PipelineStep::Upload(_))).count(), 4);
    let advances: Vec<Model3dStage> = trace
        .iter()
        .filter_map(|s| match s {
            PipelineStep::Advance(next) => Some(*next),
            _ => None,
        })
        .collect();
    assert_eq!(
        advances,
        vec![Model3dStage::GeneratingModel, Model3dStage::CheckingRig, Model3dStage::Rigging, Model3dStage::Retargeting, Model3dStage::Downloading, Model3dStage::Validating, Model3dStage::Completed]
    );
    assert_eq!(trace.last(), Some(&PipelineStep::Finished));
    assert_eq!(
        pipeline_step(Model3dStage::Rigging, &checkpoint, false),
        PipelineStep::Wait(Model3dStage::Rigging, "task-Rigging".to_string())
    );
    assert_eq!(pipeline_step(Model3dStage::UploadingViews, &checkpoint, false), PipelineStep::Advance(Model3dStage::GeneratingModel));
}
