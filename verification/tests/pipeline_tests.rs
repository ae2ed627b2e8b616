use cargo_teensy::pipeline::{exit_on_fail, ProcStatus, RunDecision, Stage, UploadPipeline};

fn ok() -> ProcStatus {
    ProcStatus {
        success: true,
        code: Some(0),
    }
}

fn failed(code: i32) -> ProcStatus {
    ProcStatus {
        success: false,
        code: Some(code),
    }
}

fn killed() -> ProcStatus {
    ProcStatus {
        success: false,
        code: None,
    }
}

#[test]
fn a_fresh_pipeline_starts_with_the_build_stage() {
    let p = UploadPipeline::new();
    assert_eq!(p.pending_stage(), Some(Stage::Build));
    assert!(!p.has_failed());
    assert_eq!(p.failure_code(), None);
}

#[test]
fn success_walks_through_all_three_stages() {
    let mut p = UploadPipeline::new();
    assert_eq!(p.pending_stage(), Some(Stage::Build));
    p.step(&ok());
    assert_eq!(p.pending_stage(), Some(Stage::MakeHex));
    p.step(&ok());
    assert_eq!(p.pending_stage(), Some(Stage::Upload));
    p.step(&ok());
    assert_eq!(p.pending_stage(), None);
    assert!(!p.has_failed());
    assert_eq!(p.failure_code(), None);
}

#[test]
fn first_stage_failure_prevents_later_stages_and_keeps_its_code() {
    let mut p = UploadPipeline::new();
    p.step(&failed(2));
    assert_eq!(p.pending_stage(), None);
    assert!(p.has_failed());
    assert_eq!(p.failure_code(), Some(2));
}

#[test]
fn second_stage_failure_prevents_the_third_stage() {
    let mut p = UploadPipeline::new();
    p.step(&ok());
    p.step(&failed(77));
    assert_eq!(p.pending_stage(), None);
    assert!(p.has_failed());
    assert_eq!(p.failure_code(), Some(77));
}

#[test]
fn a_codeless_failure_halts_the_run_too() {
    let mut p = UploadPipeline::new();
    p.step(&killed());
    assert_eq!(p.pending_stage(), None);
    assert!(p.has_failed());
    assert_eq!(p.failure_code(), None);
}

#[test]
fn exit_on_fail_lets_a_success_proceed() {
    assert_eq!(exit_on_fail(&ok()), RunDecision::Proceed);
}

#[test]
fn exit_on_fail_halts_with_the_failing_code() {
    assert_eq!(exit_on_fail(&failed(3)), RunDecision::Halt(Some(3)));
}

#[test]
fn exit_on_fail_halts_on_a_codeless_failure() {
    assert_eq!(exit_on_fail(&killed()), RunDecision::Halt(None));
}
