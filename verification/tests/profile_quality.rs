use rust_engineering_domain::audit::{AuditDataError, AuditObservation, AuditState};
use rust_engineering_domain::check::{CheckObservation, CheckOutcome};
use rust_engineering_domain::execution::ExecutionTermination;
use rust_engineering_domain::format::FormatObservation;
use rust_engineering_domain::inspection::RuntimeIdentity;
use rust_engineering_domain::profile::{ProfileError, ProfileOptions};
use rust_engineering_domain::quality::{
    quality_runtime_matches, quality_status, QualityIssue, QualityObservation, QualityProfile,
    QualityStage, QualityStageReport,
};
use rust_engineering_domain::result::{OperationalErrorCode, ToolStatus};
use rust_engineering_domain::test_run::TestObservation;
use rust_engineering_domain::value::{ExecutionFingerprint, SourceFingerprint};

#[test]
fn options_reject_paths_arguments_and_out_of_range_numbers() {
    assert!(ProfileOptions::new("workload".into(), 99, 10).is_ok());
    for target in [
        "",
        "/usr/bin/workload",
        "../workload",
        "work load",
        "work;load",
        "work$load",
        &"a".repeat(65),
    ] {
        assert_eq!(
            ProfileOptions::new(target.into(), 99, 10).unwrap_err(),
            ProfileError::InvalidTarget,
            "accepted {target:?}"
        );
    }
    for frequency in [0, 1000, u32::MAX] {
        assert_eq!(
            ProfileOptions::new("w".into(), frequency, 10).unwrap_err(),
            ProfileError::InvalidFrequency
        );
    }
    for duration in [0, 61, u64::MAX] {
        assert_eq!(
            ProfileOptions::new("w".into(), 99, duration).unwrap_err(),
            ProfileError::InvalidDuration
        );
    }
    assert!(ProfileOptions::new("w".into(), 1, 1).is_ok());
    assert!(ProfileOptions::new("w".into(), 999, 60).is_ok());
}

#[test]
fn duration_ms_never_overflows() {
    let options = ProfileOptions::new("w".into(), 99, 60).expect("options");
    assert_eq!(options.duration_ms(), 60_000);
    assert_eq!(options.binary_target(), "w");
    assert_eq!(options.frequency_hz(), 99);
    assert_eq!(options.duration_seconds(), 60);
}

fn runtime(toolchain: Option<&str>) -> RuntimeIdentity {
    RuntimeIdentity {
        platform: "linux/aarch64".into(),
        image_id: "sha256:0".into(),
        configuration_fingerprint: ExecutionFingerprint::parse(&format!("sha256:{}", "0".repeat(64))).unwrap(),
        execution_fingerprint: ExecutionFingerprint::parse(&format!("sha256:{}", "1".repeat(64))).unwrap(),
        rust_version: "1.98.1".into(),
        cargo_version: "1.98.1".into(),
        declared_toolchain: toolchain.map(String::from),
    }
}

fn execution(outcome: CheckOutcome, exit_code: Option<i32>) -> CheckObservation {
    CheckObservation {
        outcome,
        termination: ExecutionTermination::Exited,
        exit_code,
        validation_complete: true,
        diagnostics: Vec::new(),
        diagnostics_omitted: 0,
        stdout: String::new(),
        stderr: String::new(),
        stdout_truncated: false,
        stderr_truncated: false,
        runtime: runtime(None),
        source_fingerprint: SourceFingerprint::parse(&format!("sha256:{}", "2".repeat(64))).unwrap(),
    }
}

fn report(stage: QualityStage, observation: Option<QualityObservation>) -> QualityStageReport {
    QualityStageReport {
        stage,
        duration_ms: 5,
        status: ToolStatus::Passed,
        issue: None,
        observation,
        log: None,
        retention_remaining_seconds: None,
    }
}

#[test]
fn runtimes_agree_apart_from_the_execution_fingerprint() {
    let mut other = runtime(None);
    other.execution_fingerprint = ExecutionFingerprint::parse(&format!("sha256:{}", "9".repeat(64))).unwrap();
    assert!(quality_runtime_matches(&runtime(None), &other));
    assert!(!quality_runtime_matches(&runtime(None), &runtime(Some("1.90"))));
    other.rust_version = "1.97.0".into();
    assert!(!quality_runtime_matches(&runtime(None), &other));
}

#[test]
fn a_passed_label_is_rederived_from_the_facts() {
    let mut passed = report(QualityStage::Check, Some(QualityObservation::Check(execution(CheckOutcome::Passed, Some(0)))));
    passed.classify();
    assert_eq!(passed.status, ToolStatus::Passed);
    assert_eq!(passed.issue, None);

    let mut truncated_exec = execution(CheckOutcome::Passed, Some(0));
    truncated_exec.stdout_truncated = true;
    let mut truncated = report(QualityStage::Check, Some(QualityObservation::Check(truncated_exec)));
    truncated.classify();
    assert_eq!(truncated.status, ToolStatus::Blocked);
    assert_eq!(truncated.issue, Some(QualityIssue::Incomplete));

    let mut failed = report(QualityStage::Clippy, Some(QualityObservation::Clippy(execution(CheckOutcome::Failed, Some(101)))));
    failed.classify();
    assert_eq!(failed.status, ToolStatus::Failed);

    let mut timed_out_exec = execution(CheckOutcome::Incomplete, None);
    timed_out_exec.termination = ExecutionTermination::TimedOut;
    let mut timed_out = report(QualityStage::Check, Some(QualityObservation::Check(timed_out_exec)));
    timed_out.classify();
    assert_eq!(timed_out.issue, Some(QualityIssue::Operational(OperationalErrorCode::CommandTimeout)));
    assert_eq!(timed_out.status, ToolStatus::Blocked);

    let mut cancelled_exec = execution(CheckOutcome::Incomplete, None);
    cancelled_exec.termination = ExecutionTermination::Cancelled;
    let mut cancelled = report(QualityStage::Check, Some(QualityObservation::Check(cancelled_exec)));
    cancelled.classify();
    assert_eq!(cancelled.status, ToolStatus::Cancelled);
    assert_eq!(cancelled.issue, None);
}

#[test]
fn a_mismatched_or_missing_observation_never_passes() {
    let mut mismatched = report(QualityStage::Clippy, Some(QualityObservation::Check(execution(CheckOutcome::Passed, Some(0)))));
    mismatched.classify();
    assert_eq!(mismatched.status, ToolStatus::Blocked);
    assert_eq!(mismatched.issue, Some(QualityIssue::Incomplete));

    let mut missing = report(QualityStage::Check, None);
    missing.classify();
    assert_eq!(missing.status, ToolStatus::Blocked);

    let mut unavailable = report(QualityStage::Audit, None);
    unavailable.issue = Some(QualityIssue::Audit(AuditDataError::Unavailable));
    unavailable.classify();
    assert_eq!(unavailable.status, ToolStatus::Unavailable);
}

#[test]
fn test_and_format_stages_need_their_own_facts() {
    let unbuilt = TestObservation { execution: execution(CheckOutcome::Passed, Some(0)), build_succeeded: None };
    let mut test = report(QualityStage::Test, Some(QualityObservation::Test(unbuilt)));
    test.classify();
    assert_eq!(test.status, ToolStatus::Blocked);

    let dirty = FormatObservation {
        execution: execution(CheckOutcome::Passed, Some(0)),
        affected_files: vec!["src/lib.rs".into()],
        affected_files_omitted: 0,
        diff: None,
        diff_omitted: false,
    };
    let mut format = report(QualityStage::Format, Some(QualityObservation::Format(dirty)));
    format.classify();
    assert_eq!(format.status, ToolStatus::Blocked);
    assert!(format.observation.as_ref().unwrap().execution().is_some());
}

#[test]
fn an_audit_stage_reports_its_normalized_state() {
    let mut audit = report(
        QualityStage::Audit,
        Some(QualityObservation::Audit { runtime: runtime(None), observation: AuditObservation::unavailable() }),
    );
    audit.classify();
    assert_eq!(audit.status, ToolStatus::Unavailable);
    assert_eq!(audit.issue, None);
    match audit.observation {
        Some(QualityObservation::Audit { observation, .. }) => assert_eq!(observation.state, AuditState::Unavailable),
        _ => panic!("the audit observation is kept"),
    }
}

#[test]
fn the_gate_needs_every_stage_of_its_profile_in_order() {
    assert_eq!(QualityProfile::Fast.stages().len(), 3);
    assert_eq!(QualityProfile::Standard.stages().len(), 5);
    let passing = |stage| report(stage, None);
    let fast = vec![passing(QualityStage::Format), passing(QualityStage::Check), passing(QualityStage::Clippy)];
    assert_eq!(quality_status(QualityProfile::Fast, &fast), ToolStatus::Passed);
    assert_eq!(quality_status(QualityProfile::Standard, &fast), ToolStatus::Blocked);
    let reordered = vec![passing(QualityStage::Check), passing(QualityStage::Format), passing(QualityStage::Clippy)];
    assert_eq!(quality_status(QualityProfile::Fast, &reordered), ToolStatus::Blocked);

    let mut mixed = fast.clone();
    mixed[0].status = ToolStatus::Failed;
    mixed[2].status = ToolStatus::Unavailable;
    assert_eq!(quality_status(QualityProfile::Fast, &mixed), ToolStatus::Unavailable);
    mixed[1].status = ToolStatus::Cancelled;
    assert_eq!(quality_status(QualityProfile::Fast, &mixed), ToolStatus::Cancelled);
}

#[test]
fn execution_mut_amends_the_command_execution() {
    let mut observation = QualityObservation::Check(execution(CheckOutcome::Passed, Some(0)));
    observation.execution_mut().unwrap().exit_code = Some(3);
    assert_eq!(observation.execution().unwrap().exit_code, Some(3));
    let mut audit = QualityObservation::Audit { runtime: runtime(None), observation: AuditObservation::unavailable() };
    assert!(audit.execution_mut().is_none());
    assert_eq!(audit.runtime().platform, "linux/aarch64");
}
