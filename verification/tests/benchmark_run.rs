use rust_engineering_domain::benchmark::BenchmarkSelection;
use rust_engineering_domain::benchmark_run::{
    BenchmarkExit, BenchmarkObservation, BenchmarkRunLog, CriterionArchive, DatasetOmission,
    HarnessDetection, BENCHMARK_MAX_ARCHIVE_BYTES, BENCHMARK_MAX_LOG_BYTES,
};
use rust_engineering_domain::execution::ExecutionTermination;
use rust_engineering_domain::inspection::RuntimeIdentity;
use rust_engineering_domain::value::{ExecutionFingerprint, SourceFingerprint};

/// The dataset is opaque to the observation; a unit stands for one here.
type Observation = BenchmarkObservation<()>;

fn identity() -> RuntimeIdentity {
    RuntimeIdentity {
        platform: "linux/aarch64".into(),
        image_id: "sha256:0".into(),
        configuration_fingerprint: ExecutionFingerprint::parse(&format!("sha256:{}", "0".repeat(64)))
            .expect("fingerprint"),
        execution_fingerprint: ExecutionFingerprint::parse(&format!("sha256:{}", "1".repeat(64)))
            .expect("fingerprint"),
        rust_version: "1.98.1".into(),
        cargo_version: "1.98.1".into(),
        declared_toolchain: None,
    }
}

fn log(run_index: u8) -> BenchmarkRunLog {
    BenchmarkRunLog {
        run_index,
        stdout: format!("stdout of repetition {run_index}").into_bytes(),
        stdout_truncated: false,
        stdout_replaced: false,
        stderr: format!("stderr of repetition {run_index}").into_bytes(),
        stderr_truncated: false,
        stderr_replaced: false,
    }
}

fn observation(
    harness: HarnessDetection,
    dataset: Option<()>,
    omission: Option<DatasetOmission>,
    runs_completed: u8,
) -> Observation {
    BenchmarkObservation {
        selection: BenchmarkSelection {
            package: None,
            bench_target: Some("perf".into()),
            features: Vec::new(),
            all_features: false,
            no_default_features: false,
            profile: "bench".into(),
        },
        harness,
        exit: BenchmarkExit::Passed,
        exit_code: Some(0),
        termination: ExecutionTermination::Exited,
        exit_run_index: 3,
        dataset,
        omission,
        archive: None,
        archive_omission: Some(DatasetOmission::OutputMissing),
        runs_completed,
        runs_requested: 3,
        runtime: identity(),
        execution_fingerprint: ExecutionFingerprint::parse(&format!("sha256:{}", "1".repeat(64)))
            .expect("fingerprint"),
        vendor_fingerprint: SourceFingerprint::parse(&format!("sha256:{}", "2".repeat(64)))
            .expect("fingerprint"),
        logs: (1..=3).map(log).collect(),
    }
}

fn criterion() -> HarnessDetection {
    HarnessDetection::Criterion {
        version: "0.8.2".into(),
    }
}

#[test]
fn only_the_approved_harness_is_measurable() {
    assert!(HarnessDetection::Criterion {
        version: "0.8.2".into()
    }
    .measurable());
    assert!(!HarnessDetection::CriterionUnapproved {
        version: "0.5.1".into()
    }
    .measurable());
    assert!(!HarnessDetection::Unrecognized.measurable());
}

#[test]
fn benchmark_run_exit_codes_classify_without_claiming_calibration() {
    let calibrated: bool = BenchmarkExit::CALIBRATED;
    assert!(!calibrated, "exit codes are not calibrated yet");
    assert_eq!(BenchmarkExit::classify(0), BenchmarkExit::Passed);
    assert_eq!(BenchmarkExit::classify(100), BenchmarkExit::CompilationFailed);
    assert_eq!(BenchmarkExit::classify(101), BenchmarkExit::BenchmarkFailed);
    for code in [1, 2, 42, -1, 137] {
        assert_eq!(BenchmarkExit::classify(code), BenchmarkExit::Uncalibrated);
    }
}

#[test]
fn a_dataset_and_an_omission_cannot_coexist_or_both_be_absent() {
    assert!(observation(
        HarnessDetection::Unrecognized,
        None,
        Some(DatasetOmission::HarnessUnrecognized),
        0
    )
    .consistent());
    assert!(!observation(HarnessDetection::Unrecognized, None, None, 0).consistent());
}

#[test]
fn a_dataset_needs_the_approved_harness_and_a_completed_run() {
    assert!(observation(criterion(), Some(()), None, 3).consistent());
    assert!(!observation(criterion(), Some(()), None, 0).consistent());
    assert!(!observation(HarnessDetection::Unrecognized, Some(()), None, 3).consistent());
    assert!(!observation(criterion(), Some(()), Some(DatasetOmission::OutputMissing), 3).consistent());
}

#[test]
fn a_retained_tree_and_its_omission_cannot_coexist_or_both_be_absent() {
    let mut observed = observation(
        HarnessDetection::Unrecognized,
        None,
        Some(DatasetOmission::HarnessUnrecognized),
        0,
    );
    assert!(observed.consistent(), "an omitted tree is a declared result");

    observed.archive = Some(CriterionArchive {
        run_index: 1,
        bytes: b"tree".to_vec(),
    });
    assert!(!observed.consistent(), "a tree and its omission cannot both be claimed");

    observed.archive_omission = None;
    assert!(observed.consistent(), "a retained tree stands on its own");

    observed.archive = None;
    assert!(!observed.consistent(), "no tree and no reason is an undeclared absence");
}

#[test]
fn a_retained_tree_names_a_repetition_of_this_run() {
    let mut observed = observation(criterion(), None, Some(DatasetOmission::OutputMissing), 3);
    observed.archive_omission = None;
    assert_eq!(observed.runs_requested, 3);
    for run_index in 1..=observed.runs_requested {
        observed.archive = Some(CriterionArchive {
            run_index,
            bytes: b"tree".to_vec(),
        });
        assert!(observed.consistent(), "rejected repetition {run_index}");
    }
    for run_index in [0, observed.runs_requested + 1, u8::MAX] {
        observed.archive = Some(CriterionArchive {
            run_index,
            bytes: b"tree".to_vec(),
        });
        assert!(!observed.consistent(), "accepted repetition {run_index}");
    }
}

#[test]
fn a_tree_over_the_published_ceiling_is_never_consistent_evidence() {
    let mut observed = observation(criterion(), None, Some(DatasetOmission::OutputMissing), 3);
    observed.archive_omission = None;
    observed.archive = Some(CriterionArchive {
        run_index: 1,
        bytes: vec![0_u8; BENCHMARK_MAX_ARCHIVE_BYTES],
    });
    assert!(observed.consistent(), "exactly at the ceiling is retained");
    observed.archive = Some(CriterionArchive {
        run_index: 1,
        bytes: vec![0_u8; BENCHMARK_MAX_ARCHIVE_BYTES + 1],
    });
    assert!(!observed.consistent(), "one byte past the ceiling is refused, never trimmed");
    observed.archive = Some(CriterionArchive {
        run_index: 1,
        bytes: Vec::new(),
    });
    assert!(!observed.consistent());
}

#[test]
fn each_repetitions_logs_stand_alone_and_name_their_own_repetition() {
    let mut observed = observation(criterion(), None, Some(DatasetOmission::OutputMissing), 3);
    assert!(observed.consistent(), "three ordered repetitions");
    assert_eq!(observed.logs.len(), 3);
    for (position, entry) in observed.logs.iter().enumerate() {
        let expected = u8::try_from(position + 1).expect("three repetitions");
        assert_eq!(entry.run_index, expected);
    }
    assert_ne!(observed.logs[0].stdout, observed.logs[2].stdout);

    observed.logs = vec![log(1)];
    assert!(!observed.consistent(), "a merged log lost two repetitions");

    observed.logs = vec![log(1), log(1), log(3)];
    assert!(!observed.consistent(), "duplicate repetition accepted");

    observed.logs = vec![log(2), log(1), log(3)];
    assert!(!observed.consistent(), "unordered repetitions accepted");

    observed.logs = vec![log(1), log(2), log(4)];
    assert!(!observed.consistent(), "repetition four does not exist");

    observed.logs = Vec::new();
    assert!(!observed.consistent(), "an exit without a repetition");
}

#[test]
fn a_cut_log_declares_the_cut_and_stays_inside_the_ceiling() {
    let mut observed = observation(criterion(), None, Some(DatasetOmission::OutputMissing), 3);
    observed.logs = vec![
        log(1),
        log(2),
        BenchmarkRunLog {
            run_index: 3,
            stdout: vec![b'o'; BENCHMARK_MAX_LOG_BYTES],
            stdout_truncated: true,
            stdout_replaced: false,
            stderr: vec![b'e'; BENCHMARK_MAX_LOG_BYTES],
            stderr_truncated: true,
            stderr_replaced: false,
        },
    ];
    assert!(observed.consistent(), "exactly at the ceiling, declared cut");
    assert!(observed.any_stdout_truncated());
    assert!(observed.any_stderr_truncated());

    observed.logs[2].stdout = vec![b'o'; BENCHMARK_MAX_LOG_BYTES + 1];
    assert!(!observed.consistent(), "one byte past the ceiling is never retained");

    observed.logs[2].stdout = Vec::new();
    assert!(!observed.consistent(), "an empty stream claimed a cut");
    observed.logs[2].stdout_truncated = false;
    assert!(observed.consistent(), "an empty stream is an absence");
    assert!(!observed.any_stdout_truncated());
    assert!(observed.any_stderr_truncated());
}

#[test]
fn the_retained_tree_may_precede_the_repetition_whose_exit_is_reported() {
    let mut observed = observation(criterion(), None, Some(DatasetOmission::OutputMissing), 2);
    observed.archive_omission = None;
    observed.exit_run_index = 3;
    observed.archive = Some(CriterionArchive {
        run_index: 2,
        bytes: b"repetition two's tree".to_vec(),
    });
    assert!(observed.consistent(), "the mismatch is a real observation, not a contradiction");
    assert_ne!(
        observed.archive.as_ref().map(|archive| archive.run_index).expect("tree"),
        observed.exit_run_index
    );
    assert_eq!(observed.logs.last().map(|log| log.run_index), Some(observed.exit_run_index));

    observed.archive = Some(CriterionArchive {
        run_index: 3,
        bytes: b"repetition three's tree".to_vec(),
    });
    assert!(observed.consistent(), "the last repetition may also be the exporting one");

    observed.exit_run_index = 2;
    observed.logs = vec![log(1), log(2)];
    assert!(!observed.consistent(), "a tree from a repetition after the last one that ran");
}
