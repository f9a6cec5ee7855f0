use rust_engineering_domain::benchmark::{
    BenchmarkError, BenchmarkHarness, BenchmarkIdentity, BenchmarkProvenance, BenchmarkSelection,
    DatasetFacts, HardwareProfile, MeasurementCompleteness, MeasurementFacts, ResourceQuotas,
    SampleFacts, SampleUnit, SamplingMode, Virtualization, APPROVED_CRITERION_VERSION,
    BENCHMARK_DATASET_FORMAT, BENCHMARK_DATASET_FORMAT_VERSION,
};
use rust_engineering_domain::benchmark_compare::{CompareError, IncompatibilityReason};
use rust_engineering_domain::comparison_plan::plan_comparison;

fn identity_in(group: &str, name: &str) -> BenchmarkIdentity {
    BenchmarkIdentity::new(
        group.to_owned(),
        Some("function".to_owned()),
        None,
        name.to_owned(),
        name.replace('/', "_"),
    )
    .unwrap()
}

fn measurement(name: &str) -> MeasurementFacts {
    MeasurementFacts {
        identity: identity_in("group", name),
        sampling_mode: SamplingMode::Flat,
        samples: (0..12)
            .map(|index| SampleFacts { iterations: 1, duration_ok: true, run_index: (index % 3) as u8 + 1 })
            .collect(),
        completeness: MeasurementCompleteness::Complete,
    }
}

fn provenance(execution: &str) -> BenchmarkProvenance {
    BenchmarkProvenance {
        source_fingerprint: "sha256:aa".to_owned(),
        harness: BenchmarkHarness::Criterion,
        harness_version: APPROVED_CRITERION_VERSION.to_owned(),
        rust_version: "1.98.1".to_owned(),
        cargo_version: "1.98.1".to_owned(),
        declared_toolchain: Some("1.98.1".to_owned()),
        image_digest: format!("sha256:{}", "c".repeat(64)),
        platform: "aarch64-unknown-linux-gnu".to_owned(),
        configuration_fingerprint: format!("sha256:{}", "d".repeat(64)),
        execution_fingerprint: execution.to_owned(),
        selection: BenchmarkSelection {
            package: Some("member".to_owned()),
            bench_target: Some("throughput".to_owned()),
            features: vec!["std".to_owned()],
            all_features: false,
            no_default_features: false,
            profile: "bench".to_owned(),
        },
        hardware: HardwareProfile {
            cpu_model: Some("Neoverse-N1".to_owned()),
            cpu_cores: Some(4),
            os_kernel: Some("Linux 6.6.0".to_owned()),
            arch: "aarch64".to_owned(),
            virtualization: Virtualization::Container,
            cpu_governor: Some("performance".to_owned()),
            quotas: ResourceQuotas {
                cpu_quota_millicores: Some(2_000),
                memory_bytes: Some(2 << 30),
                pids: Some(256),
            },
        },
        run_index: 1,
        run_count: 3,
        captured_at_unix: 1_757_000_000,
    }
}

fn dataset(execution: &str, measurements: Vec<MeasurementFacts>) -> DatasetFacts {
    DatasetFacts {
        format_version: BENCHMARK_DATASET_FORMAT_VERSION,
        format: BENCHMARK_DATASET_FORMAT.to_owned(),
        unit: SampleUnit::Nanoseconds,
        measurements,
        provenance: provenance(execution),
    }
}

#[test]
fn an_unknown_dataset_format_is_incompatible_before_any_statistic() {
    let baseline = dataset("run-baseline", vec![measurement("bench/one")]);
    let mut future = dataset("run-candidate", vec![measurement("bench/one")]);
    future.format_version = 3;
    match plan_comparison(baseline, future) {
        Err(CompareError::Incompatible(refused)) => {
            assert_eq!(refused.reasons, vec![IncompatibilityReason::FormatVersion]);
            assert_eq!(refused.baseline_provenance.format_version, 2);
            assert_eq!(refused.candidate_provenance.format_version, 3);
        }
        other => panic!("expected an incompatibility, got {other:?}"),
    }
}

#[test]
fn a_structurally_invalid_dataset_is_refused_before_the_statistic() {
    let baseline = dataset("run-baseline", vec![measurement("bench/one")]);
    let mut broken = dataset("run-candidate", vec![measurement("bench/one")]);
    broken.measurements[0].samples[0].run_index = 9;
    assert_eq!(
        plan_comparison(baseline, broken),
        Err(CompareError::InvalidDataset(BenchmarkError::InvalidRunIndex))
    );
}

#[test]
fn the_baseline_is_checked_before_the_candidate() {
    let mut baseline = dataset("run-baseline", vec![measurement("bench/one"), measurement("bench/one")]);
    baseline.provenance.run_count = 3;
    let mut candidate = dataset("run-candidate", vec![measurement("bench/one")]);
    candidate.measurements[0].samples[0].iterations = 0;
    assert_eq!(
        plan_comparison(baseline, candidate),
        Err(CompareError::InvalidDataset(BenchmarkError::DuplicateBenchmark))
    );
}

#[test]
fn datasets_without_a_shared_key_cannot_be_compared() {
    assert_eq!(
        plan_comparison(
            dataset("run-baseline", vec![measurement("bench/one")]),
            dataset("run-candidate", vec![measurement("bench/two")]),
        ),
        Err(CompareError::NoCommonBenchmark)
    );
}

#[test]
fn the_same_execution_is_refused_as_one_artifact() {
    match plan_comparison(
        dataset("run-identical", vec![measurement("bench/one")]),
        dataset("run-identical", vec![measurement("bench/one")]),
    ) {
        Err(CompareError::Incompatible(refused)) => {
            assert_eq!(refused.reasons, vec![IncompatibilityReason::SameArtifact]);
        }
        other => panic!("expected an incompatibility, got {other:?}"),
    }
}

#[test]
fn a_plan_pairs_every_shared_key_in_order_and_names_the_one_sided_keys() {
    let baseline = dataset(
        "run-baseline",
        vec![measurement("bench/zeta"), measurement("bench/shared"), measurement("bench/alpha"), measurement("bench/beta")],
    );
    let candidate = dataset(
        "run-candidate",
        vec![measurement("bench/shared"), measurement("bench/omega"), measurement("bench/beta")],
    );
    let plan = plan_comparison(baseline, candidate).unwrap();
    let keys: Vec<&str> = plan.pairs.iter().map(|pair| pair.key.as_str()).collect();
    assert_eq!(keys, vec!["bench/beta", "bench/shared"]);
    assert_eq!((plan.pairs[0].baseline_index, plan.pairs[0].candidate_index), (3, 2));
    assert_eq!((plan.pairs[1].baseline_index, plan.pairs[1].candidate_index), (1, 0));
    assert_eq!(plan.baseline_only, vec!["bench/alpha", "bench/zeta"]);
    assert_eq!(plan.candidate_only, vec!["bench/omega"]);
    assert_eq!(plan.baseline_provenance.execution_fingerprint, "run-baseline");
    assert_eq!(plan.candidate_provenance.execution_fingerprint, "run-candidate");
    assert!(!plan.unobservable_hardware);
}

#[test]
fn a_shared_key_named_or_sampled_differently_is_refused_with_both_sides() {
    let baseline = dataset("run-baseline", vec![measurement("bench/one"), measurement("bench/two")]);
    let mut candidate = dataset("run-candidate", vec![measurement("bench/two"), measurement("bench/one")]);
    candidate.measurements[0].sampling_mode = SamplingMode::Linear;
    candidate.measurements[1].identity = identity_in("other-group", "bench/one");
    match plan_comparison(baseline, candidate) {
        Err(CompareError::Incompatible(refused)) => {
            assert_eq!(
                refused.reasons,
                vec![IncompatibilityReason::BenchmarkIdentity, IncompatibilityReason::SamplingMode]
            );
            let keys: Vec<&str> = refused.disagreements.iter().map(|d| d.key.as_str()).collect();
            assert_eq!(keys, vec!["bench/one", "bench/two"]);
            assert_eq!(refused.disagreements[0].candidate_identity.group_id(), "other-group");
            assert_eq!(refused.disagreements[1].baseline_sampling_mode, SamplingMode::Flat);
            assert_eq!(refused.disagreements[1].candidate_sampling_mode, SamplingMode::Linear);
            assert_eq!(refused.candidate_provenance.execution_fingerprint, "run-candidate");
        }
        other => panic!("expected an incompatibility, got {other:?}"),
    }
}

#[test]
fn a_refusal_does_not_depend_on_which_side_is_the_baseline() {
    let left = dataset("run-left", vec![measurement("bench/one")]);
    let mut right = dataset("run-right", vec![measurement("bench/one")]);
    right.provenance.hardware.arch = "x86_64".to_owned();
    for (baseline, candidate) in [(left.clone(), right.clone()), (right, left)] {
        match plan_comparison(baseline, candidate) {
            Err(CompareError::Incompatible(refused)) => {
                assert_eq!(refused.reasons, vec![IncompatibilityReason::Architecture]);
            }
            other => panic!("expected an incompatibility, got {other:?}"),
        }
    }
}

#[test]
fn a_dataset_planned_against_itself_is_the_same_artifact() {
    let one = dataset("run-one", vec![measurement("bench/one"), measurement("bench/two")]);
    match plan_comparison(one.clone(), one) {
        Err(CompareError::Incompatible(refused)) => {
            assert_eq!(refused.reasons, vec![IncompatibilityReason::SameArtifact]);
        }
        other => panic!("expected an incompatibility, got {other:?}"),
    }
}

#[test]
fn planning_the_same_two_datasets_twice_gives_the_same_plan() {
    let baseline = dataset(
        "run-baseline",
        vec![measurement("bench/c"), measurement("bench/a"), measurement("bench/b"), measurement("bench/z")],
    );
    let candidate = dataset("run-candidate", vec![measurement("bench/b"), measurement("bench/a"), measurement("bench/c")]);
    let first = plan_comparison(baseline.clone(), candidate.clone()).unwrap();
    let second = plan_comparison(baseline, candidate).unwrap();
    assert_eq!(first, second);
    assert_eq!(first.pairs.len(), 3);
    assert_eq!(first.baseline_only, vec!["bench/z"]);
    assert!(first.candidate_only.is_empty());
}
