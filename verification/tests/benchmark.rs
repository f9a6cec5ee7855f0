use std::collections::BTreeSet;
use rust_engineering_domain::benchmark::{
    BenchmarkError, BenchmarkExit, BenchmarkHarness, BenchmarkIdentity, BenchmarkProvenance,
    BenchmarkSelection, DatasetFacts, HardwareProfile, MeasurementCompleteness, MeasurementFacts,
    ResourceQuotas, SampleFacts, SampleUnit, SamplingMode, Virtualization,
    APPROVED_CRITERION_VERSION, BENCHMARK_DATASET_FORMAT, BENCHMARK_DATASET_FORMAT_VERSION,
    BENCHMARK_MAX_RUNS, BENCHMARK_MAX_SAMPLES, BENCHMARK_MAX_TEXT,
};

fn identity(name: &str) -> BenchmarkIdentity {
    BenchmarkIdentity::new(
        "group".to_owned(),
        Some("function".to_owned()),
        None,
        name.to_owned(),
        name.replace('/', "_"),
    )
    .unwrap()
}

fn hardware() -> HardwareProfile {
    HardwareProfile {
        cpu_model: Some("Neoverse-N1".to_owned()),
        cpu_cores: Some(4),
        os_kernel: Some("Linux 6.6.0".to_owned()),
        arch: "aarch64".to_owned(),
        virtualization: Virtualization::Container,
        cpu_governor: Some("performance".to_owned()),
        quotas: ResourceQuotas {
            cpu_quota_millicores: Some(2_000),
            memory_bytes: Some(2 << 30),
            pids: Some(256),
        },
    }
}

fn selection() -> BenchmarkSelection {
    BenchmarkSelection {
        package: Some("member".to_owned()),
        bench_target: Some("throughput".to_owned()),
        features: vec!["std".to_owned()],
        all_features: false,
        no_default_features: false,
        profile: "bench".to_owned(),
    }
}

fn provenance(source: &str, execution: &str) -> BenchmarkProvenance {
    BenchmarkProvenance {
        source_fingerprint: source.to_owned(),
        harness: BenchmarkHarness::Criterion,
        harness_version: APPROVED_CRITERION_VERSION.to_owned(),
        rust_version: "1.98.1".to_owned(),
        cargo_version: "1.98.1".to_owned(),
        declared_toolchain: Some("1.98.1".to_owned()),
        image_digest: format!("sha256:{}", "c".repeat(64)),
        platform: "aarch64-unknown-linux-gnu".to_owned(),
        configuration_fingerprint: format!("sha256:{}", "d".repeat(64)),
        execution_fingerprint: execution.to_owned(),
        selection: selection(),
        hardware: hardware(),
        run_index: 1,
        run_count: 3,
        captured_at_unix: 1_757_000_000,
    }
}

#[test]
fn empty_identity_field_is_rejected() {
    for parts in [
        (String::new(), "full".to_owned(), "dir".to_owned()),
        ("group".to_owned(), String::new(), "dir".to_owned()),
        ("group".to_owned(), "full".to_owned(), String::new()),
    ] {
        assert_eq!(
            BenchmarkIdentity::new(parts.0, None, None, parts.1, parts.2).unwrap_err(),
            BenchmarkError::EmptyIdentity
        );
    }
}

#[test]
fn identity_text_beyond_the_ceiling_is_rejected() {
    let long = "a".repeat(BENCHMARK_MAX_TEXT + 1);
    assert_eq!(
        BenchmarkIdentity::new(long.clone(), None, None, "full".into(), "dir".into()).unwrap_err(),
        BenchmarkError::IdentityTooLong
    );
    assert_eq!(
        BenchmarkIdentity::new("group".into(), Some(long), None, "full".into(), "dir".into())
            .unwrap_err(),
        BenchmarkError::IdentityTooLong
    );
    assert!(BenchmarkIdentity::new(
        "a".repeat(BENCHMARK_MAX_TEXT),
        None,
        None,
        "full".into(),
        "dir".into()
    )
    .is_ok());
}

#[test]
fn control_characters_in_identity_text_are_rejected() {
    for text in ["group\0id", "group\nid", "group\u{7f}id", "group\u{9b}id"] {
        assert_eq!(
            BenchmarkIdentity::new(text.into(), None, None, "full".into(), "dir".into())
                .unwrap_err(),
            BenchmarkError::InvalidText,
            "{text:?}"
        );
    }
}

#[test]
fn identity_key_is_the_full_id() {
    let identity = identity("group/bench/2");
    assert_eq!(identity.key(), "group/bench/2");
    assert_eq!(identity.key(), identity.full_id());
    assert_eq!(identity.group_id(), "group");
    assert_eq!(identity.function_id(), Some("function"));
    assert_eq!(identity.value_str(), None);
    assert_eq!(identity.directory_name(), "group_bench_2");
}

#[test]
fn provenance_run_counters_are_one_based_and_bounded() {
    for (index, count) in [(0, 3), (4, 3), (1, 0), (1, BENCHMARK_MAX_RUNS + 1)] {
        let mut record = provenance("sha256:aa", "sha256:run-1");
        record.run_index = index;
        record.run_count = count;
        assert_eq!(
            record.validate().unwrap_err(),
            BenchmarkError::InvalidRunIndex,
            "{index}/{count}"
        );
    }
    assert_eq!(provenance("sha256:aa", "sha256:run-1").validate(), Ok(()));
}

#[test]
fn provenance_rejects_every_empty_required_field() {
    let mutations: Vec<fn(&mut BenchmarkProvenance)> = vec![
        |record| record.source_fingerprint.clear(),
        |record| record.harness_version.clear(),
        |record| record.rust_version.clear(),
        |record| record.cargo_version.clear(),
        |record| record.image_digest.clear(),
        |record| record.platform.clear(),
        |record| record.configuration_fingerprint.clear(),
        |record| record.execution_fingerprint.clear(),
        |record| record.selection.profile.clear(),
        |record| record.hardware.arch.clear(),
    ];
    for mutate in mutations {
        let mut record = provenance("sha256:aa", "sha256:run-1");
        mutate(&mut record);
        assert_eq!(
            record.validate().unwrap_err(),
            BenchmarkError::InvalidProvenance
        );
    }
}

#[test]
fn provenance_reports_the_first_failure_in_field_order() {
    let mut record = provenance("sha256:aa", "sha256:run-1");
    record.selection.features.push(String::new());
    assert_eq!(record.validate(), Err(BenchmarkError::InvalidProvenance));
    record.run_index = 0;
    assert_eq!(record.validate(), Err(BenchmarkError::InvalidRunIndex));
    record.declared_toolchain = Some("x\u{1}".into());
    assert_eq!(record.validate(), Err(BenchmarkError::InvalidText));
    let mut hardware = hardware();
    hardware.os_kernel = Some("k".repeat(BENCHMARK_MAX_TEXT + 1));
    assert_eq!(hardware.validate(), Err(BenchmarkError::IdentityTooLong));
}

#[test]
fn exit_classification_is_an_uncalibrated_hypothesis() {
    assert_eq!(BenchmarkExit::classify(0), BenchmarkExit::Passed);
    assert_eq!(BenchmarkExit::classify(101), BenchmarkExit::BenchmarkFailed);
    assert_eq!(BenchmarkExit::classify(100), BenchmarkExit::CompilationFailed);
    for other in [1, 2, 99, 102, -1, i32::MAX, i32::MIN] {
        assert_eq!(
            BenchmarkExit::classify(other),
            BenchmarkExit::Uncalibrated,
            "{other}"
        );
    }
    assert!(!BenchmarkExit::CALIBRATED);
}

#[test]
fn approved_harness_version_is_pinned() {
    assert_eq!(APPROVED_CRITERION_VERSION, "0.8.2");
    assert_eq!(BENCHMARK_DATASET_FORMAT_VERSION, 2);
    assert!(BENCHMARK_DATASET_FORMAT.ends_with(".v2"));
}

fn sample(iterations: u64, duration_ok: bool, run_index: u8) -> SampleFacts {
    SampleFacts { iterations, duration_ok, run_index }
}

/// Twelve good samples dealt round-robin over three executions.
fn measurement(name: &str) -> MeasurementFacts {
    MeasurementFacts {
        identity: identity(name),
        sampling_mode: SamplingMode::Flat,
        samples: (0..12).map(|index| sample(1, true, (index % 3) as u8 + 1)).collect(),
        completeness: MeasurementCompleteness::Complete,
    }
}

fn dataset(measurements: Vec<MeasurementFacts>) -> DatasetFacts {
    DatasetFacts {
        format_version: BENCHMARK_DATASET_FORMAT_VERSION,
        format: BENCHMARK_DATASET_FORMAT.to_owned(),
        unit: SampleUnit::Nanoseconds,
        measurements,
        provenance: provenance("sha256:aa", "sha256:run-1"),
    }
}

#[test]
fn raw_sample_rejects_every_non_positive_bounded_duration() {
    assert_eq!(sample(0, true, 1).validate(), Err(BenchmarkError::InvalidSample));
    assert_eq!(sample(1, false, 1).validate(), Err(BenchmarkError::InvalidSample));
    assert_eq!(sample(4, true, 2).validate(), Ok(()));
}

#[test]
fn a_sample_outside_the_one_based_run_range_is_rejected() {
    for run_index in [0, BENCHMARK_MAX_RUNS + 1, u8::MAX] {
        assert_eq!(sample(1, true, run_index).validate(), Err(BenchmarkError::InvalidRunIndex), "{run_index}");
    }
    assert_eq!(sample(1, true, 1).validate(), Ok(()));
    assert_eq!(sample(1, true, BENCHMARK_MAX_RUNS).validate(), Ok(()));
}

#[test]
fn a_duration_fault_is_reported_before_a_run_index_fault() {
    assert_eq!(sample(0, false, 0).validate(), Err(BenchmarkError::InvalidSample));
}

#[test]
fn a_sample_from_an_execution_the_provenance_never_ran_is_rejected() {
    let mut one = measurement("bench/one");
    one.samples = vec![sample(1, true, 4)];
    assert_eq!(dataset(vec![one]).validate(), Err(BenchmarkError::InvalidRunIndex));
}

#[test]
fn measurement_without_samples_is_only_representable_as_missing() {
    for completeness in [MeasurementCompleteness::Complete, MeasurementCompleteness::Truncated] {
        let empty = MeasurementFacts {
            identity: identity("bench"),
            sampling_mode: SamplingMode::Auto,
            samples: Vec::new(),
            completeness,
        };
        assert_eq!(empty.validate(), Err(BenchmarkError::NoSamples));
    }
    let missing = MeasurementFacts {
        identity: identity("bench"),
        sampling_mode: SamplingMode::Auto,
        samples: Vec::new(),
        completeness: MeasurementCompleteness::Missing,
    };
    assert_eq!(missing.validate(), Ok(()));
}

#[test]
fn measurement_beyond_the_sample_ceiling_is_rejected() {
    let full = MeasurementFacts {
        identity: identity("bench"),
        sampling_mode: SamplingMode::Linear,
        samples: vec![sample(1, true, 1); BENCHMARK_MAX_SAMPLES + 1],
        completeness: MeasurementCompleteness::Complete,
    };
    assert_eq!(full.validate(), Err(BenchmarkError::TooManySamples));
}

#[test]
fn a_measurement_reports_its_first_bad_sample() {
    let mut one = measurement("bench/one");
    one.samples[5] = sample(1, true, 0);
    one.samples[7] = sample(1, false, 1);
    assert_eq!(one.validate(), Err(BenchmarkError::InvalidRunIndex));
    assert_eq!(one.key(), "bench/one");
}

#[test]
fn dataset_rejects_a_duplicate_benchmark_key() {
    assert_eq!(
        dataset(vec![measurement("bench/one"), measurement("bench/one")]).validate(),
        Err(BenchmarkError::DuplicateBenchmark)
    );
}

#[test]
fn dataset_rejects_an_empty_measurement_list() {
    assert_eq!(dataset(Vec::new()).validate(), Err(BenchmarkError::EmptyDataset));
}

#[test]
fn a_valid_dataset_passes_and_an_unknown_format_fails_closed() {
    assert_eq!(dataset(vec![measurement("bench/one"), measurement("bench/two")]).validate(), Ok(()));
    let mut newer = dataset(vec![measurement("bench/one")]);
    newer.format_version = 3;
    assert_eq!(newer.validate(), Err(BenchmarkError::UnknownFormat));
    let mut renamed = dataset(Vec::new());
    renamed.format = "rust-engineering-mcp.benchmark-dataset.v1".to_owned();
    assert_eq!(renamed.validate(), Err(BenchmarkError::UnknownFormat));
}

#[test]
fn a_dataset_checks_its_measurements_before_its_provenance() {
    let mut broken = dataset(vec![measurement("bench/one"), measurement("bench/one")]);
    broken.provenance.platform.clear();
    assert_eq!(broken.validate(), Err(BenchmarkError::DuplicateBenchmark));
    let mut unnamed = dataset(vec![measurement("bench/one")]);
    unnamed.provenance.platform.clear();
    assert_eq!(unnamed.validate(), Err(BenchmarkError::InvalidProvenance));
}

#[test]
fn a_measurement_reports_the_distinct_executions_it_pools() {
    assert_eq!(measurement("bench/one").run_indices(), BTreeSet::from([1, 2, 3]), "pooled measurement lost its executions");
    let single = MeasurementFacts {
        identity: identity("bench/two"),
        sampling_mode: SamplingMode::Flat,
        samples: vec![sample(1, true, 1); 12],
        completeness: MeasurementCompleteness::Complete,
    };
    assert_eq!(single.run_indices(), BTreeSet::from([1]));
    let mut shuffled = measurement("bench/three");
    shuffled.samples = vec![sample(1, true, 16), sample(1, true, 2), sample(1, true, 16), sample(1, true, 5)];
    assert_eq!(shuffled.run_indices(), BTreeSet::from([2, 5, 16]));
}
