use rust_engineering_domain::benchmark::{
    BenchmarkHarness, BenchmarkProvenance, BenchmarkSelection, HardwareProfile, ResourceQuotas,
    SampleUnit, Virtualization, APPROVED_CRITERION_VERSION, BENCHMARK_DATASET_FORMAT,
    BENCHMARK_DATASET_FORMAT_VERSION,
};
use rust_engineering_domain::benchmark_compare::{
    canonical_reasons, dataset_compatibility, frozen_family_size, multiplicity_for,
    resolves_family, CompareError, ComparedProvenance, IncompatibilityReason,
    MultiplicityCorrection, SplitMix64, BOOTSTRAP_SEED, MAX_RESOLVABLE_FAMILY_SIZE,
};
use rust_engineering_domain::benchmark::BenchmarkError;

fn provenance(execution: &str) -> BenchmarkProvenance {
    BenchmarkProvenance {
        source_fingerprint: format!("sha256:{}", "a".repeat(64)),
        harness: BenchmarkHarness::Criterion,
        harness_version: APPROVED_CRITERION_VERSION.to_owned(),
        rust_version: "1.98.1".to_owned(),
        cargo_version: "1.98.1".to_owned(),
        declared_toolchain: Some("1.98.1".to_owned()),
        image_digest: format!("sha256:{}", "c".repeat(64)),
        platform: "aarch64-unknown-linux-gnu".to_owned(),
        configuration_fingerprint: format!("sha256:{}", "d".repeat(64)),
        execution_fingerprint: execution.to_owned(),
        selection: BenchmarkSelection {
            package: Some("member".to_owned()),
            bench_target: Some("throughput".to_owned()),
            features: vec!["std".to_owned()],
            all_features: false,
            no_default_features: false,
            profile: "bench".to_owned(),
        },
        hardware: HardwareProfile {
            cpu_model: Some("Neoverse-N1".to_owned()),
            cpu_cores: Some(4),
            os_kernel: Some("Linux 6.6.0".to_owned()),
            arch: "aarch64".to_owned(),
            virtualization: Virtualization::Container,
            cpu_governor: Some("performance".to_owned()),
            quotas: ResourceQuotas {
                cpu_quota_millicores: Some(2_000),
                memory_bytes: Some(2 << 30),
                pids: Some(256),
            },
        },
        run_index: 1,
        run_count: 3,
        captured_at_unix: 1_757_000_000,
    }
}

fn projected(record: BenchmarkProvenance) -> ComparedProvenance {
    ComparedProvenance::of(
        BENCHMARK_DATASET_FORMAT.to_owned(),
        BENCHMARK_DATASET_FORMAT_VERSION,
        SampleUnit::Nanoseconds,
        record,
    )
}

type ProvenanceMutation = fn(&mut BenchmarkProvenance);

fn incompatibility(mutate: ProvenanceMutation) -> Vec<IncompatibilityReason> {
    let baseline = projected(provenance("run-baseline"));
    let mut record = provenance("run-candidate");
    mutate(&mut record);
    dataset_compatibility(&baseline, &projected(record)).0
}

#[test]
fn prng_is_reproducible_and_key_dependent() {
    let mut first = SplitMix64::new(BOOTSTRAP_SEED);
    let mut second = SplitMix64::new(BOOTSTRAP_SEED);
    let left: Vec<u64> = (0..8).map(|_| first.next_u64()).collect();
    let right: Vec<u64> = (0..8).map(|_| second.next_u64()).collect();
    assert_eq!(left, right);

    let mut other = SplitMix64::new(BOOTSTRAP_SEED ^ 1);
    let different: Vec<u64> = (0..8).map(|_| other.next_u64()).collect();
    assert_ne!(left, different);

    let mut one = SplitMix64::for_benchmark("bench/one");
    let mut two = SplitMix64::for_benchmark("bench/two");
    let mut one_again = SplitMix64::for_benchmark("bench/one");
    let stream: Vec<u64> = (0..8).map(|_| one.next_u64()).collect();
    assert_eq!(stream, (0..8).map(|_| one_again.next_u64()).collect::<Vec<_>>());
    assert_ne!(stream, (0..8).map(|_| two.next_u64()).collect::<Vec<_>>());

    let mut bounded = SplitMix64::for_benchmark("bench/one");
    for _ in 0..1_000 {
        assert!(bounded.index(7) < 7);
    }
    assert_eq!(bounded.index(0), 0);
}

#[test]
fn splitmix_matches_the_reference_sequence() {
    // The first outputs of SplitMix64 seeded with 0, as published with the generator.
    let mut rng = SplitMix64::new(0);
    assert_eq!(rng.next_u64(), 0xe220_a839_7b1d_cdaf);
    assert_eq!(rng.next_u64(), 0x6e78_9e6a_a1b9_65f4);
    assert_eq!(rng.next_u64(), 0x06c4_5d18_8009_454f);
}

#[test]
fn one_mutated_provenance_field_yields_exactly_one_reason() {
    let cases: Vec<(ProvenanceMutation, IncompatibilityReason)> = vec![
        (|record| record.harness_version = "0.7.0".to_owned(), IncompatibilityReason::HarnessVersion),
        (|record| record.rust_version = "1.97.0".to_owned(), IncompatibilityReason::RustVersion),
        (|record| record.cargo_version = "1.97.0".to_owned(), IncompatibilityReason::CargoVersion),
        (|record| record.image_digest = format!("sha256:{}", "e".repeat(64)), IncompatibilityReason::RuntimeImage),
        (|record| record.platform = "x86_64-unknown-linux-gnu".to_owned(), IncompatibilityReason::Platform),
        (|record| record.selection.all_features = true, IncompatibilityReason::Selection),
        (|record| record.hardware.arch = "x86_64".to_owned(), IncompatibilityReason::Architecture),
        (|record| record.hardware.cpu_model = Some("Skylake".to_owned()), IncompatibilityReason::CpuModel),
        (|record| record.hardware.cpu_model = None, IncompatibilityReason::UnknownHardware),
        (|record| record.hardware.quotas.pids = Some(1), IncompatibilityReason::Quotas),
        (|record| record.configuration_fingerprint = format!("sha256:{}", "9".repeat(64)), IncompatibilityReason::Configuration),
        (|record| record.hardware.cpu_cores = Some(8), IncompatibilityReason::CpuCores),
        (|record| record.hardware.cpu_cores = None, IncompatibilityReason::UnknownHardware),
        (|record| record.hardware.os_kernel = Some("Linux 5.15.0".to_owned()), IncompatibilityReason::OsKernel),
        (|record| record.hardware.os_kernel = None, IncompatibilityReason::UnknownHardware),
        (|record| record.hardware.cpu_governor = Some("powersave".to_owned()), IncompatibilityReason::CpuGovernor),
        (|record| record.hardware.cpu_governor = None, IncompatibilityReason::UnknownHardware),
        (|record| record.hardware.virtualization = Virtualization::Bare, IncompatibilityReason::Virtualization),
        (|record| record.hardware.virtualization = Virtualization::Unknown, IncompatibilityReason::UnknownHardware),
    ];
    for (mutate, expected) in cases {
        assert_eq!(incompatibility(mutate), vec![expected]);
    }
}

#[test]
fn a_differing_declared_toolchain_is_never_a_reason() {
    assert_eq!(incompatibility(|record| record.declared_toolchain = Some("nightly".to_owned())), Vec::new());
    assert_eq!(incompatibility(|record| record.declared_toolchain = None), Vec::new());
    assert_eq!(incompatibility(|record| record.source_fingerprint = "sha256:other".to_owned()), Vec::new());
}

#[test]
fn one_side_blind_and_both_sides_blind_are_different_answers() {
    let mut blind = provenance("run-baseline");
    blind.hardware.cpu_governor = None;
    let mut other_blind = provenance("run-candidate");
    other_blind.hardware.cpu_governor = None;
    let (reasons, unobservable) = dataset_compatibility(&projected(blind.clone()), &projected(other_blind));
    assert!(reasons.is_empty());
    assert!(unobservable);
    let (reasons, unobservable) = dataset_compatibility(&projected(blind), &projected(provenance("run-candidate")));
    assert_eq!(reasons, vec![IncompatibilityReason::UnknownHardware]);
    assert!(!unobservable);
}

#[test]
fn the_same_execution_is_one_artifact_not_two_observations() {
    let one = projected(provenance("run-identical"));
    assert_eq!(dataset_compatibility(&one, &one).0, vec![IncompatibilityReason::SameArtifact]);
}

#[test]
fn several_mutations_report_every_reason_sorted_and_deduplicated() {
    let baseline = projected(provenance("run-baseline"));
    let mut record = provenance("run-baseline");
    record.hardware.arch = "x86_64".to_owned();
    record.platform = "x86_64-unknown-linux-gnu".to_owned();
    record.rust_version = "1.97.0".to_owned();
    record.hardware.cpu_model = None;
    record.hardware.os_kernel = None;
    assert_eq!(
        dataset_compatibility(&baseline, &projected(record)).0,
        vec![
            IncompatibilityReason::RustVersion,
            IncompatibilityReason::Platform,
            IncompatibilityReason::Architecture,
            IncompatibilityReason::UnknownHardware,
            IncompatibilityReason::SameArtifact,
        ]
    );
}

#[test]
fn an_unknown_dataset_format_is_incompatible() {
    let baseline = projected(provenance("run-baseline"));
    let candidate = ComparedProvenance::of(
        "other-format".to_owned(),
        BENCHMARK_DATASET_FORMAT_VERSION,
        SampleUnit::Nanoseconds,
        provenance("run-candidate"),
    );
    assert_eq!(dataset_compatibility(&baseline, &candidate).0, vec![IncompatibilityReason::FormatVersion]);
}

#[test]
fn canonical_reasons_sort_and_deduplicate() {
    let reasons = canonical_reasons(&[
        IncompatibilityReason::SameArtifact,
        IncompatibilityReason::BenchmarkIdentity,
        IncompatibilityReason::UnknownHardware,
        IncompatibilityReason::BenchmarkIdentity,
        IncompatibilityReason::FormatVersion,
        IncompatibilityReason::UnknownHardware,
    ]);
    assert_eq!(
        reasons,
        vec![
            IncompatibilityReason::FormatVersion,
            IncompatibilityReason::BenchmarkIdentity,
            IncompatibilityReason::UnknownHardware,
            IncompatibilityReason::SameArtifact,
        ]
    );
    assert!(canonical_reasons(&[]).is_empty());
}

#[test]
fn bonferroni_applies_to_every_family_larger_than_one() {
    assert_eq!(frozen_family_size(0), 1);
    assert_eq!(multiplicity_for(0), MultiplicityCorrection::NoCorrection);
    assert_eq!(multiplicity_for(1), MultiplicityCorrection::NoCorrection);
    for n in [2, 3, 25, 26, 250] {
        assert_eq!(multiplicity_for(n), MultiplicityCorrection::Bonferroni);
    }
}

#[test]
fn the_resolvable_family_size_is_derived_from_the_resample_budget() {
    assert_eq!(MAX_RESOLVABLE_FAMILY_SIZE, 25);
    assert!(resolves_family(0));
    assert!(resolves_family(25));
    assert!(!resolves_family(26));
}

#[test]
fn only_an_incompatibility_carries_reasons() {
    assert!(CompareError::NoCommonBenchmark.reasons().is_empty());
    assert!(CompareError::InvalidDataset(BenchmarkError::EmptyDataset).reasons().is_empty());
}

use rust_engineering_domain::benchmark::{BenchmarkIdentity, MeasurementCompleteness, SamplingMode};
use rust_engineering_domain::benchmark_compare::{
    decide, measurement_compatibility, ComparisonVerdict, InconclusiveReason, IntervalPosition,
    VerdictInput,
};

fn clean_input() -> VerdictInput {
    VerdictInput {
        baseline_completeness: MeasurementCompleteness::Complete,
        candidate_completeness: MeasurementCompleteness::Complete,
        baseline_samples: 30,
        candidate_samples: 30,
        baseline_executions: 3,
        candidate_executions: 3,
        baseline_median_positive: true,
        degenerate_dispersion: false,
        family_beyond_resolution: false,
        unobservable_hardware: false,
        method_qualified: true,
        detectable_within_threshold: true,
        interval: IntervalPosition::AboveThreshold,
    }
}

#[test]
fn the_decision_rule_reads_its_gates_in_order() {
    assert_eq!(decide(&clean_input()), (ComparisonVerdict::Regression, vec![]));
    let mut improvement = clean_input();
    improvement.interval = IntervalPosition::BelowNegativeThreshold;
    assert_eq!(decide(&improvement).0, ComparisonVerdict::Improvement);
    let mut unchanged = clean_input();
    unchanged.interval = IntervalPosition::WithinThreshold;
    assert_eq!(decide(&unchanged).0, ComparisonVerdict::NoMaterialChange);
    let mut spans = clean_input();
    spans.interval = IntervalPosition::SpansThreshold;
    assert_eq!(decide(&spans), (ComparisonVerdict::Inconclusive, vec![InconclusiveReason::IntervalSpansThreshold]));

    let mut missing = clean_input();
    missing.candidate_completeness = MeasurementCompleteness::Missing;
    missing.baseline_completeness = MeasurementCompleteness::Truncated;
    assert_eq!(decide(&missing), (ComparisonVerdict::Inconclusive, vec![InconclusiveReason::MissingMeasurement]));

    let mut truncated = clean_input();
    truncated.baseline_completeness = MeasurementCompleteness::Truncated;
    assert_eq!(decide(&truncated), (ComparisonVerdict::Inconclusive, vec![InconclusiveReason::TruncatedMeasurement]));
    truncated.baseline_samples = 9;
    assert_eq!(
        decide(&truncated),
        (ComparisonVerdict::Inconclusive, vec![InconclusiveReason::TruncatedMeasurement, InconclusiveReason::InsufficientSamples])
    );

    let mut one_execution = clean_input();
    one_execution.candidate_executions = 1;
    assert_eq!(decide(&one_execution), (ComparisonVerdict::Inconclusive, vec![InconclusiveReason::InsufficientExecutions]));
    let mut blind = clean_input();
    blind.unobservable_hardware = true;
    assert_eq!(decide(&blind).1, vec![InconclusiveReason::UnobservableHardware]);
    let mut imprecise = clean_input();
    imprecise.detectable_within_threshold = false;
    assert_eq!(decide(&imprecise).1, vec![InconclusiveReason::PrecisionBelowThreshold]);
    let mut degenerate = clean_input();
    degenerate.degenerate_dispersion = true;
    degenerate.family_beyond_resolution = true;
    assert_eq!(decide(&degenerate).1, vec![InconclusiveReason::FamilyBeyondResolution]);
    let mut zero = clean_input();
    zero.baseline_median_positive = false;
    assert_eq!(decide(&zero).1, vec![InconclusiveReason::ZeroOrNegativeBaseline]);
}

#[test]
fn no_input_produces_a_direction_while_the_method_is_unqualified() {
    for interval in [
        IntervalPosition::AboveThreshold,
        IntervalPosition::BelowNegativeThreshold,
        IntervalPosition::WithinThreshold,
        IntervalPosition::SpansThreshold,
    ] {
        let mut input = clean_input();
        input.interval = interval;
        input.method_qualified = rust_engineering_domain::benchmark_compare::METHOD_QUALIFIED_FOR_DIRECTION;
        assert_eq!(decide(&input), (ComparisonVerdict::Inconclusive, vec![InconclusiveReason::MethodUnqualified]));
    }
}

fn identity(group: &str) -> BenchmarkIdentity {
    BenchmarkIdentity::new(group.into(), Some("one".into()), None, format!("{group}/one"), format!("{group}_one")).unwrap()
}

#[test]
fn a_differing_identity_or_sampling_mode_under_one_key_blocks_the_comparison() {
    let mut reasons = Vec::new();
    let mut disagreements = Vec::new();
    measurement_compatibility("bench/one", &identity("bench"), &identity("bench"), SamplingMode::Linear, SamplingMode::Linear, &mut reasons, &mut disagreements);
    assert!(reasons.is_empty() && disagreements.is_empty());
    measurement_compatibility("bench/one", &identity("bench"), &identity("other"), SamplingMode::Linear, SamplingMode::Flat, &mut reasons, &mut disagreements);
    assert_eq!(reasons, vec![IncompatibilityReason::BenchmarkIdentity, IncompatibilityReason::SamplingMode]);
    assert_eq!(disagreements.len(), 1);
    assert_eq!(disagreements[0].key, "bench/one");
    assert_eq!(disagreements[0].candidate_identity, identity("other"));
    assert_eq!(disagreements[0].candidate_sampling_mode, SamplingMode::Flat);

    let refusal = CompareError::incompatible(
        &[IncompatibilityReason::SamplingMode, IncompatibilityReason::FormatVersion, IncompatibilityReason::SamplingMode],
        projected(provenance("a")),
        projected(provenance("b")),
        disagreements,
    );
    assert_eq!(refusal.reasons(), &[IncompatibilityReason::FormatVersion, IncompatibilityReason::SamplingMode]);
    assert_eq!(refusal.message(), "datasets are incompatible (2 reasons)");
    assert_eq!(CompareError::NoCommonBenchmark.message(), "datasets share no benchmark key");
    assert_eq!(
        CompareError::InvalidDataset(BenchmarkError::EmptyDataset).message(),
        "invalid dataset: dataset carries no measurement"
    );
    match refusal {
        CompareError::Incompatible(details) => {
            assert_eq!(details.baseline_provenance.execution_fingerprint, "a");
            assert_eq!(details.candidate_provenance.execution_fingerprint, "b");
            assert_eq!(details.disagreements.len(), 1);
        }
        _ => panic!("an incompatibility"),
    }
}

use rust_engineering_domain::benchmark_compare::partition_keys;

#[test]
fn keys_present_on_one_side_only_are_reported_sorted() {
    let keys = |v: &[&str]| v.iter().map(|k| k.to_string()).collect::<Vec<_>>();
    let split = partition_keys(
        &keys(&["bench/shared", "bench/zeta", "bench/alpha", "bench/zeta"]),
        &keys(&["bench/shared", "bench/omega"]),
    );
    assert_eq!(split.common, vec!["bench/shared"]);
    assert_eq!(split.baseline_only, vec!["bench/alpha", "bench/zeta"]);
    assert_eq!(split.candidate_only, vec!["bench/omega"]);
}

#[test]
fn datasets_without_a_shared_key_have_no_common_key() {
    let split = partition_keys(&["bench/one".to_string()], &["bench/two".to_string()]);
    assert!(split.common.is_empty());
    assert_eq!(split.baseline_only, vec!["bench/one"]);
    assert_eq!(split.candidate_only, vec!["bench/two"]);
}

#[test]
fn every_plain_input_of_the_decision_rule_stays_inconclusive_with_a_reason() {
    let completeness = [MeasurementCompleteness::Complete, MeasurementCompleteness::Truncated, MeasurementCompleteness::Missing];
    let intervals = [
        IntervalPosition::AboveThreshold,
        IntervalPosition::BelowNegativeThreshold,
        IntervalPosition::WithinThreshold,
        IntervalPosition::SpansThreshold,
    ];
    let mut seen = 0usize;
    for &baseline_completeness in &completeness {
        for &candidate_completeness in &completeness {
            for samples in [0usize, 9, 10, 90] {
                for executions in [0usize, 1, 2, 3, 10] {
                    for flags in 0u32..32 {
                        for &interval in &intervals {
                            let input = VerdictInput {
                                baseline_completeness,
                                candidate_completeness,
                                baseline_samples: samples,
                                candidate_samples: samples,
                                baseline_executions: executions,
                                candidate_executions: executions,
                                baseline_median_positive: flags & 1 != 0,
                                degenerate_dispersion: flags & 2 != 0,
                                family_beyond_resolution: flags & 4 != 0,
                                unobservable_hardware: flags & 8 != 0,
                                method_qualified: rust_engineering_domain::benchmark_compare::METHOD_QUALIFIED_FOR_DIRECTION,
                                detectable_within_threshold: flags & 16 != 0,
                                interval,
                            };
                            let (verdict, reasons) = decide(&input);
                            assert_eq!(verdict, ComparisonVerdict::Inconclusive);
                            assert!(!reasons.is_empty(), "an inconclusive verdict always names a reason");
                            seen += 1;
                        }
                    }
                }
            }
        }
    }
    assert_eq!(seen, 9 * 4 * 5 * 32 * 4);
}
