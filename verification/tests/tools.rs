use rust_engineering_domain::bloat::{
    BinaryFormat, BloatAttribution, BloatCompleteness, BloatError, BloatExit, BloatObservation,
    BloatOptions, BloatProfile, MeasuredBinary, APPROVED_CARGO_BLOAT_VERSION,
};
use rust_engineering_domain::check::InvalidCheckOptions;
use rust_engineering_domain::clippy::{ClippyOptions, ClippySelection, LintProfile};
use rust_engineering_domain::coverage::{
    CoverageMetric, CoverageMetrics, CoverageOptions, CoverageSelection, InvalidCoverageMetric,
};
use rust_engineering_domain::execution::ExecutionTermination;
use rust_engineering_domain::inspection::RuntimeIdentity;
use rust_engineering_domain::miri::{MiriCounts, MiriOptions, MiriReport};

fn attribution(reported: Option<u64>) -> BloatAttribution {
    BloatAttribution {
        estimated: true,
        reported_file_size_bytes: reported,
        text_section_size_bytes: Some(1024),
        functions: Vec::new(),
        crates: Vec::new(),
        functions_omitted: 0,
        crates_omitted: 0,
    }
}

fn measured(size: u64) -> MeasuredBinary {
    MeasuredBinary {
        size_bytes: size,
        sha256: format!("sha256:{}", "0".repeat(64)),
        format: BinaryFormat::Elf64Aarch64,
    }
}

fn observation(
    measured_binary: Option<MeasuredBinary>,
    attributed: Option<BloatAttribution>,
    completeness: BloatCompleteness,
) -> BloatObservation {
    BloatObservation {
        options: BloatOptions::new("fixture".into(), None, BloatProfile::Release).expect("options"),
        analyzer_version: APPROVED_CARGO_BLOAT_VERSION.into(),
        exit: BloatExit::Passed,
        exit_code: Some(0),
        termination: ExecutionTermination::Exited,
        measured: measured_binary,
        attribution: attributed,
        completeness,
        report: Vec::new(),
        runtime: RuntimeIdentity {
            platform: "linux/aarch64".into(),
            image_id: "sha256:0".into(),
            configuration_fingerprint: format!("sha256:{}", "0".repeat(64))
                .parse()
                .expect("fingerprint"),
            execution_fingerprint: format!("sha256:{}", "1".repeat(64))
                .parse()
                .expect("fingerprint"),
            rust_version: "1.98.1".into(),
            cargo_version: "1.98.1".into(),
            declared_toolchain: None,
        },
        execution_fingerprint: format!("sha256:{}", "1".repeat(64))
            .parse()
            .expect("fingerprint"),
        vendor_fingerprint: format!("sha256:{}", "2".repeat(64))
            .parse()
            .expect("fingerprint"),
        stdout: Vec::new(),
        stderr: Vec::new(),
        stdout_truncated: false,
        stderr_truncated: false,
    }
}

#[test]
fn profiles_are_closed_and_declare_their_lto() {
    assert_eq!(BloatProfile::Release.cargo_name(), "release");
    assert_eq!(BloatProfile::ReleaseLto.cargo_name(), "release-lto");
    assert!(!BloatProfile::Release.link_time_optimized());
    assert!(BloatProfile::ReleaseLto.link_time_optimized());
}

#[test]
fn options_reject_paths_and_free_text() {
    assert!(BloatOptions::new(
        "fixture".into(),
        Some("inner".into()),
        BloatProfile::Release
    )
    .is_ok());
    for target in ["", "/bin/sh", "a b", "a;b", &"a".repeat(65)] {
        assert_eq!(
            BloatOptions::new(target.into(), None, BloatProfile::Release).unwrap_err(),
            BloatError::InvalidTarget
        );
    }
    assert_eq!(
        BloatOptions::new("ok".into(), Some("bad name".into()), BloatProfile::Release)
            .unwrap_err(),
        BloatError::InvalidPackage
    );
}

#[test]
fn a_disagreeing_reported_size_can_never_be_complete() {
    assert!(observation(
        Some(measured(4096)),
        Some(attribution(Some(4096))),
        BloatCompleteness::Complete
    )
    .consistent());
    assert!(!observation(
        Some(measured(4096)),
        Some(attribution(Some(4095))),
        BloatCompleteness::Complete
    )
    .consistent());
    assert!(observation(
        Some(measured(4096)),
        Some(attribution(Some(4095))),
        BloatCompleteness::SizeMismatch
    )
    .consistent());
    assert!(!observation(
        Some(measured(4096)),
        Some(attribution(None)),
        BloatCompleteness::Complete
    )
    .consistent());
    assert!(!observation(None, None, BloatCompleteness::Complete).consistent());
}

#[test]
fn a_complete_observation_needs_an_exact_measurement() {
    assert!(!observation(None, Some(attribution(Some(4096))), BloatCompleteness::Complete).consistent());
    assert!(observation(None, Some(attribution(Some(4096))), BloatCompleteness::SizeMismatch).consistent());
}

#[test]
fn bloat_exit_codes_classify_without_claiming_calibration() {
    let calibrated: bool = BloatExit::CALIBRATED;
    assert!(!calibrated, "exit codes are not calibrated yet");
    assert_eq!(BloatExit::classify(0), BloatExit::Passed);
    assert_eq!(BloatExit::classify(1), BloatExit::AnalysisFailed);
    assert_eq!(BloatExit::classify(101), BloatExit::CompilationFailed);
    assert_eq!(BloatExit::classify(7), BloatExit::Uncalibrated);
}

#[test]
fn selection_preserves_package_targets_profile_and_sorts_features() {
    let options = ClippyOptions::try_from(ClippySelection {
        package: Some("member-name".into()),
        all_targets: true,
        features: vec!["std".into(), "serde/derive".into()],
        lint_profile: LintProfile::Pedantic,
        ..Default::default()
    })
    .unwrap();
    assert_eq!(options.package(), Some("member-name"));
    assert!(options.all_targets());
    assert_eq!(options.features(), ["serde/derive", "std"]);
    assert_eq!(options.lint_profile(), LintProfile::Pedantic);
}

#[test]
fn clippy_rejects_the_same_feature_grammar_as_check() {
    for name in ["", "-a", "a,b", "a b", "a/../b", "a//b", "a\nb", "$(echo x)"] {
        assert!(ClippyOptions::try_from(ClippySelection {
            features: vec![name.into()],
            ..Default::default()
        })
        .is_err());
    }
    for features in [vec!["a".into(); 33], vec!["a".repeat(129)], vec!["std".into(), "std".into()]] {
        assert_eq!(
            ClippyOptions::try_from(ClippySelection {
                features,
                ..Default::default()
            }),
            Err(InvalidCheckOptions)
        );
    }
    let defaults = ClippyOptions::try_from(ClippySelection::default()).unwrap();
    assert_eq!(defaults.lint_profile(), LintProfile::Default);
    assert!(defaults.features().is_empty());
    assert!(ClippyOptions::try_from(ClippySelection {
        package: Some("member".into()),
        workspace: true,
        ..Default::default()
    })
    .is_err());
}

#[test]
fn coverage_metrics_have_no_percentage_without_a_denominator() {
    assert_eq!(CoverageMetric::new(0, 0), Ok(None));
    assert_eq!(CoverageMetric::new(0, 1), Err(InvalidCoverageMetric));
    assert_eq!(CoverageMetric::new(3, 4), Err(InvalidCoverageMetric));
    let half = CoverageMetric::new(4, 2).unwrap().unwrap();
    assert_eq!(half.percent_millionths, 50_000_000);
    let third = CoverageMetric::new(3, 1).unwrap().unwrap();
    assert_eq!(third.percent_millionths, 33_333_333);
    let full = CoverageMetric::new(u64::MAX / 100_000_000, u64::MAX / 100_000_000)
        .unwrap()
        .unwrap();
    assert_eq!(full.percent_millionths, 100_000_000);
    assert_eq!(CoverageMetric::new(u64::MAX, u64::MAX), Err(InvalidCoverageMetric));
    let metrics = CoverageMetrics::new((10, 5), (0, 0), (2, 2)).unwrap();
    assert_eq!(metrics.regions, None);
    assert_eq!(metrics.functions.unwrap().percent_millionths, 100_000_000);
    assert!(CoverageMetrics::new((10, 5), (0, 1), (2, 2)).is_err());
}

#[test]
fn coverage_options_default_the_timeout_and_bound_it() {
    let options = CoverageOptions::try_from(CoverageSelection::default()).unwrap();
    assert_eq!(options.timeout_seconds(), 300);
    assert!(CoverageOptions::try_from(CoverageSelection {
        timeout_seconds: 3_601,
        ..Default::default()
    })
    .is_err());
    let options = CoverageOptions::try_from(CoverageSelection {
        workspace: true,
        features: vec!["b".into(), "a".into()],
        timeout_seconds: 3_600,
        ..Default::default()
    })
    .unwrap();
    assert!(options.workspace());
    assert_eq!(options.features(), ["a", "b"]);
    assert_eq!(options.timeout_seconds(), 3_600);
}

#[test]
fn miri_options_and_report_invariants() {
    assert!(MiriOptions::new(0).is_err());
    assert!(MiriOptions::new(1801).is_err());
    assert_eq!(MiriOptions::new(1800).unwrap().timeout_seconds(), 1800);
    let clean = MiriReport {
        counts: MiriCounts {
            tests: 2,
            passed: 2,
            ..Default::default()
        },
        findings: Vec::new(),
        findings_omitted: 0,
        complete: true,
        clean: true,
        junit_present: true,
        exit_code: Some(0),
    };
    assert!(clean.validate());
    let mut lying = clean.clone();
    lying.exit_code = Some(1);
    assert!(!lying.validate());
    lying.clean = false;
    assert!(lying.validate());
}
