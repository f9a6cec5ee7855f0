use rust_engineering_domain::check::InvalidCheckOptions;
use rust_engineering_domain::nextest::{
    NextestCommandOptions, NextestExit, NextestOutcomeCounts, NextestSelection,
    NextestTestOutcome, NextestTestRow, MAX_NEXTEST_NAME, NEXTEST_MAX_TIMEOUT_SECONDS,
};

#[test]
fn bounded_filter_timeout_and_retries_reject_injection_and_out_of_range() {
    for filter in ["", "--ignored", "a b", "a\nb", "$(id)", "a;b", "é", ":case", "a-b"] {
        assert_eq!(
            NextestCommandOptions::try_from(NextestSelection {
                test_filter: Some(filter.into()),
                ..Default::default()
            }),
            Err(InvalidCheckOptions),
            "{filter:?}"
        );
    }
    for timeout in [0, NEXTEST_MAX_TIMEOUT_SECONDS + 1, u64::MAX] {
        assert!(NextestCommandOptions::try_from(NextestSelection {
            timeout,
            ..Default::default()
        })
        .is_err());
    }
    for retries in [3, u8::MAX] {
        assert!(NextestCommandOptions::try_from(NextestSelection {
            retries,
            ..Default::default()
        })
        .is_err());
    }
    for retries in [0, 1, 2] {
        let options = NextestCommandOptions::try_from(NextestSelection {
            retries,
            ..Default::default()
        })
        .unwrap();
        assert_eq!(options.retries(), retries);
    }
    assert_eq!(
        NextestCommandOptions::try_from(NextestSelection::default())
            .unwrap()
            .timeout(),
        30
    );
}

#[test]
fn closed_selection_preserves_features_and_only_installed_target() {
    for selection in [
        NextestSelection {
            features: vec!["std".into()],
            all_features: true,
            ..Default::default()
        },
        NextestSelection {
            package: Some("--workspace".into()),
            ..Default::default()
        },
        NextestSelection {
            target: Some("x86_64-unknown-linux-gnu".into()),
            ..Default::default()
        },
    ] {
        assert!(NextestCommandOptions::try_from(selection).is_err());
    }
    let options = NextestCommandOptions::try_from(NextestSelection {
        package: Some("member".into()),
        features: vec!["std".into(), "member/extra".into()],
        no_default_features: true,
        target: Some("aarch64-unknown-linux-gnu".into()),
        ..Default::default()
    })
    .unwrap();
    assert_eq!(options.package(), Some("member"));
    assert_eq!(options.features(), &["member/extra", "std"]);
    assert!(options.no_default_features());
    assert_eq!(options.target(), Some("aarch64-unknown-linux-gnu"));
}

#[test]
fn outcome_counts_total_and_bounded_row_construction() {
    let counts = NextestOutcomeCounts {
        passed: 2,
        failed: 1,
        skipped: 1,
        retried: 4,
        flaky: 1,
        leaky: 1,
        timed_out: 1,
    };
    assert_eq!(counts.total(), 7);
    assert!(
        NextestTestRow::new(String::new(), String::new(), NextestTestOutcome::Passed, 0).is_err()
    );
    assert!(NextestTestRow::new(
        "a".repeat(MAX_NEXTEST_NAME + 1),
        String::new(),
        NextestTestOutcome::Passed,
        0
    )
    .is_err());
    let row = NextestTestRow::new(
        "case".into(),
        "pkg::mod".into(),
        NextestTestOutcome::Flaky,
        42,
    )
    .unwrap();
    assert_eq!(row.name(), "case");
    assert_eq!(row.classname(), "pkg::mod");
    assert_eq!(row.outcome(), NextestTestOutcome::Flaky);
    assert_eq!(row.time_ms(), 42);
}

#[test]
fn exit_classification_matches_docker_calibration() {
    assert_eq!(NextestExit::classify(0), NextestExit::Success);
    assert_eq!(NextestExit::classify(4), NextestExit::NoTests);
    assert_eq!(NextestExit::classify(100), NextestExit::TestFailure);
    assert_eq!(NextestExit::classify(101), NextestExit::RunnerFailure);
    for other in [1, 2, 99, 102, 103, 104, 105, -1, i32::MAX, i32::MIN] {
        assert_eq!(
            NextestExit::classify(other),
            NextestExit::Uncalibrated,
            "{other}"
        );
    }
    assert!(NextestExit::CALIBRATED);
}

#[test]
fn row_names_are_bounded_in_bytes_and_attempts_are_positive() {
    let name = "é".repeat(256);
    assert!(NextestTestRow::new(name, String::new(), NextestTestOutcome::Passed, 0).is_ok());
    let name = "é".repeat(257);
    assert!(NextestTestRow::new(name, String::new(), NextestTestOutcome::Passed, 0).is_err());
    assert!(NextestTestRow::new_with_attempts(
        "a".into(),
        String::new(),
        NextestTestOutcome::Passed,
        0,
        0
    )
    .is_err());
    let row = NextestTestRow::new_with_attempts(
        "a".into(),
        "c".into(),
        NextestTestOutcome::Failed,
        3,
        9,
    )
    .unwrap();
    assert_eq!(row.attempts(), 3);
    assert_eq!(
        NextestCommandOptions::try_from(NextestSelection {
            test_filter: Some("module::case_1".into()),
            ..Default::default()
        })
        .unwrap()
        .test_filter(),
        Some("module::case_1")
    );
}
