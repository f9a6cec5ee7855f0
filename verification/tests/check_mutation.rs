use rust_engineering_domain::check::{CheckOptions, CheckSelection, InvalidCheckOptions};
use rust_engineering_domain::mutation_test::{
    MutationCounts, MutationExit, MutationMutantRow, MutationOutcomeClass,
    MutationTestCommandOptions, MutationTestSelection, MUTATION_DEFAULT_MAX_MUTANTS,
    MUTATION_DEFAULT_MUTANT_TIMEOUT_SECONDS, MUTATION_MAX_BUILD_TIMEOUT_SECONDS,
    MUTATION_MAX_MUTANTS, MUTATION_MAX_MUTANT_TIMEOUT_SECONDS, MUTATION_MAX_ROW_NAME,
    MUTATION_MIN_BUILD_TIMEOUT_SECONDS,
};

#[test]
fn rejects_contradictions_duplicates_options_and_unsupported_targets() {
    assert!(CheckOptions::try_from(CheckSelection::default()).is_ok());
    let mut bad = vec![
        CheckSelection {
            package: Some("--manifest-path=/tmp/x".into()),
            ..Default::default()
        },
        CheckSelection {
            package: Some("member".into()),
            workspace: true,
            ..Default::default()
        },
        CheckSelection {
            features: vec!["a".into()],
            all_features: true,
            ..Default::default()
        },
        CheckSelection {
            features: vec!["a".into(), "a".into()],
            ..Default::default()
        },
        CheckSelection {
            features: vec!["a".into(); 33],
            ..Default::default()
        },
        CheckSelection {
            target: Some("x86_64-unknown-linux-gnu".into()),
            ..Default::default()
        },
    ];
    for name in ["", "-a", "a,b", "a b", "a/../b", "a//b", "a\nb", "$(echo x)"] {
        bad.push(CheckSelection {
            features: vec![name.into()],
            ..Default::default()
        });
    }
    for value in bad {
        assert_eq!(CheckOptions::try_from(value), Err(InvalidCheckOptions));
    }
    let valid = CheckOptions::try_from(CheckSelection {
        features: vec!["serde/derive".into(), "std".into()],
        ..Default::default()
    });
    assert!(valid.is_ok());
}

#[test]
fn check_options_sort_features_and_keep_flags() {
    let options = CheckOptions::try_from(CheckSelection {
        package: Some("member".into()),
        features: vec!["zeta".into(), "alpha/beta".into(), "Alpha".into()],
        no_default_features: true,
        all_targets: true,
        target: Some("aarch64-unknown-linux-gnu".into()),
        ..Default::default()
    })
    .unwrap();
    assert_eq!(options.features(), &["Alpha", "alpha/beta", "zeta"]);
    assert_eq!(options.package(), Some("member"));
    assert!(!options.workspace());
    assert!(options.no_default_features());
    assert!(options.all_targets());
    assert!(!options.all_features());
    assert_eq!(options.target(), Some("aarch64-unknown-linux-gnu"));
    assert!(CheckOptions::try_from(CheckSelection {
        features: vec!["a/b/c".into()],
        ..Default::default()
    })
    .is_err());
    assert!(CheckOptions::try_from(CheckSelection {
        features: vec!["a/-b".into()],
        ..Default::default()
    })
    .is_err());
}

#[test]
fn budgets_and_selection_reject_out_of_range_and_open_arguments() {
    for max_mutants in [0, MUTATION_MAX_MUTANTS + 1, u32::MAX] {
        assert!(
            MutationTestCommandOptions::try_from(MutationTestSelection {
                max_mutants,
                ..Default::default()
            })
            .is_err(),
            "{max_mutants}"
        );
    }
    for mutant_timeout_seconds in [0, MUTATION_MAX_MUTANT_TIMEOUT_SECONDS + 1, u64::MAX] {
        assert!(
            MutationTestCommandOptions::try_from(MutationTestSelection {
                mutant_timeout_seconds,
                ..Default::default()
            })
            .is_err(),
            "{mutant_timeout_seconds}"
        );
    }
    for selection in [
        MutationTestSelection {
            package: Some("--workspace".into()),
            ..Default::default()
        },
        MutationTestSelection {
            features: vec!["std".into()],
            all_features: true,
            ..Default::default()
        },
        MutationTestSelection {
            target: Some("x86_64-unknown-linux-gnu".into()),
            ..Default::default()
        },
    ] {
        assert!(MutationTestCommandOptions::try_from(selection).is_err());
    }
}

#[test]
fn defaults_and_derived_build_timeout_are_closed() {
    let options = MutationTestCommandOptions::try_from(MutationTestSelection::default()).unwrap();
    assert_eq!(options.max_mutants(), MUTATION_DEFAULT_MAX_MUTANTS);
    assert_eq!(
        options.mutant_timeout_seconds(),
        MUTATION_DEFAULT_MUTANT_TIMEOUT_SECONDS
    );
    assert_eq!(options.build_timeout_seconds(), 300);
    for (timeout, expected) in [(1, 60), (12, 60), (13, 65), (60, 300)] {
        let options = MutationTestCommandOptions::try_from(MutationTestSelection {
            mutant_timeout_seconds: timeout,
            ..Default::default()
        })
        .unwrap();
        assert_eq!(options.build_timeout_seconds(), expected, "{timeout}");
        assert!((MUTATION_MIN_BUILD_TIMEOUT_SECONDS..=MUTATION_MAX_BUILD_TIMEOUT_SECONDS)
            .contains(&options.build_timeout_seconds()));
    }
    let selected = MutationTestCommandOptions::try_from(MutationTestSelection {
        package: Some("member".into()),
        features: vec!["std".into(), "member/extra".into()],
        all_features: false,
        no_default_features: true,
        target: Some("aarch64-unknown-linux-gnu".into()),
        max_mutants: 7,
        mutant_timeout_seconds: 5,
    })
    .unwrap();
    assert_eq!(selected.package(), Some("member"));
    assert_eq!(selected.features(), &["member/extra", "std"]);
    assert!(selected.no_default_features());
    assert_eq!(selected.target(), Some("aarch64-unknown-linux-gnu"));
    assert_eq!(selected.max_mutants(), 7);
}

#[test]
fn outcome_vocabulary_is_closed_and_only_caught_credits_clean() {
    for (text, class) in [
        ("CaughtMutant", MutationOutcomeClass::Caught),
        ("MissedMutant", MutationOutcomeClass::Missed),
        ("Timeout", MutationOutcomeClass::Timeout),
        ("Unviable", MutationOutcomeClass::Unviable),
        ("Success", MutationOutcomeClass::Success),
        ("Failure", MutationOutcomeClass::Failure),
    ] {
        assert_eq!(MutationOutcomeClass::parse(text), Some(class));
        assert_eq!(class.credits_clean(), class == MutationOutcomeClass::Caught);
    }
    for text in [
        "caught",
        "caughtmutant",
        "CAUGHTMUTANT",
        "Caught",
        "CaughtMutant ",
        "",
        "Killed",
    ] {
        assert_eq!(MutationOutcomeClass::parse(text), None, "{text}");
    }
}

#[test]
fn counts_expose_denominators_and_never_call_an_incomplete_set_clean() {
    let clean = MutationCounts {
        generated: 4,
        tested: 4,
        caught: 4,
        ..Default::default()
    };
    assert!(clean.consistent());
    assert_eq!(clean.viable(), 4);
    assert!(clean.clean());
    for counts in [
        MutationCounts {
            generated: 4,
            tested: 4,
            caught: 3,
            missed: 1,
            ..Default::default()
        },
        MutationCounts {
            generated: 4,
            tested: 4,
            caught: 3,
            timeout: 1,
            ..Default::default()
        },
        MutationCounts {
            generated: 4,
            tested: 4,
            caught: 3,
            unviable: 1,
            ..Default::default()
        },
        MutationCounts {
            generated: 4,
            tested: 4,
            caught: 3,
            other: 1,
            ..Default::default()
        },
        MutationCounts {
            generated: 4,
            tested: 3,
            caught: 3,
            ..Default::default()
        },
        MutationCounts::default(),
        MutationCounts {
            generated: 2,
            tested: 2,
            unviable: 2,
            ..Default::default()
        },
    ] {
        assert!(!counts.clean(), "{counts:?}");
    }
    let inconsistent = MutationCounts {
        generated: 4,
        tested: 4,
        caught: 2,
        ..Default::default()
    };
    assert!(!inconsistent.consistent());
    assert!(!inconsistent.clean());
    let overrun = MutationCounts {
        generated: 1,
        tested: 2,
        caught: 2,
        ..Default::default()
    };
    assert!(!overrun.consistent());
}

#[test]
fn mutant_rows_are_bounded_printable_ascii() {
    assert!(MutationMutantRow::new(
        "src/lib.rs:12:5: replace unchecked_value -> u8 with 0".into(),
        MutationOutcomeClass::Missed,
    )
    .is_ok());
    for name in [
        String::new(),
        "a".repeat(MUTATION_MAX_ROW_NAME + 1),
        "line\nbreak".into(),
        "bell\u{7}".into(),
        "delete\u{7f}".into(),
        "unicode é".into(),
    ] {
        assert!(
            MutationMutantRow::new(name.clone(), MutationOutcomeClass::Caught).is_err(),
            "{name:?}"
        );
    }
}

#[test]
fn exit_classification_matches_calibrated_guest_observations() {
    assert_eq!(MutationExit::classify(0), MutationExit::Success);
    assert_eq!(MutationExit::classify(1), MutationExit::Usage);
    assert_eq!(MutationExit::classify(2), MutationExit::Missed);
    assert_eq!(MutationExit::classify(3), MutationExit::Timeout);
    assert_eq!(MutationExit::classify(4), MutationExit::BaselineFailed);
    assert_eq!(MutationExit::classify(5), MutationExit::Diff);
    assert_eq!(MutationExit::classify(6), MutationExit::Diff);
    assert_eq!(MutationExit::classify(70), MutationExit::Internal);
    for other in [7, 69, 71, 100, 101, -1, i32::MAX, i32::MIN] {
        assert_eq!(
            MutationExit::classify(other),
            MutationExit::Uncalibrated,
            "{other}"
        );
    }
    assert!(MutationExit::CALIBRATED);
}
