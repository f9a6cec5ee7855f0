use rust_engineering_domain::security::{
    policy_state, security_source_has_exceptions, source_has_cargo_configuration, DenyOptions,
    DenySelection, FindingDisposition, SecurityBan, SecurityCompleteness, SecurityCounts,
    SecurityEngine, SecurityFinding, SecurityLint, SecurityPackage, SecurityPolicy,
    SecurityPolicyDocument, SecurityPolicyState, SecurityRules, SecuritySeverity, SecuritySource,
    SecuritySuppression, DENY_DEFAULT_TIMEOUT_SECONDS,
};
use rust_engineering_domain::security::{first_covering, is_universal, ComparatorOp, RequirementComparator};
use rust_engineering_domain::value::{SourceBundle, SourceFile, SourceFingerprint};

fn digest() -> SourceFingerprint {
    SourceFingerprint::parse(&format!("sha256:{}", "a".repeat(64))).unwrap()
}

fn document() -> SecurityPolicyDocument {
    SecurityPolicyDocument {
        schema_version: 1,
        rules: SecurityRules {
            allowed_licenses: vec!["MIT".into(), "Apache-2.0".into()],
            banned_packages: vec![],
            multiple_versions: SecurityLint::Deny,
            wildcards: SecurityLint::Deny,
        },
        suppressions: vec![SecuritySuppression {
            id: "approved-temporary-exception".into(),
            engine: SecurityEngine::Rustsec,
            rule: "RUSTSEC-2026-0001".into(),
            package: "affected-crate".into(),
            package_source: SecuritySource::CratesIo,
            version_requirement: ">=1.2.0, <1.3.0".into(),
            reason: "Pending migration with tracked owner".into(),
            owner: "security-team".into(),
            expires_at: 200,
            rules_digest: digest(),
        }],
    }
}

fn policy() -> SecurityPolicy {
    SecurityPolicy::new(document(), digest(), digest(), 100).unwrap()
}

fn package() -> SecurityPackage {
    SecurityPackage {
        name: "affected-crate".into(),
        version: "1.2.5".into(),
        source: SecuritySource::CratesIo,
        source_fingerprint: None,
    }
}

fn finding() -> SecurityFinding {
    SecurityFinding {
        engine: SecurityEngine::Rustsec,
        rule: "RUSTSEC-2026-0001".into(),
        package: Some(package()),
        severity: SecuritySeverity::Error,
        message: "Original advisory remains visible".into(),
        disposition: FindingDisposition::Active,
    }
}

fn bundle(paths: &[&str]) -> SourceBundle {
    let files = paths
        .iter()
        .map(|path| SourceFile::new((*path).into(), b"x".to_vec()).expect("file"))
        .collect::<Vec<_>>();
    SourceBundle::new(files).expect("bundle")
}

#[test]
fn a_project_cargo_configuration_is_detected_wherever_it_sits() {
    for path in [
        ".cargo/config.toml",
        ".cargo/config",
        "crates/inner/.cargo/config.toml",
        "a/b/c/.cargo/config",
    ] {
        assert!(source_has_cargo_configuration(&bundle(&[path])), "missed {path}");
    }
}

#[test]
fn unrelated_files_are_not_mistaken_for_one() {
    for path in [
        "Cargo.toml",
        "config.toml",
        "src/config.toml",
        "cargo/config.toml",
        "docs/.cargo-config.toml",
        ".cargo/audit.toml",
        ".cargo/config.toml.bak",
    ] {
        assert!(!source_has_cargo_configuration(&bundle(&[path])), "false positive on {path}");
    }
}

#[test]
fn a_deny_exceptions_file_is_found_by_its_last_segment() {
    for path in ["deny.exceptions.toml", ".deny.exceptions.toml", "sub/dir/deny.exceptions.toml"] {
        assert!(security_source_has_exceptions(&bundle(&[path])), "missed {path}");
    }
    for path in ["xdeny.exceptions.toml", "deny.exceptions.toml.bak", "deny.toml", "src/lib.rs"] {
        assert!(!security_source_has_exceptions(&bundle(&[path])), "false positive on {path}");
    }
}

#[test]
fn banning_every_version_is_restrictive_but_universal_suppression_is_rejected() {
    let mut doc = document();
    doc.rules.banned_packages.push(SecurityBan {
        name: "affected-crate".into(),
        version_requirement: "*".into(),
    });
    assert!(SecurityPolicy::new(doc.clone(), digest(), digest(), 100).is_ok());
    doc.suppressions[0].version_requirement = "*".into();
    assert!(SecurityPolicy::new(doc, digest(), digest(), 100).is_err());
}

#[test]
fn suppression_matches_every_identity_dimension_and_expires_at_boundary() {
    let policy = policy();
    assert!(policy
        .suppression_for(SecurityEngine::Rustsec, "RUSTSEC-2026-0001", &package(), 199)
        .is_some());
    for now in [200, 201, u64::MAX] {
        assert!(policy.validate_at(now).is_err());
        assert!(policy
            .suppression_for(SecurityEngine::Rustsec, "RUSTSEC-2026-0001", &package(), now)
            .is_none());
    }
    for changed in [
        SecurityPackage { name: "different".into(), ..package() },
        SecurityPackage { version: "1.3.0".into(), ..package() },
        SecurityPackage { version: "1.2.5-alpha.1".into(), ..package() },
        SecurityPackage { version: "invalid".into(), ..package() },
        SecurityPackage { source: SecuritySource::Workspace, ..package() },
        SecurityPackage { source: SecuritySource::Unverified, ..package() },
    ] {
        assert!(policy
            .suppression_for(SecurityEngine::Rustsec, "RUSTSEC-2026-0001", &changed, 100)
            .is_none());
    }
    assert!(policy
        .suppression_for(SecurityEngine::Bans, "RUSTSEC-2026-0001", &package(), 100)
        .is_none());
    assert!(policy
        .suppression_for(SecurityEngine::Rustsec, "RUSTSEC-2026-0002", &package(), 100)
        .is_none());
}

#[test]
fn malformed_global_duplicate_and_expired_policies_are_rejected_before_execution() {
    let mutations: &[fn(&mut SecurityPolicyDocument)] = &[
        |d| d.schema_version = 2,
        |d| d.rules.allowed_licenses.push("MIT".into()),
        |d| d.rules.allowed_licenses = vec!["MIT OR Apache-2.0".into()],
        |d| d.rules.allowed_licenses = vec!["LicenseRef-custom".into()],
        |d| d.suppressions[0].rule = "*".into(),
        |d| d.suppressions[0].rule = "RUSTSEC-XXXX-0001".into(),
        |d| d.suppressions[0].package = "*".into(),
        |d| d.suppressions[0].version_requirement = "*".into(),
        |d| d.suppressions[0].version_requirement = ">=0.0.0".into(),
        |d| d.suppressions[0].version_requirement = "invalid".into(),
        |d| d.suppressions[0].owner = "  ".into(),
        |d| d.suppressions[0].reason = "bad\nreason".into(),
        |d| d.suppressions[0].expires_at = 100,
        |d| d.suppressions[0].package_source = SecuritySource::Unverified,
        |d| {
            d.suppressions[0].rules_digest =
                SourceFingerprint::parse(&format!("sha256:{}", "b".repeat(64))).unwrap()
        },
        |d| d.suppressions.push(d.suppressions[0].clone()),
        |d| {
            let mut duplicate = d.suppressions[0].clone();
            duplicate.id = "other-id".into();
            d.suppressions.push(duplicate);
        },
    ];
    for (index, mutate) in mutations.iter().enumerate() {
        let mut doc = document();
        mutate(&mut doc);
        assert!(SecurityPolicy::new(doc, digest(), digest(), 100).is_err(), "case {index}");
    }
    let mut strict = document();
    strict.rules.allowed_licenses.clear();
    strict.suppressions.clear();
    assert!(SecurityPolicy::new(strict, digest(), digest(), 100).is_ok());
}

#[test]
fn suppressed_findings_preserve_original_and_cannot_repair_incomplete_evidence() {
    let policy = policy();
    let mut row = finding();
    let original = row.clone();
    row.apply_policy(&policy, 100);
    assert!(matches!(row.disposition, FindingDisposition::Suppressed(_)));
    assert_eq!(row.message, original.message);
    assert_eq!(row.severity, original.severity);
    assert_eq!(row.package, original.package);
    assert_eq!(
        policy_state(SecurityCompleteness::Complete, &[row.clone()]),
        SecurityPolicyState::SatisfiedWithSuppressions
    );
    for partial in [
        SecurityCompleteness::Partial,
        SecurityCompleteness::Invalid,
        SecurityCompleteness::Unavailable,
    ] {
        assert_eq!(policy_state(partial, &[row.clone()]), SecurityPolicyState::Undetermined);
        assert_eq!(
            policy_state(partial, std::slice::from_ref(&original)),
            SecurityPolicyState::Violated
        );
    }
    row.apply_policy(&policy, 200);
    assert_eq!(row.disposition, FindingDisposition::Active);
    let mut ambiguous = finding();
    ambiguous.package = None;
    ambiguous.apply_policy(&policy, 100);
    assert_eq!(ambiguous.disposition, FindingDisposition::Active);
}

#[test]
fn the_suppressed_disposition_carries_the_matching_suppression() {
    let policy = policy();
    let mut row = finding();
    row.apply_policy(&policy, 100);
    assert_eq!(row.disposition, FindingDisposition::Suppressed(document().suppressions[0].clone()));
    assert_eq!(policy.rules(), &document().rules);
    assert_eq!(policy.fingerprint(), &digest());
    assert_eq!(policy.rules_digest(), &digest());
}

#[test]
fn clean_findings_under_complete_evidence_satisfy_the_policy() {
    let mut warning = finding();
    warning.severity = SecuritySeverity::Warning;
    assert_eq!(policy_state(SecurityCompleteness::Complete, &[]), SecurityPolicyState::Satisfied);
    assert_eq!(
        policy_state(SecurityCompleteness::Complete, &[warning.clone()]),
        SecurityPolicyState::Satisfied
    );
    assert_eq!(
        policy_state(SecurityCompleteness::Partial, &[warning]),
        SecurityPolicyState::Undetermined
    );
}

#[test]
fn deny_timeout_is_bounded_and_defaults_to_the_ceiling() {
    let default = DenySelection::default();
    assert_eq!(default.timeout_seconds, DENY_DEFAULT_TIMEOUT_SECONDS);
    assert_eq!(DenyOptions::try_from(default).unwrap().timeout_seconds(), 120);
    assert!(DenyOptions::try_from(DenySelection { timeout_seconds: 0 }).is_err());
    assert!(DenyOptions::try_from(DenySelection { timeout_seconds: 121 }).is_err());
    assert_eq!(DenyOptions::try_from(DenySelection { timeout_seconds: 1 }).unwrap().timeout_seconds(), 1);
}

#[test]
fn security_counts_total_every_severity() {
    let counts = SecurityCounts { errors: u32::MAX, warnings: u32::MAX, notes: 1, helps: 2 };
    assert_eq!(counts.total(), 2 * u64::from(u32::MAX) + 3);
}

#[test]
fn the_first_covering_suppression_needs_identity_and_a_matched_version() {
    let mut second = document().suppressions[0].clone();
    second.id = "second".into();
    let mut other = document().suppressions[0].clone();
    other.package = "other-crate".into();
    let ss = vec![other, document().suppressions[0].clone(), second];
    let p = package();
    assert_eq!(first_covering(&ss, &vec![true, true, true], SecurityEngine::Rustsec, "RUSTSEC-2026-0001", &p), Some(1));
    assert_eq!(first_covering(&ss, &vec![true, false, true], SecurityEngine::Rustsec, "RUSTSEC-2026-0001", &p), Some(2));
    assert_eq!(first_covering(&ss, &vec![true, false], SecurityEngine::Rustsec, "RUSTSEC-2026-0001", &p), None);
    assert_eq!(first_covering(&ss, &vec![true, true, true], SecurityEngine::Bans, "RUSTSEC-2026-0001", &p), None);
    assert_eq!(first_covering(&ss, &vec![true, true, true], SecurityEngine::Rustsec, "RUSTSEC-2026-0002", &p), None);
}

#[test]
fn only_a_requirement_of_nothing_is_universal() {
    let floor = |op, major, minor, patch, pre: &str| RequirementComparator { op, major, minor, patch, pre: pre.into() };
    assert!(is_universal(&vec![]));
    assert!(is_universal(&vec![floor(ComparatorOp::GreaterEq, 0, None, None, "")]));
    assert!(is_universal(&vec![floor(ComparatorOp::GreaterEq, 0, Some(0), Some(0), "")]));
    assert!(!is_universal(&vec![floor(ComparatorOp::GreaterEq, 0, Some(1), None, "")]));
    assert!(!is_universal(&vec![floor(ComparatorOp::GreaterEq, 0, None, None, "alpha")]));
    assert!(!is_universal(&vec![floor(ComparatorOp::GreaterEq, 0, None, None, ""), floor(ComparatorOp::Less, 2, None, None, "")]));
}
