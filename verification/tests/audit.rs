use rust_engineering_domain::audit::{AuditFinding, AuditIssue, AuditObservation, AuditPackage, AuditSource, AuditState};
use rust_engineering_domain::evidence::{
    Clock, FreshnessPolicy, FreshnessState, IntegrityStatus, Provenance, SnapshotEvidence,
    SourceKind, UnixSeconds,
};
use rust_engineering_domain::value::{CatalogFingerprint, NonEmptyText, SourceFingerprint};

struct FixedClock(u64);

impl Clock for FixedClock {
    fn now(&self) -> UnixSeconds {
        UnixSeconds(self.0)
    }
}

fn snapshot(kind: SourceKind, integrity: IntegrityStatus, network: bool, created: Option<u64>, now: u64) -> SnapshotEvidence {
    let provenance = Provenance::new(
        kind,
        NonEmptyText::parse("rustsec").unwrap(),
        created.map(UnixSeconds),
        Some(UnixSeconds(now)),
        integrity,
        network,
    )
    .unwrap();
    let policy = FreshnessPolicy::new(NonEmptyText::parse("daily").unwrap(), 86_400, 604_800).unwrap();
    SnapshotEvidence::assess(provenance, policy, &FixedClock(now))
}

fn package(name: &str) -> AuditPackage {
    AuditPackage {
        name: name.into(),
        version: "1.0.0".into(),
        source: AuditSource::CratesIo,
        source_fingerprint: None,
    }
}

fn finding() -> AuditFinding {
    AuditFinding {
        advisory_id: "RUSTSEC-2026-0001".into(),
        url: "https://rustsec.org/advisories/RUSTSEC-2026-0001".into(),
        title: "advisory".into(),
        package: package("affected"),
        patched_requirements: vec![">=1.0.1".into()],
        unaffected_requirements: vec![],
        severity: None,
        informational: None,
        paths: vec![],
        paths_omitted: 0,
    }
}

/// A trusted, fresh snapshot with complete coverage that passed.
fn complete() -> AuditObservation {
    let mut o = AuditObservation::unavailable();
    o.state = AuditState::Passed;
    o.issue = None;
    o.validation_complete = true;
    o.lock_fingerprint = Some(SourceFingerprint::parse(&format!("sha256:{}", "a".repeat(64))).unwrap());
    o.snapshot_fingerprint = Some(CatalogFingerprint::parse(&format!("sha256:{}", "b".repeat(64))).unwrap());
    o.snapshot = Some(snapshot(SourceKind::RustsecSnapshot, IntegrityStatus::Verified, false, Some(1_000), 2_000));
    o.snapshot_record_count = Some(10);
    o.snapshot_sequence = Some(3);
    o.packages_total = 5;
    o.crates_io_scanned = 4;
    o.workspace_packages_excluded = 1;
    o
}

#[test]
fn the_unavailable_observation_claims_nothing() {
    let o = AuditObservation::unavailable();
    assert_eq!(o.state, AuditState::Unavailable);
    assert_eq!(o.issue, Some(AuditIssue::SnapshotUnavailable));
    assert!(!o.validation_complete);
    assert!(o.snapshot.is_none() && o.findings.is_empty());
}

#[test]
fn complete_coverage_of_a_fresh_trusted_snapshot_passes() {
    let mut o = complete();
    o.normalize();
    assert_eq!(o.state, AuditState::Passed);
    assert!(o.validation_complete);
    assert_eq!(o.issue, None);
}

#[test]
fn untrusted_snapshot_data_is_incomplete_not_unavailable() {
    for (kind, integrity, network) in [
        (SourceKind::RegistrySnapshot, IntegrityStatus::Verified, false),
        (SourceKind::RustsecSnapshot, IntegrityStatus::Unverified, false),
        (SourceKind::RustsecSnapshot, IntegrityStatus::Verified, true),
    ] {
        let mut o = complete();
        o.snapshot = Some(snapshot(kind, integrity, network, Some(1_000), 2_000));
        o.normalize();
        assert_eq!(o.state, AuditState::Incomplete);
        assert!(!o.validation_complete);
        assert_eq!(o.issue, None);
    }
}

#[test]
fn missing_stale_or_undatable_snapshots_make_the_audit_unavailable() {
    let mut missing = complete();
    missing.snapshot_fingerprint = None;
    missing.normalize();
    assert_eq!(missing.state, AuditState::Unavailable);
    assert_eq!(missing.issue, Some(AuditIssue::SnapshotUnavailable));

    let mut stale = complete();
    stale.snapshot = Some(snapshot(SourceKind::RustsecSnapshot, IntegrityStatus::Verified, false, Some(1_000), 1_000_000));
    stale.normalize();
    assert_eq!(stale.state, AuditState::Unavailable);
    assert_eq!(stale.issue, Some(AuditIssue::SnapshotStale));
    assert!(!stale.validation_complete);

    let mut undated = complete();
    undated.snapshot = Some(snapshot(SourceKind::RustsecSnapshot, IntegrityStatus::Verified, false, None, 2_000));
    assert_eq!(undated.snapshot.as_ref().unwrap().freshness().state(), FreshnessState::Unknown);
    undated.normalize();
    assert_eq!(undated.issue, Some(AuditIssue::SnapshotUnknownAge));
    assert_eq!(undated.state, AuditState::Unavailable);

    let mut recorded = complete();
    recorded.issue = Some(AuditIssue::SnapshotStale);
    recorded.normalize();
    assert_eq!(recorded.state, AuditState::Unavailable);
    assert_eq!(recorded.issue, Some(AuditIssue::SnapshotStale));
}

#[test]
fn findings_fail_even_when_coverage_is_partial() {
    let mut o = complete();
    o.findings = vec![finding()];
    o.unsupported_packages = vec![package("git-dep")];
    o.packages_total = 6;
    o.normalize();
    assert_eq!(o.state, AuditState::Failed);
    assert!(!o.validation_complete);
}

#[test]
fn an_absence_of_findings_passes_only_with_every_prerequisite() {
    let breakers: &[fn(&mut AuditObservation)] = &[
        |o| o.snapshot_record_count = Some(0),
        |o| o.snapshot_record_count = None,
        |o| o.snapshot_sequence = Some(0),
        |o| o.packages_total = 6,
        |o| o.lock_fingerprint = None,
        |o| o.findings_omitted = 1,
        |o| o.issue = Some(AuditIssue::OutputBudget),
        |o| o.validation_complete = false,
        |o| o.state = AuditState::Incomplete,
        |o| {
            let mut info = finding();
            info.paths_omitted = 2;
            o.informational = vec![info];
        },
        |o| {
            o.unsupported_packages = vec![package("git-dep")];
            o.packages_total = 6;
        },
    ];
    for (index, breaker) in breakers.iter().enumerate() {
        let mut o = complete();
        breaker(&mut o);
        o.normalize();
        assert_eq!(o.state, AuditState::Incomplete, "case {index}");
        assert!(!o.validation_complete, "case {index}");
    }
}
