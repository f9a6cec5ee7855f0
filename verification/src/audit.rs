//! Bounded facts about a captured lockfile and an advisory snapshot, and the
//! conservative normalization of what an audit may claim from them.
use vstd::prelude::*;
use crate::evidence::{FreshnessState, IntegrityStatus, SnapshotEvidence, SourceKind};
use crate::inspection::{InspectionSemantics, RuntimeIdentity};
use crate::value::{
    CatalogFingerprint, ProjectIdentityFingerprint, ProjectRef, SourceFingerprint,
};

verus! {

#[derive(Clone, Copy, Debug, PartialEq, Eq, Structural)]
pub enum AuditDataError {
    Unavailable,
    InvalidSnapshot,
    Integrity,
    MissingLockfile,
    InvalidLockfile,
    Budget,
    Cancelled,
    Timeout,
    SandboxDenied,
    UnsupportedPlatform,
    Internal,
}

#[derive(Clone, Copy, Debug, PartialEq, Eq, Structural)]
pub enum AuditState {
    Passed,
    Failed,
    Incomplete,
    Unavailable,
}

#[derive(Clone, Copy, Debug, PartialEq, Eq, Structural)]
pub enum AuditIssue {
    SnapshotUnavailable,
    SnapshotStale,
    SnapshotUnknownAge,
    UnsupportedSources,
    OutputBudget,
}

#[derive(Clone, Copy, Debug, PartialEq, Eq, Structural)]
pub enum AuditSource {
    CratesIo,
    Workspace,
    Unverified,
}

#[derive(Clone, Debug, PartialEq, Eq)]
pub struct AuditPackage {
    pub name: String,
    pub version: String,
    pub source: AuditSource,
    pub source_fingerprint: Option<SourceFingerprint>,
}

/// Advisory severity; `Unrated` is the advisory's own "none" rating.
#[derive(Clone, Copy, Debug, PartialEq, Eq, Structural)]
pub enum AuditSeverity {
    Unrated,
    Low,
    Medium,
    High,
    Critical,
}

#[derive(Clone, Debug)]
pub struct AuditPath {
    pub workspace_root: AuditPackage,
    /// Includes the workspace root and the affected package: one captured lock path.
    pub packages: Vec<AuditPackage>,
}

#[derive(Clone, Debug)]
pub struct AuditFinding {
    pub advisory_id: String,
    pub url: String,
    pub title: String,
    pub package: AuditPackage,
    pub patched_requirements: Vec<String>,
    pub unaffected_requirements: Vec<String>,
    pub severity: Option<AuditSeverity>,
    pub informational: Option<String>,
    pub paths: Vec<AuditPath>,
    pub paths_omitted: u64,
}

#[derive(Clone, Debug)]
pub struct AuditObservation {
    pub state: AuditState,
    pub issue: Option<AuditIssue>,
    pub validation_complete: bool,
    pub lock_fingerprint: Option<SourceFingerprint>,
    pub snapshot_fingerprint: Option<CatalogFingerprint>,
    pub snapshot: Option<SnapshotEvidence>,
    pub snapshot_record_count: Option<u32>,
    pub snapshot_sequence: Option<u64>,
    pub packages_total: u32,
    pub crates_io_scanned: u32,
    pub workspace_packages_excluded: u32,
    pub unsupported_packages: Vec<AuditPackage>,
    pub findings: Vec<AuditFinding>,
    pub informational: Vec<AuditFinding>,
    pub findings_omitted: u64,
}

#[derive(Clone, Debug)]
pub struct ProjectAudit {
    pub project_ref: ProjectRef,
    pub project_identity_fingerprint: ProjectIdentityFingerprint,
    pub semantics: InspectionSemantics,
    pub source_fingerprint: SourceFingerprint,
    pub runtime: RuntimeIdentity,
    pub observation: AuditObservation,
    pub evidence: SnapshotEvidence,
}

/// A snapshot is present but is not verified, network-free RustSec data:
/// invalid integrity, which is not missing data.
pub open spec fn snapshot_untrusted(o: AuditObservation) -> bool {
    o.snapshot matches Some(s) && (s.provenance_spec().source_kind_spec() != SourceKind::RustsecSnapshot
        || s.provenance_spec().integrity_spec() != IntegrityStatus::Verified
        || s.provenance_spec().network_used_spec())
}

/// The age of the snapshot cannot be known: no creation time, no observation
/// time, observed after the assessment, or a state that carries no age.
pub open spec fn age_unknown(s: SnapshotEvidence) -> bool {
    ||| s.provenance_spec().created_at_spec() is None
    ||| (match s.provenance_spec().observed_at_spec() {
        Some(t) => t.0 > s.freshness_spec().assessed_at_spec().0,
        None => true,
    })
    ||| s.freshness_spec().state_spec() == FreshnessState::Unknown
    ||| s.freshness_spec().state_spec() == FreshnessState::Live
}

/// The snapshot issue the evidence itself shows, if any.
pub open spec fn evidence_issue(o: AuditObservation) -> Option<AuditIssue> {
    if o.snapshot is None || o.snapshot_fingerprint is None {
        Some(AuditIssue::SnapshotUnavailable)
    } else if age_unknown(o.snapshot->0) {
        Some(AuditIssue::SnapshotUnknownAge)
    } else if o.snapshot->0.freshness_spec().state_spec() != FreshnessState::Fresh {
        Some(AuditIssue::SnapshotStale)
    } else {
        None
    }
}

pub open spec fn is_snapshot_issue(i: AuditIssue) -> bool {
    i == AuditIssue::SnapshotUnavailable || i == AuditIssue::SnapshotStale || i
        == AuditIssue::SnapshotUnknownAge
}

/// The snapshot issue that makes the audit unavailable: the evidence's own,
/// else a snapshot issue already recorded.
pub open spec fn unavailable_issue(o: AuditObservation) -> Option<AuditIssue> {
    match evidence_issue(o) {
        Some(i) => Some(i),
        None => match o.issue {
            Some(i) => if is_snapshot_issue(i) {
                Some(i)
            } else {
                None
            },
            None => None,
        },
    }
}

/// Every finding of `fs` lists all of its paths.
pub open spec fn all_paths_kept(fs: Seq<AuditFinding>) -> bool {
    forall|i: int| 0 <= i < fs.len() ==> (#[trigger] fs[i]).paths_omitted == 0
}

/// Every independent prerequisite of complete coverage holds.
pub open spec fn coverage_complete(o: AuditObservation) -> bool {
    &&& o.validation_complete
    &&& (o.snapshot_record_count matches Some(c) && c > 0)
    &&& (o.snapshot_sequence matches Some(q) && q > 0)
    &&& o.crates_io_scanned + o.workspace_packages_excluded + o.unsupported_packages@.len()
        == o.packages_total
    &&& o.lock_fingerprint is Some
    &&& o.unsupported_packages@.len() == 0
    &&& o.findings_omitted == 0
    &&& all_paths_kept(o.findings@)
    &&& all_paths_kept(o.informational@)
    &&& o.issue is None
}

/// The state after normalization.
pub open spec fn normalized_state(o: AuditObservation) -> AuditState {
    if snapshot_untrusted(o) {
        AuditState::Incomplete
    } else if unavailable_issue(o) is Some {
        AuditState::Unavailable
    } else if o.findings@.len() > 0 {
        AuditState::Failed
    } else if o.state != AuditState::Passed || !coverage_complete(o) {
        AuditState::Incomplete
    } else {
        o.state
    }
}

/// Whether validation is complete after normalization: an audit without
/// findings that was not already passing is never complete.
pub open spec fn normalized_complete(o: AuditObservation) -> bool {
    &&& !snapshot_untrusted(o)
    &&& unavailable_issue(o) is None
    &&& coverage_complete(o)
    &&& (o.findings@.len() > 0 || o.state == AuditState::Passed)
}

/// The issue after normalization.
pub open spec fn normalized_issue(o: AuditObservation) -> Option<AuditIssue> {
    if !snapshot_untrusted(o) && unavailable_issue(o) is Some {
        unavailable_issue(o)
    } else {
        o.issue
    }
}

/// `after` is `before` normalized: only `state`, `validation_complete` and
/// `issue` differ.
pub open spec fn normalizes_to(before: AuditObservation, after: AuditObservation) -> bool {
    &&& after.state == normalized_state(before)
    &&& after.validation_complete == normalized_complete(before)
    &&& after.issue == normalized_issue(before)
    &&& after.lock_fingerprint == before.lock_fingerprint
    &&& after.snapshot_fingerprint == before.snapshot_fingerprint
    &&& after.snapshot == before.snapshot
    &&& after.snapshot_record_count == before.snapshot_record_count
    &&& after.snapshot_sequence == before.snapshot_sequence
    &&& after.packages_total == before.packages_total
    &&& after.crates_io_scanned == before.crates_io_scanned
    &&& after.workspace_packages_excluded == before.workspace_packages_excluded
    &&& after.unsupported_packages@ == before.unsupported_packages@
    &&& after.findings@ == before.findings@
    &&& after.informational@ == before.informational@
    &&& after.findings_omitted == before.findings_omitted
}

fn paths_kept(fs: &Vec<AuditFinding>) -> (res: bool)
    ensures
        res == all_paths_kept(fs@),
{
    let mut i: usize = 0;
    while i < fs.len()
        invariant
            i <= fs@.len(),
            forall|k: int| 0 <= k < i ==> (#[trigger] fs@[k]).paths_omitted == 0,
        decreases fs.len() - i,
    {
        if fs[i].paths_omitted != 0 {
            return false;
        }
        i = i + 1;
    }
    true
}

impl AuditObservation {
    /// The observation of an audit that had no snapshot at all.
    pub fn unavailable() -> (res: Self)
        ensures
            res.state == AuditState::Unavailable,
            res.issue == Some(AuditIssue::SnapshotUnavailable),
            !res.validation_complete,
            res.lock_fingerprint is None,
            res.snapshot_fingerprint is None,
            res.snapshot is None,
            res.snapshot_record_count is None,
            res.snapshot_sequence is None,
            res.packages_total == 0,
            res.crates_io_scanned == 0,
            res.workspace_packages_excluded == 0,
            res.unsupported_packages@.len() == 0,
            res.findings@.len() == 0,
            res.informational@.len() == 0,
            res.findings_omitted == 0,
    {
        AuditObservation {
            state: AuditState::Unavailable,
            issue: Some(AuditIssue::SnapshotUnavailable),
            validation_complete: false,
            lock_fingerprint: None,
            snapshot_fingerprint: None,
            snapshot: None,
            snapshot_record_count: None,
            snapshot_sequence: None,
            packages_total: 0,
            crates_io_scanned: 0,
            workspace_packages_excluded: 0,
            unsupported_packages: Vec::new(),
            findings: Vec::new(),
            informational: Vec::new(),
            findings_omitted: 0,
        }
    }

    /// Conservative coverage and freshness normalization. Untrusted snapshot
    /// data makes the audit incomplete; a missing, stale or undatable snapshot
    /// makes it unavailable; fresh findings stay failures even under partial
    /// coverage; and an absence of findings passes only when every
    /// prerequisite of complete coverage holds. Only `state`,
    /// `validation_complete` and `issue` change.
    pub fn normalize(&mut self)
        ensures
            normalizes_to(*old(self), *final(self)),
    {
        let ghost o = *self;
        let untrusted = match &self.snapshot {
            Some(s) => {
                let p = s.provenance();
                p.source_kind() != SourceKind::RustsecSnapshot || p.integrity()
                    != IntegrityStatus::Verified || p.network_used()
            },
            None => false,
        };
        if untrusted {
            self.validation_complete = false;
            self.state = AuditState::Incomplete;
            return;
        }
        let evidence_issue: Option<AuditIssue> = match (&self.snapshot, &self.snapshot_fingerprint) {
            (Some(s), Some(_)) => {
                let p = s.provenance();
                let f = s.freshness();
                let observed_late = match p.observed_at() {
                    Some(t) => t.0 > f.assessed_at().0,
                    None => true,
                };
                let state = f.state();
                if p.created_at().is_none() || observed_late || state == FreshnessState::Unknown
                    || state == FreshnessState::Live {
                    Some(AuditIssue::SnapshotUnknownAge)
                } else if state != FreshnessState::Fresh {
                    Some(AuditIssue::SnapshotStale)
                } else {
                    None
                }
            },
            _ => Some(AuditIssue::SnapshotUnavailable),
        };
        let chosen = match evidence_issue {
            Some(i) => Some(i),
            None => match self.issue {
                Some(i) => if i == AuditIssue::SnapshotUnavailable || i == AuditIssue::SnapshotStale
                    || i == AuditIssue::SnapshotUnknownAge {
                    Some(i)
                } else {
                    None
                },
                None => None,
            },
        };
        assert(evidence_issue == crate::audit::evidence_issue(o));
        if let Some(issue) = chosen {
            self.validation_complete = false;
            self.state = AuditState::Unavailable;
            self.issue = Some(issue);
            return;
        }
        let counted = self.crates_io_scanned as u64 + self.workspace_packages_excluded as u64;
        let total = self.packages_total as u64;
        let sums_up = counted <= total && self.unsupported_packages.len() as u64 == total - counted;
        let complete = self.validation_complete && match self.snapshot_record_count {
            Some(c) => c > 0,
            None => false,
        } && match self.snapshot_sequence {
            Some(q) => q > 0,
            None => false,
        } && sums_up && self.lock_fingerprint.is_some() && self.unsupported_packages.len() == 0
            && self.findings_omitted == 0 && paths_kept(&self.findings) && paths_kept(
            &self.informational,
        ) && self.issue.is_none();
        assert(complete == coverage_complete(o));
        self.validation_complete = complete;
        if self.findings.len() > 0 {
            self.state = AuditState::Failed;
        } else if self.state != AuditState::Passed || !complete {
            self.validation_complete = false;
            self.state = AuditState::Incomplete;
        }
    }
}

/// Known findings are never reported as anything softer than a failure once
/// the snapshot is trusted and available, however partial the coverage.
pub proof fn law_fresh_findings_always_fail(o: AuditObservation)
    requires
        !snapshot_untrusted(o),
        unavailable_issue(o) is None,
        o.findings@.len() > 0,
    ensures
        normalized_state(o) == AuditState::Failed,
{
}

/// A normalized pass always carries complete validation.
pub proof fn law_pass_implies_complete_validation(o: AuditObservation)
    requires
        normalized_state(o) == AuditState::Passed,
    ensures
        normalized_complete(o),
        o.findings@.len() == 0,
{
}

} // verus!
