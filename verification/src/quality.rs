//! Closed profiles and per-stage facts for one captured quality gate. A stage's
//! status is re-derived from its facts; a passed label alone is never trusted.
use vstd::prelude::*;
use crate::artifact::ArtifactMetadata;
use crate::audit::{
    law_pass_implies_complete_validation, normalized_state, normalizes_to, AuditDataError, AuditObservation,
    AuditState,
};
use crate::check::{CheckObservation, CheckOutcome};
use crate::evidence::Evidence;
use crate::execution::ExecutionTermination;
use crate::format::FormatObservation;
use crate::inspection::{InspectionSemantics, RuntimeIdentity};
use crate::result::{code_status, OperationalErrorCode, ToolStatus};
use crate::test_run::TestObservation;
use crate::text::str_eq;
use crate::value::{ProjectIdentityFingerprint, ProjectRef, SourceFingerprint};

verus! {

#[derive(Clone, Copy, Debug, PartialEq, Eq, Structural)]
pub enum QualityProfile {
    Fast,
    Standard,
}

#[derive(Clone, Copy, Debug, PartialEq, Eq, Structural)]
pub enum QualityStage {
    Format,
    Check,
    Clippy,
    Test,
    Audit,
}

/// The stages of a profile, in the order they run.
pub open spec fn profile_stages(p: QualityProfile) -> Seq<QualityStage> {
    match p {
        QualityProfile::Fast => seq![QualityStage::Format, QualityStage::Check, QualityStage::Clippy],
        QualityProfile::Standard => seq![
            QualityStage::Format,
            QualityStage::Check,
            QualityStage::Clippy,
            QualityStage::Test,
            QualityStage::Audit,
        ],
    }
}

impl QualityProfile {
    pub fn stages(self) -> (res: Vec<QualityStage>)
        ensures
            res@ == profile_stages(self),
    {
        match self {
            QualityProfile::Fast => vec![QualityStage::Format, QualityStage::Check, QualityStage::Clippy],
            QualityProfile::Standard => vec![
                QualityStage::Format,
                QualityStage::Check,
                QualityStage::Clippy,
                QualityStage::Test,
                QualityStage::Audit,
            ],
        }
    }
}

#[derive(Clone, Copy, Debug, PartialEq, Eq, Structural)]
pub enum QualityIssue {
    Operational(OperationalErrorCode),
    Audit(AuditDataError),
    Incomplete,
}

/// The status an issue reports.
pub open spec fn issue_status(i: QualityIssue) -> ToolStatus {
    match i {
        QualityIssue::Operational(code) => code_status(code),
        QualityIssue::Audit(AuditDataError::Unavailable) => ToolStatus::Unavailable,
        QualityIssue::Audit(AuditDataError::Cancelled) => ToolStatus::Cancelled,
        _ => ToolStatus::Blocked,
    }
}

impl QualityIssue {
    pub fn status(self) -> (res: ToolStatus)
        ensures
            res == issue_status(self),
    {
        match self {
            QualityIssue::Operational(code) => code.status(),
            QualityIssue::Audit(AuditDataError::Unavailable) => ToolStatus::Unavailable,
            QualityIssue::Audit(AuditDataError::Cancelled) => ToolStatus::Cancelled,
            _ => ToolStatus::Blocked,
        }
    }
}

#[derive(Clone, Debug)]
pub enum QualityObservation {
    Format(FormatObservation),
    Check(CheckObservation),
    Clippy(CheckObservation),
    Test(TestObservation),
    Audit { runtime: RuntimeIdentity, observation: AuditObservation },
}

pub open spec fn opt_str_eq(a: Option<String>, b: Option<String>) -> bool {
    match (a, b) {
        (Some(x), Some(y)) => x@ == y@,
        (None, None) => true,
        _ => false,
    }
}

/// Two runtimes agree on everything but the per-command execution fingerprint.
pub open spec fn runtimes_agree(e: RuntimeIdentity, a: RuntimeIdentity) -> bool {
    &&& e.platform@ == a.platform@
    &&& e.image_id@ == a.image_id@
    &&& e.configuration_fingerprint@ == a.configuration_fingerprint@
    &&& e.rust_version@ == a.rust_version@
    &&& e.cargo_version@ == a.cargo_version@
    &&& opt_str_eq(e.declared_toolchain, a.declared_toolchain)
}

/// Commands have different execution fingerprints; only their runtime
/// configuration must agree for a combined result.
pub fn quality_runtime_matches(expected: &RuntimeIdentity, actual: &RuntimeIdentity) -> (res: bool)
    ensures
        res == runtimes_agree(*expected, *actual),
{
    let toolchain_agrees = match (&expected.declared_toolchain, &actual.declared_toolchain) {
        (Some(x), Some(y)) => str_eq(x.as_str(), y.as_str()),
        (None, None) => true,
        _ => false,
    };
    expected.platform == actual.platform && expected.image_id == actual.image_id
        && expected.configuration_fingerprint.same_as(&actual.configuration_fingerprint)
        && expected.rust_version == actual.rust_version && expected.cargo_version
        == actual.cargo_version && toolchain_agrees
}

/// The runtime a stage observation ran under.
pub open spec fn runtime_of(o: QualityObservation) -> RuntimeIdentity {
    match o {
        QualityObservation::Format(f) => f.execution.runtime,
        QualityObservation::Check(c) => c.runtime,
        QualityObservation::Clippy(c) => c.runtime,
        QualityObservation::Test(t) => t.execution.runtime,
        QualityObservation::Audit { runtime, .. } => runtime,
    }
}

/// The command execution of a stage observation; an audit has none.
pub open spec fn execution_of(o: QualityObservation) -> Option<CheckObservation> {
    match o {
        QualityObservation::Format(f) => Some(f.execution),
        QualityObservation::Check(c) => Some(c),
        QualityObservation::Clippy(c) => Some(c),
        QualityObservation::Test(t) => Some(t.execution),
        QualityObservation::Audit { .. } => None,
    }
}

/// `o` with its command execution replaced by `e`.
pub open spec fn with_execution(o: QualityObservation, e: CheckObservation) -> QualityObservation {
    match o {
        QualityObservation::Format(f) => QualityObservation::Format(FormatObservation { execution: e, ..f }),
        QualityObservation::Check(_) => QualityObservation::Check(e),
        QualityObservation::Clippy(_) => QualityObservation::Clippy(e),
        QualityObservation::Test(t) => QualityObservation::Test(TestObservation { execution: e, ..t }),
        QualityObservation::Audit { .. } => o,
    }
}

impl QualityObservation {
    pub fn runtime(&self) -> (res: &RuntimeIdentity)
        ensures
            *res == runtime_of(*self),
    {
        match self {
            QualityObservation::Format(o) => &o.execution.runtime,
            QualityObservation::Check(o) => &o.runtime,
            QualityObservation::Clippy(o) => &o.runtime,
            QualityObservation::Test(o) => &o.execution.runtime,
            QualityObservation::Audit { runtime, .. } => runtime,
        }
    }

    pub fn execution(&self) -> (res: Option<&CheckObservation>)
        ensures
            match res {
                Some(e) => execution_of(*self) == Some(*e),
                None => execution_of(*self) is None,
            },
    {
        match self {
            QualityObservation::Format(o) => Some(&o.execution),
            QualityObservation::Check(o) => Some(o),
            QualityObservation::Clippy(o) => Some(o),
            QualityObservation::Test(o) => Some(&o.execution),
            QualityObservation::Audit { .. } => None,
        }
    }

    /// The command execution, to be amended in place.
    pub fn execution_mut(&mut self) -> (res: Option<&mut CheckObservation>)
        ensures
            match res {
                Some(e) => execution_of(*old(self)) == Some(*e) && *final(self) == with_execution(
                    *old(self),
                    *final(e),
                ),
                None => execution_of(*old(self)) is None && *final(self) == *old(self),
            },
    {
        match self {
            QualityObservation::Format(o) => Some(&mut o.execution),
            QualityObservation::Check(o) => Some(o),
            QualityObservation::Clippy(o) => Some(o),
            QualityObservation::Test(o) => Some(&mut o.execution),
            QualityObservation::Audit { .. } => None,
        }
    }
}

#[derive(Clone, Debug)]
pub struct QualityStageReport {
    pub stage: QualityStage,
    pub duration_ms: u64,
    pub status: ToolStatus,
    pub issue: Option<QualityIssue>,
    pub observation: Option<QualityObservation>,
    pub log: Option<ArtifactMetadata>,
    pub retention_remaining_seconds: Option<u64>,
}

/// The observation is of the kind the stage produces.
pub open spec fn stage_matches(stage: QualityStage, o: QualityObservation) -> bool {
    match (stage, o) {
        (QualityStage::Format, QualityObservation::Format(_)) => true,
        (QualityStage::Check, QualityObservation::Check(_)) => true,
        (QualityStage::Clippy, QualityObservation::Clippy(_)) => true,
        (QualityStage::Test, QualityObservation::Test(_)) => true,
        (QualityStage::Audit, QualityObservation::Audit { .. }) => true,
        _ => false,
    }
}

/// Stage-specific facts a successful run must also show: a test run that
/// exited 0 built, and a formatting run that exited 0 found nothing to change.
pub open spec fn extra_complete(o: QualityObservation) -> bool {
    match o {
        QualityObservation::Test(t) => t.execution.exit_code != Some(0i32) || t.build_succeeded
            == Some(true),
        QualityObservation::Format(f) => f.execution.exit_code != Some(0i32) || (
        f.affected_files@.len() == 0 && (match f.diff {
            Some(d) => d@.len() == 0,
            None => true,
        }) && f.affected_files_omitted == 0 && !f.diff_omitted),
        _ => true,
    }
}

/// The status and issue a command execution earns.
pub open spec fn execution_verdict(e: CheckObservation, extra: bool) -> (ToolStatus, Option<QualityIssue>) {
    if e.termination == ExecutionTermination::Cancelled {
        (ToolStatus::Cancelled, None)
    } else if e.termination == ExecutionTermination::TimedOut {
        let i = QualityIssue::Operational(OperationalErrorCode::CommandTimeout);
        (issue_status(i), Some(i))
    } else if e.outcome == CheckOutcome::LockfileUpdateRequired {
        let i = QualityIssue::Operational(OperationalErrorCode::LockfileUpdateRequired);
        (issue_status(i), Some(i))
    } else if !e.validation_complete || e.stdout_truncated || e.stderr_truncated || !extra
        || e.termination != ExecutionTermination::Exited || e.diagnostics_omitted != 0 {
        (ToolStatus::Blocked, Some(QualityIssue::Incomplete))
    } else if e.outcome == CheckOutcome::Passed && e.exit_code == Some(0i32) {
        (ToolStatus::Passed, None)
    } else if e.outcome == CheckOutcome::Failed && (e.exit_code matches Some(c) && c != 0) {
        (ToolStatus::Failed, None)
    } else {
        (ToolStatus::Blocked, Some(QualityIssue::Incomplete))
    }
}

/// The status a normalized audit state reports.
pub open spec fn audit_status(s: AuditState) -> ToolStatus {
    match s {
        AuditState::Passed => ToolStatus::Passed,
        AuditState::Failed => ToolStatus::Failed,
        AuditState::Unavailable => ToolStatus::Unavailable,
        AuditState::Incomplete => ToolStatus::Blocked,
    }
}

/// What classification does to a report: `before` becomes `after`.
pub open spec fn classified(before: QualityStageReport, after: QualityStageReport) -> bool {
    &&& after.stage == before.stage
    &&& after.duration_ms == before.duration_ms
    &&& after.log == before.log
    &&& after.retention_remaining_seconds == before.retention_remaining_seconds
    &&& match before.observation {
        None => {
            &&& after.observation is None
            &&& after.issue == before.issue
            &&& after.status == match before.issue {
                Some(i) => issue_status(i),
                None => ToolStatus::Blocked,
            }
        },
        Some(o) => if !stage_matches(before.stage, o) {
            &&& after.observation == before.observation
            &&& after.status == ToolStatus::Blocked
            &&& after.issue == Some(QualityIssue::Incomplete)
        } else {
            match o {
                QualityObservation::Audit { runtime, observation } => {
                    let status = audit_status(normalized_state(observation));
                    &&& after.observation matches Some(QualityObservation::Audit { runtime: r, observation: a })
                        && r == runtime && normalizes_to(observation, a)
                    &&& after.status == status
                    &&& after.issue == if status == ToolStatus::Blocked {
                        Some(QualityIssue::Incomplete)
                    } else {
                        None
                    }
                },
                _ => {
                    let v = execution_verdict(execution_of(o)->0, extra_complete(o));
                    &&& after.observation == before.observation
                    &&& after.status == v.0
                    &&& after.issue == v.1
                },
            }
        },
    }
}

fn extra_complete_exec(o: &QualityObservation) -> (res: bool)
    ensures
        res == extra_complete(*o),
{
    match o {
        QualityObservation::Test(t) => t.execution.exit_code != Some(0i32) || t.build_succeeded
            == Some(true),
        QualityObservation::Format(f) => {
            let diff_empty = match &f.diff {
                Some(d) => d.as_str().is_empty(),
                None => true,
            };
            f.execution.exit_code != Some(0i32) || (f.affected_files.len() == 0 && diff_empty
                && f.affected_files_omitted == 0 && !f.diff_omitted)
        },
        _ => true,
    }
}

fn stage_matches_exec(stage: QualityStage, o: &QualityObservation) -> (res: bool)
    ensures
        res == stage_matches(stage, *o),
{
    match (stage, o) {
        (QualityStage::Format, QualityObservation::Format(_)) => true,
        (QualityStage::Check, QualityObservation::Check(_)) => true,
        (QualityStage::Clippy, QualityObservation::Clippy(_)) => true,
        (QualityStage::Test, QualityObservation::Test(_)) => true,
        (QualityStage::Audit, QualityObservation::Audit { .. }) => true,
        _ => false,
    }
}

fn execution_verdict_exec(e: &CheckObservation, extra: bool) -> (res: (ToolStatus, Option<QualityIssue>))
    ensures
        res == execution_verdict(*e, extra),
{
    if e.termination == ExecutionTermination::Cancelled {
        return (ToolStatus::Cancelled, None);
    }
    let issue = if e.termination == ExecutionTermination::TimedOut {
        Some(QualityIssue::Operational(OperationalErrorCode::CommandTimeout))
    } else if e.outcome == CheckOutcome::LockfileUpdateRequired {
        Some(QualityIssue::Operational(OperationalErrorCode::LockfileUpdateRequired))
    } else if !e.validation_complete || e.stdout_truncated || e.stderr_truncated || !extra
        || e.termination != ExecutionTermination::Exited || e.diagnostics_omitted != 0 {
        Some(QualityIssue::Incomplete)
    } else if e.outcome == CheckOutcome::Passed && e.exit_code == Some(0i32) {
        None
    } else if e.outcome == CheckOutcome::Failed && match e.exit_code {
        Some(c) => c != 0,
        None => false,
    } {
        return (ToolStatus::Failed, None);
    } else {
        Some(QualityIssue::Incomplete)
    };
    let status = match issue {
        Some(i) => i.status(),
        None => ToolStatus::Passed,
    };
    (status, issue)
}

impl QualityStageReport {
    /// Re-derives the stage's status from complete facts; never trusts a
    /// passed label alone.
    pub fn classify(&mut self)
        ensures
            classified(*old(self), *final(self)),
    {
        let observation = self.observation.take();
        match observation {
            None => {
                self.status = match self.issue {
                    Some(i) => i.status(),
                    None => ToolStatus::Blocked,
                };
            },
            Some(o) => {
                if !stage_matches_exec(self.stage, &o) {
                    self.status = ToolStatus::Blocked;
                    self.issue = Some(QualityIssue::Incomplete);
                    self.observation = Some(o);
                    return;
                }
                match o {
                    QualityObservation::Audit { runtime, observation } => {
                        let mut audit = observation;
                        audit.normalize();
                        let status = match audit.state {
                            AuditState::Passed => ToolStatus::Passed,
                            AuditState::Failed => ToolStatus::Failed,
                            AuditState::Unavailable => ToolStatus::Unavailable,
                            AuditState::Incomplete => ToolStatus::Blocked,
                        };
                        self.status = status;
                        self.issue = if status == ToolStatus::Blocked {
                            Some(QualityIssue::Incomplete)
                        } else {
                            None
                        };
                        self.observation = Some(QualityObservation::Audit { runtime, observation: audit });
                    },
                    other => {
                        let extra = extra_complete_exec(&other);
                        let verdict = match other.execution() {
                            Some(e) => execution_verdict_exec(e, extra),
                            None => (ToolStatus::Blocked, Some(QualityIssue::Incomplete)),
                        };
                        self.status = verdict.0;
                        self.issue = verdict.1;
                        self.observation = Some(other);
                    },
                }
            },
        }
    }
}

/// Some report of `stages` has status `s`.
pub open spec fn any_status(stages: Seq<QualityStageReport>, s: ToolStatus) -> bool {
    exists|i: int| 0 <= i < stages.len() && (#[trigger] stages[i]).status == s
}

/// The reports are exactly the profile's stages, in order.
pub open spec fn stages_in_order(p: QualityProfile, stages: Seq<QualityStageReport>) -> bool {
    stages.len() == profile_stages(p).len() && forall|i: int|
        0 <= i < stages.len() ==> (#[trigger] stages[i]).stage == profile_stages(p)[i]
}

/// The status of the whole gate. Reports that are not the profile's stages in
/// order block it. Else a stage status decides, in this precedence: cancelled,
/// blocked, unavailable, failed. With none of them it is passed.
pub open spec fn quality_status_spec(p: QualityProfile, stages: Seq<QualityStageReport>) -> ToolStatus {
    if !stages_in_order(p, stages) {
        ToolStatus::Blocked
    } else if any_status(stages, ToolStatus::Cancelled) {
        ToolStatus::Cancelled
    } else if any_status(stages, ToolStatus::Blocked) {
        ToolStatus::Blocked
    } else if any_status(stages, ToolStatus::Unavailable) {
        ToolStatus::Unavailable
    } else if any_status(stages, ToolStatus::Failed) {
        ToolStatus::Failed
    } else {
        ToolStatus::Passed
    }
}

fn has_status(stages: &[QualityStageReport], s: ToolStatus) -> (res: bool)
    ensures
        res == any_status(stages@, s),
{
    let mut i: usize = 0;
    while i < stages.len()
        invariant
            i <= stages@.len(),
            forall|k: int| 0 <= k < i ==> (#[trigger] stages@[k]).status != s,
        decreases stages.len() - i,
    {
        if stages[i].status == s {
            assert(stages@[i as int].status == s);
            return true;
        }
        i = i + 1;
    }
    false
}

pub fn quality_status(profile: QualityProfile, stages: &[QualityStageReport]) -> (res: ToolStatus)
    ensures
        res == quality_status_spec(profile, stages@),
{
    let expected = profile.stages();
    if stages.len() != expected.len() {
        return ToolStatus::Blocked;
    }
    let mut i: usize = 0;
    while i < stages.len()
        invariant
            expected@ == profile_stages(profile),
            stages@.len() == expected@.len(),
            i <= stages@.len(),
            forall|k: int| 0 <= k < i ==> (#[trigger] stages@[k]).stage == expected@[k],
        decreases stages.len() - i,
    {
        if stages[i].stage != expected[i] {
            return ToolStatus::Blocked;
        }
        i = i + 1;
    }
    if has_status(stages, ToolStatus::Cancelled) {
        return ToolStatus::Cancelled;
    }
    if has_status(stages, ToolStatus::Blocked) {
        return ToolStatus::Blocked;
    }
    if has_status(stages, ToolStatus::Unavailable) {
        return ToolStatus::Unavailable;
    }
    if has_status(stages, ToolStatus::Failed) {
        return ToolStatus::Failed;
    }
    ToolStatus::Passed
}

/// A gate passes only when it holds exactly its profile's stages and every
/// one of them passed.
pub proof fn law_gate_passes_only_when_every_stage_passes(p: QualityProfile, stages: Seq<QualityStageReport>)
    requires
        quality_status_spec(p, stages) == ToolStatus::Passed,
    ensures
        stages_in_order(p, stages),
        forall|i: int| 0 <= i < stages.len() ==> (#[trigger] stages[i]).status == ToolStatus::Passed,
{
    assert forall|i: int| 0 <= i < stages.len() implies (#[trigger] stages[i]).status
        == ToolStatus::Passed by {
        if stages[i].status != ToolStatus::Passed {
            assert(any_status(stages, stages[i].status));
        }
    }
}

/// A command stage passes only on complete, untruncated facts of a clean exit
/// with status 0 and a passed outcome.
pub proof fn law_classified_pass_has_complete_facts(e: CheckObservation, extra: bool)
    requires
        execution_verdict(e, extra).0 == ToolStatus::Passed,
    ensures
        e.termination == ExecutionTermination::Exited,
        e.validation_complete,
        !e.stdout_truncated && !e.stderr_truncated,
        e.diagnostics_omitted == 0,
        extra,
        e.outcome == CheckOutcome::Passed,
        e.exit_code == Some(0i32),
{
}

/// How severe a stage status is, from least to most: passed, failed,
/// unavailable, blocked, cancelled.
pub open spec fn status_rank(s: ToolStatus) -> int {
    match s {
        ToolStatus::Passed => 0,
        ToolStatus::Failed => 1,
        ToolStatus::Unavailable => 2,
        ToolStatus::Blocked => 3,
        ToolStatus::Cancelled => 4,
    }
}

/// A gate holding its profile's stages in order reports the status of one of
/// those stages, the one of highest precedence: it is at least as severe as
/// every stage, and never invents a status no stage reported. So a gate whose
/// only stages that did not pass failed has failed, and a gate with a
/// cancelled stage is cancelled.
pub proof fn law_gate_status_is_the_most_severe_stage_status(p: QualityProfile, stages: Seq<QualityStageReport>)
    requires
        stages_in_order(p, stages),
        stages.len() > 0,
    ensures
        exists|i: int| 0 <= i < stages.len() && (#[trigger] stages[i]).status == quality_status_spec(p, stages),
        forall|i: int| 0 <= i < stages.len() ==> status_rank((#[trigger] stages[i]).status) <= status_rank(
            quality_status_spec(p, stages),
        ),
{
    let g = quality_status_spec(p, stages);
    if g == ToolStatus::Passed {
        assert forall|i: int| 0 <= i < stages.len() implies (#[trigger] stages[i]).status == ToolStatus::Passed by {
            if stages[i].status != ToolStatus::Passed {
                assert(any_status(stages, stages[i].status));
            }
        }
        assert(stages[0].status == g);
    }
    assert forall|i: int| 0 <= i < stages.len() implies status_rank((#[trigger] stages[i]).status) <= status_rank(g) by {
        assert(any_status(stages, stages[i].status));
    }
}

/// A command stage reads its run: a cancelled run is cancelled; complete,
/// untruncated facts of a run that exited with a failed outcome and a non-zero
/// code fail; the same facts with a passed outcome and code 0 pass.
pub proof fn law_command_stage_reports_its_run(e: CheckObservation, extra: bool)
    ensures
        e.termination == ExecutionTermination::Cancelled ==> execution_verdict(e, extra).0
            == ToolStatus::Cancelled,
        e.termination == ExecutionTermination::Exited && e.validation_complete && !e.stdout_truncated
            && !e.stderr_truncated && extra && e.diagnostics_omitted == 0 && e.outcome == CheckOutcome::Failed
            && (e.exit_code matches Some(code) && code != 0) ==> execution_verdict(e, extra) == (
            ToolStatus::Failed,
            None::<QualityIssue>,
        ),
        e.termination == ExecutionTermination::Exited && e.validation_complete && !e.stdout_truncated
            && !e.stderr_truncated && extra && e.diagnostics_omitted == 0 && e.outcome == CheckOutcome::Passed
            && e.exit_code == Some(0i32) ==> execution_verdict(e, extra) == (
            ToolStatus::Passed,
            None::<QualityIssue>,
        ),
{
}

/// An audit stage that classification accepted as an audit reports its
/// normalized audit: it passes exactly when the audit passed, fails when the
/// audit found a vulnerability, is unavailable when the audit was, and is
/// blocked when the audit was incomplete.
pub proof fn law_audit_stage_reports_its_audit(before: QualityStageReport, after: QualityStageReport)
    requires
        classified(before, after),
        before.stage == QualityStage::Audit,
        before.observation matches Some(QualityObservation::Audit { .. }),
    ensures
        ({
            let o = before.observation->Some_0->Audit_observation;
            &&& after.status == ToolStatus::Passed <==> normalized_state(o) == AuditState::Passed
            &&& normalized_state(o) == AuditState::Failed ==> after.status == ToolStatus::Failed
            &&& normalized_state(o) == AuditState::Unavailable ==> after.status == ToolStatus::Unavailable
            &&& normalized_state(o) == AuditState::Incomplete ==> after.status == ToolStatus::Blocked
            &&& after.status == ToolStatus::Passed ==> o.findings@.len() == 0
        }),
{
    let o = before.observation->Some_0->Audit_observation;
    if normalized_state(o) == AuditState::Passed {
        law_pass_implies_complete_validation(o);
    }
}

#[derive(Clone, Debug)]
pub struct ProjectQualityGate {
    pub project_ref: ProjectRef,
    pub project_identity_fingerprint: ProjectIdentityFingerprint,
    pub semantics: InspectionSemantics,
    pub profile: QualityProfile,
    pub source_fingerprint: Option<SourceFingerprint>,
    pub stages: Vec<QualityStageReport>,
    pub evidence: Evidence,
}

} // verus!
