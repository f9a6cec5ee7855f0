//! Tool outcomes: a status, an optional operational error and the report data.
use vstd::prelude::*;
use crate::diagnostic::Diagnostic;
use crate::evidence::Evidence;
use crate::value::{ContractError, NonEmptyText};

verus! {

#[derive(Clone, Copy, Debug, PartialEq, Eq, Structural)]
pub enum ToolStatus {
    Passed,
    Failed,
    Blocked,
    Unavailable,
    Cancelled,
}

impl ToolStatus {
    pub fn is_success(self) -> (res: bool)
        ensures
            res == (self == ToolStatus::Passed),
    {
        self == ToolStatus::Passed
    }
}

#[derive(Clone, Copy, Debug, PartialEq, Eq, Structural)]
pub enum OperationalErrorCode {
    ProjectNotFound,
    InvalidProject,
    ToolNotInstalled,
    LockfileUpdateRequired,
    CommandTimeout,
    SandboxDenied,
    NetworkDenied,
    UnsupportedPlatform,
    OutputLimitExceeded,
}

/// The status an operational error reports: a missing tool or platform is
/// `Unavailable`, every other error `Blocked`.
pub open spec fn code_status(code: OperationalErrorCode) -> ToolStatus {
    match code {
        OperationalErrorCode::ToolNotInstalled | OperationalErrorCode::UnsupportedPlatform => ToolStatus::Unavailable,
        _ => ToolStatus::Blocked,
    }
}

impl OperationalErrorCode {
    pub fn status(self) -> (res: ToolStatus)
        ensures
            res == code_status(self),
    {
        match self {
            OperationalErrorCode::ToolNotInstalled | OperationalErrorCode::UnsupportedPlatform => ToolStatus::Unavailable,
            OperationalErrorCode::ProjectNotFound
            | OperationalErrorCode::InvalidProject
            | OperationalErrorCode::LockfileUpdateRequired
            | OperationalErrorCode::CommandTimeout
            | OperationalErrorCode::SandboxDenied
            | OperationalErrorCode::NetworkDenied
            | OperationalErrorCode::OutputLimitExceeded => ToolStatus::Blocked,
        }
    }
}

/// An operational error never reports success, failure or cancellation.
pub proof fn law_error_status_is_blocked_or_unavailable(code: OperationalErrorCode)
    ensures
        code_status(code) == ToolStatus::Blocked || code_status(code) == ToolStatus::Unavailable,
{
}

#[derive(Clone, Debug, PartialEq, Eq)]
pub struct OperationalError {
    code: OperationalErrorCode,
    message: NonEmptyText,
}

impl OperationalError {
    pub closed spec fn code_spec(&self) -> OperationalErrorCode {
        self.code
    }

    pub closed spec fn message_spec(&self) -> Seq<char> {
        self.message@
    }

    pub fn new(code: OperationalErrorCode, message: NonEmptyText) -> (res: Self)
        ensures
            res.code_spec() == code,
            res.message_spec() == message@,
    {
        OperationalError { code, message }
    }

    pub fn code(&self) -> (res: OperationalErrorCode)
        ensures
            res == self.code_spec(),
    {
        self.code
    }

    pub fn message(&self) -> (res: &NonEmptyText)
        ensures
            res@ == self.message_spec(),
    {
        &self.message
    }
}

/// Metadata only: what the output lost to its budgets.
#[derive(Clone, Copy, Debug, Default, PartialEq, Eq, Structural)]
pub struct Truncation {
    pub stdout_truncated: bool,
    pub stderr_truncated: bool,
    pub diagnostics_omitted: u64,
}

impl Truncation {
    pub fn is_truncated(self) -> (res: bool)
        ensures
            res == (self.stdout_truncated || self.stderr_truncated || self.diagnostics_omitted != 0),
    {
        self.stdout_truncated || self.stderr_truncated || self.diagnostics_omitted != 0
    }
}

/// Typed report assembled by a use case before choosing its outcome.
pub struct Report<T> {
    pub summary: NonEmptyText,
    pub duration_ms: u64,
    pub data: T,
    pub diagnostics: Vec<Diagnostic>,
    pub truncation: Truncation,
    pub evidence: Evidence,
}

/// Whether a status, error code and error message agree: no error for a pass,
/// failure or cancellation; otherwise both code and message, with the status
/// the code reports.
pub open spec fn outcome_consistent(status: ToolStatus, code: Option<OperationalErrorCode>, has_message: bool) -> bool {
    match code {
        None => !has_message && (status == ToolStatus::Passed || status == ToolStatus::Failed
            || status == ToolStatus::Cancelled),
        Some(c) => has_message && status == code_status(c),
    }
}

/// The published outcome of one tool call.
#[derive(Clone, Debug, PartialEq, Eq)]
pub struct OutputEnvelope<T> {
    status: ToolStatus,
    summary: NonEmptyText,
    duration_ms: u64,
    error_code: Option<OperationalErrorCode>,
    error_message: Option<NonEmptyText>,
    diagnostics: Vec<Diagnostic>,
    truncation: Truncation,
    data: T,
    evidence: Evidence,
}

impl<T> OutputEnvelope<T> {
    pub closed spec fn status_spec(&self) -> ToolStatus {
        self.status
    }

    pub closed spec fn summary_spec(&self) -> Seq<char> {
        self.summary@
    }

    pub closed spec fn duration_spec(&self) -> u64 {
        self.duration_ms
    }

    pub closed spec fn error_code_spec(&self) -> Option<OperationalErrorCode> {
        self.error_code
    }

    pub closed spec fn error_message_spec(&self) -> Option<Seq<char>> {
        match self.error_message {
            Some(m) => Some(m@),
            None => None,
        }
    }

    pub closed spec fn diagnostics_spec(&self) -> Seq<Diagnostic> {
        self.diagnostics@
    }

    pub closed spec fn truncation_spec(&self) -> Truncation {
        self.truncation
    }

    pub closed spec fn data_spec(&self) -> T {
        self.data
    }

    pub closed spec fn evidence_spec(&self) -> Evidence {
        self.evidence
    }

    /// The status agrees with the error, as `outcome_consistent` says.
    pub open spec fn consistent(&self) -> bool {
        outcome_consistent(self.status_spec(), self.error_code_spec(), self.error_message_spec() is Some)
    }

    /// Whether the envelope carries `report` unchanged.
    pub open spec fn carries(&self, report: Report<T>) -> bool {
        &&& self.summary_spec() == report.summary@
        &&& self.duration_spec() == report.duration_ms
        &&& self.data_spec() == report.data
        &&& self.diagnostics_spec() == report.diagnostics@
        &&& self.truncation_spec() == report.truncation
        &&& self.evidence_spec() == report.evidence
    }

    fn from_report(status: ToolStatus, error: Option<OperationalError>, report: Report<T>) -> (res: Self)
        ensures
            res.status_spec() == status,
            res.carries(report),
            match error {
                Some(e) => res.error_code_spec() == Some(e.code_spec()) && res.error_message_spec()
                    == Some(e.message_spec()),
                None => res.error_code_spec() is None && res.error_message_spec() is None,
            },
    {
        let (error_code, error_message) = match error {
            Some(e) => (Some(e.code), Some(e.message)),
            None => (None, None),
        };
        OutputEnvelope {
            status,
            error_code,
            error_message,
            summary: report.summary,
            duration_ms: report.duration_ms,
            data: report.data,
            diagnostics: report.diagnostics,
            truncation: report.truncation,
            evidence: report.evidence,
        }
    }

    pub fn passed(report: Report<T>) -> (res: Self)
        ensures
            res.status_spec() == ToolStatus::Passed,
            res.error_code_spec() is None,
            res.carries(report),
            res.consistent(),
    {
        Self::from_report(ToolStatus::Passed, None, report)
    }

    pub fn failed(report: Report<T>) -> (res: Self)
        ensures
            res.status_spec() == ToolStatus::Failed,
            res.error_code_spec() is None,
            res.carries(report),
            res.consistent(),
    {
        Self::from_report(ToolStatus::Failed, None, report)
    }

    pub fn cancelled(report: Report<T>) -> (res: Self)
        ensures
            res.status_spec() == ToolStatus::Cancelled,
            res.error_code_spec() is None,
            res.carries(report),
            res.consistent(),
    {
        Self::from_report(ToolStatus::Cancelled, None, report)
    }

    /// An operational error, with the status its code reports.
    pub fn operational_error(error: OperationalError, report: Report<T>) -> (res: Self)
        ensures
            res.status_spec() == code_status(error.code_spec()),
            res.error_code_spec() == Some(error.code_spec()),
            res.error_message_spec() == Some(error.message_spec()),
            res.carries(report),
            res.consistent(),
    {
        let status = error.code.status();
        Self::from_report(status, Some(error), report)
    }

    /// Rebuilds an envelope from recorded parts, refusing an inconsistent outcome.
    pub fn from_recorded(
        status: ToolStatus,
        error_code: Option<OperationalErrorCode>,
        error_message: Option<NonEmptyText>,
        report: Report<T>,
    ) -> (res: Result<Self, ContractError>)
        ensures
            res is Ok <==> outcome_consistent(status, error_code, error_message is Some),
            res matches Err(e) ==> e == ContractError::InconsistentOutcome,
            res matches Ok(env) ==> env.status_spec() == status && env.error_code_spec()
                == error_code && env.carries(report) && env.consistent(),
    {
        let valid = match (status, error_code, &error_message) {
            (ToolStatus::Passed, None, None) => true,
            (ToolStatus::Failed, None, None) => true,
            (ToolStatus::Cancelled, None, None) => true,
            (s, Some(code), Some(_)) => s == code.status(),
            _ => false,
        };
        if !valid {
            return Err(ContractError::InconsistentOutcome);
        }
        Ok(OutputEnvelope {
            status,
            summary: report.summary,
            duration_ms: report.duration_ms,
            error_code,
            error_message,
            diagnostics: report.diagnostics,
            truncation: report.truncation,
            data: report.data,
            evidence: report.evidence,
        })
    }

    pub fn status(&self) -> (res: ToolStatus)
        ensures
            res == self.status_spec(),
    {
        self.status
    }

    /// Whether this outcome is an operational error or a cancellation.
    pub fn is_operational_error(&self) -> (res: bool)
        ensures
            res == (self.error_code_spec() is Some || self.status_spec() == ToolStatus::Cancelled),
    {
        self.error_code.is_some() || self.status == ToolStatus::Cancelled
    }

    pub fn summary(&self) -> (res: &NonEmptyText)
        ensures
            res@ == self.summary_spec(),
    {
        &self.summary
    }

    pub fn duration_ms(&self) -> (res: u64)
        ensures
            res == self.duration_spec(),
    {
        self.duration_ms
    }

    pub fn error_code(&self) -> (res: Option<OperationalErrorCode>)
        ensures
            res == self.error_code_spec(),
    {
        self.error_code
    }

    pub fn error_message(&self) -> (res: Option<&NonEmptyText>)
        ensures
            match res {
                Some(m) => self.error_message_spec() == Some(m@),
                None => self.error_message_spec() is None,
            },
    {
        match &self.error_message {
            Some(m) => Some(m),
            None => None,
        }
    }

    pub fn diagnostics(&self) -> (res: &[Diagnostic])
        ensures
            res@ == self.diagnostics_spec(),
    {
        self.diagnostics.as_slice()
    }

    pub fn truncation(&self) -> (res: Truncation)
        ensures
            res == self.truncation_spec(),
    {
        self.truncation
    }

    pub fn data(&self) -> (res: &T)
        ensures
            *res == self.data_spec(),
    {
        &self.data
    }

    pub fn evidence(&self) -> (res: &Evidence)
        ensures
            *res == self.evidence_spec(),
    {
        &self.evidence
    }
}

} // verus!
