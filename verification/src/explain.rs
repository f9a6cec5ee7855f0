//! Facts captured from the approved compiler's explanation of one diagnostic
//! code, independent of any project authority.
use vstd::prelude::*;
use crate::evidence::SnapshotEvidence;
use crate::execution::ExecutionTermination;
use crate::inspection::{InspectionSemantics, RuntimeIdentity};
use crate::value::{NonEmptyText, SourceFingerprint};

verus! {

/// A compiler diagnostic code, carried as the text the compiler printed.
#[derive(Clone, Debug, PartialEq, Eq)]
pub struct DiagnosticCode {
    value: NonEmptyText,
}

impl View for DiagnosticCode {
    type V = Seq<char>;

    closed spec fn view(&self) -> Seq<char> {
        self.value@
    }
}

impl DiagnosticCode {
    pub fn new(value: NonEmptyText) -> (res: Self)
        ensures
            res@ == value@,
    {
        DiagnosticCode { value }
    }

    pub fn as_str(&self) -> (res: &str)
        ensures
            res@ == self@,
    {
        self.value.as_str()
    }
}

#[derive(Clone, Debug)]
pub struct ExplainObservation {
    pub code: DiagnosticCode,
    pub explanation: Option<String>,
    pub complete: bool,
    pub termination: ExecutionTermination,
    pub exit_code: Option<i32>,
    pub stdout_truncated: bool,
    pub stderr_truncated: bool,
    /// SHA-256 of the returned explanation bytes, or of empty bytes when unavailable.
    pub content_fingerprint: SourceFingerprint,
    pub runtime: RuntimeIdentity,
}

#[derive(Clone, Debug)]
pub struct DiagnosticExplanation {
    pub semantics: InspectionSemantics,
    pub observation: ExplainObservation,
    pub evidence: SnapshotEvidence,
}

} // verus!
