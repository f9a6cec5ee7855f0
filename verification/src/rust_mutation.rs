//! Closed guest mutation capabilities, distinct from read-only Rust commands.
use vstd::prelude::*;
use crate::execution::ExecutionResult;
use crate::inspection::RuntimeIdentity;
use crate::value::{ExecutionFingerprint, SourceBundle, SourceFingerprint};

verus! {

#[derive(Clone, Copy, Debug, PartialEq, Eq, Structural)]
pub enum RustMutationCommand {
    Format,
}

#[derive(Clone, Debug)]
pub struct RustMutationExecution {
    pub result: ExecutionResult,
    /// Present only after a complete export, scope checks and cleanup.
    pub candidate: Option<SourceBundle>,
}

/// A complete candidate that passed an independent read-only postcondition check.
#[derive(Clone, Debug)]
pub struct RustMutationObservation {
    pub candidate: SourceBundle,
    pub runtime: RuntimeIdentity,
    pub mutation_execution_fingerprint: ExecutionFingerprint,
    pub candidate_source_fingerprint: SourceFingerprint,
}

} // verus!
