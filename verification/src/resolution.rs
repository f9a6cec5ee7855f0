//! Facts from an isolated, host-approved offline Cargo resolution.
use vstd::prelude::*;
use crate::inspection::RuntimeIdentity;
use crate::value::{ExecutionFingerprint, SourceBundle, SourceFingerprint};

verus! {

#[derive(Clone, Copy, Debug, PartialEq, Eq, Structural)]
pub enum MutationLockDisposition {
    UpdatedExisting,
    TransientUnpublished,
}

#[derive(Clone, Debug)]
pub struct MutationResolutionObservation {
    /// Same paths and types as the input; an absent host lock is never added.
    pub candidate: SourceBundle,
    /// Identity and execution fingerprint of the independent frozen validation.
    pub runtime: RuntimeIdentity,
    pub resolution_execution_fingerprint: ExecutionFingerprint,
    pub dataset_fingerprint: SourceFingerprint,
    pub resolved_lock_fingerprint: SourceFingerprint,
    pub candidate_source_fingerprint: SourceFingerprint,
    pub lock_disposition: MutationLockDisposition,
}

} // verus!
