//! Staging observations of the catalog's components; not proof of authority or
//! of verified storage. Adapters load the components; callers check them.
use vstd::prelude::*;
use crate::catalog::CatalogMetadata;
use crate::evidence::{Provenance, SnapshotEvidence};
use crate::semantic::{EmbeddingIdentity, IndexMetadata};
use crate::value::CatalogFingerprint;

verus! {

#[derive(Clone, Copy, Debug, PartialEq, Eq, Structural)]
pub enum CatalogComponentUnavailable {
    NotConfigured,
    Missing,
    Invalid,
    IdentityMismatch,
    UnsupportedPlatform,
    FeatureDisabled,
    Denied,
    IoUnavailable,
    Budget,
    DependencyUnavailable,
}

/// A component is available with its value, or unavailable for a reason.
#[derive(Clone, Debug, PartialEq, Eq)]
pub enum Component<T> {
    Available { value: T },
    Unavailable { reason: CatalogComponentUnavailable },
}

#[derive(Clone, Debug, PartialEq, Eq)]
pub struct CatalogContextCatalogObservation {
    pub publisher: String,
    pub channel: String,
    pub publisher_key_fingerprint: CatalogFingerprint,
    pub bundle_fingerprint: CatalogFingerprint,
    pub metadata: CatalogMetadata,
    pub schema_version: u32,
    pub crate_count: u32,
    pub bundled_rustsec_available: bool,
}

#[derive(Clone, Debug, PartialEq, Eq)]
pub struct CatalogReservation {
    pub publisher: String,
    pub channel: String,
    pub sequence: u64,
    pub bundle_fingerprint: CatalogFingerprint,
}

#[derive(Clone, Debug, PartialEq, Eq)]
pub struct CatalogIndexObservation {
    pub metadata: IndexMetadata,
    pub documents: u32,
}

#[derive(Clone, Debug, PartialEq, Eq)]
pub struct CatalogRustsecObservation {
    pub fingerprint: CatalogFingerprint,
    pub sequence: u64,
    pub record_count: u32,
    pub provenance: Provenance,
}

#[derive(Clone, Debug, PartialEq, Eq)]
pub struct CatalogContextObservation {
    pub catalog: Component<CatalogContextCatalogObservation>,
    pub reservation: Option<CatalogReservation>,
    pub model: Component<EmbeddingIdentity>,
    pub semantic_index: Component<CatalogIndexObservation>,
    pub rustsec: Component<CatalogRustsecObservation>,
}

#[derive(Clone, Debug, PartialEq, Eq)]
pub struct CatalogContextCatalogStatus {
    pub publisher: String,
    pub channel: String,
    pub publisher_key_fingerprint: CatalogFingerprint,
    pub bundle_fingerprint: CatalogFingerprint,
    pub sequence: u64,
    pub fingerprint: CatalogFingerprint,
    pub schema_version: u32,
    pub crate_count: u32,
    pub bundled_rustsec_available: bool,
    pub evidence: SnapshotEvidence,
}

#[derive(Clone, Debug, PartialEq, Eq)]
pub struct CatalogModelStatus {
    pub identity: EmbeddingIdentity,
    pub evidence: SnapshotEvidence,
}

#[derive(Clone, Debug, PartialEq, Eq)]
pub struct CatalogRustsecStatus {
    pub fingerprint: CatalogFingerprint,
    pub sequence: u64,
    pub record_count: u32,
    pub evidence: SnapshotEvidence,
}

#[derive(Clone, Debug, PartialEq, Eq)]
pub struct CatalogReservationStatus {
    pub reservation: CatalogReservation,
    /// No verified active generation matches the reserved generation.
    pub pending: bool,
}

#[derive(Clone, Debug, PartialEq, Eq)]
pub struct CatalogContextStatus {
    pub catalog: Component<CatalogContextCatalogStatus>,
    pub reservation: Option<CatalogReservationStatus>,
    pub model: Component<CatalogModelStatus>,
    pub semantic_index: Component<CatalogIndexObservation>,
    pub rustsec: Component<CatalogRustsecStatus>,
}

} // verus!
