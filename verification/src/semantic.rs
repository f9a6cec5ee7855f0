//! Identity and evidence of derived retrieval, never authoritative catalog facts.
use vstd::prelude::*;
use crate::catalog::CatalogPage;
use crate::evidence::{Provenance, SnapshotEvidence, SourceKind};
use crate::text::{all_whitespace, chars_of, is_blank, utf8_len, utf8_len_exceeds};
use crate::value::CatalogFingerprint;

verus! {

#[derive(Clone, Copy, Debug, PartialEq, Eq, Structural)]
pub enum SemanticError {
    MissingModel,
    MissingIndex,
    InvalidArtifact,
    InvalidIndex,
    IdentityMismatch,
    InvalidInput,
    Budget,
    Inference,
}

/// The text shown for each refusal: a fixed prefix and the variant's name.
pub open spec fn semantic_error_message(e: SemanticError) -> Seq<char> {
    match e {
        SemanticError::MissingModel => "semantic operation unavailable: MissingModel"@,
        SemanticError::MissingIndex => "semantic operation unavailable: MissingIndex"@,
        SemanticError::InvalidArtifact => "semantic operation unavailable: InvalidArtifact"@,
        SemanticError::InvalidIndex => "semantic operation unavailable: InvalidIndex"@,
        SemanticError::IdentityMismatch => "semantic operation unavailable: IdentityMismatch"@,
        SemanticError::InvalidInput => "semantic operation unavailable: InvalidInput"@,
        SemanticError::Budget => "semantic operation unavailable: Budget"@,
        SemanticError::Inference => "semantic operation unavailable: Inference"@,
    }
}

impl SemanticError {
    /// The text shown for this refusal.
    pub fn message(&self) -> (res: &'static str)
        ensures
            res@ == semantic_error_message(*self),
    {
        match self {
            SemanticError::MissingModel => "semantic operation unavailable: MissingModel",
            SemanticError::MissingIndex => "semantic operation unavailable: MissingIndex",
            SemanticError::InvalidArtifact => "semantic operation unavailable: InvalidArtifact",
            SemanticError::InvalidIndex => "semantic operation unavailable: InvalidIndex",
            SemanticError::IdentityMismatch => "semantic operation unavailable: IdentityMismatch",
            SemanticError::InvalidInput => "semantic operation unavailable: InvalidInput",
            SemanticError::Budget => "semantic operation unavailable: Budget",
            SemanticError::Inference => "semantic operation unavailable: Inference",
        }
    }
}

#[derive(Clone, Copy, Debug, PartialEq, Eq, Structural)]
pub enum PoolingKind {
    Mean,
}

#[derive(Clone, Copy, Debug, PartialEq, Eq, Structural)]
pub enum Normalization {
    L2,
}

#[derive(Clone, Debug, PartialEq, Eq)]
pub struct EmbeddingIdentity {
    pub model: String,
    pub revision: String,
    pub artifact_fingerprint: CatalogFingerprint,
    pub runtime: String,
    pub provenance: Provenance,
    pub dimension: u32,
    pub max_tokens: u32,
    pub intra_threads: u16,
    pub pooling: PoolingKind,
    pub normalization: Normalization,
}

/// Identity text: not blank, at most `max` bytes, no NUL.
pub open spec fn identity_text(s: Seq<char>, max: nat) -> bool {
    !all_whitespace(s) && utf8_len(s) <= max && !s.contains('\0')
}

/// The bounds an embedding identity keeps.
pub open spec fn embedding_identity_ok(e: EmbeddingIdentity) -> bool {
    &&& identity_text(e.model@, 128)
    &&& identity_text(e.revision@, 128)
    &&& identity_text(e.runtime@, 4096)
    &&& utf8_len(e.provenance.source_id_spec()) <= 256
    &&& e.provenance.source_kind_spec() == SourceKind::EmbeddingModel
    &&& 1 <= e.dimension <= 1024
    &&& 1 <= e.max_tokens <= 4096
    &&& 1 <= e.intra_threads <= 64
}

fn identity_text_ok(s: &str, max: usize) -> (res: bool)
    ensures
        res == identity_text(s@, max as nat),
{
    if is_blank(s) || utf8_len_exceeds(s, max) {
        return false;
    }
    let v = chars_of(s);
    let mut i: usize = 0;
    while i < v.len()
        invariant
            v@ == s@,
            i <= v@.len(),
            forall|k: int| 0 <= k < i ==> v@[k] != '\0',
        decreases v.len() - i,
    {
        if v[i] == '\0' {
            assert(v@[i as int] == '\0');
            return false;
        }
        i = i + 1;
    }
    true
}

impl EmbeddingIdentity {
    /// Bounds for internal construction.
    pub fn validate(&self) -> (res: Result<(), SemanticError>)
        ensures
            res is Ok <==> embedding_identity_ok(*self),
            res matches Err(e) ==> e == SemanticError::InvalidIndex,
    {
        if !identity_text_ok(self.model.as_str(), 128) || !identity_text_ok(self.revision.as_str(), 128)
            || !identity_text_ok(self.runtime.as_str(), 4096) || utf8_len_exceeds(
            self.provenance.source_id().as_str(),
            256,
        ) || self.provenance.source_kind() != SourceKind::EmbeddingModel || self.dimension < 1
            || self.dimension > 1024 || self.max_tokens < 1 || self.max_tokens > 4096
            || self.intra_threads < 1 || self.intra_threads > 64 {
            return Err(SemanticError::InvalidIndex);
        }
        Ok(())
    }
}

#[derive(Clone, Debug, PartialEq, Eq)]
pub struct IndexMetadata {
    pub schema_version: u32,
    pub snapshot_fingerprint: CatalogFingerprint,
    pub model: EmbeddingIdentity,
}

#[derive(Clone, Copy, Debug, PartialEq, Eq, Structural)]
pub enum SearchMode {
    Lexical,
    Hybrid,
}

#[derive(Clone, Debug, PartialEq, Eq)]
pub struct HybridSearch {
    pub effective_mode: SearchMode,
    pub fallback: Option<SemanticError>,
    pub results: CatalogPage,
    pub semantic_index: Option<IndexMetadata>,
    pub model_evidence: Option<SnapshotEvidence>,
}

} // verus!
