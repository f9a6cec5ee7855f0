//! Registry snapshot facts. Public record fields are staging input, never authorization.
use vstd::prelude::*;
use crate::evidence::{Provenance, SnapshotEvidence};
use crate::text::{
    all_whitespace, count_words, has_control, has_control_char, is_blank, utf8_len,
    utf8_len_exceeds, word_count,
};
use crate::value::CatalogFingerprint;

verus! {

#[derive(Clone, Copy, Debug, PartialEq, Eq, Structural)]
pub enum CatalogError {
    InvalidInput,
    InvalidSnapshot,
    UnsupportedSchema,
    Integrity,
    Rollback,
    Unavailable,
    Budget,
}

/// The text shown for each refusal: a fixed prefix and the variant's name.
pub open spec fn catalog_error_message(e: CatalogError) -> Seq<char> {
    match e {
        CatalogError::InvalidInput => "catalog operation rejected: InvalidInput"@,
        CatalogError::InvalidSnapshot => "catalog operation rejected: InvalidSnapshot"@,
        CatalogError::UnsupportedSchema => "catalog operation rejected: UnsupportedSchema"@,
        CatalogError::Integrity => "catalog operation rejected: Integrity"@,
        CatalogError::Rollback => "catalog operation rejected: Rollback"@,
        CatalogError::Unavailable => "catalog operation rejected: Unavailable"@,
        CatalogError::Budget => "catalog operation rejected: Budget"@,
    }
}

impl CatalogError {
    /// The text shown for this refusal.
    pub fn message(&self) -> (res: &'static str)
        ensures
            res@ == catalog_error_message(*self),
    {
        match self {
            CatalogError::InvalidInput => "catalog operation rejected: InvalidInput",
            CatalogError::InvalidSnapshot => "catalog operation rejected: InvalidSnapshot",
            CatalogError::UnsupportedSchema => "catalog operation rejected: UnsupportedSchema",
            CatalogError::Integrity => "catalog operation rejected: Integrity",
            CatalogError::Rollback => "catalog operation rejected: Rollback",
            CatalogError::Unavailable => "catalog operation rejected: Unavailable",
            CatalogError::Budget => "catalog operation rejected: Budget",
        }
    }
}

#[derive(Clone, Copy, Debug, PartialEq, Eq, Structural)]
pub enum DependencyKind {
    Normal,
    Build,
    Dev,
}

#[derive(Clone, Debug, PartialEq, Eq)]
pub struct DependencyRecord {
    pub name: String,
    pub requirement: String,
    pub kind: DependencyKind,
    pub optional: bool,
}

#[derive(Clone, Debug, PartialEq, Eq)]
pub struct VersionRecord {
    pub version: String,
    pub yanked: bool,
    pub rust_version: Option<String>,
    pub license: Option<String>,
    pub published_at: Option<u64>,
    pub features: Vec<String>,
    pub dependencies: Vec<DependencyRecord>,
    pub advisories: Vec<String>,
}

#[derive(Clone, Debug, PartialEq, Eq)]
pub struct CrateRecord {
    pub name: String,
    pub description: String,
    pub repository: Option<String>,
    pub updated_at: Option<u64>,
    pub versions: Vec<VersionRecord>,
}

#[derive(Clone, Debug, PartialEq, Eq)]
pub struct CatalogMetadata {
    pub sequence: u64,
    pub fingerprint: CatalogFingerprint,
    pub provenance: Provenance,
}

#[derive(Clone, Debug, PartialEq, Eq)]
pub struct KnownVersion {
    pub version: String,
    pub yanked: bool,
    pub rust_version: Option<String>,
    pub license: Option<String>,
}

/// Compact candidate facts, always rehydrated from the store.
#[derive(Clone, Debug, PartialEq, Eq)]
pub struct CrateSummary {
    pub name: String,
    pub description: String,
    pub latest_known: KnownVersion,
    pub version_count: u32,
}

#[derive(Clone, Debug, PartialEq, Eq)]
pub struct CatalogPage {
    pub snapshot_fingerprint: CatalogFingerprint,
    pub crates: Vec<CrateSummary>,
    pub evidence: SnapshotEvidence,
}

/// A search text the catalog accepts: not blank, at most 256 bytes, no
/// control character, at most 16 words.
pub open spec fn query_text_ok(s: Seq<char>) -> bool {
    !all_whitespace(s) && utf8_len(s) <= 256 && !has_control_char(s) && word_count(s) <= 16
}

#[derive(Clone, Debug)]
pub struct CatalogQuery {
    text: String,
    limit: u32,
}

impl CatalogQuery {
    pub closed spec fn text_spec(&self) -> Seq<char> {
        self.text@
    }

    pub closed spec fn limit_spec(&self) -> u32 {
        self.limit
    }

    pub fn new(text: String, limit: u32) -> (res: Result<Self, CatalogError>)
        ensures
            res is Ok <==> query_text_ok(text@) && 1 <= limit <= 50,
            res matches Ok(q) ==> q.text_spec() == text@ && q.limit_spec() == limit,
            res matches Err(e) ==> e == CatalogError::InvalidInput,
    {
        if is_blank(text.as_str()) || utf8_len_exceeds(text.as_str(), 256) || has_control(text.as_str())
            || count_words(text.as_str()) > 16 || limit < 1 || limit > 50 {
            return Err(CatalogError::InvalidInput);
        }
        Ok(CatalogQuery { text, limit })
    }

    pub fn text(&self) -> (res: &str)
        ensures
            res@ == self.text_spec(),
    {
        self.text.as_str()
    }

    pub fn limit(&self) -> (res: u32)
        ensures
            res == self.limit_spec(),
    {
        self.limit
    }
}

} // verus!
