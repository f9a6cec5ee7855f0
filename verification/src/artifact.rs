//! Stored artifact identifiers and metadata; syntax proves neither existence
//! nor authorization.
use vstd::prelude::*;
use vstd::std_specs::convert::TryFromSpecImpl;
use crate::text::{canonical_hex_id, is_canonical_hex_id, owned};
use crate::value::ProjectRef;

verus! {

#[derive(Clone, Copy, Debug, PartialEq, Eq, Structural)]
pub enum ArtifactError {
    InvalidId,
    InvalidLimits,
    InvalidSecret,
    QuotaExceeded,
    InputFailure,
    InvalidSourceCount,
    EntropyUnavailable,
    IdExhausted,
    NotFound,
    ClockRegression,
    ClockOverflow,
}

/// `art_` followed by 32 lowercase hexadecimal digits.
#[derive(Clone, Debug, PartialEq, Eq, Hash)]
pub struct ArtifactId {
    id: String,
}

impl View for ArtifactId {
    type V = Seq<char>;

    closed spec fn view(&self) -> Seq<char> {
        self.id@
    }
}

impl ArtifactId {
    /// Parses an identifier: `art_` and exactly 32 lowercase hexadecimal digits.
    pub fn parse(value: String) -> (res: Result<Self, ArtifactError>)
        ensures
            res is Ok <==> canonical_hex_id(value@, "art_"@),
            res matches Ok(a) ==> a@ == value@,
            res matches Err(e) ==> e == ArtifactError::InvalidId,
    {
        if is_canonical_hex_id(value.as_str(), "art_") {
            Ok(ArtifactId { id: value })
        } else {
            Err(ArtifactError::InvalidId)
        }
    }

    pub fn as_str(&self) -> (res: &str)
        ensures
            res@ == self@,
    {
        self.id.as_str()
    }
}

impl std::convert::TryFrom<String> for ArtifactId {
    type Error = ArtifactError;

    fn try_from(value: String) -> Result<Self, ArtifactError> {
        if is_canonical_hex_id(value.as_str(), "art_") {
            Ok(ArtifactId { id: value })
        } else {
            Err(ArtifactError::InvalidId)
        }
    }
}

impl TryFromSpecImpl<String> for ArtifactId {
    open spec fn obeys_try_from_spec() -> bool {
        true
    }

    closed spec fn try_from_spec(value: String) -> Result<Self, ArtifactError> {
        if canonical_hex_id(value@, "art_"@) {
            Ok(ArtifactId { id: value })
        } else {
            Err(ArtifactError::InvalidId)
        }
    }
}

impl std::str::FromStr for ArtifactId {
    type Err = ArtifactError;

    fn from_str(value: &str) -> (res: Result<Self, ArtifactError>)
        ensures
            res is Ok <==> canonical_hex_id(value@, "art_"@),
            res matches Ok(a) ==> a@ == value@,
            res matches Err(e) ==> e == ArtifactError::InvalidId,
    {
        ArtifactId::parse(owned(value))
    }
}

#[derive(Clone, Debug, PartialEq, Eq)]
pub struct ArtifactMetadata {
    pub owner: ProjectRef,
    pub id: ArtifactId,
    /// SHA-256 of the stored, redacted bytes, never the original input.
    pub sha256: [u8; 32],
    pub size_bytes: u32,
    /// Capture may have dropped bytes.
    pub truncated: bool,
    /// Seconds from the injected clock's process-local monotonic origin.
    pub created_seconds: u64,
    pub expires_seconds: u64,
}

/// A view borrows the store, bounding retained content and preventing mutation.
pub struct ArtifactView<'a> {
    pub metadata: &'a ArtifactMetadata,
    pub content: &'a [u8],
}

/// The text shown for each refusal.
pub open spec fn artifact_error_message(e: ArtifactError) -> Seq<char> {
    match e {
        ArtifactError::InvalidId => "invalid artifact identifier"@,
        ArtifactError::InvalidLimits => "invalid artifact limits"@,
        ArtifactError::InvalidSecret => "invalid redaction configuration"@,
        ArtifactError::QuotaExceeded => "artifact quota exceeded"@,
        ArtifactError::InputFailure => "artifact input failed"@,
        ArtifactError::InvalidSourceCount => "invalid artifact input count"@,
        ArtifactError::EntropyUnavailable => "artifact entropy unavailable"@,
        ArtifactError::IdExhausted => "artifact identifier retries exhausted"@,
        ArtifactError::NotFound => "artifact not found"@,
        ArtifactError::ClockRegression => "artifact clock regressed"@,
        ArtifactError::ClockOverflow => "artifact expiry exceeds clock range"@,
    }
}

impl ArtifactError {
    /// The text shown for this refusal.
    pub fn message(&self) -> (res: &'static str)
        ensures
            res@ == artifact_error_message(*self),
    {
        match self {
            ArtifactError::InvalidId => "invalid artifact identifier",
            ArtifactError::InvalidLimits => "invalid artifact limits",
            ArtifactError::InvalidSecret => "invalid redaction configuration",
            ArtifactError::QuotaExceeded => "artifact quota exceeded",
            ArtifactError::InputFailure => "artifact input failed",
            ArtifactError::InvalidSourceCount => "invalid artifact input count",
            ArtifactError::EntropyUnavailable => "artifact entropy unavailable",
            ArtifactError::IdExhausted => "artifact identifier retries exhausted",
            ArtifactError::NotFound => "artifact not found",
            ArtifactError::ClockRegression => "artifact clock regressed",
            ArtifactError::ClockOverflow => "artifact expiry exceeds clock range",
        }
    }
}

} // verus!
