//! Values that describe a source mutation. They confer no authority: a host
//! grant and a live lease do.
use vstd::prelude::*;
use crate::check::{ident_char, is_ident_char};
use crate::text::{canonical_hex_id, chars_of, is_canonical_hex_id};
use crate::value::{SourceBundle, SourceFingerprint};

verus! {

#[derive(Clone, Copy, Debug, PartialEq, Eq, Structural)]
pub enum MutationKind {
    ManifestPatch,
    FormatApply,
    FixApply,
    DependencyAdd,
    DependencyRemove,
}

#[derive(Clone, Copy, Debug, PartialEq, Eq, Structural)]
pub enum MutationError {
    Invalid,
    PermissionDenied,
    Conflict,
    Busy,
    Expired,
    NotFound,
    LimitExceeded,
    UnsupportedPlatform,
    Cancelled,
    Io,
    RecoveryRequired,
}

/// `mut_` followed by 32 lowercase hexadecimal digits.
#[derive(Clone, Debug, PartialEq, Eq)]
pub struct MutationId {
    value: String,
}

impl View for MutationId {
    type V = Seq<char>;

    closed spec fn view(&self) -> Seq<char> {
        self.value@
    }
}

impl MutationId {
    pub fn new(value: String) -> (res: Result<Self, MutationError>)
        ensures
            res is Ok <==> canonical_hex_id(value@, "mut_"@),
            res matches Ok(id) ==> id@ == value@,
            res matches Err(e) ==> e == MutationError::Invalid,
    {
        if is_canonical_hex_id(value.as_str(), "mut_") {
            Ok(MutationId { value })
        } else {
            Err(MutationError::Invalid)
        }
    }

    pub fn as_str(&self) -> (res: &str)
        ensures
            res@ == self@,
    {
        self.value.as_str()
    }
}

/// A client key: 1 to 64 ASCII letters, digits, `-` and `_`.
pub open spec fn idempotency_key(s: Seq<char>) -> bool {
    0 < s.len() <= 64 && forall|i: int| 0 <= i < s.len() ==> #[trigger] ident_char(s[i])
}

#[derive(Clone, Debug, PartialEq, Eq)]
pub struct IdempotencyKey {
    value: String,
}

impl View for IdempotencyKey {
    type V = Seq<char>;

    closed spec fn view(&self) -> Seq<char> {
        self.value@
    }
}

impl IdempotencyKey {
    pub fn new(value: String) -> (res: Result<Self, MutationError>)
        ensures
            res is Ok <==> idempotency_key(value@),
            res matches Ok(k) ==> k@ == value@,
            res matches Err(e) ==> e == MutationError::Invalid,
    {
        let v = chars_of(value.as_str());
        if v.len() == 0 || v.len() > 64 {
            return Err(MutationError::Invalid);
        }
        let mut i: usize = 0;
        while i < v.len()
            invariant
                v@ == value@,
                i <= v@.len(),
                forall|k: int| 0 <= k < i ==> #[trigger] ident_char(v@[k]),
            decreases v.len() - i,
        {
            if !is_ident_char(v[i]) {
                return Err(MutationError::Invalid);
            }
            i = i + 1;
        }
        Ok(IdempotencyKey { value })
    }

    pub fn as_str(&self) -> (res: &str)
        ensures
            res@ == self@,
    {
        self.value.as_str()
    }
}

#[derive(Clone, Debug, PartialEq, Eq)]
pub struct MutationCandidate {
    pub kind: MutationKind,
    pub before: SourceBundle,
    pub after: SourceBundle,
    /// Exact validation and policy provenance bound into the digest.
    pub validation: String,
}

#[derive(Clone, Debug, PartialEq, Eq)]
pub struct MutationCommit {
    pub id: MutationId,
    pub digest: SourceFingerprint,
    pub key: IdempotencyKey,
    pub candidate: MutationCandidate,
}

#[derive(Clone, Copy, Debug, PartialEq, Eq, Structural)]
pub enum MutationState {
    Committed,
    NoChange,
    Aborted,
    RecoveryRequired,
}

#[derive(Clone, Debug, PartialEq, Eq)]
pub struct MutationFileReceipt {
    pub path: String,
    pub before: SourceFingerprint,
    pub after: SourceFingerprint,
    pub before_bytes: u64,
    pub after_bytes: u64,
    /// Hash of the effect recorded by the terminal journal state.
    pub effect_after: Option<SourceFingerprint>,
    /// Byte length paired with `effect_after`.
    pub effect_after_bytes: Option<u64>,
}

#[derive(Clone, Debug, PartialEq, Eq)]
pub struct MutationReceipt {
    pub id: MutationId,
    pub digest: SourceFingerprint,
    pub state: MutationState,
    pub files: Vec<MutationFileReceipt>,
    pub validation: String,
}

/// Bounded local-operator view of one durable replay record.
#[derive(Clone, Debug, PartialEq, Eq)]
pub struct MutationRecordSummary {
    pub id: MutationId,
    pub digest: SourceFingerprint,
    pub state: MutationState,
    pub stored_bytes: u64,
}

} // verus!
