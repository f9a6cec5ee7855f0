//! Paged recorded facts about one crate; missing schema coverage is explicit,
//! never inferred.
use vstd::prelude::*;
use crate::catalog::{CatalogError, DependencyRecord, KnownVersion};
use crate::check::{ident_char, is_ident_char};
use crate::evidence::SnapshotEvidence;
use crate::text::{chars_of, has_control, has_control_char, utf8_len, utf8_len_exceeds};
use crate::value::CatalogFingerprint;

verus! {

#[derive(Clone, Copy, Debug, PartialEq, Eq, Structural)]
pub enum InspectSection {
    Overview,
    Versions,
    Features,
    Dependencies,
    Advisories,
}

impl Default for InspectSection {
    fn default() -> (res: Self)
        ensures
            res == InspectSection::Overview,
    {
        InspectSection::Overview
    }
}

#[derive(Clone, Debug, PartialEq, Eq)]
pub struct CrateInspectRequest {
    pub name: String,
    pub section: InspectSection,
    pub version: Option<String>,
    pub limit: u32,
    pub offset: u32,
    pub snapshot_fingerprint: Option<CatalogFingerprint>,
}

/// A crate name: 1 to 64 ASCII letters, digits, `_` and `-`.
pub open spec fn crate_name_ok(s: Seq<char>) -> bool {
    0 < s.len() <= 64 && forall|i: int| 0 <= i < s.len() ==> #[trigger] ident_char(s[i])
}

/// A version text: 1 to 128 bytes without a control character. Its exact
/// SemVer syntax is checked where the snapshot is queried.
pub open spec fn version_text_ok(s: Seq<char>) -> bool {
    s.len() > 0 && utf8_len(s) <= 128 && !has_control_char(s)
}

/// Whether a request is well shaped and within budget: a later page needs the
/// snapshot it pages through, the overview has no later page, the version list
/// takes no version, and the other sections need one.
pub open spec fn inspect_request_ok(r: CrateInspectRequest) -> bool {
    &&& crate_name_ok(r.name@)
    &&& 1 <= r.limit <= 50
    &&& r.offset <= 128
    &&& !(r.offset > 0 && r.snapshot_fingerprint is None)
    &&& (r.version matches Some(v) ==> version_text_ok(v@))
    &&& (r.section == InspectSection::Overview ==> r.offset == 0)
    &&& (r.section == InspectSection::Versions ==> r.version is None)
    &&& ((r.section == InspectSection::Features || r.section == InspectSection::Dependencies
        || r.section == InspectSection::Advisories) ==> r.version is Some)
}

fn crate_name_valid(s: &str) -> (res: bool)
    ensures
        res == crate_name_ok(s@),
{
    let v = chars_of(s);
    if v.len() == 0 || v.len() > 64 {
        return false;
    }
    let mut i: usize = 0;
    while i < v.len()
        invariant
            v@ == s@,
            i <= v@.len(),
            forall|k: int| 0 <= k < i ==> #[trigger] ident_char(v@[k]),
        decreases v.len() - i,
    {
        if !is_ident_char(v[i]) {
            return false;
        }
        i = i + 1;
    }
    true
}

impl CrateInspectRequest {
    /// Validates shape and budgets before the authoritative snapshot is queried.
    pub fn validate(&self) -> (res: Result<(), CatalogError>)
        ensures
            res is Ok <==> inspect_request_ok(*self),
            res matches Err(e) ==> e == CatalogError::InvalidInput,
    {
        let version_bad = match &self.version {
            Some(v) => v.as_str().is_empty() || utf8_len_exceeds(v.as_str(), 128) || has_control(
                v.as_str(),
            ),
            None => false,
        };
        if !crate_name_valid(self.name.as_str()) || self.limit < 1 || self.limit > 50 || self.offset
            > 128 || (self.offset > 0 && self.snapshot_fingerprint.is_none()) || version_bad {
            return Err(CatalogError::InvalidInput);
        }
        match self.section {
            InspectSection::Overview => if self.offset != 0 {
                Err(CatalogError::InvalidInput)
            } else {
                Ok(())
            },
            InspectSection::Versions => if self.version.is_some() {
                Err(CatalogError::InvalidInput)
            } else {
                Ok(())
            },
            _ => if self.version.is_none() {
                Err(CatalogError::InvalidInput)
            } else {
                Ok(())
            },
        }
    }
}

#[derive(Clone, Copy, Debug, PartialEq, Eq, Structural)]
pub enum InspectUnknownReason {
    NotRecordedInSnapshot,
}

#[derive(Clone, Copy, Debug, PartialEq, Eq, Structural)]
pub enum InspectUnknown {
    Unknown { reason: InspectUnknownReason },
}

impl Default for InspectUnknown {
    fn default() -> (res: Self)
        ensures
            res == (InspectUnknown::Unknown { reason: InspectUnknownReason::NotRecordedInSnapshot }),
    {
        InspectUnknown::Unknown { reason: InspectUnknownReason::NotRecordedInSnapshot }
    }
}

#[derive(Clone, Debug, PartialEq, Eq)]
pub struct InspectOverview {
    pub name: String,
    pub description: String,
    pub repository: Option<String>,
    pub updated_at: Option<u64>,
    pub latest_known_stable: Option<KnownVersion>,
    pub version_count: u32,
    pub documentation: InspectUnknown,
    pub source: InspectUnknown,
}

#[derive(Clone, Debug, PartialEq, Eq)]
pub struct InspectVersion {
    pub version: String,
    pub yanked: bool,
    pub rust_version: Option<String>,
    pub license: Option<String>,
    pub published_at: Option<u64>,
    pub feature_count: u32,
    pub dependency_count: u32,
    pub advisory_count: u32,
}

#[derive(Clone, Debug, PartialEq, Eq)]
pub enum InspectPageData {
    Overview { selected_version: Option<InspectVersion> },
    Versions { items: Vec<InspectVersion> },
    Features { version: InspectVersion, items: Vec<String> },
    Dependencies { version: InspectVersion, items: Vec<DependencyRecord> },
    Advisories { version: InspectVersion, items: Vec<String> },
}

#[derive(Clone, Debug, PartialEq, Eq)]
pub struct InspectPagination {
    pub offset: u32,
    pub total: u32,
    pub returned: u32,
    pub next_offset: Option<u32>,
    pub omitted_by_output: u32,
}

#[derive(Clone, Debug, PartialEq, Eq)]
pub struct InspectPage {
    pub overview: InspectOverview,
    pub data: InspectPageData,
    pub pagination: InspectPagination,
}

#[derive(Clone, Debug, PartialEq, Eq)]
pub enum InspectLookup {
    CrateNotFound,
    VersionNotFound,
    Found { page: Box<InspectPage> },
}

#[derive(Clone, Debug, PartialEq, Eq)]
pub struct CrateInspectResult {
    pub name: String,
    pub snapshot_fingerprint: CatalogFingerprint,
    pub sequence: u64,
    pub evidence: SnapshotEvidence,
    pub lookup: InspectLookup,
}

} // verus!
