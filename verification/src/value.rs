//! Core validated values: non-empty text, fingerprints, opaque references and
//! relative source paths.
use vstd::prelude::*;
use vstd::std_specs::convert::TryFromSpecImpl;
use crate::text::{
    canonical_hex_id, chars_of, is_canonical_hex_id, is_control, is_control_spec,
    is_prefixed_lower_hex, owned, prefixed_lower_hex, str_eq,
};

verus! {

/// Closed failure set of the core value constructors.
#[derive(Clone, Copy, Debug, PartialEq, Eq, Structural)]
pub enum ContractError {
    EmptyText,
    InvalidFingerprint,
    InvalidId,
    InvalidPath,
    DuplicatePath,
    InvalidSpan,
    EmptySuggestion,
    InvalidProvenance,
    InvalidFreshnessPolicy,
    InconsistentFreshness,
    InconsistentOutcome,
    InvalidBudget,
    InvalidDeadline,
}

/// Text with at least one character.
#[derive(Clone, Debug, PartialEq, Eq, Hash)]
pub struct NonEmptyText {
    text: String,
}

impl View for NonEmptyText {
    type V = Seq<char>;

    closed spec fn view(&self) -> Seq<char> {
        self.text@
    }
}

impl NonEmptyText {
    pub fn new(value: String) -> (res: Result<Self, ContractError>)
        ensures
            res is Ok <==> value@.len() > 0,
            res matches Ok(t) ==> t@ == value@,
            res matches Err(e) ==> e == ContractError::EmptyText,
    {
        if value.as_str().is_empty() {
            Err(ContractError::EmptyText)
        } else {
            Ok(NonEmptyText { text: value })
        }
    }

    /// Parses a borrowed string, as `str::parse` does.
    pub fn parse(value: &str) -> (res: Result<Self, ContractError>)
        ensures
            res is Ok <==> value@.len() > 0,
            res matches Ok(t) ==> t@ == value@,
            res matches Err(e) ==> e == ContractError::EmptyText,
    {
        Self::new(owned(value))
    }

    pub fn as_str(&self) -> (res: &str)
        ensures
            res@ == self@,
    {
        self.text.as_str()
    }

    /// A copy holding the same text.
    pub fn duplicate(&self) -> (res: Self)
        ensures
            res@ == self@,
    {
        NonEmptyText { text: owned(self.text.as_str()) }
    }
}

impl std::convert::TryFrom<String> for NonEmptyText {
    type Error = ContractError;

    fn try_from(value: String) -> Result<Self, ContractError> {
        if value.as_str().is_empty() {
            Err(ContractError::EmptyText)
        } else {
            Ok(NonEmptyText { text: value })
        }
    }
}

impl TryFromSpecImpl<String> for NonEmptyText {
    open spec fn obeys_try_from_spec() -> bool {
        true
    }

    closed spec fn try_from_spec(value: String) -> Result<Self, ContractError> {
        if value@.len() == 0 {
            Err(ContractError::EmptyText)
        } else {
            Ok(NonEmptyText { text: value })
        }
    }
}

impl std::str::FromStr for NonEmptyText {
    type Err = ContractError;

    fn from_str(value: &str) -> (res: Result<Self, ContractError>)
        ensures
            res is Ok <==> value@.len() > 0,
            res matches Ok(t) ==> t@ == value@,
            res matches Err(e) ==> e == ContractError::EmptyText,
    {
        Self::parse(value)
    }
}

/// `sha256:` followed by 64 lowercase hexadecimal digits.
pub open spec fn sha256_fingerprint(s: Seq<char>) -> bool {
    prefixed_lower_hex(s, "sha256:"@, 64)
}

fn is_sha256_fingerprint(value: &str) -> (res: bool)
    ensures
        res == sha256_fingerprint(value@),
{
    is_prefixed_lower_hex(value, "sha256:", 64)
}

/// Digest of captured source bytes: `sha256:` and 64 lowercase hex digits.
#[derive(Clone, Debug, PartialEq, Eq, Hash)]
pub struct SourceFingerprint {
    value: String,
}

/// Digest of one execution or of a frozen run configuration.
#[derive(Clone, Debug, PartialEq, Eq, Hash)]
pub struct ExecutionFingerprint {
    value: String,
}

/// Digest of the identity of a project.
#[derive(Clone, Debug, PartialEq, Eq, Hash)]
pub struct ProjectIdentityFingerprint {
    value: String,
}

/// Digest of a catalog snapshot or one of its components.
#[derive(Clone, Debug, PartialEq, Eq, Hash)]
pub struct CatalogFingerprint {
    value: String,
}

impl View for SourceFingerprint {
    type V = Seq<char>;

    closed spec fn view(&self) -> Seq<char> {
        self.value@
    }
}

impl View for ExecutionFingerprint {
    type V = Seq<char>;

    closed spec fn view(&self) -> Seq<char> {
        self.value@
    }
}

impl View for ProjectIdentityFingerprint {
    type V = Seq<char>;

    closed spec fn view(&self) -> Seq<char> {
        self.value@
    }
}

impl View for CatalogFingerprint {
    type V = Seq<char>;

    closed spec fn view(&self) -> Seq<char> {
        self.value@
    }
}

impl SourceFingerprint {
    pub fn parse(value: &str) -> (res: Result<Self, ContractError>)
        ensures
            res is Ok <==> sha256_fingerprint(value@),
            res matches Ok(f) ==> f@ == value@,
            res matches Err(e) ==> e == ContractError::InvalidFingerprint,
    {
        if is_sha256_fingerprint(value) {
            Ok(SourceFingerprint { value: owned(value) })
        } else {
            Err(ContractError::InvalidFingerprint)
        }
    }

    pub fn as_str(&self) -> (res: &str)
        ensures
            res@ == self@,
    {
        self.value.as_str()
    }

    /// A copy holding the same digest.
    pub fn duplicate(&self) -> (res: Self)
        ensures
            res@ == self@,
            res == *self,
    {
        SourceFingerprint { value: self.value.clone() }
    }

    /// Equality of the two digests.
    pub fn same_as(&self, other: &Self) -> (res: bool)
        ensures
            res == (self@ == other@),
    {
        self.value == other.value
    }
}

impl ExecutionFingerprint {
    pub fn parse(value: &str) -> (res: Result<Self, ContractError>)
        ensures
            res is Ok <==> sha256_fingerprint(value@),
            res matches Ok(f) ==> f@ == value@,
            res matches Err(e) ==> e == ContractError::InvalidFingerprint,
    {
        if is_sha256_fingerprint(value) {
            Ok(ExecutionFingerprint { value: owned(value) })
        } else {
            Err(ContractError::InvalidFingerprint)
        }
    }

    pub fn as_str(&self) -> (res: &str)
        ensures
            res@ == self@,
    {
        self.value.as_str()
    }

    /// A copy holding the same digest.
    pub fn duplicate(&self) -> (res: Self)
        ensures
            res@ == self@,
    {
        ExecutionFingerprint { value: owned(self.value.as_str()) }
    }

    /// Equality of the two digests.
    pub fn same_as(&self, other: &Self) -> (res: bool)
        ensures
            res == (self@ == other@),
    {
        self.value == other.value
    }
}

impl ProjectIdentityFingerprint {
    pub fn parse(value: &str) -> (res: Result<Self, ContractError>)
        ensures
            res is Ok <==> sha256_fingerprint(value@),
            res matches Ok(f) ==> f@ == value@,
            res matches Err(e) ==> e == ContractError::InvalidFingerprint,
    {
        if is_sha256_fingerprint(value) {
            Ok(ProjectIdentityFingerprint { value: owned(value) })
        } else {
            Err(ContractError::InvalidFingerprint)
        }
    }

    pub fn as_str(&self) -> (res: &str)
        ensures
            res@ == self@,
    {
        self.value.as_str()
    }

    /// A copy holding the same digest.
    pub fn duplicate(&self) -> (res: Self)
        ensures
            res@ == self@,
    {
        ProjectIdentityFingerprint { value: owned(self.value.as_str()) }
    }
}

impl CatalogFingerprint {
    pub fn parse(value: &str) -> (res: Result<Self, ContractError>)
        ensures
            res is Ok <==> sha256_fingerprint(value@),
            res matches Ok(f) ==> f@ == value@,
            res matches Err(e) ==> e == ContractError::InvalidFingerprint,
    {
        if is_sha256_fingerprint(value) {
            Ok(CatalogFingerprint { value: owned(value) })
        } else {
            Err(ContractError::InvalidFingerprint)
        }
    }

    pub fn as_str(&self) -> (res: &str)
        ensures
            res@ == self@,
    {
        self.value.as_str()
    }

    /// A copy holding the same digest.
    pub fn duplicate(&self) -> (res: Self)
        ensures
            res@ == self@,
    {
        CatalogFingerprint { value: owned(self.value.as_str()) }
    }
}

impl std::str::FromStr for SourceFingerprint {
    type Err = ContractError;

    fn from_str(value: &str) -> (res: Result<Self, ContractError>)
        ensures
            res is Ok <==> sha256_fingerprint(value@),
            res matches Ok(f) ==> f@ == value@,
            res matches Err(e) ==> e == ContractError::InvalidFingerprint,
    {
        Self::parse(value)
    }
}

impl std::str::FromStr for ExecutionFingerprint {
    type Err = ContractError;

    fn from_str(value: &str) -> (res: Result<Self, ContractError>)
        ensures
            res is Ok <==> sha256_fingerprint(value@),
            res matches Ok(f) ==> f@ == value@,
            res matches Err(e) ==> e == ContractError::InvalidFingerprint,
    {
        Self::parse(value)
    }
}

impl std::str::FromStr for ProjectIdentityFingerprint {
    type Err = ContractError;

    fn from_str(value: &str) -> (res: Result<Self, ContractError>)
        ensures
            res is Ok <==> sha256_fingerprint(value@),
            res matches Ok(f) ==> f@ == value@,
            res matches Err(e) ==> e == ContractError::InvalidFingerprint,
    {
        Self::parse(value)
    }
}

impl std::str::FromStr for CatalogFingerprint {
    type Err = ContractError;

    fn from_str(value: &str) -> (res: Result<Self, ContractError>)
        ensures
            res is Ok <==> sha256_fingerprint(value@),
            res matches Ok(f) ==> f@ == value@,
            res matches Err(e) ==> e == ContractError::InvalidFingerprint,
    {
        Self::parse(value)
    }
}

/// Opaque project locator: `prj_` and 32 lowercase hex digits. Syntax proves
/// neither existence nor authority.
#[derive(Clone, Debug, PartialEq, Eq, Hash)]
pub struct ProjectRef {
    value: String,
}

impl View for ProjectRef {
    type V = Seq<char>;

    closed spec fn view(&self) -> Seq<char> {
        self.value@
    }
}

impl ProjectRef {
    pub fn parse(value: &str) -> (res: Result<Self, ContractError>)
        ensures
            res is Ok <==> canonical_hex_id(value@, "prj_"@),
            res matches Ok(r) ==> r@ == value@,
            res matches Err(e) ==> e == ContractError::InvalidId,
    {
        if is_canonical_hex_id(value, "prj_") {
            Ok(ProjectRef { value: owned(value) })
        } else {
            Err(ContractError::InvalidId)
        }
    }

    pub fn as_str(&self) -> (res: &str)
        ensures
            res@ == self@,
    {
        self.value.as_str()
    }
}

impl std::str::FromStr for ProjectRef {
    type Err = ContractError;

    fn from_str(value: &str) -> (res: Result<Self, ContractError>)
        ensures
            res is Ok <==> canonical_hex_id(value@, "prj_"@),
            res matches Ok(r) ==> r@ == value@,
            res matches Err(e) ==> e == ContractError::InvalidId,
    {
        Self::parse(value)
    }
}

/// A path segment starts at `i`: the path's first character or one after `/`.
pub open spec fn segment_start(s: Seq<char>, i: int) -> bool {
    0 <= i < s.len() && (i == 0 || s[i - 1] == '/')
}

/// The segment starting at `i` is `.`.
pub open spec fn dot_segment_at(s: Seq<char>, i: int) -> bool {
    s[i] == '.' && (i + 1 == s.len() || s[i + 1] == '/')
}

/// The segment starting at `i` is `..`.
pub open spec fn dot_dot_segment_at(s: Seq<char>, i: int) -> bool {
    i + 1 < s.len() && s[i] == '.' && s[i + 1] == '.' && (i + 2 == s.len() || s[i + 2] == '/')
}

/// A relative POSIX path inside a capture: non-empty, not absolute, no empty,
/// `.` or `..` segment, no trailing `/`, no backslash and no control character.
pub open spec fn valid_source_path_spec(s: Seq<char>) -> bool {
    &&& s.len() > 0
    &&& s[0] != '/'
    &&& s[s.len() - 1] != '/'
    &&& forall|i: int| 0 <= i < s.len() ==> #[trigger] s[i] != '\\' && !is_control_spec(s[i])
    &&& forall|i: int| 0 <= i < s.len() - 1 ==> !(#[trigger] s[i] == '/' && s[i + 1] == '/')
    &&& forall|i: int|
        #![trigger segment_start(s, i)]
        segment_start(s, i) ==> !dot_segment_at(s, i) && !dot_dot_segment_at(s, i)
}

/// Validates a capture-relative source path.
pub fn validate_source_path(value: &str) -> (res: Result<(), ContractError>)
    ensures
        res is Ok <==> valid_source_path_spec(value@),
        res matches Err(e) ==> e == ContractError::InvalidPath,
{
    let v = chars_of(value);
    let n = v.len();
    if n == 0 || v[0] == '/' || v[n - 1] == '/' {
        return Err(ContractError::InvalidPath);
    }
    let mut i: usize = 0;
    while i < n
        invariant
            v@ == value@,
            n == v.len(),
            n > 0,
            v@[0] != '/',
            v@[n - 1] != '/',
            i <= n,
            forall|j: int| 0 <= j < i ==> #[trigger] v@[j] != '\\' && !is_control_spec(v@[j]),
            forall|j: int| 0 <= j < i && j < n - 1 ==> !(#[trigger] v@[j] == '/' && v@[j + 1] == '/'),
            forall|j: int|
                #![trigger segment_start(v@, j)]
                0 <= j < i && segment_start(v@, j) ==> !dot_segment_at(v@, j) && !dot_dot_segment_at(v@, j),
        decreases n - i,
    {
        let c = v[i];
        if c == '\\' || is_control(c) {
            return Err(ContractError::InvalidPath);
        }
        if i + 1 < n && c == '/' && v[i + 1] == '/' {
            return Err(ContractError::InvalidPath);
        }
        if i == 0 || v[i - 1] == '/' {
            if c == '.' && (i + 1 == n || v[i + 1] == '/') {
                assert(segment_start(v@, i as int));
                return Err(ContractError::InvalidPath);
            }
            if i + 1 < n && c == '.' && v[i + 1] == '.' && (i + 2 == n || v[i + 2] == '/') {
                assert(segment_start(v@, i as int));
                return Err(ContractError::InvalidPath);
            }
        }
        i = i + 1;
    }
    Ok(())
}

/// One captured file: a validated relative path and its bytes.
#[derive(Clone, Debug, PartialEq, Eq)]
pub struct SourceFile {
    path: String,
    bytes: Vec<u8>,
}

impl SourceFile {
    pub closed spec fn path_spec(&self) -> Seq<char> {
        self.path@
    }

    pub closed spec fn bytes_spec(&self) -> Seq<u8> {
        self.bytes@
    }

    pub fn new(path: String, bytes: Vec<u8>) -> (res: Result<Self, ContractError>)
        ensures
            res is Ok <==> valid_source_path_spec(path@),
            res matches Ok(f) ==> f.path_spec() == path@ && f.bytes_spec() == bytes@,
            res matches Err(e) ==> e == ContractError::InvalidPath,
    {
        match validate_source_path(path.as_str()) {
            Ok(()) => Ok(SourceFile { path, bytes }),
            Err(e) => Err(e),
        }
    }

    pub fn path(&self) -> (res: &str)
        ensures
            res@ == self.path_spec(),
    {
        self.path.as_str()
    }

    pub fn bytes(&self) -> (res: &[u8])
        ensures
            res@ == self.bytes_spec(),
    {
        self.bytes.as_slice()
    }
}

/// No two files of `files` share a path.
pub open spec fn distinct_paths(files: Seq<SourceFile>) -> bool {
    forall|i: int, j: int|
        0 <= i < j < files.len() ==> #[trigger] files[i].path_spec() != #[trigger] files[j].path_spec()
}

/// A captured source tree: files with distinct paths, plus declared directories.
#[derive(Clone, Debug, PartialEq, Eq)]
pub struct SourceBundle {
    files: Vec<SourceFile>,
    directories: Vec<String>,
}

impl SourceBundle {
    pub closed spec fn files_spec(&self) -> Seq<SourceFile> {
        self.files@
    }

    pub closed spec fn directories_spec(&self) -> Seq<String> {
        self.directories@
    }

    /// A bundle of `files` with no declared directory.
    pub fn new(files: Vec<SourceFile>) -> (res: Result<Self, ContractError>)
        ensures
            res is Ok <==> distinct_paths(files@),
            res matches Ok(b) ==> b.files_spec() == files@ && b.directories_spec().len() == 0,
            res matches Err(e) ==> e == ContractError::DuplicatePath,
    {
        let mut i: usize = 0;
        while i < files.len()
            invariant
                i <= files.len(),
                forall|a: int, b: int|
                    0 <= a < b < files.len() && a < i ==> #[trigger] files@[a].path_spec()
                        != #[trigger] files@[b].path_spec(),
            decreases files.len() - i,
        {
            let mut j: usize = i + 1;
            while j < files.len()
                invariant
                    i < files.len(),
                    i + 1 <= j <= files.len(),
                    forall|a: int, b: int|
                        0 <= a < b < files.len() && a < i ==> #[trigger] files@[a].path_spec()
                            != #[trigger] files@[b].path_spec(),
                    forall|b: int|
                        i < b < j ==> files@[i as int].path_spec() != #[trigger] files@[b].path_spec(),
                decreases files.len() - j,
            {
                if str_eq(files[i].path(), files[j].path()) {
                    return Err(ContractError::DuplicatePath);
                }
                j = j + 1;
            }
            i = i + 1;
        }
        Ok(SourceBundle { files, directories: Vec::new() })
    }

    pub fn files(&self) -> (res: &[SourceFile])
        ensures
            res@ == self.files_spec(),
    {
        self.files.as_slice()
    }

    pub fn directories(&self) -> (res: &[String])
        ensures
            res@ == self.directories_spec(),
    {
        self.directories.as_slice()
    }
}

} // verus!
