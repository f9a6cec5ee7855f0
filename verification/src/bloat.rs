//! Observation contract for one binary-size analysis. The file's size is
//! measured by this product and is exact; every per-function and per-crate
//! number is an analyzer estimate, labelled as such, and never merged with it.
use vstd::prelude::*;
use crate::execution::ExecutionTermination;
use crate::inspection::RuntimeIdentity;
use crate::text::chars_of;
use crate::value::{ExecutionFingerprint, SourceFingerprint};

verus! {

pub const APPROVED_CARGO_BLOAT_VERSION: &'static str = "0.12.1";
pub const BLOAT_REPORT_FORMAT: &'static str = "rust-engineering-mcp.bloat-report.v1";
pub const BLOAT_MAX_ROWS: usize = 256;

#[derive(Clone, Copy, Debug, PartialEq, Eq, Structural)]
pub enum BloatError {
    InvalidTarget,
    InvalidPackage,
}

/// The two closed build profiles.
#[derive(Clone, Copy, Debug, Default, PartialEq, Eq, Structural)]
pub enum BloatProfile {
    #[default]
    Release,
    ReleaseLto,
}

/// Cargo's name of each profile.
pub open spec fn profile_cargo_name(p: BloatProfile) -> Seq<char> {
    match p {
        BloatProfile::Release => "release"@,
        BloatProfile::ReleaseLto => "release-lto"@,
    }
}

impl BloatProfile {
    pub fn cargo_name(self) -> (res: &'static str)
        ensures
            res@ == profile_cargo_name(self),
    {
        match self {
            BloatProfile::Release => "release",
            BloatProfile::ReleaseLto => "release-lto",
        }
    }

    pub fn link_time_optimized(self) -> (res: bool)
        ensures
            res == (self == BloatProfile::ReleaseLto),
    {
        match self {
            BloatProfile::ReleaseLto => true,
            BloatProfile::Release => false,
        }
    }
}

/// A character allowed in a target or package name.
pub open spec fn name_char(c: char) -> bool {
    ('a' <= c && c <= 'z') || ('A' <= c && c <= 'Z') || ('0' <= c && c <= '9') || c == '_' || c
        == '-'
}

/// A name of 1 to 64 ASCII letters, digits, `_` and `-`.
pub open spec fn valid_name_spec(s: Seq<char>) -> bool {
    &&& 1 <= s.len() <= 64
    &&& forall|i: int| 0 <= i < s.len() ==> #[trigger] name_char(s[i])
}

fn valid_name(value: &str) -> (res: bool)
    ensures
        res == valid_name_spec(value@),
{
    let v = chars_of(value);
    if v.len() == 0 || v.len() > 64 {
        return false;
    }
    let mut i: usize = 0;
    while i < v.len()
        invariant
            i <= v@.len(),
            v@ == value@,
            forall|k: int| 0 <= k < i ==> #[trigger] name_char(v@[k]),
        decreases v@.len() - i,
    {
        let c = v[i];
        if !(('a' <= c && c <= 'z') || ('A' <= c && c <= 'Z') || ('0' <= c && c <= '9') || c == '_'
            || c == '-') {
            assert(!name_char(v@[i as int]));
            return false;
        }
        i = i + 1;
    }
    true
}

/// A validated binary-size analysis request.
#[derive(Clone, Debug, PartialEq, Eq)]
pub struct BloatOptions {
    binary_target: String,
    package: Option<String>,
    profile: BloatProfile,
}

impl BloatOptions {
    pub closed spec fn binary_target_spec(&self) -> Seq<char> {
        self.binary_target@
    }

    pub closed spec fn package_spec(&self) -> Option<Seq<char>> {
        match self.package {
            Some(p) => Some(p@),
            None => None,
        }
    }

    pub closed spec fn profile_spec(&self) -> BloatProfile {
        self.profile
    }

    pub fn new(binary_target: String, package: Option<String>, profile: BloatProfile) -> (res:
        Result<Self, BloatError>)
        ensures
            !valid_name_spec(binary_target@) ==> res == Err::<Self, BloatError>(
                BloatError::InvalidTarget,
            ),
            valid_name_spec(binary_target@) ==> (res is Ok <==> (package matches Some(p)
                ==> valid_name_spec(p@))),
            valid_name_spec(binary_target@) && res is Err ==> res == Err::<Self, BloatError>(
                BloatError::InvalidPackage,
            ),
            res matches Ok(o) ==> o.binary_target_spec() == binary_target@ && o.package_spec()
                == (match package {
                Some(p) => Some(p@),
                None => None,
            }) && o.profile_spec() == profile,
    {
        if !valid_name(binary_target.as_str()) {
            return Err(BloatError::InvalidTarget);
        }
        let package_ok = match &package {
            Some(name) => valid_name(name.as_str()),
            None => true,
        };
        if !package_ok {
            return Err(BloatError::InvalidPackage);
        }
        Ok(BloatOptions { binary_target, package, profile })
    }

    pub fn binary_target(&self) -> (res: &str)
        ensures
            res@ == self.binary_target_spec(),
    {
        self.binary_target.as_str()
    }

    pub fn package(&self) -> (res: Option<&str>)
        ensures
            match res {
                Some(p) => self.package_spec() == Some(p@),
                None => self.package_spec() is None,
            },
    {
        match &self.package {
            Some(p) => Some(p.as_str()),
            None => None,
        }
    }

    pub fn profile(&self) -> (res: BloatProfile)
        ensures
            res == self.profile_spec(),
    {
        self.profile
    }
}

/// The binary format the analyzer recognised.
#[derive(Clone, Copy, Debug, PartialEq, Eq, Structural)]
pub enum BinaryFormat {
    Elf64Aarch64,
    OtherElf,
    MachO,
    Pe,
    Wasm,
    Unknown,
}

/// Facts this product measured itself: an oracle against the analyzer.
#[derive(Clone, Debug, PartialEq, Eq)]
pub struct MeasuredBinary {
    pub size_bytes: u64,
    pub sha256: String,
    pub format: BinaryFormat,
}

/// Estimated attribution; every field comes from the analyzer.
#[derive(Clone, Debug, PartialEq, Eq)]
pub struct BloatAttribution {
    /// Always true, so no consumer can read these rows as exact.
    pub estimated: bool,
    pub reported_file_size_bytes: Option<u64>,
    pub text_section_size_bytes: Option<u64>,
    pub functions: Vec<BloatFunction>,
    pub crates: Vec<BloatCrate>,
    pub functions_omitted: u32,
    pub crates_omitted: u32,
}

#[derive(Clone, Debug, PartialEq, Eq)]
pub struct BloatFunction {
    pub crate_name: String,
    pub name: String,
    pub size_bytes: u64,
}

#[derive(Clone, Debug, PartialEq, Eq)]
pub struct BloatCrate {
    pub name: String,
    pub size_bytes: u64,
}

#[derive(Clone, Copy, Debug, PartialEq, Eq, Structural)]
pub enum BloatCompleteness {
    Complete,
    /// The analyzer's file size disagreed with the measured size.
    SizeMismatch,
    Truncated,
    UnsupportedFormat,
    Unavailable,
}

#[derive(Clone, Copy, Debug, PartialEq, Eq, Structural)]
pub enum BloatExit {
    Passed,
    AnalysisFailed,
    CompilationFailed,
    Uncalibrated,
    Incomplete,
}

/// The class of each exit code.
pub open spec fn bloat_exit_of(code: i32) -> BloatExit {
    if code == 0 {
        BloatExit::Passed
    } else if code == 1 {
        BloatExit::AnalysisFailed
    } else if code == 101 {
        BloatExit::CompilationFailed
    } else {
        BloatExit::Uncalibrated
    }
}

impl BloatExit {
    /// The exit table is not calibrated yet.
    pub const CALIBRATED: bool = false;

    pub fn classify(code: i32) -> (res: Self)
        ensures
            res == bloat_exit_of(code),
    {
        match code {
            0 => BloatExit::Passed,
            1 => BloatExit::AnalysisFailed,
            101 => BloatExit::CompilationFailed,
            _ => BloatExit::Uncalibrated,
        }
    }
}

#[derive(Clone, Debug)]
pub struct BloatObservation {
    pub options: BloatOptions,
    pub analyzer_version: String,
    pub exit: BloatExit,
    pub exit_code: Option<i32>,
    pub termination: ExecutionTermination,
    pub measured: Option<MeasuredBinary>,
    pub attribution: Option<BloatAttribution>,
    pub completeness: BloatCompleteness,
    pub report: Vec<u8>,
    pub runtime: RuntimeIdentity,
    pub execution_fingerprint: ExecutionFingerprint,
    pub vendor_fingerprint: SourceFingerprint,
    pub stdout: Vec<u8>,
    pub stderr: Vec<u8>,
    pub stdout_truncated: bool,
    pub stderr_truncated: bool,
}

/// `Complete` needs an exact measurement and an estimated attribution that
/// reports the same size; `SizeMismatch` needs both, disagreeing; any
/// attribution must be marked estimated.
pub open spec fn bloat_consistent_spec(
    measured: Option<MeasuredBinary>,
    attribution: Option<BloatAttribution>,
    completeness: BloatCompleteness,
) -> bool {
    match (measured, attribution, completeness) {
        (Some(m), Some(a), BloatCompleteness::Complete) => a.estimated && a.reported_file_size_bytes
            == Some(m.size_bytes),
        (Some(m), Some(a), BloatCompleteness::SizeMismatch) => a.estimated
            && a.reported_file_size_bytes != Some(m.size_bytes),
        (None, _, BloatCompleteness::Complete) => false,
        (_, Some(a), _) => a.estimated,
        (_, None, BloatCompleteness::Complete) => false,
        _ => true,
    }
}

impl BloatObservation {
    pub fn consistent(&self) -> (res: bool)
        ensures
            res == bloat_consistent_spec(self.measured, self.attribution, self.completeness),
    {
        match (&self.measured, &self.attribution, self.completeness) {
            (Some(measured), Some(attribution), BloatCompleteness::Complete) => {
                attribution.estimated && match attribution.reported_file_size_bytes {
                    Some(r) => r == measured.size_bytes,
                    None => false,
                }
            },
            (Some(measured), Some(attribution), BloatCompleteness::SizeMismatch) => {
                attribution.estimated && match attribution.reported_file_size_bytes {
                    Some(r) => r != measured.size_bytes,
                    None => true,
                }
            },
            (None, _, BloatCompleteness::Complete) => false,
            (_, Some(attribution), _) => attribution.estimated,
            (_, None, BloatCompleteness::Complete) => false,
            _ => true,
        }
    }
}

/// A consistent complete observation always carries an exact measurement and
/// an estimated attribution reporting the same size.
pub proof fn law_complete_means_sizes_agree(
    measured: Option<MeasuredBinary>,
    attribution: Option<BloatAttribution>,
)
    requires
        bloat_consistent_spec(measured, attribution, BloatCompleteness::Complete),
    ensures
        measured is Some,
        attribution matches Some(a) && a.estimated && a.reported_file_size_bytes == Some(
            measured->Some_0.size_bytes,
        ),
{
}

} // verus!
