//! Observed interpreter evidence, not a proof of general memory safety.
use vstd::prelude::*;
use crate::check::InvalidCheckOptions;
use crate::inspection::RuntimeIdentity;
use crate::value::{ExecutionFingerprint, SourceFingerprint};

verus! {

/// Longest Miri run, in seconds.
pub const MIRI_MAX_TIMEOUT_SECONDS: u64 = 1800;

#[derive(Clone, Copy, Debug, PartialEq, Eq, Structural)]
pub struct MiriOptions {
    timeout_seconds: u64,
}

impl MiriOptions {
    pub closed spec fn timeout_spec(&self) -> u64 {
        self.timeout_seconds
    }

    pub fn new(timeout_seconds: u64) -> (res: Result<Self, InvalidCheckOptions>)
        ensures
            res is Ok <==> 1 <= timeout_seconds <= MIRI_MAX_TIMEOUT_SECONDS,
            res matches Ok(o) ==> o.timeout_spec() == timeout_seconds,
    {
        if timeout_seconds < 1 || timeout_seconds > MIRI_MAX_TIMEOUT_SECONDS {
            return Err(InvalidCheckOptions);
        }
        Ok(MiriOptions { timeout_seconds })
    }

    pub fn timeout_seconds(&self) -> (res: u64)
        ensures
            res == self.timeout_spec(),
    {
        self.timeout_seconds
    }
}

#[derive(Clone, Copy, Debug, PartialEq, Eq, Structural, PartialOrd, Ord)]
pub enum MiriCategory {
    UndefinedBehavior,
    UnsupportedOperation,
    TestFailure,
    CompileFailure,
    Timeout,
    Unclassified,
}

#[derive(Clone, Debug, PartialEq, Eq)]
pub struct MiriFinding {
    pub category: MiriCategory,
    pub test_name: Option<String>,
    pub test_binary: Option<String>,
}

#[derive(Clone, Copy, Debug, Default, PartialEq, Eq, Structural)]
pub struct MiriCounts {
    pub tests: u32,
    pub passed: u32,
    pub failed: u32,
    pub skipped: u32,
    pub undefined_behavior: u32,
    pub unsupported_operation: u32,
    pub test_failures: u32,
    pub compile_failures: u32,
    pub timeouts: u32,
    pub unclassified: u32,
}

/// Findings in every classified category.
pub open spec fn classified_spec(c: MiriCounts) -> int {
    c.undefined_behavior + c.unsupported_operation + c.test_failures + c.compile_failures
        + c.timeouts + c.unclassified
}

#[derive(Clone, Debug, PartialEq, Eq)]
pub struct MiriReport {
    pub counts: MiriCounts,
    pub findings: Vec<MiriFinding>,
    pub findings_omitted: u64,
    pub complete: bool,
    pub clean: bool,
    pub junit_present: bool,
    pub exit_code: Option<i32>,
}

/// What a clean run is: complete, reported, exit 0, every test passed and no finding.
pub open spec fn miri_clean_spec(r: MiriReport) -> bool {
    &&& r.complete
    &&& r.junit_present
    &&& r.exit_code == Some(0i32)
    &&& r.counts.tests > 0
    &&& r.counts.passed == r.counts.tests
    &&& r.counts.failed == 0
    &&& r.counts.skipped == 0
    &&& classified_spec(r.counts) == 0
    &&& r.findings_omitted == 0
}

/// The structural invariants of a report.
pub open spec fn miri_report_valid(r: MiriReport) -> bool {
    &&& r.clean == miri_clean_spec(r)
    &&& r.findings@.len() <= 128
    &&& r.counts.tests == r.counts.passed + r.counts.failed + r.counts.skipped
    &&& r.findings@.len() + r.findings_omitted == classified_spec(r.counts)
    &&& (r.complete ==> (r.findings_omitted == 0 && r.counts.skipped == 0 && r.counts.unclassified
        == 0 && r.counts.timeouts == 0))
}

impl MiriReport {
    pub fn validate(&self) -> (res: bool)
        ensures
            res == miri_report_valid(*self),
    {
        let counts = &self.counts;
        let classified = counts.undefined_behavior as u64 + counts.unsupported_operation as u64
            + counts.test_failures as u64 + counts.compile_failures as u64 + counts.timeouts as u64
            + counts.unclassified as u64;
        let clean = self.complete && self.junit_present && (match self.exit_code {
            Some(c) => c == 0,
            None => false,
        }) && counts.tests > 0 && counts.passed == counts.tests && counts.failed == 0
            && counts.skipped == 0 && classified == 0 && self.findings_omitted == 0;
        let findings = self.findings.len() as u64;
        self.clean == clean && self.findings.len() <= 128 && counts.tests as u64 == counts.passed
            as u64 + counts.failed as u64 + counts.skipped as u64 && findings <= u64::MAX
            - self.findings_omitted && findings + self.findings_omitted == classified && (
        !self.complete || (self.findings_omitted == 0 && counts.skipped == 0 && counts.unclassified
            == 0 && counts.timeouts == 0))
    }
}

#[derive(Clone, Debug)]
pub struct MiriObservation {
    pub report: MiriReport,
    pub source_fingerprint: SourceFingerprint,
    pub vendor_fingerprint: SourceFingerprint,
    pub metadata_fingerprint: SourceFingerprint,
    pub config_fingerprint: SourceFingerprint,
    pub junit_fingerprint: Option<SourceFingerprint>,
    pub runtime: RuntimeIdentity,
    pub execution_fingerprint: ExecutionFingerprint,
    pub nightly_commit: String,
    pub sysroot_fingerprint: SourceFingerprint,
}

} // verus!
