//! Closed cargo-nextest selection, outcome counts and bounded per-test rows.
use vstd::prelude::*;
use vstd::std_specs::convert::TryFromSpecImpl;
use crate::check::{opt_view, selection_valid, string_views, CheckOptions, CheckSelection, InvalidCheckOptions};
use crate::text::{chars_of, utf8_len, utf8_len_exceeds};

verus! {

/// Fixed profile name written into the product-owned nextest configuration.
pub const NEXTEST_PROFILE: &'static str = "rust-mcp";

/// Longest per-test timeout a job may ask for, in seconds.
pub const NEXTEST_MAX_TIMEOUT_SECONDS: u64 = 3_600;

/// A caller's nextest selection, before validation.
#[derive(Clone, Debug)]
pub struct NextestSelection {
    pub package: Option<String>,
    pub test_filter: Option<String>,
    pub features: Vec<String>,
    pub all_features: bool,
    pub no_default_features: bool,
    pub target: Option<String>,
    pub timeout: u64,
    pub retries: u8,
}

impl Default for NextestSelection {
    fn default() -> (res: Self)
        ensures
            res.package is None,
            res.test_filter is None,
            res.features@.len() == 0,
            !res.all_features,
            !res.no_default_features,
            res.target is None,
            res.timeout == 30,
            res.retries == 0,
    {
        NextestSelection {
            package: None,
            test_filter: None,
            features: Vec::new(),
            all_features: false,
            no_default_features: false,
            target: None,
            timeout: 30,
            retries: 0,
        }
    }
}

/// A character allowed in a test filter.
pub open spec fn filter_char(c: char) -> bool {
    ('a' <= c && c <= 'z') || ('A' <= c && c <= 'Z') || ('0' <= c && c <= '9') || c == '_' || c
        == ':'
}

/// A test filter: 1 to 128 ASCII letters, digits, `_` and `:`, not starting with `:`.
pub open spec fn filter_valid(f: Seq<char>) -> bool {
    &&& 1 <= f.len() <= 128
    &&& forall|i: int| 0 <= i < f.len() ==> #[trigger] filter_char(f[i])
    &&& f[0] != ':'
}

/// The Cargo part of a nextest selection.
pub open spec fn nextest_cargo_part(v: NextestSelection) -> CheckSelection {
    CheckSelection {
        package: v.package,
        workspace: false,
        features: v.features,
        all_features: v.all_features,
        no_default_features: v.no_default_features,
        all_targets: false,
        target: v.target,
    }
}

/// Whether a nextest selection is accepted.
pub open spec fn nextest_selection_valid(v: NextestSelection) -> bool {
    &&& 1 <= v.timeout <= NEXTEST_MAX_TIMEOUT_SECONDS
    &&& v.retries <= 2
    &&& (v.test_filter matches Some(f) ==> filter_valid(f@))
    &&& selection_valid(nextest_cargo_part(v))
}

fn test_filter_valid(f: &str) -> (res: bool)
    ensures
        res == filter_valid(f@),
{
    let v = chars_of(f);
    if v.len() == 0 || v.len() > 128 || v[0] == ':' {
        return false;
    }
    let mut i: usize = 0;
    while i < v.len()
        invariant
            i <= v@.len(),
            v@ == f@,
            forall|k: int| 0 <= k < i ==> #[trigger] filter_char(v@[k]),
        decreases v@.len() - i,
    {
        let c = v[i];
        if !(('a' <= c && c <= 'z') || ('A' <= c && c <= 'Z') || ('0' <= c && c <= '9') || c == '_'
            || c == ':') {
            assert(!filter_char(v@[i as int]));
            return false;
        }
        i = i + 1;
    }
    true
}

/// A validated nextest command.
#[derive(Clone, Debug, PartialEq, Eq)]
pub struct NextestCommandOptions {
    cargo: CheckOptions,
    test_filter: Option<String>,
    timeout: u64,
    retries: u8,
}

impl NextestCommandOptions {
    pub closed spec fn cargo_spec(&self) -> CheckOptions {
        self.cargo
    }

    pub closed spec fn test_filter_spec(&self) -> Option<Seq<char>> {
        opt_view(self.test_filter)
    }

    pub closed spec fn timeout_spec(&self) -> u64 {
        self.timeout
    }

    pub closed spec fn retries_spec(&self) -> u8 {
        self.retries
    }

    /// Validates the filter, timeout, retries and Cargo selection.
    pub fn from_selection(value: NextestSelection) -> (res: Result<Self, InvalidCheckOptions>)
        ensures
            res is Ok <==> nextest_selection_valid(value),
            res matches Ok(o) ==> o.cargo_spec().validates(nextest_cargo_part(value))
                && o.test_filter_spec() == opt_view(value.test_filter) && o.timeout_spec()
                == value.timeout && o.retries_spec() == value.retries,
    {
        let filter_ok = match &value.test_filter {
            Some(f) => test_filter_valid(f.as_str()),
            None => true,
        };
        if value.timeout < 1 || value.timeout > NEXTEST_MAX_TIMEOUT_SECONDS || value.retries > 2
            || !filter_ok {
            return Err(InvalidCheckOptions);
        }
        let timeout = value.timeout;
        let retries = value.retries;
        let test_filter = value.test_filter;
        let cargo = CheckOptions::from_selection(
            CheckSelection {
                package: value.package,
                workspace: false,
                features: value.features,
                all_features: value.all_features,
                no_default_features: value.no_default_features,
                all_targets: false,
                target: value.target,
            },
        )?;
        Ok(NextestCommandOptions { cargo, test_filter, timeout, retries })
    }

    pub fn package(&self) -> (res: Option<&str>)
        ensures
            match res {
                Some(p) => self.cargo_spec().package_spec() == Some(p@),
                None => self.cargo_spec().package_spec() is None,
            },
    {
        self.cargo.package()
    }

    pub fn test_filter(&self) -> (res: Option<&str>)
        ensures
            match res {
                Some(f) => self.test_filter_spec() == Some(f@),
                None => self.test_filter_spec() is None,
            },
    {
        match &self.test_filter {
            Some(f) => Some(f.as_str()),
            None => None,
        }
    }

    pub fn features(&self) -> (res: &[String])
        ensures
            string_views(res@) == self.cargo_spec().features_spec(),
    {
        self.cargo.features()
    }

    pub fn all_features(&self) -> (res: bool)
        ensures
            res == self.cargo_spec().all_features_spec(),
    {
        self.cargo.all_features()
    }

    pub fn no_default_features(&self) -> (res: bool)
        ensures
            res == self.cargo_spec().no_default_features_spec(),
    {
        self.cargo.no_default_features()
    }

    pub fn target(&self) -> (res: Option<&str>)
        ensures
            match res {
                Some(t) => self.cargo_spec().target_spec() == Some(t@),
                None => self.cargo_spec().target_spec() is None,
            },
    {
        self.cargo.target()
    }

    /// Seconds; also drives the fixed slow-test period of the configuration.
    pub fn timeout(&self) -> (res: u64)
        ensures
            res == self.timeout_spec(),
    {
        self.timeout
    }

    pub fn retries(&self) -> (res: u8)
        ensures
            res == self.retries_spec(),
    {
        self.retries
    }
}

impl std::convert::TryFrom<NextestSelection> for NextestCommandOptions {
    type Error = InvalidCheckOptions;

    fn try_from(value: NextestSelection) -> (res: Result<Self, InvalidCheckOptions>)
        ensures
            res is Ok <==> nextest_selection_valid(value),
            res matches Ok(o) ==> o.cargo_spec().validates(nextest_cargo_part(value))
                && o.test_filter_spec() == opt_view(value.test_filter) && o.timeout_spec()
                == value.timeout && o.retries_spec() == value.retries,
    {
        NextestCommandOptions::from_selection(value)
    }
}

/// The conversion is [`NextestCommandOptions::from_selection`]; `try_from` states its
/// result in its own `ensures`, and no single value is named here.
impl TryFromSpecImpl<NextestSelection> for NextestCommandOptions {
    open spec fn obeys_try_from_spec() -> bool {
        false
    }

    open spec fn try_from_spec(value: NextestSelection) -> Result<Self, InvalidCheckOptions> {
        Err(InvalidCheckOptions)
    }
}

/// Aggregate counts from a parsed JUnit report.
#[derive(Clone, Copy, Debug, Default, PartialEq, Eq, Structural)]
pub struct NextestOutcomeCounts {
    pub passed: u32,
    pub failed: u32,
    pub skipped: u32,
    /// Additional attempts represented by rerun or flaky elements.
    pub retried: u32,
    pub flaky: u32,
    pub leaky: u32,
    pub timed_out: u32,
}

impl NextestOutcomeCounts {
    /// Every test counted once, whatever its outcome; retries are not tests.
    pub fn total(&self) -> (res: u64)
        ensures
            res == self.passed + self.failed + self.skipped + self.flaky + self.leaky
                + self.timed_out,
    {
        self.passed as u64 + self.failed as u64 + self.skipped as u64 + self.flaky as u64
            + self.leaky as u64 + self.timed_out as u64
    }
}

#[derive(Clone, Copy, Debug, PartialEq, Eq, Structural)]
pub enum NextestTestOutcome {
    Passed,
    Failed,
    Skipped,
    Flaky,
    Leaky,
    TimedOut,
}

#[derive(Clone, Copy, Debug, PartialEq, Eq, Structural)]
pub struct InvalidNextestRow;

impl InvalidNextestRow {
    /// The text shown for this refusal.
    pub fn message(&self) -> (res: &'static str)
        ensures
            res@ == "nextest test row exceeds bounded name/classname length"@,
    {
        "nextest test row exceeds bounded name/classname length"
    }
}

/// Longest test name or class name, in UTF-8 bytes.
pub const MAX_NEXTEST_NAME: usize = 512;

/// One bounded testcase row extracted from a JUnit report.
#[derive(Clone, Debug, PartialEq, Eq)]
pub struct NextestTestRow {
    name: String,
    classname: String,
    outcome: NextestTestOutcome,
    attempts: u16,
    time_ms: u64,
}

impl NextestTestRow {
    pub closed spec fn name_spec(&self) -> Seq<char> {
        self.name@
    }

    pub closed spec fn classname_spec(&self) -> Seq<char> {
        self.classname@
    }

    pub closed spec fn outcome_spec(&self) -> NextestTestOutcome {
        self.outcome
    }

    pub closed spec fn attempts_spec(&self) -> u16 {
        self.attempts
    }

    pub closed spec fn time_spec(&self) -> u64 {
        self.time_ms
    }

    /// A row attempted once.
    pub fn new(name: String, classname: String, outcome: NextestTestOutcome, time_ms: u64) -> (res:
        Result<Self, InvalidNextestRow>)
        ensures
            res is Ok <==> (name@.len() > 0 && utf8_len(name@) <= MAX_NEXTEST_NAME && utf8_len(
                classname@,
            ) <= MAX_NEXTEST_NAME),
            res matches Ok(r) ==> r.name_spec() == name@ && r.classname_spec() == classname@
                && r.outcome_spec() == outcome && r.attempts_spec() == 1 && r.time_spec()
                == time_ms,
    {
        Self::new_with_attempts(name, classname, outcome, 1, time_ms)
    }

    /// A row with a name of at most 512 bytes and at least one attempt.
    pub fn new_with_attempts(
        name: String,
        classname: String,
        outcome: NextestTestOutcome,
        attempts: u16,
        time_ms: u64,
    ) -> (res: Result<Self, InvalidNextestRow>)
        ensures
            res is Ok <==> (name@.len() > 0 && utf8_len(name@) <= MAX_NEXTEST_NAME && utf8_len(
                classname@,
            ) <= MAX_NEXTEST_NAME && attempts > 0),
            res matches Ok(r) ==> r.name_spec() == name@ && r.classname_spec() == classname@
                && r.outcome_spec() == outcome && r.attempts_spec() == attempts && r.time_spec()
                == time_ms,
    {
        if name.as_str().is_empty() || utf8_len_exceeds(name.as_str(), MAX_NEXTEST_NAME)
            || utf8_len_exceeds(classname.as_str(), MAX_NEXTEST_NAME) {
            return Err(InvalidNextestRow);
        }
        if attempts == 0 {
            return Err(InvalidNextestRow);
        }
        Ok(NextestTestRow { name, classname, outcome, attempts, time_ms })
    }

    pub fn name(&self) -> (res: &str)
        ensures
            res@ == self.name_spec(),
    {
        self.name.as_str()
    }

    pub fn classname(&self) -> (res: &str)
        ensures
            res@ == self.classname_spec(),
    {
        self.classname.as_str()
    }

    pub fn outcome(&self) -> (res: NextestTestOutcome)
        ensures
            res == self.outcome_spec(),
    {
        self.outcome
    }

    pub fn attempts(&self) -> (res: u16)
        ensures
            res == self.attempts_spec(),
    {
        self.attempts
    }

    pub fn time_ms(&self) -> (res: u64)
        ensures
            res == self.time_spec(),
    {
        self.time_ms
    }
}

/// Classification of cargo-nextest exit codes; `Uncalibrated` is the
/// fail-closed catch-all.
#[derive(Clone, Copy, Debug, PartialEq, Eq, Structural)]
pub enum NextestExit {
    /// 0: all selected tests passed.
    Success,
    /// 4: the product policy found no tests.
    NoTests,
    /// 100: one or more tests failed, including a slow-test timeout.
    TestFailure,
    /// 101: the runner or build itself failed.
    RunnerFailure,
    /// Any other code.
    Uncalibrated,
}

/// The class of each exit code.
pub open spec fn nextest_exit_of(code: i32) -> NextestExit {
    if code == 0 {
        NextestExit::Success
    } else if code == 4 {
        NextestExit::NoTests
    } else if code == 100 {
        NextestExit::TestFailure
    } else if code == 101 {
        NextestExit::RunnerFailure
    } else {
        NextestExit::Uncalibrated
    }
}

impl NextestExit {
    /// The product-relevant exit paths are pinned by calibration.
    pub const CALIBRATED: bool = true;

    pub fn classify(code: i32) -> (res: Self)
        ensures
            res == nextest_exit_of(code),
    {
        match code {
            0 => NextestExit::Success,
            4 => NextestExit::NoTests,
            100 => NextestExit::TestFailure,
            101 => NextestExit::RunnerFailure,
            _ => NextestExit::Uncalibrated,
        }
    }
}

} // verus!
