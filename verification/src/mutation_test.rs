//! Closed `cargo-mutants` selection, budgets and outcome vocabulary.
//!
//! Every value here is fixed by the product or comes from an explicitly
//! validated caller selection; counts and rows are built only through the
//! validating constructors below. No exit code alone promotes a result to clean.
use vstd::prelude::*;
use vstd::std_specs::convert::TryFromSpecImpl;
use crate::check::{opt_view, selection_valid, string_views, CheckOptions, CheckSelection, InvalidCheckOptions};
use crate::text::{chars_of, str_eq};

verus! {

/// Hard ceiling on mutants per job; a larger generated set is refused, never sharded.
pub const MUTATION_MAX_MUTANTS: u32 = 100;
pub const MUTATION_DEFAULT_MAX_MUTANTS: u32 = 100;
/// Per-mutant `--timeout` bound.
pub const MUTATION_MAX_MUTANT_TIMEOUT_SECONDS: u64 = 60;
pub const MUTATION_DEFAULT_MUTANT_TIMEOUT_SECONDS: u64 = 60;
/// `--build-timeout` is a fixed function of the per-mutant timeout, clamped here.
pub const MUTATION_MIN_BUILD_TIMEOUT_SECONDS: u64 = 60;
pub const MUTATION_MAX_BUILD_TIMEOUT_SECONDS: u64 = 300;
/// Bound on itemized mutant rows.
pub const MUTATION_MAX_ROWS: usize = 128;
/// Bound on one mutant description.
pub const MUTATION_MAX_ROW_NAME: usize = 256;
/// Bound on the reported `cargo-mutants` version text.
pub const MUTATION_MAX_VERSION: usize = 64;

/// A caller's mutation-testing selection, before validation.
#[derive(Clone, Debug)]
pub struct MutationTestSelection {
    pub package: Option<String>,
    pub features: Vec<String>,
    pub all_features: bool,
    pub no_default_features: bool,
    pub target: Option<String>,
    pub max_mutants: u32,
    pub mutant_timeout_seconds: u64,
}

impl Default for MutationTestSelection {
    fn default() -> (res: Self)
        ensures
            res.package is None,
            res.features@.len() == 0,
            !res.all_features,
            !res.no_default_features,
            res.target is None,
            res.max_mutants == MUTATION_DEFAULT_MAX_MUTANTS,
            res.mutant_timeout_seconds == MUTATION_DEFAULT_MUTANT_TIMEOUT_SECONDS,
    {
        MutationTestSelection {
            package: None,
            features: Vec::new(),
            all_features: false,
            no_default_features: false,
            target: None,
            max_mutants: MUTATION_DEFAULT_MAX_MUTANTS,
            mutant_timeout_seconds: MUTATION_DEFAULT_MUTANT_TIMEOUT_SECONDS,
        }
    }
}

/// The Cargo part of a mutation selection.
pub open spec fn cargo_part(v: MutationTestSelection) -> CheckSelection {
    CheckSelection {
        package: v.package,
        workspace: false,
        features: v.features,
        all_features: v.all_features,
        no_default_features: v.no_default_features,
        all_targets: false,
        target: v.target,
    }
}

/// Whether a mutation selection is accepted.
pub open spec fn mutation_selection_valid(v: MutationTestSelection) -> bool {
    &&& 1 <= v.max_mutants <= MUTATION_MAX_MUTANTS
    &&& 1 <= v.mutant_timeout_seconds <= MUTATION_MAX_MUTANT_TIMEOUT_SECONDS
    &&& selection_valid(cargo_part(v))
}

/// `x` clamped into `[lo, hi]`.
pub open spec fn clamp_u64(x: int, lo: int, hi: int) -> int {
    if x < lo {
        lo
    } else if x > hi {
        hi
    } else {
        x
    }
}

/// A validated mutation-testing command.
#[derive(Clone, Debug, PartialEq, Eq)]
pub struct MutationTestCommandOptions {
    cargo: CheckOptions,
    max_mutants: u32,
    mutant_timeout_seconds: u64,
}

impl MutationTestCommandOptions {
    pub closed spec fn cargo_spec(&self) -> CheckOptions {
        self.cargo
    }

    pub closed spec fn max_mutants_spec(&self) -> u32 {
        self.max_mutants
    }

    pub closed spec fn mutant_timeout_spec(&self) -> u64 {
        self.mutant_timeout_seconds
    }

    /// Validates the budgets and the Cargo selection.
    pub fn from_selection(value: MutationTestSelection) -> (res: Result<Self, InvalidCheckOptions>)
        ensures
            res is Ok <==> mutation_selection_valid(value),
            res matches Ok(o) ==> o.cargo_spec().validates(cargo_part(value))
                && o.max_mutants_spec() == value.max_mutants && o.mutant_timeout_spec()
                == value.mutant_timeout_seconds,
    {
        if value.max_mutants < 1 || value.max_mutants > MUTATION_MAX_MUTANTS
            || value.mutant_timeout_seconds < 1 || value.mutant_timeout_seconds
            > MUTATION_MAX_MUTANT_TIMEOUT_SECONDS {
            return Err(InvalidCheckOptions);
        }
        let max_mutants = value.max_mutants;
        let mutant_timeout_seconds = value.mutant_timeout_seconds;
        let cargo = CheckOptions::from_selection(
            CheckSelection {
                package: value.package,
                workspace: false,
                features: value.features,
                all_features: value.all_features,
                no_default_features: value.no_default_features,
                all_targets: false,
                target: value.target,
            },
        )?;
        Ok(MutationTestCommandOptions { cargo, max_mutants, mutant_timeout_seconds })
    }

    pub fn package(&self) -> (res: Option<&str>)
        ensures
            match res {
                Some(p) => self.cargo_spec().package_spec() == Some(p@),
                None => self.cargo_spec().package_spec() is None,
            },
    {
        self.cargo.package()
    }

    pub fn features(&self) -> (res: &[String])
        ensures
            string_views(res@) == self.cargo_spec().features_spec(),
    {
        self.cargo.features()
    }

    pub fn all_features(&self) -> (res: bool)
        ensures
            res == self.cargo_spec().all_features_spec(),
    {
        self.cargo.all_features()
    }

    pub fn no_default_features(&self) -> (res: bool)
        ensures
            res == self.cargo_spec().no_default_features_spec(),
    {
        self.cargo.no_default_features()
    }

    pub fn target(&self) -> (res: Option<&str>)
        ensures
            match res {
                Some(t) => self.cargo_spec().target_spec() == Some(t@),
                None => self.cargo_spec().target_spec() is None,
            },
    {
        self.cargo.target()
    }

    pub fn max_mutants(&self) -> (res: u32)
        ensures
            res == self.max_mutants_spec(),
    {
        self.max_mutants
    }

    /// Seconds passed to `--timeout`.
    pub fn mutant_timeout_seconds(&self) -> (res: u64)
        ensures
            res == self.mutant_timeout_spec(),
    {
        self.mutant_timeout_seconds
    }

    /// `--build-timeout`: five times the per-mutant timeout, clamped to 60..=300.
    pub fn build_timeout_seconds(&self) -> (res: u64)
        ensures
            res == clamp_u64(
                if self.mutant_timeout_spec() * 5 > u64::MAX {
                    u64::MAX as int
                } else {
                    self.mutant_timeout_spec() * 5
                },
                MUTATION_MIN_BUILD_TIMEOUT_SECONDS as int,
                MUTATION_MAX_BUILD_TIMEOUT_SECONDS as int,
            ),
            MUTATION_MIN_BUILD_TIMEOUT_SECONDS <= res <= MUTATION_MAX_BUILD_TIMEOUT_SECONDS,
    {
        let scaled = if self.mutant_timeout_seconds > u64::MAX / 5 {
            u64::MAX
        } else {
            self.mutant_timeout_seconds * 5
        };
        if scaled < MUTATION_MIN_BUILD_TIMEOUT_SECONDS {
            MUTATION_MIN_BUILD_TIMEOUT_SECONDS
        } else if scaled > MUTATION_MAX_BUILD_TIMEOUT_SECONDS {
            MUTATION_MAX_BUILD_TIMEOUT_SECONDS
        } else {
            scaled
        }
    }
}

impl std::convert::TryFrom<MutationTestSelection> for MutationTestCommandOptions {
    type Error = InvalidCheckOptions;

    fn try_from(value: MutationTestSelection) -> (res: Result<Self, InvalidCheckOptions>)
        ensures
            res is Ok <==> mutation_selection_valid(value),
            res matches Ok(o) ==> o.cargo_spec().validates(cargo_part(value))
                && o.max_mutants_spec() == value.max_mutants && o.mutant_timeout_spec()
                == value.mutant_timeout_seconds,
    {
        MutationTestCommandOptions::from_selection(value)
    }
}

/// The conversion is [`MutationTestCommandOptions::from_selection`];
/// `try_from` states its result in its own `ensures`, and no single value is
/// named here.
impl TryFromSpecImpl<MutationTestSelection> for MutationTestCommandOptions {
    open spec fn obeys_try_from_spec() -> bool {
        false
    }

    open spec fn try_from_spec(value: MutationTestSelection) -> Result<Self, InvalidCheckOptions> {
        Err(InvalidCheckOptions)
    }
}

/// `outcomes.json` scenario discriminator; the baseline is never a mutant.
#[derive(Clone, Copy, Debug, PartialEq, Eq, Structural)]
pub enum MutationScenario {
    Baseline,
    Mutant,
}

/// The closed set of `outcomes.json` summary values this product understands.
#[derive(Clone, Copy, Debug, PartialEq, Eq, Structural)]
pub enum MutationOutcomeClass {
    /// A test failed with the mutant applied: the mutant was detected.
    Caught,
    /// Tests still passed with the mutant applied.
    Missed,
    /// The mutant made a test hang past the per-mutant timeout.
    Timeout,
    /// The mutated tree failed to build; it proves nothing about test quality.
    Unviable,
    /// Tests passed for this scenario. Only meaningful for the baseline.
    Success,
    /// Tests failed for this scenario. Only meaningful for the baseline.
    Failure,
}

/// The exact, case-sensitive `cargo-mutants` spelling of each class.
pub open spec fn outcome_spelling(c: MutationOutcomeClass) -> Seq<char> {
    match c {
        MutationOutcomeClass::Caught => "CaughtMutant"@,
        MutationOutcomeClass::Missed => "MissedMutant"@,
        MutationOutcomeClass::Timeout => "Timeout"@,
        MutationOutcomeClass::Unviable => "Unviable"@,
        MutationOutcomeClass::Success => "Success"@,
        MutationOutcomeClass::Failure => "Failure"@,
    }
}

impl MutationOutcomeClass {
    pub fn parse(value: &str) -> (res: Option<Self>)
        ensures
            res matches Some(c) ==> outcome_spelling(c) == value@,
            res is None ==> forall|c: MutationOutcomeClass| outcome_spelling(c) != value@,
    {
        if str_eq(value, "CaughtMutant") {
            Some(MutationOutcomeClass::Caught)
        } else if str_eq(value, "MissedMutant") {
            Some(MutationOutcomeClass::Missed)
        } else if str_eq(value, "Timeout") {
            Some(MutationOutcomeClass::Timeout)
        } else if str_eq(value, "Unviable") {
            Some(MutationOutcomeClass::Unviable)
        } else if str_eq(value, "Success") {
            Some(MutationOutcomeClass::Success)
        } else if str_eq(value, "Failure") {
            Some(MutationOutcomeClass::Failure)
        } else {
            proof {
                assert forall|c: MutationOutcomeClass| outcome_spelling(c) != value@ by {
                    match c {
                        MutationOutcomeClass::Caught => {},
                        MutationOutcomeClass::Missed => {},
                        MutationOutcomeClass::Timeout => {},
                        MutationOutcomeClass::Unviable => {},
                        MutationOutcomeClass::Success => {},
                        MutationOutcomeClass::Failure => {},
                    }
                }
            }
            None
        }
    }

    /// Only a caught mutant contributes to a clean result.
    pub fn credits_clean(self) -> (res: bool)
        ensures
            res == (self == MutationOutcomeClass::Caught),
    {
        self == MutationOutcomeClass::Caught
    }
}

#[derive(Clone, Copy, Debug, PartialEq, Eq, Structural)]
pub struct InvalidMutationRow;

impl InvalidMutationRow {
    /// The text shown for this refusal.
    pub fn message(&self) -> (res: &'static str)
        ensures
            res@ == "mutant row is empty, oversized or not printable ASCII"@,
    {
        "mutant row is empty, oversized or not printable ASCII"
    }
}

/// A printable ASCII character: space through `~`.
pub open spec fn printable_ascii(c: char) -> bool {
    ' ' <= c && c <= '~'
}

/// A mutant description: 1 to 256 printable ASCII characters.
pub open spec fn row_name_valid(s: Seq<char>) -> bool {
    &&& 1 <= s.len() <= MUTATION_MAX_ROW_NAME
    &&& forall|i: int| 0 <= i < s.len() ==> #[trigger] printable_ascii(s[i])
}

/// One bounded mutant description taken from a `mutants.out` list file.
#[derive(Clone, Debug, PartialEq, Eq)]
pub struct MutationMutantRow {
    name: String,
    class: MutationOutcomeClass,
}

impl MutationMutantRow {
    pub closed spec fn name_spec(&self) -> Seq<char> {
        self.name@
    }

    pub closed spec fn class_spec(&self) -> MutationOutcomeClass {
        self.class
    }

    pub fn new(name: String, class: MutationOutcomeClass) -> (res: Result<Self, InvalidMutationRow>)
        ensures
            res is Ok <==> row_name_valid(name@),
            res matches Ok(r) ==> r.name_spec() == name@ && r.class_spec() == class,
    {
        let v = chars_of(name.as_str());
        if v.len() == 0 || v.len() > MUTATION_MAX_ROW_NAME {
            return Err(InvalidMutationRow);
        }
        let mut i: usize = 0;
        while i < v.len()
            invariant
                i <= v@.len(),
                v@ == name@,
                forall|k: int| 0 <= k < i ==> #[trigger] printable_ascii(v@[k]),
            decreases v@.len() - i,
        {
            let c = v[i];
            if c < ' ' || c > '~' {
                assert(!printable_ascii(v@[i as int]));
                return Err(InvalidMutationRow);
            }
            i = i + 1;
        }
        Ok(MutationMutantRow { name, class })
    }

    pub fn name(&self) -> (res: &str)
        ensures
            res@ == self.name_spec(),
    {
        self.name.as_str()
    }

    pub fn class(&self) -> (res: MutationOutcomeClass)
        ensures
            res == self.class_spec(),
    {
        self.class
    }
}

/// Every count with its denominator: `generated` from the listing pass,
/// `tested` and the per-class counts from the outcomes, `viable` derived.
#[derive(Clone, Copy, Debug, Default, PartialEq, Eq, Structural)]
pub struct MutationCounts {
    pub generated: u32,
    pub tested: u32,
    pub caught: u32,
    pub missed: u32,
    pub timeout: u32,
    pub unviable: u32,
    pub other: u32,
}

/// `x - y`, or 0 when `y` exceeds `x`.
pub open spec fn sat_sub(x: int, y: int) -> int {
    if x >= y {
        x - y
    } else {
        0
    }
}

/// Mutants that actually built and ran.
pub open spec fn viable_spec(c: MutationCounts) -> int {
    sat_sub(sat_sub(sat_sub(c.tested as int, c.unviable as int), c.timeout as int), c.other as int)
}

/// The class counts add up to the tested count, which the generated count bounds.
pub open spec fn consistent_spec(c: MutationCounts) -> bool {
    c.caught + c.missed + c.timeout + c.unviable + c.other == c.tested && c.tested <= c.generated
}

/// A complete, consistent set in which every viable mutant was caught.
pub open spec fn clean_spec(c: MutationCounts) -> bool {
    &&& consistent_spec(c)
    &&& c.generated > 0
    &&& c.tested == c.generated
    &&& c.missed == 0
    &&& c.timeout == 0
    &&& c.unviable == 0
    &&& c.other == 0
    &&& viable_spec(c) > 0
    &&& c.caught == viable_spec(c)
}

impl MutationCounts {
    pub fn viable(&self) -> (res: u32)
        ensures
            res == viable_spec(*self),
    {
        self.tested.saturating_sub(self.unviable).saturating_sub(self.timeout).saturating_sub(
            self.other,
        )
    }

    pub fn consistent(&self) -> (res: bool)
        ensures
            res == consistent_spec(*self),
    {
        let accounted = self.caught as u64 + self.missed as u64 + self.timeout as u64
            + self.unviable as u64 + self.other as u64;
        accounted == self.tested as u64 && self.tested <= self.generated
    }

    pub fn clean(&self) -> (res: bool)
        ensures
            res == clean_spec(*self),
    {
        self.consistent() && self.generated > 0 && self.tested == self.generated && self.missed
            == 0 && self.timeout == 0 && self.unviable == 0 && self.other == 0 && self.viable()
            > 0 && self.caught == self.viable()
    }
}

/// A clean set is exactly a complete set where every generated mutant was caught.
pub proof fn law_clean_means_all_caught(c: MutationCounts)
    ensures
        clean_spec(c) <==> (c.generated > 0 && c.tested == c.generated && c.caught == c.generated
            && c.missed == 0 && c.timeout == 0 && c.unviable == 0 && c.other == 0),
{
}

/// Outcome of the mandatory baseline scenario.
#[derive(Clone, Copy, Debug, PartialEq, Eq, Structural)]
pub enum MutationBaseline {
    Passed,
    Failed,
    /// No baseline scenario appeared. Never treated as pass.
    Missing,
}

/// Guest-side identity recorded by the tool; host-shaped values are redacted.
#[derive(Clone, Copy, Debug, PartialEq, Eq, Structural)]
pub enum MutationGuestIdentity {
    Guest,
    Redacted,
    Unavailable,
}

/// Classification of `cargo-mutants` exit codes; `Uncalibrated` is the
/// fail-closed catch-all.
#[derive(Clone, Copy, Debug, PartialEq, Eq, Structural)]
pub enum MutationExit {
    Success,
    Usage,
    Missed,
    Timeout,
    BaselineFailed,
    Diff,
    Internal,
    Uncalibrated,
}

/// The class of each exit code.
pub open spec fn mutation_exit_of(code: i32) -> MutationExit {
    if code == 0 {
        MutationExit::Success
    } else if code == 1 {
        MutationExit::Usage
    } else if code == 2 {
        MutationExit::Missed
    } else if code == 3 {
        MutationExit::Timeout
    } else if code == 4 {
        MutationExit::BaselineFailed
    } else if code == 5 || code == 6 {
        MutationExit::Diff
    } else if code == 70 {
        MutationExit::Internal
    } else {
        MutationExit::Uncalibrated
    }
}

impl MutationExit {
    /// Pinned by calibration; structured evidence remains the authoritative oracle.
    pub const CALIBRATED: bool = true;

    pub fn classify(code: i32) -> (res: Self)
        ensures
            res == mutation_exit_of(code),
    {
        match code {
            0 => MutationExit::Success,
            1 => MutationExit::Usage,
            2 => MutationExit::Missed,
            3 => MutationExit::Timeout,
            4 => MutationExit::BaselineFailed,
            5 | 6 => MutationExit::Diff,
            70 => MutationExit::Internal,
            _ => MutationExit::Uncalibrated,
        }
    }
}

} // verus!
