//! Validated coverage accounting. Percentages are unrepresentable when their
//! denominator is zero.
use vstd::prelude::*;
use vstd::std_specs::convert::TryFromSpecImpl;
use crate::check::{opt_view, selection_valid, string_views, CheckOptions, CheckSelection, InvalidCheckOptions};

verus! {

pub const COVERAGE_DEFAULT_TIMEOUT_SECONDS: u64 = 300;
pub const COVERAGE_MAX_TIMEOUT_SECONDS: u64 = 3_600;
pub const COVERAGE_MAX_FILE_ROWS: usize = 128;

#[derive(Clone, Copy, Debug, PartialEq, Eq, Structural)]
pub enum CoverageReportFormat {
    Json,
    Lcov,
    Html,
}

/// A caller's coverage selection, before validation; a zero timeout means the default.
#[derive(Clone, Debug, Default)]
pub struct CoverageSelection {
    pub package: Option<String>,
    pub workspace: bool,
    pub features: Vec<String>,
    pub all_features: bool,
    pub no_default_features: bool,
    pub target: Option<String>,
    pub timeout_seconds: u64,
}

/// The Cargo part of a coverage selection.
pub open spec fn coverage_cargo_part(v: CoverageSelection) -> CheckSelection {
    CheckSelection {
        package: v.package,
        workspace: v.workspace,
        features: v.features,
        all_features: v.all_features,
        no_default_features: v.no_default_features,
        all_targets: false,
        target: v.target,
    }
}

/// The effective timeout: the default when none was asked for.
pub open spec fn effective_timeout(requested: u64) -> u64 {
    if requested == 0 {
        COVERAGE_DEFAULT_TIMEOUT_SECONDS
    } else {
        requested
    }
}

/// A validated coverage command.
#[derive(Clone, Debug, PartialEq, Eq)]
pub struct CoverageOptions {
    cargo: CheckOptions,
    timeout_seconds: u64,
}

impl CoverageOptions {
    pub closed spec fn cargo_spec(&self) -> CheckOptions {
        self.cargo
    }

    pub closed spec fn timeout_spec(&self) -> u64 {
        self.timeout_seconds
    }

    pub fn from_selection(value: CoverageSelection) -> (res: Result<Self, InvalidCheckOptions>)
        ensures
            res is Ok <==> (effective_timeout(value.timeout_seconds) <= COVERAGE_MAX_TIMEOUT_SECONDS
                && selection_valid(coverage_cargo_part(value))),
            res matches Ok(o) ==> o.cargo_spec().validates(coverage_cargo_part(value))
                && o.timeout_spec() == effective_timeout(value.timeout_seconds),
    {
        let timeout_seconds = if value.timeout_seconds == 0 {
            COVERAGE_DEFAULT_TIMEOUT_SECONDS
        } else {
            value.timeout_seconds
        };
        if timeout_seconds > COVERAGE_MAX_TIMEOUT_SECONDS || (value.package.is_some()
            && value.workspace) {
            return Err(InvalidCheckOptions);
        }
        let cargo = CheckOptions::from_selection(
            CheckSelection {
                package: value.package,
                workspace: value.workspace,
                features: value.features,
                all_features: value.all_features,
                no_default_features: value.no_default_features,
                all_targets: false,
                target: value.target,
            },
        )?;
        Ok(CoverageOptions { cargo, timeout_seconds })
    }

    pub fn package(&self) -> (res: Option<&str>)
        ensures
            match res {
                Some(p) => self.cargo_spec().package_spec() == Some(p@),
                None => self.cargo_spec().package_spec() is None,
            },
    {
        self.cargo.package()
    }

    pub fn workspace(&self) -> (res: bool)
        ensures
            res == self.cargo_spec().workspace_spec(),
    {
        self.cargo.workspace()
    }

    pub fn features(&self) -> (res: &[String])
        ensures
            string_views(res@) == self.cargo_spec().features_spec(),
    {
        self.cargo.features()
    }

    pub fn all_features(&self) -> (res: bool)
        ensures
            res == self.cargo_spec().all_features_spec(),
    {
        self.cargo.all_features()
    }

    pub fn no_default_features(&self) -> (res: bool)
        ensures
            res == self.cargo_spec().no_default_features_spec(),
    {
        self.cargo.no_default_features()
    }

    pub fn target(&self) -> (res: Option<&str>)
        ensures
            match res {
                Some(t) => self.cargo_spec().target_spec() == Some(t@),
                None => self.cargo_spec().target_spec() is None,
            },
    {
        self.cargo.target()
    }

    pub fn timeout_seconds(&self) -> (res: u64)
        ensures
            res == self.timeout_spec(),
    {
        self.timeout_seconds
    }
}

impl std::convert::TryFrom<CoverageSelection> for CoverageOptions {
    type Error = InvalidCheckOptions;

    fn try_from(value: CoverageSelection) -> (res: Result<Self, InvalidCheckOptions>)
        ensures
            res is Ok <==> (effective_timeout(value.timeout_seconds) <= COVERAGE_MAX_TIMEOUT_SECONDS
                && selection_valid(coverage_cargo_part(value))),
            res matches Ok(o) ==> o.cargo_spec().validates(coverage_cargo_part(value))
                && o.timeout_spec() == effective_timeout(value.timeout_seconds),
    {
        CoverageOptions::from_selection(value)
    }
}

/// The conversion is [`CoverageOptions::from_selection`]; `try_from` states its
/// result in its own `ensures`, and no single value is named here.
impl TryFromSpecImpl<CoverageSelection> for CoverageOptions {
    open spec fn obeys_try_from_spec() -> bool {
        false
    }

    open spec fn try_from_spec(value: CoverageSelection) -> Result<Self, InvalidCheckOptions> {
        Err(InvalidCheckOptions)
    }
}

#[derive(Clone, Copy, Debug, PartialEq, Eq, Structural)]
pub struct InvalidCoverageMetric;

impl InvalidCoverageMetric {
    /// The text shown for this refusal.
    pub fn message(&self) -> (res: &'static str)
        ensures
            res@ == "invalid coverage metric"@,
    {
        "invalid coverage metric"
    }
}

/// A non-zero coverage denominator with its covered count and percentage in
/// millionths of a percent.
#[derive(Clone, Copy, Debug, PartialEq, Eq, Structural)]
pub struct CoverageMetric {
    pub count: u64,
    pub covered: u64,
    pub percent_millionths: u32,
}

/// What `CoverageMetric::new` answers for `count` and `covered`.
pub open spec fn metric_spec(count: u64, covered: u64) -> Result<Option<CoverageMetric>, InvalidCoverageMetric> {
    if count == 0 {
        if covered == 0 {
            Ok(None)
        } else {
            Err(InvalidCoverageMetric)
        }
    } else if covered > count || covered * 100_000_000 > u64::MAX {
        Err(InvalidCoverageMetric)
    } else {
        Ok(
            Some(
                CoverageMetric {
                    count,
                    covered,
                    percent_millionths: ((covered * 100_000_000) / (count as int)) as u32,
                },
            ),
        )
    }
}

impl CoverageMetric {
    /// A scope with no executable items is `None`, never a percentage.
    pub fn new(count: u64, covered: u64) -> (res: Result<Option<Self>, InvalidCoverageMetric>)
        ensures
            res == metric_spec(count, covered),
    {
        if count == 0 {
            return if covered == 0 {
                Ok(None)
            } else {
                Err(InvalidCoverageMetric)
            };
        }
        if covered > count {
            return Err(InvalidCoverageMetric);
        }
        let scaled = match covered.checked_mul(100_000_000) {
            Some(v) => v,
            None => return Err(InvalidCoverageMetric),
        };
        let percent = scaled / count;
        assert(percent <= 100_000_000) by (nonlinear_arith)
            requires
                percent == scaled / count,
                scaled == covered * 100_000_000,
                covered <= count,
                count > 0,
        ;
        Ok(Some(CoverageMetric { count, covered, percent_millionths: percent as u32 }))
    }
}

/// A percentage never exceeds one hundred.
pub proof fn law_percentage_at_most_one_hundred(count: u64, covered: u64)
    requires
        metric_spec(count, covered) matches Ok(Some(_)),
    ensures
        metric_spec(count, covered)->Ok_0->Some_0.percent_millionths <= 100_000_000,
{
    let scaled = covered * 100_000_000;
    assert(scaled / (count as int) <= 100_000_000) by (nonlinear_arith)
        requires
            scaled == covered * 100_000_000,
            covered <= count,
            count > 0,
    ;
}

#[derive(Clone, Debug, Default, PartialEq, Eq)]
pub struct CoverageMetrics {
    pub lines: Option<CoverageMetric>,
    pub regions: Option<CoverageMetric>,
    pub functions: Option<CoverageMetric>,
}

impl CoverageMetrics {
    pub fn new(lines: (u64, u64), regions: (u64, u64), functions: (u64, u64)) -> (res: Result<
        Self,
        InvalidCoverageMetric,
    >)
        ensures
            res is Ok <==> metric_spec(lines.0, lines.1) is Ok && metric_spec(regions.0, regions.1) is Ok
                && metric_spec(functions.0, functions.1) is Ok,
            res matches Ok(m) ==> m.lines == metric_spec(lines.0, lines.1)->Ok_0 && m.regions
                == metric_spec(regions.0, regions.1)->Ok_0 && m.functions == metric_spec(
                functions.0,
                functions.1,
            )->Ok_0,
    {
        let lines = CoverageMetric::new(lines.0, lines.1)?;
        let regions = CoverageMetric::new(regions.0, regions.1)?;
        let functions = CoverageMetric::new(functions.0, functions.1)?;
        Ok(CoverageMetrics { lines, regions, functions })
    }
}

#[derive(Clone, Debug, PartialEq, Eq)]
pub struct CoverageFile {
    pub path: String,
    pub package: String,
    pub metrics: CoverageMetrics,
}

#[derive(Clone, Debug, PartialEq, Eq)]
pub struct CoveragePackage {
    pub name: String,
    pub metrics: CoverageMetrics,
}

#[derive(Clone, Debug, PartialEq, Eq)]
pub struct CoverageSummary {
    pub aggregate: CoverageMetrics,
    pub packages: Vec<CoveragePackage>,
    pub files: Vec<CoverageFile>,
    pub files_omitted: u64,
}

} // verus!
