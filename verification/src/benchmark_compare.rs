//! The frozen method for comparing two benchmark datasets: its integer
//! constants, its closed vocabularies, the deterministic pseudo-random stream
//! the resampling draws from, the family-size rule and the compatibility check
//! that decides whether two datasets may be compared at all. Every function here
//! is a pure function of its arguments.
use vstd::prelude::*;
use crate::benchmark::{
    benchmark_error_message, same_identity, BenchmarkError, MeasurementCompleteness, BenchmarkHarness, BenchmarkIdentity, BenchmarkProvenance, BenchmarkSelection,
    HardwareProfile, SampleUnit, SamplingMode, Virtualization, BENCHMARK_DATASET_FORMAT,
    BENCHMARK_DATASET_FORMAT_VERSION,
};
use crate::check::{opt_view, string_views, strictly_ascending};
use crate::crate_search::{decimal, push_decimal};
use crate::text::{chars_of, string_from_chars, lemma_str_lt_irreflexive, lemma_str_lt_total, lemma_str_lt_transitive, owned, str_eq, str_less, str_lt};
use vstd::string::StringSliceAdditionalSpecFns;

verus! {

/// Wire identity of the comparison method.
pub const COMPARISON_METHOD: &'static str = "rust-engineering-mcp.benchmark-comparison.v2";

/// Bootstrap resamples per benchmark.
pub const BOOTSTRAP_RESAMPLES: u32 = 10_000;

/// Resampled ratios that must fall beyond an interval endpoint for it to lie
/// inside the bootstrap distribution.
pub const MIN_TAIL_RESAMPLES: u32 = 10;

/// The largest family of benchmarks for which an interval is claimed.
pub const MAX_RESOLVABLE_FAMILY_SIZE: u32 = 25;

/// Fixed root seed of every resampling stream.
pub const BOOTSTRAP_SEED: u64 = 0x0005_EEDB_0075_7241u64;

/// Executions each side must pool before any direction is admissible.
pub const MIN_EXECUTIONS_FOR_DIRECTION: usize = 3;

/// Whether the method is qualified to turn two measurements into a direction.
/// It is not.
pub const METHOD_QUALIFIED_FOR_DIRECTION: bool = false;

/// Below this many samples on either side no interval is claimed.
pub const MIN_SAMPLES_FOR_INFERENCE: usize = 10;

/// The single statistic compared.
#[derive(Clone, Copy, Debug, PartialEq, Eq, Structural)]
pub enum ComparisonStatistic {
    MedianPerIterationNanoseconds,
}

/// What the two measurements show under this method.
#[derive(Clone, Copy, Debug, PartialEq, Eq, Structural)]
pub enum ComparisonVerdict {
    Regression,
    Improvement,
    NoMaterialChange,
    Inconclusive,
}

/// Why two datasets may not be compared at all; reported sorted and
/// deduplicated, in declaration order.
#[derive(Clone, Copy, Debug, PartialEq, Eq, PartialOrd, Ord, Hash, Structural)]
pub enum IncompatibilityReason {
    FormatVersion,
    Unit,
    Harness,
    HarnessVersion,
    /// The same benchmark key carries a different identity on the two sides.
    BenchmarkIdentity,
    RustVersion,
    CargoVersion,
    RuntimeImage,
    Platform,
    Configuration,
    Architecture,
    CpuModel,
    CpuCores,
    OsKernel,
    CpuGovernor,
    Virtualization,
    Quotas,
    Selection,
    SamplingMode,
    /// A required descriptor is unknown on exactly one side.
    UnknownHardware,
    /// Both sides are the same execution.
    SameArtifact,
}

/// Why a verdict was withheld for one benchmark.
#[derive(Clone, Copy, Debug, PartialEq, Eq, PartialOrd, Ord, Hash, Structural)]
pub enum InconclusiveReason {
    InsufficientSamples,
    PrecisionBelowThreshold,
    IntervalSpansThreshold,
    ZeroOrNegativeBaseline,
    MissingMeasurement,
    TruncatedMeasurement,
    InsufficientExecutions,
    DegenerateDispersion,
    FamilyBeyondResolution,
    MethodUnqualified,
    UnobservableHardware,
}

/// Multiplicity correction of one report's family of benchmarks.
#[derive(Clone, Copy, Debug, PartialEq, Eq, Structural)]
pub enum MultiplicityCorrection {
    /// A family of one benchmark needs no correction.
    NoCorrection,
    /// Applied to every family larger than one.
    Bonferroni,
}

/// Outliers are counted and reported, never removed.
#[derive(Clone, Copy, Debug, PartialEq, Eq, Structural)]
pub enum OutlierPolicy {
    ReportedNotRemoved,
}

// ---------------------------------------------------------------------------
// Family size
// ---------------------------------------------------------------------------

/// The family size a report is corrected for: never below one.
pub open spec fn effective_family(n: u32) -> u32 {
    if n < 1 {
        1
    } else {
        n
    }
}

/// The family size the frozen method uses for `family_size` benchmarks.
pub fn frozen_family_size(family_size: u32) -> (res: u32)
    ensures
        res == effective_family(family_size),
{
    if family_size < 1 {
        1
    } else {
        family_size
    }
}

/// Bonferroni applies to every family larger than one.
pub fn multiplicity_for(family_size: u32) -> (res: MultiplicityCorrection)
    ensures
        res == MultiplicityCorrection::Bonferroni <==> effective_family(family_size) > 1,
        res == MultiplicityCorrection::NoCorrection <==> effective_family(family_size) == 1,
{
    if frozen_family_size(family_size) > 1 {
        MultiplicityCorrection::Bonferroni
    } else {
        MultiplicityCorrection::NoCorrection
    }
}

/// Whether the fixed resample budget can place an interval endpoint inside the
/// bootstrap distribution for this family.
pub fn resolves_family(family_size: u32) -> (res: bool)
    ensures
        res == (effective_family(family_size) <= MAX_RESOLVABLE_FAMILY_SIZE),
{
    frozen_family_size(family_size) <= MAX_RESOLVABLE_FAMILY_SIZE
}

/// The published limit is what the resample budget gives: at the largest
/// resolvable family `n`, the `BOOTSTRAP_RESAMPLES * (25 / 1000) / n`
/// resampled ratios beyond each endpoint of a Bonferroni-corrected 95%
/// interval are at least `MIN_TAIL_RESAMPLES`, and at `n + 1` they are fewer.
pub proof fn law_resolvable_family_matches_the_resample_budget()
    ensures
        BOOTSTRAP_RESAMPLES * 25 >= MIN_TAIL_RESAMPLES * 1000 * MAX_RESOLVABLE_FAMILY_SIZE,
        BOOTSTRAP_RESAMPLES * 25 < MIN_TAIL_RESAMPLES * 1000 * (MAX_RESOLVABLE_FAMILY_SIZE + 1),
{
}

// ---------------------------------------------------------------------------
// Deterministic pseudo-random source
// ---------------------------------------------------------------------------

/// The SplitMix64 increment.
pub const SPLITMIX_GAMMA: u64 = 0x9E37_79B9_7F4A_7C15;

/// FNV-1a offset basis and prime.
pub const FNV_OFFSET_BASIS: u64 = 0xcbf2_9ce4_8422_2325;

pub const FNV_PRIME: u64 = 0x0000_0100_0000_01B3;

/// The SplitMix64 output for an advanced state.
pub open spec fn splitmix_output(s: u64) -> u64 {
    let z1 = (s ^ (s >> 30u64)).wrapping_mul(0xBF58_476D_1CE4_E5B9u64);
    let z2 = (z1 ^ (z1 >> 27u64)).wrapping_mul(0x94D0_49BB_1331_11EBu64);
    z2 ^ (z2 >> 31u64)
}

/// FNV-1a over `bytes`.
pub open spec fn fnv1a(bytes: Seq<u8>) -> u64
    decreases bytes.len(),
{
    if bytes.len() == 0 {
        FNV_OFFSET_BASIS
    } else {
        (fnv1a(bytes.drop_last()) ^ (bytes.last() as u64)).wrapping_mul(FNV_PRIME)
    }
}

/// SplitMix64: a fixed arithmetic sequence, not entropy.
#[derive(Clone, Debug)]
pub struct SplitMix64 {
    state: u64,
}

impl SplitMix64 {
    pub closed spec fn state_spec(&self) -> u64 {
        self.state
    }

    pub fn new(seed: u64) -> (res: Self)
        ensures
            res.state_spec() == seed,
    {
        SplitMix64 { state: seed }
    }

    /// The root seed mixed with the benchmark key, so each benchmark draws
    /// its own stream whatever its position in the report.
    pub fn for_benchmark(key: &str) -> (res: Self)
        ensures
            res.state_spec() == BOOTSTRAP_SEED ^ fnv1a(key.spec_bytes()),
    {
        let bytes = key.as_bytes();
        let mut hash: u64 = FNV_OFFSET_BASIS;
        let mut i: usize = 0;
        while i < bytes.len()
            invariant
                i <= bytes@.len(),
                hash == fnv1a(bytes@.take(i as int)),
            decreases bytes.len() - i,
        {
            assert(bytes@.take(i + 1).drop_last() =~= bytes@.take(i as int));
            hash = (hash ^ (bytes[i] as u64)).wrapping_mul(FNV_PRIME);
            i = i + 1;
        }
        assert(bytes@.take(bytes@.len() as int) =~= bytes@);
        SplitMix64::new(BOOTSTRAP_SEED ^ hash)
    }

    pub fn next_u64(&mut self) -> (res: u64)
        ensures
            final(self).state_spec() == old(self).state_spec().wrapping_add(SPLITMIX_GAMMA),
            res == splitmix_output(final(self).state_spec()),
    {
        self.state = self.state.wrapping_add(SPLITMIX_GAMMA);
        let mut z = self.state;
        z = (z ^ (z >> 30u64)).wrapping_mul(0xBF58_476D_1CE4_E5B9u64);
        z = (z ^ (z >> 27u64)).wrapping_mul(0x94D0_49BB_1331_11EBu64);
        z ^ (z >> 31u64)
    }

    /// An index in `0..bound` by multiply-shift; `0` for an empty range, and
    /// then the stream does not advance.
    pub fn index(&mut self, bound: usize) -> (res: usize)
        ensures
            bound == 0 ==> res == 0 && final(self).state_spec() == old(self).state_spec(),
            bound > 0 ==> {
                &&& final(self).state_spec() == old(self).state_spec().wrapping_add(SPLITMIX_GAMMA)
                &&& res == (splitmix_output(final(self).state_spec()) as int) * (bound as int)
                    / 0x1_0000_0000_0000_0000int
                &&& res < bound
            },
    {
        if bound == 0 {
            return 0;
        }
        let x = self.next_u64();
        assert((x as int) * (bound as int) < 0x1_0000_0000_0000_0000_0000_0000_0000_0000int) by (nonlinear_arith)
            requires
                x < 0x1_0000_0000_0000_0000int,
                bound < 0x1_0000_0000_0000_0000int,
        ;
        let product: u128 = (x as u128) * (bound as u128);
        let shifted: u128 = product / 0x1_0000_0000_0000_0000u128;
        assert(shifted < bound) by (nonlinear_arith)
            requires
                product == (x as int) * (bound as int),
                shifted == (product as int) / 0x1_0000_0000_0000_0000int,
                x < 0x1_0000_0000_0000_0000int,
                bound > 0,
        ;
        shifted as usize
    }
}

// ---------------------------------------------------------------------------
// Compatibility
// ---------------------------------------------------------------------------

/// Exactly the provenance the compatibility check reads, for one side.
#[derive(Clone, Debug, PartialEq, Eq)]
pub struct ComparedProvenance {
    pub format: String,
    pub format_version: u8,
    pub unit: SampleUnit,
    pub harness: BenchmarkHarness,
    pub harness_version: String,
    pub rust_version: String,
    pub cargo_version: String,
    pub image_digest: String,
    pub platform: String,
    pub configuration_fingerprint: String,
    pub execution_fingerprint: String,
    pub selection: BenchmarkSelection,
    pub hardware: HardwareProfile,
}

impl ComparedProvenance {
    /// Projects one dataset: its format, version and unit, and the consulted
    /// fields of its provenance. Copies only; an unknown field stays absent.
    pub fn of(format: String, format_version: u8, unit: SampleUnit, provenance: BenchmarkProvenance) -> (res: Self)
        ensures
            res.format == format,
            res.format_version == format_version,
            res.unit == unit,
            res.harness == provenance.harness,
            res.harness_version == provenance.harness_version,
            res.rust_version == provenance.rust_version,
            res.cargo_version == provenance.cargo_version,
            res.image_digest == provenance.image_digest,
            res.platform == provenance.platform,
            res.configuration_fingerprint == provenance.configuration_fingerprint,
            res.execution_fingerprint == provenance.execution_fingerprint,
            res.selection == provenance.selection,
            res.hardware == provenance.hardware,
    {
        ComparedProvenance {
            format,
            format_version,
            unit,
            harness: provenance.harness,
            harness_version: provenance.harness_version,
            rust_version: provenance.rust_version,
            cargo_version: provenance.cargo_version,
            image_digest: provenance.image_digest,
            platform: provenance.platform,
            configuration_fingerprint: provenance.configuration_fingerprint,
            execution_fingerprint: provenance.execution_fingerprint,
            selection: provenance.selection,
            hardware: provenance.hardware,
        }
    }
}

/// How two observations of one descriptor relate.
#[derive(Clone, Copy, Debug, PartialEq, Eq, Structural)]
pub enum Agreement {
    Equal,
    Different,
    OneSideUnknown,
    NeitherObserved,
}

/// The agreement of two optional observations, given whether they are equal
/// when both are present.
pub open spec fn agreement_of(left_known: bool, right_known: bool, equal: bool) -> Agreement {
    if left_known && right_known {
        if equal {
            Agreement::Equal
        } else {
            Agreement::Different
        }
    } else if !left_known && !right_known {
        Agreement::NeitherObserved
    } else {
        Agreement::OneSideUnknown
    }
}

pub open spec fn opt_text_agreement(a: Option<String>, b: Option<String>) -> Agreement {
    agreement_of(a is Some, b is Some, opt_view(a) == opt_view(b))
}

pub open spec fn cores_agreement(a: Option<u16>, b: Option<u16>) -> Agreement {
    agreement_of(a is Some, b is Some, a == b)
}

/// `Unknown` is virtualization's absent value.
pub open spec fn virtualization_agreement(a: Virtualization, b: Virtualization) -> Agreement {
    agreement_of(a != Virtualization::Unknown, b != Virtualization::Unknown, a == b)
}

/// The four hardware descriptors that take the three-way treatment, and
/// virtualization, in order.
pub open spec fn descriptors(l: HardwareProfile, r: HardwareProfile) -> Seq<Agreement> {
    seq![
        opt_text_agreement(l.cpu_model, r.cpu_model),
        cores_agreement(l.cpu_cores, r.cpu_cores),
        opt_text_agreement(l.os_kernel, r.os_kernel),
        opt_text_agreement(l.cpu_governor, r.cpu_governor),
        virtualization_agreement(l.virtualization, r.virtualization),
    ]
}

/// Two selections are the same selection.
pub open spec fn same_selection(a: BenchmarkSelection, b: BenchmarkSelection) -> bool {
    &&& opt_view(a.package) == opt_view(b.package)
    &&& opt_view(a.bench_target) == opt_view(b.bench_target)
    &&& string_views(a.features@) == string_views(b.features@)
    &&& a.all_features == b.all_features
    &&& a.no_default_features == b.no_default_features
    &&& a.profile@ == b.profile@
}

/// Whether `r` holds between the two sides at the dataset level.
/// `source_fingerprint` and `declared_toolchain` are never consulted: the
/// sides are expected to be different code, and the toolchain that measured is
/// the Rust and Cargo version.
pub open spec fn dataset_reason_applies(b: ComparedProvenance, c: ComparedProvenance, r: IncompatibilityReason) -> bool {
    let d = descriptors(b.hardware, c.hardware);
    match r {
        IncompatibilityReason::FormatVersion => b.format@ != c.format@ || b.format@
            != BENCHMARK_DATASET_FORMAT@ || b.format_version != c.format_version
            || b.format_version != BENCHMARK_DATASET_FORMAT_VERSION,
        IncompatibilityReason::Unit => b.unit != c.unit,
        IncompatibilityReason::Harness => b.harness != c.harness,
        IncompatibilityReason::HarnessVersion => b.harness_version@ != c.harness_version@,
        IncompatibilityReason::BenchmarkIdentity => false,
        IncompatibilityReason::RustVersion => b.rust_version@ != c.rust_version@,
        IncompatibilityReason::CargoVersion => b.cargo_version@ != c.cargo_version@,
        IncompatibilityReason::RuntimeImage => b.image_digest@ != c.image_digest@,
        IncompatibilityReason::Platform => b.platform@ != c.platform@,
        IncompatibilityReason::Configuration => b.configuration_fingerprint@
            != c.configuration_fingerprint@,
        IncompatibilityReason::Architecture => b.hardware.arch@ != c.hardware.arch@,
        IncompatibilityReason::CpuModel => d[0] == Agreement::Different,
        IncompatibilityReason::CpuCores => d[1] == Agreement::Different,
        IncompatibilityReason::OsKernel => d[2] == Agreement::Different,
        IncompatibilityReason::CpuGovernor => d[3] == Agreement::Different,
        IncompatibilityReason::Virtualization => d[4] == Agreement::Different,
        IncompatibilityReason::Quotas => b.hardware.quotas != c.hardware.quotas,
        IncompatibilityReason::Selection => !same_selection(b.selection, c.selection),
        IncompatibilityReason::SamplingMode => false,
        IncompatibilityReason::UnknownHardware => d.contains(Agreement::OneSideUnknown),
        IncompatibilityReason::SameArtifact => b.execution_fingerprint@ == c.execution_fingerprint@,
    }
}

/// A required descriptor was readable on neither side: no refusal, but no
/// direction may be read.
pub open spec fn unobservable_hardware(b: ComparedProvenance, c: ComparedProvenance) -> bool {
    descriptors(b.hardware, c.hardware).contains(Agreement::NeitherObserved)
}

/// The position of a reason in declaration order.
pub open spec fn reason_rank(r: IncompatibilityReason) -> nat {
    match r {
        IncompatibilityReason::FormatVersion => 0,
        IncompatibilityReason::Unit => 1,
        IncompatibilityReason::Harness => 2,
        IncompatibilityReason::HarnessVersion => 3,
        IncompatibilityReason::BenchmarkIdentity => 4,
        IncompatibilityReason::RustVersion => 5,
        IncompatibilityReason::CargoVersion => 6,
        IncompatibilityReason::RuntimeImage => 7,
        IncompatibilityReason::Platform => 8,
        IncompatibilityReason::Configuration => 9,
        IncompatibilityReason::Architecture => 10,
        IncompatibilityReason::CpuModel => 11,
        IncompatibilityReason::CpuCores => 12,
        IncompatibilityReason::OsKernel => 13,
        IncompatibilityReason::CpuGovernor => 14,
        IncompatibilityReason::Virtualization => 15,
        IncompatibilityReason::Quotas => 16,
        IncompatibilityReason::Selection => 17,
        IncompatibilityReason::SamplingMode => 18,
        IncompatibilityReason::UnknownHardware => 19,
        IncompatibilityReason::SameArtifact => 20,
    }
}

/// Every reason, in declaration order.
pub open spec fn all_reasons() -> Seq<IncompatibilityReason> {
    seq![
        IncompatibilityReason::FormatVersion,
        IncompatibilityReason::Unit,
        IncompatibilityReason::Harness,
        IncompatibilityReason::HarnessVersion,
        IncompatibilityReason::BenchmarkIdentity,
        IncompatibilityReason::RustVersion,
        IncompatibilityReason::CargoVersion,
        IncompatibilityReason::RuntimeImage,
        IncompatibilityReason::Platform,
        IncompatibilityReason::Configuration,
        IncompatibilityReason::Architecture,
        IncompatibilityReason::CpuModel,
        IncompatibilityReason::CpuCores,
        IncompatibilityReason::OsKernel,
        IncompatibilityReason::CpuGovernor,
        IncompatibilityReason::Virtualization,
        IncompatibilityReason::Quotas,
        IncompatibilityReason::Selection,
        IncompatibilityReason::SamplingMode,
        IncompatibilityReason::UnknownHardware,
        IncompatibilityReason::SameArtifact,
    ]
}

/// Sorted in declaration order, with no reason twice.
pub open spec fn canonical(rs: Seq<IncompatibilityReason>) -> bool {
    forall|i: int, j: int| 0 <= i < j < rs.len() ==> reason_rank(#[trigger] rs[i]) < reason_rank(#[trigger] rs[j])
}

fn rank_of(r: IncompatibilityReason) -> (res: usize)
    ensures
        res == reason_rank(r),
{
    match r {
        IncompatibilityReason::FormatVersion => 0,
        IncompatibilityReason::Unit => 1,
        IncompatibilityReason::Harness => 2,
        IncompatibilityReason::HarnessVersion => 3,
        IncompatibilityReason::BenchmarkIdentity => 4,
        IncompatibilityReason::RustVersion => 5,
        IncompatibilityReason::CargoVersion => 6,
        IncompatibilityReason::RuntimeImage => 7,
        IncompatibilityReason::Platform => 8,
        IncompatibilityReason::Configuration => 9,
        IncompatibilityReason::Architecture => 10,
        IncompatibilityReason::CpuModel => 11,
        IncompatibilityReason::CpuCores => 12,
        IncompatibilityReason::OsKernel => 13,
        IncompatibilityReason::CpuGovernor => 14,
        IncompatibilityReason::Virtualization => 15,
        IncompatibilityReason::Quotas => 16,
        IncompatibilityReason::Selection => 17,
        IncompatibilityReason::SamplingMode => 18,
        IncompatibilityReason::UnknownHardware => 19,
        IncompatibilityReason::SameArtifact => 20,
    }
}

fn reasons_in_order() -> (res: Vec<IncompatibilityReason>)
    ensures
        res@ == all_reasons(),
{
    vec![
        IncompatibilityReason::FormatVersion,
        IncompatibilityReason::Unit,
        IncompatibilityReason::Harness,
        IncompatibilityReason::HarnessVersion,
        IncompatibilityReason::BenchmarkIdentity,
        IncompatibilityReason::RustVersion,
        IncompatibilityReason::CargoVersion,
        IncompatibilityReason::RuntimeImage,
        IncompatibilityReason::Platform,
        IncompatibilityReason::Configuration,
        IncompatibilityReason::Architecture,
        IncompatibilityReason::CpuModel,
        IncompatibilityReason::CpuCores,
        IncompatibilityReason::OsKernel,
        IncompatibilityReason::CpuGovernor,
        IncompatibilityReason::Virtualization,
        IncompatibilityReason::Quotas,
        IncompatibilityReason::Selection,
        IncompatibilityReason::SamplingMode,
        IncompatibilityReason::UnknownHardware,
        IncompatibilityReason::SameArtifact,
    ]
}

proof fn lemma_all_reasons()
    ensures
        all_reasons().len() == 21,
        forall|k: int| 0 <= k < 21 ==> reason_rank(#[trigger] all_reasons()[k]) == k,
        forall|r: IncompatibilityReason| #[trigger] all_reasons()[reason_rank(r) as int] == r,
{
    assert forall|r: IncompatibilityReason| #[trigger] all_reasons()[reason_rank(r) as int] == r by {
        match r {
            IncompatibilityReason::FormatVersion => {},
            _ => {},
        }
    }
}

/// The reasons marked present, in declaration order.
fn emit_present(present: &Vec<bool>) -> (res: Vec<IncompatibilityReason>)
    requires
        present@.len() == 21,
    ensures
        canonical(res@),
        forall|r: IncompatibilityReason| res@.contains(r) <==> present@[reason_rank(r) as int],
{
    let order = reasons_in_order();
    proof {
        lemma_all_reasons();
    }
    let mut out: Vec<IncompatibilityReason> = Vec::new();
    let mut k: usize = 0;
    while k < 21
        invariant
            k <= 21,
            order@ == all_reasons(),
            all_reasons().len() == 21,
            forall|m: int| 0 <= m < 21 ==> reason_rank(#[trigger] all_reasons()[m]) == m,
            present@.len() == 21,
            forall|a: int, b: int| 0 <= a < b < out@.len() ==> reason_rank(#[trigger] out@[a]) < reason_rank(#[trigger] out@[b]),
            forall|a: int| 0 <= a < out@.len() ==> reason_rank(#[trigger] out@[a]) < k,
            forall|a: int| 0 <= a < out@.len() ==> present@[reason_rank(#[trigger] out@[a]) as int],
            forall|m: int| 0 <= m < k && present@[m] ==> out@.contains(#[trigger] all_reasons()[m]),
        decreases 21 - k,
    {
        let ghost prev = out@;
        if present[k] {
            out.push(order[k]);
            proof {
                assert(out@ == prev.push(all_reasons()[k as int]));
                assert forall|m: int| 0 <= m < k + 1 && present@[m] implies out@.contains(
                    #[trigger] all_reasons()[m],
                ) by {
                    if m == k {
                        assert(out@[out@.len() - 1] == all_reasons()[m]);
                    } else {
                        assert(prev.contains(all_reasons()[m]));
                        let idx = choose|idx: int| 0 <= idx < prev.len() && prev[idx] == all_reasons()[m];
                        assert(out@[idx] == all_reasons()[m]);
                    }
                }
            }
        }
        k = k + 1;
    }
    proof {
        assert forall|r: IncompatibilityReason| out@.contains(r) <==> present@[reason_rank(r) as int] by {
            let m = reason_rank(r) as int;
            assert(all_reasons()[m] == r);
            if out@.contains(r) {
                let a = choose|a: int| 0 <= a < out@.len() && out@[a] == r;
                assert(present@[reason_rank(out@[a]) as int]);
            }
        }
    }
    out
}

/// The reasons of `reasons`, sorted in declaration order and deduplicated.
pub fn canonical_reasons(reasons: &[IncompatibilityReason]) -> (res: Vec<IncompatibilityReason>)
    ensures
        canonical(res@),
        forall|r: IncompatibilityReason| res@.contains(r) <==> reasons@.contains(r),
{
    let mut present: Vec<bool> = vec![false; 21];
    let mut i: usize = 0;
    while i < reasons.len()
        invariant
            i <= reasons@.len(),
            present@.len() == 21,
            forall|k: int|
                0 <= k < 21 ==> (#[trigger] present@[k] <==> exists|j: int|
                    0 <= j < i && reason_rank(#[trigger] reasons@[j]) == k),
        decreases reasons.len() - i,
    {
        let k = rank_of(reasons[i]);
        present.set(k, true);
        proof {
            assert forall|m: int| 0 <= m < 21 implies (#[trigger] present@[m] <==> exists|j: int|
                0 <= j < i + 1 && reason_rank(#[trigger] reasons@[j]) == m) by {
                if m == k {
                    assert(reason_rank(reasons@[i as int]) == m);
                } else {
                    if exists|j: int| 0 <= j < i + 1 && reason_rank(#[trigger] reasons@[j]) == m {
                        let j = choose|j: int| 0 <= j < i + 1 && reason_rank(#[trigger] reasons@[j]) == m;
                        assert(j != i);
                    }
                }
            }
        }
        i = i + 1;
    }
    let out = emit_present(&present);
    proof {
        lemma_all_reasons();
        assert forall|r: IncompatibilityReason| out@.contains(r) <==> reasons@.contains(r) by {
            let m = reason_rank(r) as int;
            if present@[m] {
                let j = choose|j: int| 0 <= j < reasons@.len() && reason_rank(#[trigger] reasons@[j]) == m;
                assert(reasons@[j] == all_reasons()[reason_rank(reasons@[j]) as int]);
                assert(reasons@[j] == r);
            }
            if reasons@.contains(r) {
                let j = choose|j: int| 0 <= j < reasons@.len() && reasons@[j] == r;
                assert(reason_rank(reasons@[j]) == m);
            }
        }
    }
    out
}

fn opt_text_agreement_exec(a: &Option<String>, b: &Option<String>) -> (res: Agreement)
    ensures
        res == opt_text_agreement(*a, *b),
{
    match (a, b) {
        (Some(x), Some(y)) => if str_eq(x.as_str(), y.as_str()) {
            Agreement::Equal
        } else {
            Agreement::Different
        },
        (None, None) => Agreement::NeitherObserved,
        _ => Agreement::OneSideUnknown,
    }
}

fn cores_agreement_exec(a: Option<u16>, b: Option<u16>) -> (res: Agreement)
    ensures
        res == cores_agreement(a, b),
{
    match (a, b) {
        (Some(x), Some(y)) => if x == y {
            Agreement::Equal
        } else {
            Agreement::Different
        },
        (None, None) => Agreement::NeitherObserved,
        _ => Agreement::OneSideUnknown,
    }
}

fn virtualization_agreement_exec(a: Virtualization, b: Virtualization) -> (res: Agreement)
    ensures
        res == virtualization_agreement(a, b),
{
    let left = a != Virtualization::Unknown;
    let right = b != Virtualization::Unknown;
    if left && right {
        if a == b {
            Agreement::Equal
        } else {
            Agreement::Different
        }
    } else if !left && !right {
        Agreement::NeitherObserved
    } else {
        Agreement::OneSideUnknown
    }
}

fn opt_str_same(a: &Option<String>, b: &Option<String>) -> (res: bool)
    ensures
        res == (opt_view(*a) == opt_view(*b)),
{
    match (a, b) {
        (Some(x), Some(y)) => str_eq(x.as_str(), y.as_str()),
        (None, None) => true,
        _ => false,
    }
}

fn selection_same(a: &BenchmarkSelection, b: &BenchmarkSelection) -> (res: bool)
    ensures
        res == same_selection(*a, *b),
{
    if !opt_str_same(&a.package, &b.package) || !opt_str_same(&a.bench_target, &b.bench_target)
        || a.all_features != b.all_features || a.no_default_features != b.no_default_features
        || !str_eq(a.profile.as_str(), b.profile.as_str()) {
        return false;
    }
    if a.features.len() != b.features.len() {
        assert(string_views(a.features@).len() != string_views(b.features@).len());
        return false;
    }
    let mut i: usize = 0;
    while i < a.features.len()
        invariant
            a.features@.len() == b.features@.len(),
            i <= a.features@.len(),
            forall|k: int| 0 <= k < i ==> (#[trigger] a.features@[k])@ == b.features@[k]@,
        decreases a.features.len() - i,
    {
        if !str_eq(a.features[i].as_str(), b.features[i].as_str()) {
            assert(string_views(a.features@)[i as int] != string_views(b.features@)[i as int]);
            return false;
        }
        i = i + 1;
    }
    assert(string_views(a.features@) =~= string_views(b.features@));
    true
}

/// The agreements of the five hardware descriptors.
fn descriptor_agreements(l: &HardwareProfile, r: &HardwareProfile) -> (res: Vec<Agreement>)
    ensures
        res@ == descriptors(*l, *r),
{
    let out = vec![
        opt_text_agreement_exec(&l.cpu_model, &r.cpu_model),
        cores_agreement_exec(l.cpu_cores, r.cpu_cores),
        opt_text_agreement_exec(&l.os_kernel, &r.os_kernel),
        opt_text_agreement_exec(&l.cpu_governor, &r.cpu_governor),
        virtualization_agreement_exec(l.virtualization, r.virtualization),
    ];
    assert(out@ =~= descriptors(*l, *r));
    out
}

/// Whether some descriptor has agreement `a`.
fn some_agreement(d: &Vec<Agreement>, a: Agreement) -> (res: bool)
    ensures
        res == d@.contains(a),
{
    let mut i: usize = 0;
    while i < d.len()
        invariant
            i <= d@.len(),
            forall|k: int| 0 <= k < i ==> d@[k] != a,
        decreases d.len() - i,
    {
        if d[i] == a {
            assert(d@[i as int] == a);
            return true;
        }
        i = i + 1;
    }
    false
}

/// Whether `r` holds between the two sides at the dataset level.
fn reason_applies(b: &ComparedProvenance, c: &ComparedProvenance, d: &Vec<Agreement>, r: IncompatibilityReason) -> (res: bool)
    requires
        d@ == descriptors(b.hardware, c.hardware),
    ensures
        res == dataset_reason_applies(*b, *c, r),
{
    proof {
        reveal_strlit("rust-engineering-mcp.benchmark-dataset.v2");
    }
    match r {
        IncompatibilityReason::FormatVersion => !str_eq(b.format.as_str(), c.format.as_str())
            || !str_eq(b.format.as_str(), BENCHMARK_DATASET_FORMAT) || b.format_version
            != c.format_version || b.format_version != BENCHMARK_DATASET_FORMAT_VERSION,
        IncompatibilityReason::Unit => b.unit != c.unit,
        IncompatibilityReason::Harness => b.harness != c.harness,
        IncompatibilityReason::HarnessVersion => !str_eq(b.harness_version.as_str(), c.harness_version.as_str()),
        IncompatibilityReason::BenchmarkIdentity => false,
        IncompatibilityReason::RustVersion => !str_eq(b.rust_version.as_str(), c.rust_version.as_str()),
        IncompatibilityReason::CargoVersion => !str_eq(b.cargo_version.as_str(), c.cargo_version.as_str()),
        IncompatibilityReason::RuntimeImage => !str_eq(b.image_digest.as_str(), c.image_digest.as_str()),
        IncompatibilityReason::Platform => !str_eq(b.platform.as_str(), c.platform.as_str()),
        IncompatibilityReason::Configuration => !str_eq(
            b.configuration_fingerprint.as_str(),
            c.configuration_fingerprint.as_str(),
        ),
        IncompatibilityReason::Architecture => !str_eq(b.hardware.arch.as_str(), c.hardware.arch.as_str()),
        IncompatibilityReason::CpuModel => d[0] == Agreement::Different,
        IncompatibilityReason::CpuCores => d[1] == Agreement::Different,
        IncompatibilityReason::OsKernel => d[2] == Agreement::Different,
        IncompatibilityReason::CpuGovernor => d[3] == Agreement::Different,
        IncompatibilityReason::Virtualization => d[4] == Agreement::Different,
        IncompatibilityReason::Quotas => b.hardware.quotas != c.hardware.quotas,
        IncompatibilityReason::Selection => !selection_same(&b.selection, &c.selection),
        IncompatibilityReason::SamplingMode => false,
        IncompatibilityReason::UnknownHardware => some_agreement(d, Agreement::OneSideUnknown),
        IncompatibilityReason::SameArtifact => str_eq(
            b.execution_fingerprint.as_str(),
            c.execution_fingerprint.as_str(),
        ),
    }
}

/// The dataset-level compatibility of two sides: every reason that applies,
/// sorted and deduplicated, and whether a required descriptor was readable on
/// neither side.
pub fn dataset_compatibility(b: &ComparedProvenance, c: &ComparedProvenance) -> (res: (Vec<IncompatibilityReason>, bool))
    ensures
        canonical(res.0@),
        forall|r: IncompatibilityReason| res.0@.contains(r) <==> dataset_reason_applies(*b, *c, r),
        res.1 == unobservable_hardware(*b, *c),
{
    let d = descriptor_agreements(&b.hardware, &c.hardware);
    let order = reasons_in_order();
    proof {
        lemma_all_reasons();
    }
    let mut flags: Vec<bool> = Vec::new();
    let mut k: usize = 0;
    while k < 21
        invariant
            k <= 21,
            d@ == descriptors(b.hardware, c.hardware),
            order@ == all_reasons(),
            all_reasons().len() == 21,
            flags@.len() == k,
            forall|i: int| 0 <= i < k ==> #[trigger] flags@[i] == dataset_reason_applies(*b, *c, all_reasons()[i]),
        decreases 21 - k,
    {
        let f = reason_applies(b, c, &d, order[k]);
        flags.push(f);
        k = k + 1;
    }
    proof {
        assert forall|r: IncompatibilityReason| flags@[reason_rank(r) as int] == dataset_reason_applies(*b, *c, r) by {
            assert(all_reasons()[reason_rank(r) as int] == r);
        }
    }
    let unobservable = some_agreement(&d, Agreement::NeitherObserved);
    (emit_present(&flags), unobservable)
}

/// Datasets measured under different selections are never compared: the
/// selection reason applies exactly when the package, the bench target, the
/// features (in order), `all_features`, `no_default_features` or the profile
/// differ.
pub proof fn law_a_different_selection_is_refused(b: ComparedProvenance, c: ComparedProvenance)
    ensures
        dataset_reason_applies(b, c, IncompatibilityReason::Selection) <==> !(opt_view(b.selection.package)
            == opt_view(c.selection.package) && opt_view(b.selection.bench_target) == opt_view(
            c.selection.bench_target,
        ) && b.selection.features@.len() == c.selection.features@.len() && (forall|i: int|
            0 <= i < b.selection.features@.len() ==> (#[trigger] b.selection.features@[i])@
                == c.selection.features@[i]@) && b.selection.all_features == c.selection.all_features
            && b.selection.no_default_features == c.selection.no_default_features && b.selection.profile@
            == c.selection.profile@),
{
    let fa = b.selection.features@;
    let fb = c.selection.features@;
    if fa.len() == fb.len() && (forall|i: int| 0 <= i < fa.len() ==> (#[trigger] fa[i])@ == fb[i]@) {
        assert(string_views(fa) =~= string_views(fb));
    }
    if string_views(fa) == string_views(fb) {
        assert(string_views(fa).len() == fa.len());
        assert forall|i: int| 0 <= i < fa.len() implies (#[trigger] fa[i])@ == fb[i]@ by {
            assert(string_views(fa)[i] == fa[i]@);
            assert(string_views(fb)[i] == fb[i]@);
        }
    }
}

/// Each hardware descriptor blocks under its own name when both sides
/// observed it and the observations differ; when only one side observed a
/// descriptor the datasets are refused as unknown hardware; when neither side
/// observed one, nothing is refused but the hardware is unobservable.
/// Virtualization counts `Unknown` as not observed.
pub proof fn law_hardware_reasons_read_each_descriptor(b: ComparedProvenance, c: ComparedProvenance)
    ensures
        ({
            let l = b.hardware;
            let r = c.hardware;
            let one_sided = (l.cpu_model is Some) != (r.cpu_model is Some) || (l.cpu_cores is Some) != (
            r.cpu_cores is Some) || (l.os_kernel is Some) != (r.os_kernel is Some) || (l.cpu_governor is Some)
                != (r.cpu_governor is Some) || (l.virtualization == Virtualization::Unknown) != (r.virtualization
                == Virtualization::Unknown);
            let unseen = (l.cpu_model is None && r.cpu_model is None) || (l.cpu_cores is None && r.cpu_cores is None)
                || (l.os_kernel is None && r.os_kernel is None) || (l.cpu_governor is None && r.cpu_governor is None)
                || (l.virtualization == Virtualization::Unknown && r.virtualization == Virtualization::Unknown);
            &&& dataset_reason_applies(b, c, IncompatibilityReason::CpuModel) <==> (l.cpu_model matches Some(x)
                && r.cpu_model matches Some(y) && x@ != y@)
            &&& dataset_reason_applies(b, c, IncompatibilityReason::CpuCores) <==> (l.cpu_cores matches Some(x)
                && r.cpu_cores matches Some(y) && x != y)
            &&& dataset_reason_applies(b, c, IncompatibilityReason::OsKernel) <==> (l.os_kernel matches Some(x)
                && r.os_kernel matches Some(y) && x@ != y@)
            &&& dataset_reason_applies(b, c, IncompatibilityReason::CpuGovernor) <==> (l.cpu_governor matches Some(
                x,
            ) && r.cpu_governor matches Some(y) && x@ != y@)
            &&& dataset_reason_applies(b, c, IncompatibilityReason::Virtualization) <==> (l.virtualization
                != Virtualization::Unknown && r.virtualization != Virtualization::Unknown && l.virtualization
                != r.virtualization)
            &&& dataset_reason_applies(b, c, IncompatibilityReason::UnknownHardware) <==> one_sided
            &&& unobservable_hardware(b, c) <==> unseen
        }),
{
    let d = descriptors(b.hardware, c.hardware);
    assert(d.len() == 5);
    if d.contains(Agreement::OneSideUnknown) {
        let m = choose|m: int| 0 <= m < d.len() && d[m] == Agreement::OneSideUnknown;
        assert(0 <= m < 5);
    }
    if d.contains(Agreement::NeitherObserved) {
        let m = choose|m: int| 0 <= m < d.len() && d[m] == Agreement::NeitherObserved;
        assert(0 <= m < 5);
    }
    assert(d[0] == Agreement::OneSideUnknown ==> d.contains(Agreement::OneSideUnknown));
    assert(d[1] == Agreement::OneSideUnknown ==> d.contains(Agreement::OneSideUnknown));
    assert(d[2] == Agreement::OneSideUnknown ==> d.contains(Agreement::OneSideUnknown));
    assert(d[3] == Agreement::OneSideUnknown ==> d.contains(Agreement::OneSideUnknown));
    assert(d[4] == Agreement::OneSideUnknown ==> d.contains(Agreement::OneSideUnknown));
    assert(d[0] == Agreement::NeitherObserved ==> d.contains(Agreement::NeitherObserved));
    assert(d[1] == Agreement::NeitherObserved ==> d.contains(Agreement::NeitherObserved));
    assert(d[2] == Agreement::NeitherObserved ==> d.contains(Agreement::NeitherObserved));
    assert(d[3] == Agreement::NeitherObserved ==> d.contains(Agreement::NeitherObserved));
    assert(d[4] == Agreement::NeitherObserved ==> d.contains(Agreement::NeitherObserved));
}

/// Compatibility does not depend on which side is the baseline.
pub proof fn law_compatibility_is_symmetric(b: ComparedProvenance, c: ComparedProvenance, r: IncompatibilityReason)
    ensures
        dataset_reason_applies(b, c, r) == dataset_reason_applies(c, b, r),
        unobservable_hardware(b, c) == unobservable_hardware(c, b),
{
    let d = descriptors(b.hardware, c.hardware);
    let e = descriptors(c.hardware, b.hardware);
    assert forall|i: int| 0 <= i < 5 implies #[trigger] d[i] == e[i] by {}
    assert(d.contains(Agreement::OneSideUnknown) == e.contains(Agreement::OneSideUnknown)) by {
        if d.contains(Agreement::OneSideUnknown) {
            let m = choose|m: int| 0 <= m < d.len() && d[m] == Agreement::OneSideUnknown;
            assert(e[m] == Agreement::OneSideUnknown);
        }
        if e.contains(Agreement::OneSideUnknown) {
            let m = choose|m: int| 0 <= m < e.len() && e[m] == Agreement::OneSideUnknown;
            assert(d[m] == Agreement::OneSideUnknown);
        }
    }
    assert(d.contains(Agreement::NeitherObserved) == e.contains(Agreement::NeitherObserved)) by {
        if d.contains(Agreement::NeitherObserved) {
            let m = choose|m: int| 0 <= m < d.len() && d[m] == Agreement::NeitherObserved;
            assert(e[m] == Agreement::NeitherObserved);
        }
        if e.contains(Agreement::NeitherObserved) {
            let m = choose|m: int| 0 <= m < e.len() && e[m] == Agreement::NeitherObserved;
            assert(d[m] == Agreement::NeitherObserved);
        }
    }
}

/// A dataset in the current format compared with itself is refused for one
/// reason only: it is the same execution, not two observations of it.
pub proof fn law_self_comparison_is_the_same_artifact(b: ComparedProvenance, r: IncompatibilityReason)
    requires
        b.format@ == BENCHMARK_DATASET_FORMAT@,
        b.format_version == BENCHMARK_DATASET_FORMAT_VERSION,
    ensures
        dataset_reason_applies(b, b, r) <==> r == IncompatibilityReason::SameArtifact,
{
    let d = descriptors(b.hardware, b.hardware);
    assert forall|i: int| 0 <= i < 5 implies #[trigger] d[i] == Agreement::Equal || d[i]
        == Agreement::NeitherObserved by {}
    if d.contains(Agreement::OneSideUnknown) {
        let m = choose|m: int| 0 <= m < d.len() && d[m] == Agreement::OneSideUnknown;
        assert(d[m] == Agreement::Equal || d[m] == Agreement::NeitherObserved);
    }
    assert(string_views(b.selection.features@) == string_views(b.selection.features@));
}

// ---------------------------------------------------------------------------
// The decision rule
// ---------------------------------------------------------------------------

/// Where the effect interval lies against the material threshold `T`.
#[derive(Clone, Copy, Debug, PartialEq, Eq, Structural)]
pub enum IntervalPosition {
    /// The lower endpoint is above `T`.
    AboveThreshold,
    /// The upper endpoint is below `-T`.
    BelowNegativeThreshold,
    /// Both endpoints lie strictly between `-T` and `T`.
    WithinThreshold,
    /// The interval reaches across `T` or `-T`.
    SpansThreshold,
}

/// What the decision rule reads about one benchmark's two sample sets. The
/// three numeric questions are asked by the caller, which holds the numbers:
/// whether the baseline median is positive, whether the minimum detectable
/// ratio is within the threshold, and where the interval lies.
#[derive(Clone, Copy, Debug, PartialEq, Eq, Structural)]
pub struct VerdictInput {
    pub baseline_completeness: MeasurementCompleteness,
    pub candidate_completeness: MeasurementCompleteness,
    pub baseline_samples: usize,
    pub candidate_samples: usize,
    pub baseline_executions: usize,
    pub candidate_executions: usize,
    pub baseline_median_positive: bool,
    pub degenerate_dispersion: bool,
    pub family_beyond_resolution: bool,
    pub unobservable_hardware: bool,
    pub method_qualified: bool,
    pub detectable_within_threshold: bool,
    pub interval: IntervalPosition,
}

/// The frozen decision rule, in order. The first gate that fails names the
/// reason and withholds the verdict; a truncated side adds its own reason
/// first and never lets a verdict through.
pub open spec fn decide_spec(i: VerdictInput) -> (ComparisonVerdict, Seq<InconclusiveReason>) {
    let truncated = i.baseline_completeness == MeasurementCompleteness::Truncated
        || i.candidate_completeness == MeasurementCompleteness::Truncated;
    let pre: Seq<InconclusiveReason> = if truncated {
        seq![InconclusiveReason::TruncatedMeasurement]
    } else {
        seq![]
    };
    let inconclusive = ComparisonVerdict::Inconclusive;
    if i.baseline_completeness == MeasurementCompleteness::Missing || i.candidate_completeness
        == MeasurementCompleteness::Missing {
        (inconclusive, seq![InconclusiveReason::MissingMeasurement])
    } else if i.baseline_samples < MIN_SAMPLES_FOR_INFERENCE || i.candidate_samples
        < MIN_SAMPLES_FOR_INFERENCE {
        (inconclusive, pre.push(InconclusiveReason::InsufficientSamples))
    } else if !i.baseline_median_positive {
        (inconclusive, pre.push(InconclusiveReason::ZeroOrNegativeBaseline))
    } else if i.baseline_executions < MIN_EXECUTIONS_FOR_DIRECTION || i.candidate_executions
        < MIN_EXECUTIONS_FOR_DIRECTION {
        (inconclusive, pre.push(InconclusiveReason::InsufficientExecutions))
    } else if i.family_beyond_resolution {
        (inconclusive, pre.push(InconclusiveReason::FamilyBeyondResolution))
    } else if i.degenerate_dispersion {
        (inconclusive, pre.push(InconclusiveReason::DegenerateDispersion))
    } else if i.unobservable_hardware {
        (inconclusive, pre.push(InconclusiveReason::UnobservableHardware))
    } else if !i.detectable_within_threshold {
        (inconclusive, pre.push(InconclusiveReason::PrecisionBelowThreshold))
    } else if !i.method_qualified {
        (inconclusive, pre.push(InconclusiveReason::MethodUnqualified))
    } else {
        let (verdict, reasons) = match i.interval {
            IntervalPosition::AboveThreshold => (ComparisonVerdict::Regression, pre),
            IntervalPosition::BelowNegativeThreshold => (ComparisonVerdict::Improvement, pre),
            IntervalPosition::WithinThreshold => (ComparisonVerdict::NoMaterialChange, pre),
            IntervalPosition::SpansThreshold => (
                inconclusive,
                pre.push(InconclusiveReason::IntervalSpansThreshold),
            ),
        };
        if truncated {
            (inconclusive, reasons)
        } else {
            (verdict, reasons)
        }
    }
}

/// Applies the decision rule.
pub fn decide(input: &VerdictInput) -> (res: (ComparisonVerdict, Vec<InconclusiveReason>))
    ensures
        (res.0, res.1@) == decide_spec(*input),
{
    if input.baseline_completeness == MeasurementCompleteness::Missing || input.candidate_completeness
        == MeasurementCompleteness::Missing {
        return (ComparisonVerdict::Inconclusive, vec![InconclusiveReason::MissingMeasurement]);
    }
    let mut reasons: Vec<InconclusiveReason> = Vec::new();
    let truncated = input.baseline_completeness == MeasurementCompleteness::Truncated
        || input.candidate_completeness == MeasurementCompleteness::Truncated;
    if truncated {
        reasons.push(InconclusiveReason::TruncatedMeasurement);
    }
    if input.baseline_samples < MIN_SAMPLES_FOR_INFERENCE || input.candidate_samples
        < MIN_SAMPLES_FOR_INFERENCE {
        reasons.push(InconclusiveReason::InsufficientSamples);
        return (ComparisonVerdict::Inconclusive, reasons);
    }
    if !input.baseline_median_positive {
        reasons.push(InconclusiveReason::ZeroOrNegativeBaseline);
        return (ComparisonVerdict::Inconclusive, reasons);
    }
    if input.baseline_executions < MIN_EXECUTIONS_FOR_DIRECTION || input.candidate_executions
        < MIN_EXECUTIONS_FOR_DIRECTION {
        reasons.push(InconclusiveReason::InsufficientExecutions);
        return (ComparisonVerdict::Inconclusive, reasons);
    }
    if input.family_beyond_resolution {
        reasons.push(InconclusiveReason::FamilyBeyondResolution);
        return (ComparisonVerdict::Inconclusive, reasons);
    }
    if input.degenerate_dispersion {
        reasons.push(InconclusiveReason::DegenerateDispersion);
        return (ComparisonVerdict::Inconclusive, reasons);
    }
    if input.unobservable_hardware {
        reasons.push(InconclusiveReason::UnobservableHardware);
        return (ComparisonVerdict::Inconclusive, reasons);
    }
    if !input.detectable_within_threshold {
        reasons.push(InconclusiveReason::PrecisionBelowThreshold);
        return (ComparisonVerdict::Inconclusive, reasons);
    }
    if !input.method_qualified {
        reasons.push(InconclusiveReason::MethodUnqualified);
        return (ComparisonVerdict::Inconclusive, reasons);
    }
    let verdict = match input.interval {
        IntervalPosition::AboveThreshold => ComparisonVerdict::Regression,
        IntervalPosition::BelowNegativeThreshold => ComparisonVerdict::Improvement,
        IntervalPosition::WithinThreshold => ComparisonVerdict::NoMaterialChange,
        IntervalPosition::SpansThreshold => {
            reasons.push(InconclusiveReason::IntervalSpansThreshold);
            ComparisonVerdict::Inconclusive
        },
    };
    if truncated {
        return (ComparisonVerdict::Inconclusive, reasons);
    }
    (verdict, reasons)
}

/// While the method is unqualified, no input receives a direction or a
/// no-material-change verdict.
pub proof fn law_no_direction_while_unqualified(i: VerdictInput)
    requires
        !i.method_qualified,
    ensures
        decide_spec(i).0 == ComparisonVerdict::Inconclusive,
{
}

/// A verdict other than inconclusive needs a qualified method, complete
/// measurements on both sides, enough samples and enough executions on each,
/// a positive baseline, a resolvable family, dispersion, observed hardware and
/// enough precision, and it carries no reason.
pub proof fn law_a_verdict_needs_every_gate(i: VerdictInput)
    requires
        decide_spec(i).0 != ComparisonVerdict::Inconclusive,
    ensures
        i.method_qualified,
        i.baseline_completeness == MeasurementCompleteness::Complete,
        i.candidate_completeness == MeasurementCompleteness::Complete,
        i.baseline_samples >= MIN_SAMPLES_FOR_INFERENCE,
        i.candidate_samples >= MIN_SAMPLES_FOR_INFERENCE,
        i.baseline_executions >= MIN_EXECUTIONS_FOR_DIRECTION,
        i.candidate_executions >= MIN_EXECUTIONS_FOR_DIRECTION,
        i.baseline_median_positive,
        !i.family_beyond_resolution,
        !i.degenerate_dispersion,
        !i.unobservable_hardware,
        i.detectable_within_threshold,
        decide_spec(i).1.len() == 0,
{
}

/// Every withheld verdict names at least one reason.
pub proof fn law_inconclusive_always_has_a_reason(i: VerdictInput)
    requires
        decide_spec(i).0 == ComparisonVerdict::Inconclusive,
    ensures
        decide_spec(i).1.len() > 0,
{
}

// ---------------------------------------------------------------------------
// Benchmark keys
// ---------------------------------------------------------------------------

/// The distinct strings of `v`, in ascending order.
fn sorted_distinct(v: &[String]) -> (res: Vec<String>)
    ensures
        strictly_ascending(string_views(res@)),
        forall|k: Seq<char>| string_views(res@).contains(k) <==> string_views(v@).contains(k),
{
    let ghost src = string_views(v@);
    let mut out: Vec<String> = Vec::new();
    let mut i: usize = 0;
    while i < v.len()
        invariant
            i <= v@.len(),
            src == string_views(v@),
            src.len() == v@.len(),
            strictly_ascending(string_views(out@)),
            forall|k: Seq<char>| string_views(out@).contains(k) <==> src.take(i as int).contains(k),
        decreases v@.len() - i,
    {
        let f = owned(v[i].as_str());
        let ghost x = string_views(out@);
        let mut pos: usize = 0;
        while pos < out.len() && str_less(out[pos].as_str(), f.as_str())
            invariant
                pos <= out@.len(),
                x == string_views(out@),
                forall|a: int| 0 <= a < pos ==> #[trigger] str_lt(x[a], f@),
            decreases out@.len() - pos,
        {
            pos = pos + 1;
        }
        let ghost fv = f@;
        proof {
            assert(src.take(i + 1) =~= src.take(i as int).push(src[i as int]));
            assert(fv == src[i as int]);
        }
        if pos < out.len() && str_eq(out[pos].as_str(), f.as_str()) {
            proof {
                assert forall|k: Seq<char>| string_views(out@).contains(k) <==> src.take(i + 1).contains(k) by {
                    if k == fv {
                        assert(x[pos as int] == fv);
                    }
                    let t = src.take(i + 1);
                    if t.contains(k) && k != fv {
                        let j = choose|j: int| 0 <= j < t.len() && t[j] == k;
                        assert(src.take(i as int)[j] == k);
                    }
                }
            }
        } else {
            proof {
                assert forall|a: int| pos <= a < x.len() implies #[trigger] str_lt(fv, x[a]) by {
                    lemma_str_lt_total(x[pos as int], fv);
                    if a > pos {
                        assert(str_lt(x[pos as int], x[a]));
                        lemma_str_lt_transitive(fv, x[pos as int], x[a]);
                    }
                }
            }
            out.insert(pos, f);
            proof {
                let y = string_views(out@);
                assert(y =~= x.insert(pos as int, fv));
                assert forall|a: int, b: int| 0 <= a < b < y.len() implies #[trigger] str_lt(y[a], y[b]) by {
                    if b < pos {
                        assert(y[a] == x[a] && y[b] == x[b]);
                    } else if b == pos {
                        assert(y[a] == x[a]);
                    } else if a < pos {
                        assert(y[a] == x[a] && y[b] == x[b - 1]);
                        lemma_str_lt_transitive(x[a], fv, x[b - 1]);
                    } else if a == pos {
                        assert(y[b] == x[b - 1]);
                    } else {
                        assert(y[a] == x[a - 1] && y[b] == x[b - 1]);
                    }
                }
                assert forall|k: Seq<char>| y.contains(k) <==> src.take(i + 1).contains(k) by {
                    let t = src.take(i + 1);
                    if y.contains(k) {
                        let a = choose|a: int| 0 <= a < y.len() && y[a] == k;
                        if a == pos {
                            assert(t[i as int] == k);
                        } else {
                            if a < pos {
                                assert(x[a] == k);
                            } else {
                                assert(x[a - 1] == k);
                            }
                            assert(x.contains(k));
                            let u = src.take(i as int);
                            let j = choose|j: int| 0 <= j < u.len() && u[j] == k;
                            assert(t[j] == k);
                        }
                    }
                    let t = src.take(i + 1);
                    if t.contains(k) {
                        if k == fv {
                            assert(y[pos as int] == fv);
                        } else {
                            let j = choose|j: int| 0 <= j < t.len() && t[j] == k;
                            assert(src.take(i as int)[j] == k);
                            assert(x.contains(k));
                            let a = choose|a: int| 0 <= a < x.len() && x[a] == k;
                            if a < pos {
                                assert(y[a] == k);
                            } else {
                                assert(y[a + 1] == k);
                            }
                        }
                    }
                }
            }
        }
        i = i + 1;
    }
    assert(src.take(v@.len() as int) =~= src);
    out
}

/// Whether some string of `v` is `key`.
fn contains_key(v: &Vec<String>, key: &str) -> (res: bool)
    ensures
        res == string_views(v@).contains(key@),
{
    let mut i: usize = 0;
    while i < v.len()
        invariant
            i <= v@.len(),
            forall|a: int| 0 <= a < i ==> v@[a]@ != key@,
        decreases v.len() - i,
    {
        if str_eq(v[i].as_str(), key) {
            assert(string_views(v@)[i as int] == key@);
            return true;
        }
        i = i + 1;
    }
    proof {
        if string_views(v@).contains(key@) {
            let a = choose|a: int| 0 <= a < string_views(v@).len() && string_views(v@)[a] == key@;
            assert(v@[a]@ == key@);
        }
    }
    false
}

/// The strings of sorted `v`, in order, that `other` does or does not hold.
fn keep_where(v: &Vec<String>, other: &Vec<String>, present: bool) -> (res: Vec<String>)
    requires
        strictly_ascending(string_views(v@)),
    ensures
        strictly_ascending(string_views(res@)),
        forall|k: Seq<char>| string_views(res@).contains(k) <==> (string_views(v@).contains(k)
            && string_views(other@).contains(k) == present),
{
    let ghost sv = string_views(v@);
    let mut out: Vec<String> = Vec::new();
    let mut i: usize = 0;
    while i < v.len()
        invariant
            i <= v@.len(),
            sv == string_views(v@),
            strictly_ascending(sv),
            strictly_ascending(string_views(out@)),
            forall|a: int| 0 <= a < out@.len() ==> exists|j: int| 0 <= j < i && #[trigger] string_views(out@)[a] == sv[j],
            forall|k: Seq<char>| string_views(out@).contains(k) <==> (sv.take(i as int).contains(k)
                && string_views(other@).contains(k) == present),
        decreases v@.len() - i,
    {
        let ghost x = string_views(out@);
        let keep = contains_key(other, v[i].as_str()) == present;
        proof {
            assert(sv.take(i + 1) =~= sv.take(i as int).push(sv[i as int]));
        }
        if keep {
            out.push(owned(v[i].as_str()));
            proof {
                let y = string_views(out@);
                assert(y =~= x.push(sv[i as int]));
                assert forall|a: int, b: int| 0 <= a < b < y.len() implies #[trigger] str_lt(y[a], y[b]) by {
                    if b == y.len() - 1 {
                        let j = choose|j: int| 0 <= j < i && #[trigger] x[a] == sv[j];
                        assert(str_lt(sv[j], sv[i as int]));
                    } else {
                        assert(y[a] == x[a] && y[b] == x[b]);
                    }
                }
                assert forall|a: int| 0 <= a < y.len() implies exists|j: int| 0 <= j < i + 1 && #[trigger] y[a] == sv[j] by {
                    if a < x.len() {
                        let j = choose|j: int| 0 <= j < i && #[trigger] x[a] == sv[j];
                        assert(y[a] == sv[j]);
                    } else {
                        assert(y[a] == sv[i as int]);
                    }
                }
                assert forall|k: Seq<char>| y.contains(k) <==> (sv.take(i + 1).contains(k)
                    && string_views(other@).contains(k) == present) by {
                    let t = sv.take(i + 1);
                    if y.contains(k) {
                        let a = choose|a: int| 0 <= a < y.len() && y[a] == k;
                        if a < x.len() {
                            assert(x[a] == k);
                            assert(x.contains(k));
                            let u = sv.take(i as int);
                            let j = choose|j: int| 0 <= j < u.len() && u[j] == k;
                            assert(t[j] == k);
                        } else {
                            assert(k == sv[i as int]);
                            assert(t[i as int] == k);
                            assert(sv[i as int] == v@[i as int]@);
                        }
                    }
                    let t = sv.take(i + 1);
                    if t.contains(k) && string_views(other@).contains(k) == present {
                        let j = choose|j: int| 0 <= j < t.len() && t[j] == k;
                        if j < i {
                            assert(sv.take(i as int)[j] == k);
                            assert(x.contains(k));
                            let a = choose|a: int| 0 <= a < x.len() && x[a] == k;
                            assert(y[a] == k);
                        } else {
                            assert(y[y.len() - 1] == k);
                        }
                    }
                }
            }
        } else {
            proof {
                assert forall|a: int| 0 <= a < x.len() implies exists|j: int| 0 <= j < i + 1 && #[trigger] x[a] == sv[j] by {
                    let j = choose|j: int| 0 <= j < i && #[trigger] x[a] == sv[j];
                }
                assert forall|k: Seq<char>| x.contains(k) <==> (sv.take(i + 1).contains(k)
                    && string_views(other@).contains(k) == present) by {
                    let t = sv.take(i + 1);
                    if t.contains(k) && string_views(other@).contains(k) == present {
                        let j = choose|j: int| 0 <= j < t.len() && t[j] == k;
                        if j == i {
                            assert(k == sv[i as int]);
                        } else {
                            assert(sv.take(i as int)[j] == k);
                        }
                    }
                }
            }
        }
        i = i + 1;
    }
    assert(sv.take(v@.len() as int) =~= sv);
    out
}

/// The benchmark keys of two datasets: those both hold, and those only one
/// side holds, each sorted with no key twice.
#[derive(Clone, Debug, PartialEq, Eq)]
pub struct KeyPartition {
    pub common: Vec<String>,
    pub baseline_only: Vec<String>,
    pub candidate_only: Vec<String>,
}

/// Splits the keys of the two sides.
pub fn partition_keys(baseline: &[String], candidate: &[String]) -> (res: KeyPartition)
    ensures
        strictly_ascending(string_views(res.common@)),
        strictly_ascending(string_views(res.baseline_only@)),
        strictly_ascending(string_views(res.candidate_only@)),
        forall|k: Seq<char>| string_views(res.common@).contains(k) <==> (string_views(baseline@).contains(k)
            && string_views(candidate@).contains(k)),
        forall|k: Seq<char>| string_views(res.baseline_only@).contains(k) <==> (string_views(
            baseline@,
        ).contains(k) && !string_views(candidate@).contains(k)),
        forall|k: Seq<char>| string_views(res.candidate_only@).contains(k) <==> (string_views(
            candidate@,
        ).contains(k) && !string_views(baseline@).contains(k)),
{
    let left = sorted_distinct(baseline);
    let right = sorted_distinct(candidate);
    let common = keep_where(&left, &right, true);
    let baseline_only = keep_where(&left, &right, false);
    let candidate_only = keep_where(&right, &left, false);
    KeyPartition { common, baseline_only, candidate_only }
}

// ---------------------------------------------------------------------------
// Refusals
// ---------------------------------------------------------------------------

/// One benchmark key whose two measurements disagree on what the method
/// requires to be identical; both observed values travel with the key.
#[derive(Clone, Debug, PartialEq, Eq)]
pub struct MeasurementDisagreement {
    pub key: String,
    pub baseline_identity: BenchmarkIdentity,
    pub candidate_identity: BenchmarkIdentity,
    pub baseline_sampling_mode: SamplingMode,
    pub candidate_sampling_mode: SamplingMode,
}

/// Everything the compatibility check found, with both sides it refused on.
#[derive(Clone, Debug, PartialEq, Eq)]
pub struct Incompatibility {
    /// Sorted and deduplicated.
    pub reasons: Vec<IncompatibilityReason>,
    pub baseline_provenance: ComparedProvenance,
    pub candidate_provenance: ComparedProvenance,
    /// The keys behind an identity or sampling-mode reason.
    pub disagreements: Vec<MeasurementDisagreement>,
}

/// Why no report could be produced.
#[derive(Clone, Debug, PartialEq, Eq)]
pub enum CompareError {
    Incompatible(Box<Incompatibility>),
    /// The datasets are compatible but share no benchmark key.
    NoCommonBenchmark,
    /// One of the datasets is not structurally valid.
    InvalidDataset(BenchmarkError),
}

/// The per-benchmark reasons for one key the two datasets share: a differing
/// identity or sampling mode each name their reason, and either records the
/// key with both observed values.
pub fn measurement_compatibility(
    key: &str,
    baseline_identity: &BenchmarkIdentity,
    candidate_identity: &BenchmarkIdentity,
    baseline_mode: SamplingMode,
    candidate_mode: SamplingMode,
    reasons: &mut Vec<IncompatibilityReason>,
    disagreements: &mut Vec<MeasurementDisagreement>,
)
    ensures
        ({
            let identity_differs = !same_identity(*baseline_identity, *candidate_identity);
            let mode_differs = baseline_mode != candidate_mode;
            &&& final(reasons)@ == old(reasons)@ + (if identity_differs {
                seq![IncompatibilityReason::BenchmarkIdentity]
            } else {
                seq![]
            }) + (if mode_differs {
                seq![IncompatibilityReason::SamplingMode]
            } else {
                seq![]
            })
            &&& final(disagreements)@ == if identity_differs || mode_differs {
                old(disagreements)@.push(
                    MeasurementDisagreement {
                        key: final(disagreements)@.last().key,
                        baseline_identity: *baseline_identity,
                        candidate_identity: *candidate_identity,
                        baseline_sampling_mode: baseline_mode,
                        candidate_sampling_mode: candidate_mode,
                    },
                )
            } else {
                old(disagreements)@
            }
            &&& (identity_differs || mode_differs) ==> final(disagreements)@.last().key@ == key@
        }),
{
    let identity_differs = !baseline_identity.same_as(candidate_identity);
    let mode_differs = baseline_mode != candidate_mode;
    let ghost before = reasons@;
    if identity_differs {
        reasons.push(IncompatibilityReason::BenchmarkIdentity);
    }
    if mode_differs {
        reasons.push(IncompatibilityReason::SamplingMode);
    }
    proof {
        let a: Seq<IncompatibilityReason> = if identity_differs {
            seq![IncompatibilityReason::BenchmarkIdentity]
        } else {
            seq![]
        };
        let b: Seq<IncompatibilityReason> = if mode_differs {
            seq![IncompatibilityReason::SamplingMode]
        } else {
            seq![]
        };
        assert(reasons@ =~= before + a + b);
    }
    if identity_differs || mode_differs {
        disagreements.push(
            MeasurementDisagreement {
                key: key.to_owned(),
                baseline_identity: baseline_identity.duplicate(),
                candidate_identity: candidate_identity.duplicate(),
                baseline_sampling_mode: baseline_mode,
                candidate_sampling_mode: candidate_mode,
            },
        );
    }
}

/// The text shown for each refusal; an invalid dataset carries the
/// dataset's own refusal text.
pub open spec fn compare_error_message(e: CompareError) -> Seq<char> {
    match e {
        CompareError::Incompatible(details) => "datasets are incompatible ("@ + decimal(
            details.reasons@.len(),
        ) + " reasons)"@,
        CompareError::NoCommonBenchmark => "datasets share no benchmark key"@,
        CompareError::InvalidDataset(error) => "invalid dataset: "@ + benchmark_error_message(error),
    }
}

impl CompareError {
    /// The text shown for this refusal.
    pub fn message(&self) -> (res: String)
        ensures
            res@ == compare_error_message(*self),
    {
        match self {
            CompareError::Incompatible(details) => {
                let mut out = chars_of("datasets are incompatible (");
                push_decimal(details.reasons.len() as u64, &mut out);
                let mut tail = chars_of(" reasons)");
                out.append(&mut tail);
                string_from_chars(out.as_slice())
            },
            CompareError::NoCommonBenchmark => owned("datasets share no benchmark key"),
            CompareError::InvalidDataset(error) => {
                let mut out = chars_of("invalid dataset: ");
                let mut tail = chars_of(error.message());
                out.append(&mut tail);
                string_from_chars(out.as_slice())
            },
        }
    }

    /// The refusal of an incompatible pair: the reasons sorted and
    /// deduplicated, with both compared sides and the disagreeing keys.
    pub fn incompatible(
        reasons: &[IncompatibilityReason],
        baseline: ComparedProvenance,
        candidate: ComparedProvenance,
        disagreements: Vec<MeasurementDisagreement>,
    ) -> (res: Self)
        ensures
            res matches CompareError::Incompatible(details) && canonical(details.reasons@)
                && (forall|r: IncompatibilityReason| details.reasons@.contains(r) <==> reasons@.contains(r))
                && details.baseline_provenance == baseline && details.candidate_provenance == candidate
                && details.disagreements@ == disagreements@,
    {
        let sorted = canonical_reasons(reasons);
        CompareError::Incompatible(
            Box::new(
                Incompatibility {
                    reasons: sorted,
                    baseline_provenance: baseline,
                    candidate_provenance: candidate,
                    disagreements,
                },
            ),
        )
    }

    /// The reasons of an incompatibility, empty for any other error.
    pub fn reasons(&self) -> (res: &[IncompatibilityReason])
        ensures
            match self {
                CompareError::Incompatible(details) => res@ == details.reasons@,
                _ => res@.len() == 0,
            },
    {
        match self {
            CompareError::Incompatible(details) => details.reasons.as_slice(),
            _ => &[],
        }
    }
}

} // verus!
