//! Benchmark identities, provenance and exit vocabulary. Every free text field
//! is bounded and free of control characters.
use std::collections::BTreeSet;
use vstd::prelude::*;
use crate::text::{str_eq, char_count, has_control, has_control_char, utf8_len, utf8_len_exceeds};

verus! {

broadcast use vstd::laws_cmp::group_laws_cmp;

/// The dataset format this product writes and reads.
pub const BENCHMARK_DATASET_FORMAT: &'static str = "rust-engineering-mcp.benchmark-dataset.v2";

/// The only accepted `format_version`.
pub const BENCHMARK_DATASET_FORMAT_VERSION: u8 = 2;

/// The harness version verified at provisioning.
pub const APPROVED_CRITERION_VERSION: &'static str = "0.8.2";

/// Byte ceiling on every free text field carried by a dataset.
pub const BENCHMARK_MAX_TEXT: usize = 512;

/// Ceiling on the raw samples kept for one benchmark.
pub const BENCHMARK_MAX_SAMPLES: usize = 100_000;

/// Ceiling on independent repetitions of one candidate within one provenance record.
pub const BENCHMARK_MAX_RUNS: u8 = 16;

/// Every reason a benchmark value can be refused.
#[derive(Clone, Copy, Debug, PartialEq, Eq, Structural)]
pub enum BenchmarkError {
    /// A required identity field was empty.
    EmptyIdentity,
    /// A text field exceeded [`BENCHMARK_MAX_TEXT`] bytes.
    IdentityTooLong,
    /// A text field carried a control character (NUL included).
    InvalidText,
    /// A measurement that is not `Missing` carried no samples.
    NoSamples,
    /// A measurement carried more than [`BENCHMARK_MAX_SAMPLES`] samples.
    TooManySamples,
    /// A raw sample was not a positive, finite, bounded duration.
    InvalidSample,
    /// Two measurements in one dataset shared a benchmark key.
    DuplicateBenchmark,
    /// The format string or version was not the current contract.
    UnknownFormat,
    /// A run index was outside the 1-based range its run count allows.
    InvalidRunIndex,
    /// A dataset carried no measurement at all.
    EmptyDataset,
    /// A required provenance field was empty.
    InvalidProvenance,
}

/// The first failure of two checks made in order.
pub open spec fn then_check(first: Result<(), BenchmarkError>, second: Result<(), BenchmarkError>) -> Result<(), BenchmarkError> {
    if first is Err {
        first
    } else {
        second
    }
}

/// Bounded, control-character-free text.
pub open spec fn bounded_text_spec(s: Seq<char>) -> Result<(), BenchmarkError> {
    if utf8_len(s) > BENCHMARK_MAX_TEXT {
        Err(BenchmarkError::IdentityTooLong)
    } else if has_control_char(s) {
        Err(BenchmarkError::InvalidText)
    } else {
        Ok(())
    }
}

/// Non-empty bounded text; `on_empty` names the field class.
pub open spec fn required_text_spec(s: Seq<char>, on_empty: BenchmarkError) -> Result<(), BenchmarkError> {
    if s.len() == 0 {
        Err(on_empty)
    } else {
        bounded_text_spec(s)
    }
}

/// Bounded text when present.
pub open spec fn optional_text_spec(o: Option<String>) -> Result<(), BenchmarkError> {
    match o {
        Some(s) => bounded_text_spec(s@),
        None => Ok(()),
    }
}

fn bounded_text(value: &str) -> (res: Result<(), BenchmarkError>)
    ensures
        res == bounded_text_spec(value@),
{
    if utf8_len_exceeds(value, BENCHMARK_MAX_TEXT) {
        return Err(BenchmarkError::IdentityTooLong);
    }
    if has_control(value) {
        return Err(BenchmarkError::InvalidText);
    }
    Ok(())
}

fn required_text(value: &str, on_empty: BenchmarkError) -> (res: Result<(), BenchmarkError>)
    ensures
        res == required_text_spec(value@, on_empty),
{
    if char_count(value) == 0 {
        return Err(on_empty);
    }
    bounded_text(value)
}

fn optional_text(value: &Option<String>) -> (res: Result<(), BenchmarkError>)
    ensures
        res == optional_text_spec(*value),
{
    match value {
        Some(text) => bounded_text(text.as_str()),
        None => Ok(()),
    }
}

/// The harness that produced the samples.
#[derive(Clone, Copy, Debug, PartialEq, Eq, Structural)]
pub enum BenchmarkHarness {
    Criterion,
}

/// The unit every sample is expressed in.
#[derive(Clone, Copy, Debug, PartialEq, Eq, Structural)]
pub enum SampleUnit {
    Nanoseconds,
}

/// How the harness scaled iterations across samples.
#[derive(Clone, Copy, Debug, PartialEq, Eq, Structural)]
pub enum SamplingMode {
    Linear,
    Flat,
    Auto,
    /// The run did not report a mode.
    Unknown,
}

/// Whether the sample set is the whole set the run produced.
#[derive(Clone, Copy, Debug, PartialEq, Eq, Structural)]
pub enum MeasurementCompleteness {
    Complete,
    /// A prefix of what ran, cut at a declared ceiling.
    Truncated,
    /// The benchmark produced no usable sample.
    Missing,
}

/// Observed virtualization of the measuring host.
#[derive(Clone, Copy, Debug, PartialEq, Eq, Structural)]
pub enum Virtualization {
    Unknown,
    Container,
    VirtualMachine,
    Bare,
}

/// The identity of one benchmark as the harness names it; `full_id` is the
/// stable key.
#[derive(Clone, Debug, PartialEq, Eq)]
pub struct BenchmarkIdentity {
    group_id: String,
    function_id: Option<String>,
    value_str: Option<String>,
    full_id: String,
    directory_name: String,
}

/// The view of an optional string.
pub open spec fn opt_text(o: Option<String>) -> Option<Seq<char>> {
    match o {
        Some(s) => Some(s@),
        None => None,
    }
}

/// What validating an identity's parts answers, checked in field order.
pub open spec fn identity_check(
    group_id: Seq<char>,
    function_id: Option<String>,
    value_str: Option<String>,
    full_id: Seq<char>,
    directory_name: Seq<char>,
) -> Result<(), BenchmarkError> {
    then_check(
        required_text_spec(group_id, BenchmarkError::EmptyIdentity),
        then_check(
            required_text_spec(full_id, BenchmarkError::EmptyIdentity),
            then_check(
                required_text_spec(directory_name, BenchmarkError::EmptyIdentity),
                then_check(optional_text_spec(function_id), optional_text_spec(value_str)),
            ),
        ),
    )
}

impl BenchmarkIdentity {
    pub closed spec fn group_id_spec(&self) -> Seq<char> {
        self.group_id@
    }

    pub closed spec fn function_id_spec(&self) -> Option<String> {
        self.function_id
    }

    pub closed spec fn value_str_spec(&self) -> Option<String> {
        self.value_str
    }

    pub closed spec fn full_id_spec(&self) -> Seq<char> {
        self.full_id@
    }

    pub closed spec fn directory_name_spec(&self) -> Seq<char> {
        self.directory_name@
    }

    /// `group_id`, `full_id` and `directory_name` are required; an absent
    /// optional part is never reconstructed from the others.
    pub fn new(
        group_id: String,
        function_id: Option<String>,
        value_str: Option<String>,
        full_id: String,
        directory_name: String,
    ) -> (res: Result<Self, BenchmarkError>)
        ensures
            match res {
                Ok(i) => identity_check(group_id@, function_id, value_str, full_id@, directory_name@) is Ok
                    && i.group_id_spec() == group_id@ && i.function_id_spec() == function_id
                    && i.value_str_spec() == value_str && i.full_id_spec() == full_id@
                    && i.directory_name_spec() == directory_name@,
                Err(e) => identity_check(group_id@, function_id, value_str, full_id@, directory_name@)
                    == Err::<(), BenchmarkError>(e),
            },
    {
        let identity = BenchmarkIdentity { group_id, function_id, value_str, full_id, directory_name };
        match identity.validate() {
            Ok(()) => Ok(identity),
            Err(e) => Err(e),
        }
    }

    pub fn validate(&self) -> (res: Result<(), BenchmarkError>)
        ensures
            res == identity_check(
                self.group_id_spec(),
                self.function_id_spec(),
                self.value_str_spec(),
                self.full_id_spec(),
                self.directory_name_spec(),
            ),
    {
        required_text(self.group_id.as_str(), BenchmarkError::EmptyIdentity)?;
        required_text(self.full_id.as_str(), BenchmarkError::EmptyIdentity)?;
        required_text(self.directory_name.as_str(), BenchmarkError::EmptyIdentity)?;
        optional_text(&self.function_id)?;
        optional_text(&self.value_str)
    }

    /// The stable key used to match a benchmark across datasets.
    pub fn key(&self) -> (res: &str)
        ensures
            res@ == self.full_id_spec(),
    {
        self.full_id.as_str()
    }

    pub fn group_id(&self) -> (res: &str)
        ensures
            res@ == self.group_id_spec(),
    {
        self.group_id.as_str()
    }

    pub fn function_id(&self) -> (res: Option<&str>)
        ensures
            match res {
                Some(f) => opt_text(self.function_id_spec()) == Some(f@),
                None => self.function_id_spec() is None,
            },
    {
        match &self.function_id {
            Some(f) => Some(f.as_str()),
            None => None,
        }
    }

    pub fn value_str(&self) -> (res: Option<&str>)
        ensures
            match res {
                Some(v) => opt_text(self.value_str_spec()) == Some(v@),
                None => self.value_str_spec() is None,
            },
    {
        match &self.value_str {
            Some(v) => Some(v.as_str()),
            None => None,
        }
    }

    pub fn full_id(&self) -> (res: &str)
        ensures
            res@ == self.full_id_spec(),
    {
        self.full_id.as_str()
    }

    pub fn directory_name(&self) -> (res: &str)
        ensures
            res@ == self.directory_name_spec(),
    {
        self.directory_name.as_str()
    }
}

/// Two identities name the same benchmark in the same way: every part agrees.
pub open spec fn same_identity(a: BenchmarkIdentity, b: BenchmarkIdentity) -> bool {
    &&& a.group_id_spec() == b.group_id_spec()
    &&& opt_text(a.function_id_spec()) == opt_text(b.function_id_spec())
    &&& opt_text(a.value_str_spec()) == opt_text(b.value_str_spec())
    &&& a.full_id_spec() == b.full_id_spec()
    &&& a.directory_name_spec() == b.directory_name_spec()
}

fn opt_text_same(a: &Option<String>, b: &Option<String>) -> (res: bool)
    ensures
        res == (opt_text(*a) == opt_text(*b)),
{
    match (a, b) {
        (Some(x), Some(y)) => str_eq(x.as_str(), y.as_str()),
        (None, None) => true,
        _ => false,
    }
}

impl BenchmarkIdentity {
    /// Whether both identities agree on every part.
    pub fn same_as(&self, other: &Self) -> (res: bool)
        ensures
            res == same_identity(*self, *other),
    {
        self.group_id == other.group_id && opt_text_same(&self.function_id, &other.function_id)
            && opt_text_same(&self.value_str, &other.value_str) && self.full_id == other.full_id
            && self.directory_name == other.directory_name
    }

    /// A copy equal to this identity.
    pub fn duplicate(&self) -> (res: Self)
        ensures
            res == *self,
    {
        BenchmarkIdentity {
            group_id: self.group_id.clone(),
            function_id: match &self.function_id {
                Some(f) => Some(f.clone()),
                None => None,
            },
            value_str: match &self.value_str {
                Some(v) => Some(v.clone()),
                None => None,
            },
            full_id: self.full_id.clone(),
            directory_name: self.directory_name.clone(),
        }
    }
}

/// Resource ceilings the measuring runtime was placed under; `None` is unknown,
/// never unlimited.
#[derive(Clone, Copy, Debug, Default, PartialEq, Eq, Structural)]
pub struct ResourceQuotas {
    pub cpu_quota_millicores: Option<u32>,
    pub memory_bytes: Option<u64>,
    pub pids: Option<u32>,
}

/// What was observable about the measuring host.
#[derive(Clone, Debug, PartialEq, Eq)]
pub struct HardwareProfile {
    pub cpu_model: Option<String>,
    pub cpu_cores: Option<u16>,
    pub os_kernel: Option<String>,
    /// Always observable from the running build; required.
    pub arch: String,
    pub virtualization: Virtualization,
    pub cpu_governor: Option<String>,
    pub quotas: ResourceQuotas,
}

/// What validating a hardware profile answers.
pub open spec fn hardware_check(h: HardwareProfile) -> Result<(), BenchmarkError> {
    then_check(
        required_text_spec(h.arch@, BenchmarkError::InvalidProvenance),
        then_check(
            optional_text_spec(h.cpu_model),
            then_check(optional_text_spec(h.os_kernel), optional_text_spec(h.cpu_governor)),
        ),
    )
}

impl HardwareProfile {
    pub fn validate(&self) -> (res: Result<(), BenchmarkError>)
        ensures
            res == hardware_check(*self),
    {
        required_text(self.arch.as_str(), BenchmarkError::InvalidProvenance)?;
        optional_text(&self.cpu_model)?;
        optional_text(&self.os_kernel)?;
        optional_text(&self.cpu_governor)
    }
}

/// The build/target selection the run was executed under.
#[derive(Clone, Debug, PartialEq, Eq)]
pub struct BenchmarkSelection {
    pub package: Option<String>,
    pub bench_target: Option<String>,
    pub features: Vec<String>,
    pub all_features: bool,
    pub no_default_features: bool,
    pub profile: String,
}

/// Every feature, in order, is required bounded text.
pub open spec fn features_check(fs: Seq<String>) -> Result<(), BenchmarkError>
    decreases fs.len(),
{
    if fs.len() == 0 {
        Ok(())
    } else {
        then_check(
            features_check(fs.drop_last()),
            required_text_spec(fs.last()@, BenchmarkError::InvalidProvenance),
        )
    }
}

/// What validating a selection answers.
pub open spec fn selection_check(s: BenchmarkSelection) -> Result<(), BenchmarkError> {
    then_check(
        required_text_spec(s.profile@, BenchmarkError::InvalidProvenance),
        then_check(
            optional_text_spec(s.package),
            then_check(optional_text_spec(s.bench_target), features_check(s.features@)),
        ),
    )
}

impl BenchmarkSelection {
    pub fn validate(&self) -> (res: Result<(), BenchmarkError>)
        ensures
            res == selection_check(*self),
    {
        required_text(self.profile.as_str(), BenchmarkError::InvalidProvenance)?;
        optional_text(&self.package)?;
        optional_text(&self.bench_target)?;
        let mut i: usize = 0;
        assert(self.features@.take(0) =~= Seq::<String>::empty());
        while i < self.features.len()
            invariant
                i <= self.features@.len(),
                features_check(self.features@.take(i as int)) is Ok,
                required_text_spec(self.profile@, BenchmarkError::InvalidProvenance) is Ok,
                optional_text_spec(self.package) is Ok,
                optional_text_spec(self.bench_target) is Ok,
            decreases self.features@.len() - i,
        {
            let r = required_text(self.features[i].as_str(), BenchmarkError::InvalidProvenance);
            proof {
                assert(self.features@.take(i + 1).drop_last() =~= self.features@.take(i as int));
                assert(self.features@.take(i + 1).last() == self.features@[i as int]);
            }
            if r.is_err() {
                proof {
                    lemma_features_check_prefix(self.features@, i + 1);
                }
                return r;
            }
            i = i + 1;
        }
        assert(self.features@.take(self.features@.len() as int) =~= self.features@);
        Ok(())
    }
}

/// A failure in a prefix of the features is the failure of all of them.
proof fn lemma_features_check_prefix(fs: Seq<String>, n: int)
    requires
        0 <= n <= fs.len(),
        features_check(fs.take(n)) is Err,
    ensures
        features_check(fs) == features_check(fs.take(n)),
    decreases fs.len() - n,
{
    if n < fs.len() {
        assert(fs.take(n + 1).drop_last() =~= fs.take(n));
        lemma_features_check_prefix(fs, n + 1);
    } else {
        assert(fs.take(n) =~= fs);
    }
}

/// Everything a reader needs to decide whether two datasets are comparable.
#[derive(Clone, Debug, PartialEq, Eq)]
pub struct BenchmarkProvenance {
    /// Digest of the measured source. Baseline and candidate differ here.
    pub source_fingerprint: String,
    pub harness: BenchmarkHarness,
    pub harness_version: String,
    pub rust_version: String,
    pub cargo_version: String,
    /// The toolchain the project declared, when it declared one.
    pub declared_toolchain: Option<String>,
    pub image_digest: String,
    pub platform: String,
    /// Digest over the frozen run configuration.
    pub configuration_fingerprint: String,
    /// Identifies this exact execution.
    pub execution_fingerprint: String,
    pub selection: BenchmarkSelection,
    pub hardware: HardwareProfile,
    /// 1-based position of this run within `run_count` repetitions.
    pub run_index: u8,
    pub run_count: u8,
    pub captured_at_unix: u64,
}

/// The run counters are 1-based and bounded.
pub open spec fn run_check(run_index: u8, run_count: u8) -> Result<(), BenchmarkError> {
    if run_count < 1 || run_count > BENCHMARK_MAX_RUNS || run_index < 1 || run_index > run_count {
        Err(BenchmarkError::InvalidRunIndex)
    } else {
        Ok(())
    }
}

/// What validating a provenance record answers, checked in field order.
pub open spec fn provenance_check(p: BenchmarkProvenance) -> Result<(), BenchmarkError> {
    let e = BenchmarkError::InvalidProvenance;
    then_check(
        required_text_spec(p.source_fingerprint@, e),
        then_check(
            required_text_spec(p.harness_version@, e),
            then_check(
                required_text_spec(p.rust_version@, e),
                then_check(
                    required_text_spec(p.cargo_version@, e),
                    then_check(
                        required_text_spec(p.image_digest@, e),
                        then_check(
                            required_text_spec(p.platform@, e),
                            then_check(
                                required_text_spec(p.configuration_fingerprint@, e),
                                then_check(
                                    required_text_spec(p.execution_fingerprint@, e),
                                    then_check(
                                        optional_text_spec(p.declared_toolchain),
                                        then_check(
                                            run_check(p.run_index, p.run_count),
                                            then_check(
                                                selection_check(p.selection),
                                                hardware_check(p.hardware),
                                            ),
                                        ),
                                    ),
                                ),
                            ),
                        ),
                    ),
                ),
            ),
        ),
    )
}

impl BenchmarkProvenance {
    pub fn validate(&self) -> (res: Result<(), BenchmarkError>)
        ensures
            res == provenance_check(*self),
    {
        let e = BenchmarkError::InvalidProvenance;
        required_text(self.source_fingerprint.as_str(), e)?;
        required_text(self.harness_version.as_str(), e)?;
        required_text(self.rust_version.as_str(), e)?;
        required_text(self.cargo_version.as_str(), e)?;
        required_text(self.image_digest.as_str(), e)?;
        required_text(self.platform.as_str(), e)?;
        required_text(self.configuration_fingerprint.as_str(), e)?;
        required_text(self.execution_fingerprint.as_str(), e)?;
        optional_text(&self.declared_toolchain)?;
        if self.run_count < 1 || self.run_count > BENCHMARK_MAX_RUNS || self.run_index < 1
            || self.run_index > self.run_count {
            return Err(BenchmarkError::InvalidRunIndex);
        }
        self.selection.validate()?;
        self.hardware.validate()
    }
}

// ---------------------------------------------------------------------------
// The structure of samples, measurements and datasets
// ---------------------------------------------------------------------------

/// What the structural checks read of one raw sample. Whether its total time
/// is a positive, finite duration within the sample ceiling is decided where
/// the time itself is held, and arrives here as `duration_ok`.
#[derive(Clone, Copy, Debug, PartialEq, Eq, Structural)]
pub struct SampleFacts {
    pub iterations: u64,
    pub duration_ok: bool,
    /// 1-based index of the execution that produced the sample.
    pub run_index: u8,
}

/// What validating one sample answers.
pub open spec fn sample_check(s: SampleFacts) -> Result<(), BenchmarkError> {
    if s.iterations < 1 || !s.duration_ok {
        Err(BenchmarkError::InvalidSample)
    } else if s.run_index < 1 || s.run_index > BENCHMARK_MAX_RUNS {
        Err(BenchmarkError::InvalidRunIndex)
    } else {
        Ok(())
    }
}

impl SampleFacts {
    pub fn validate(&self) -> (res: Result<(), BenchmarkError>)
        ensures
            res == sample_check(*self),
    {
        if self.iterations < 1 || !self.duration_ok {
            return Err(BenchmarkError::InvalidSample);
        }
        if self.run_index < 1 || self.run_index > BENCHMARK_MAX_RUNS {
            return Err(BenchmarkError::InvalidRunIndex);
        }
        Ok(())
    }
}

/// Every sample, in order, passes its checks; the first failure is the answer.
pub open spec fn samples_check(ss: Seq<SampleFacts>) -> Result<(), BenchmarkError>
    decreases ss.len(),
{
    if ss.len() == 0 {
        Ok(())
    } else {
        then_check(samples_check(ss.drop_last()), sample_check(ss.last()))
    }
}

/// A failure in a prefix of the samples is the failure of all of them.
proof fn lemma_samples_check_prefix(ss: Seq<SampleFacts>, n: int)
    requires
        0 <= n <= ss.len(),
        samples_check(ss.take(n)) is Err,
    ensures
        samples_check(ss) == samples_check(ss.take(n)),
    decreases ss.len() - n,
{
    if n < ss.len() {
        assert(ss.take(n + 1).drop_last() =~= ss.take(n));
        lemma_samples_check_prefix(ss, n + 1);
    } else {
        assert(ss.take(n) =~= ss);
    }
}

/// What the structural checks read of one measurement.
#[derive(Clone, Debug, PartialEq, Eq)]
pub struct MeasurementFacts {
    pub identity: BenchmarkIdentity,
    pub sampling_mode: SamplingMode,
    pub samples: Vec<SampleFacts>,
    pub completeness: MeasurementCompleteness,
}

/// What validating an identity answers.
pub open spec fn identity_ok(i: BenchmarkIdentity) -> Result<(), BenchmarkError> {
    identity_check(
        i.group_id_spec(),
        i.function_id_spec(),
        i.value_str_spec(),
        i.full_id_spec(),
        i.directory_name_spec(),
    )
}

/// What validating a measurement answers: its identity, then the sample
/// ceiling, then that only a `Missing` measurement may be empty, then each
/// sample in order.
pub open spec fn measurement_check(m: MeasurementFacts) -> Result<(), BenchmarkError> {
    then_check(
        identity_ok(m.identity),
        if m.samples@.len() > BENCHMARK_MAX_SAMPLES {
            Err(BenchmarkError::TooManySamples)
        } else if m.samples@.len() == 0 && m.completeness != MeasurementCompleteness::Missing {
            Err(BenchmarkError::NoSamples)
        } else {
            samples_check(m.samples@)
        },
    )
}

impl MeasurementFacts {
    pub fn validate(&self) -> (res: Result<(), BenchmarkError>)
        ensures
            res == measurement_check(*self),
    {
        self.identity.validate()?;
        if self.samples.len() > BENCHMARK_MAX_SAMPLES {
            return Err(BenchmarkError::TooManySamples);
        }
        if self.samples.len() == 0 && self.completeness != MeasurementCompleteness::Missing {
            return Err(BenchmarkError::NoSamples);
        }
        let mut i: usize = 0;
        assert(self.samples@.take(0) =~= Seq::<SampleFacts>::empty());
        while i < self.samples.len()
            invariant
                i <= self.samples@.len(),
                samples_check(self.samples@.take(i as int)) is Ok,
                identity_ok(self.identity) is Ok,
                self.samples@.len() <= BENCHMARK_MAX_SAMPLES,
                !(self.samples@.len() == 0 && self.completeness != MeasurementCompleteness::Missing),
            decreases self.samples@.len() - i,
        {
            let r = self.samples[i].validate();
            proof {
                assert(self.samples@.take(i + 1).drop_last() =~= self.samples@.take(i as int));
                assert(self.samples@.take(i + 1).last() == self.samples@[i as int]);
            }
            if r.is_err() {
                proof {
                    lemma_samples_check_prefix(self.samples@, i + 1);
                }
                return r;
            }
            i = i + 1;
        }
        assert(self.samples@.take(self.samples@.len() as int) =~= self.samples@);
        Ok(())
    }

    /// The distinct executions this measurement pools.
    pub fn run_indices(&self) -> (res: BTreeSet<u8>)
        ensures
            forall|x: u8| res@.contains(x) <==> exists|j: int|
                0 <= j < self.samples@.len() && (#[trigger] self.samples@[j]).run_index == x,
    {
        let mut out: BTreeSet<u8> = BTreeSet::new();
        let mut j: usize = 0;
        while j < self.samples.len()
            invariant
                j <= self.samples@.len(),
                forall|x: u8| out@.contains(x) <==> exists|k: int|
                    0 <= k < j && (#[trigger] self.samples@[k]).run_index == x,
            decreases self.samples@.len() - j,
        {
            out.insert(self.samples[j].run_index);
            proof {
                assert forall|x: u8| out@.contains(x) <==> exists|k: int|
                    0 <= k < j + 1 && (#[trigger] self.samples@[k]).run_index == x by {
                    if x == self.samples@[j as int].run_index {
                        assert(self.samples@[j as int].run_index == x);
                    }
                }
            }
            j = j + 1;
        }
        out
    }

    /// The key this measurement is matched by.
    pub fn key(&self) -> (res: &str)
        ensures
            res@ == measurement_key(*self),
    {
        self.identity.key()
    }
}

/// The key a measurement is matched by: its identity's full id.
pub open spec fn measurement_key(m: MeasurementFacts) -> Seq<char> {
    m.identity.full_id_spec()
}

/// Some measurement of `ms` has key `k`.
pub open spec fn key_seen(ms: Seq<MeasurementFacts>, k: Seq<char>) -> bool {
    exists|j: int| 0 <= j < ms.len() && measurement_key(#[trigger] ms[j]) == k
}

/// Every measurement in order passes its checks and repeats no earlier key;
/// the first failure is the answer.
pub open spec fn measurements_check(ms: Seq<MeasurementFacts>) -> Result<(), BenchmarkError>
    decreases ms.len(),
{
    if ms.len() == 0 {
        Ok(())
    } else {
        then_check(
            measurements_check(ms.drop_last()),
            then_check(
                measurement_check(ms.last()),
                if key_seen(ms.drop_last(), measurement_key(ms.last())) {
                    Err(BenchmarkError::DuplicateBenchmark)
                } else {
                    Ok(())
                },
            ),
        )
    }
}

/// A failure in a prefix of the measurements is the failure of all of them.
proof fn lemma_measurements_check_prefix(ms: Seq<MeasurementFacts>, n: int)
    requires
        0 <= n <= ms.len(),
        measurements_check(ms.take(n)) is Err,
    ensures
        measurements_check(ms) == measurements_check(ms.take(n)),
    decreases ms.len() - n,
{
    if n < ms.len() {
        assert(ms.take(n + 1).drop_last() =~= ms.take(n));
        lemma_measurements_check_prefix(ms, n + 1);
    } else {
        assert(ms.take(n) =~= ms);
    }
}

/// Measurements that pass their checks carry no key twice.
pub proof fn lemma_checked_keys_distinct(ms: Seq<MeasurementFacts>)
    requires
        measurements_check(ms) is Ok,
    ensures
        forall|i: int, j: int|
            0 <= i < j < ms.len() ==> measurement_key(#[trigger] ms[i]) != measurement_key(#[trigger] ms[j]),
    decreases ms.len(),
{
    if ms.len() > 0 {
        let p = ms.drop_last();
        lemma_checked_keys_distinct(p);
        assert forall|i: int, j: int| 0 <= i < j < ms.len() implies measurement_key(#[trigger] ms[i])
            != measurement_key(#[trigger] ms[j]) by {
            if j == ms.len() - 1 {
                assert(p[i] == ms[i]);
                if measurement_key(ms[i]) == measurement_key(ms[j]) {
                    assert(key_seen(p, measurement_key(ms.last())));
                }
            } else {
                assert(p[i] == ms[i] && p[j] == ms[j]);
            }
        }
    }
}

/// Every sample of every measurement names an execution the provenance ran.
pub open spec fn run_indices_within(ms: Seq<MeasurementFacts>, run_count: u8) -> bool {
    forall|i: int, j: int|
        0 <= i < ms.len() && 0 <= j < ms[i].samples@.len() ==> #[trigger] ms[i].samples@[j].run_index
            <= run_count
}

/// What the structural checks read of one dataset.
#[derive(Clone, Debug, PartialEq, Eq)]
pub struct DatasetFacts {
    pub format_version: u8,
    pub format: String,
    pub unit: SampleUnit,
    pub measurements: Vec<MeasurementFacts>,
    pub provenance: BenchmarkProvenance,
}

/// What validating a dataset answers: the format first, so an unknown format
/// fails closed; then that it holds a measurement; then each measurement in
/// order; then the provenance; then that no sample names an execution the
/// provenance never ran.
pub open spec fn dataset_check(d: DatasetFacts) -> Result<(), BenchmarkError> {
    if d.format@ != BENCHMARK_DATASET_FORMAT@ || d.format_version != BENCHMARK_DATASET_FORMAT_VERSION {
        Err(BenchmarkError::UnknownFormat)
    } else if d.measurements@.len() == 0 {
        Err(BenchmarkError::EmptyDataset)
    } else {
        then_check(
            measurements_check(d.measurements@),
            then_check(
                provenance_check(d.provenance),
                if run_indices_within(d.measurements@, d.provenance.run_count) {
                    Ok(())
                } else {
                    Err(BenchmarkError::InvalidRunIndex)
                },
            ),
        )
    }
}

/// Whether `m`'s key occurs among the first `n` measurements.
fn key_among(ms: &Vec<MeasurementFacts>, n: usize, key: &str) -> (res: bool)
    requires
        n <= ms@.len(),
    ensures
        res == key_seen(ms@.take(n as int), key@),
{
    let mut j: usize = 0;
    while j < n
        invariant
            j <= n,
            n <= ms@.len(),
            forall|k: int| 0 <= k < j ==> measurement_key(#[trigger] ms@[k]) != key@,
        decreases n - j,
    {
        if str_eq(ms[j].key(), key) {
            assert(ms@.take(n as int)[j as int] == ms@[j as int]);
            return true;
        }
        j = j + 1;
    }
    assert forall|k: int| 0 <= k < n implies measurement_key(#[trigger] ms@.take(n as int)[k]) != key@ by {
        assert(ms@.take(n as int)[k] == ms@[k]);
    }
    false
}

/// Whether every sample names an execution no later than `run_count`.
fn runs_within(ms: &Vec<MeasurementFacts>, run_count: u8) -> (res: bool)
    ensures
        res == run_indices_within(ms@, run_count),
{
    let mut i: usize = 0;
    while i < ms.len()
        invariant
            i <= ms@.len(),
            forall|a: int, b: int|
                0 <= a < i && 0 <= b < ms@[a].samples@.len() ==> #[trigger] ms@[a].samples@[b].run_index
                    <= run_count,
        decreases ms@.len() - i,
    {
        let samples = &ms[i].samples;
        let mut j: usize = 0;
        while j < samples.len()
            invariant
                i < ms@.len(),
                samples@ == ms@[i as int].samples@,
                j <= samples@.len(),
                forall|b: int| 0 <= b < j ==> #[trigger] samples@[b].run_index <= run_count,
            decreases samples@.len() - j,
        {
            if samples[j].run_index > run_count {
                return false;
            }
            j = j + 1;
        }
        i = i + 1;
    }
    true
}

impl DatasetFacts {
    /// Total structural validation; an unknown format fails closed.
    pub fn validate(&self) -> (res: Result<(), BenchmarkError>)
        ensures
            res == dataset_check(*self),
    {
        if !str_eq(self.format.as_str(), BENCHMARK_DATASET_FORMAT)
            || self.format_version != BENCHMARK_DATASET_FORMAT_VERSION {
            return Err(BenchmarkError::UnknownFormat);
        }
        if self.measurements.len() == 0 {
            return Err(BenchmarkError::EmptyDataset);
        }
        let ms = &self.measurements;
        let mut i: usize = 0;
        assert(ms@.take(0) =~= Seq::<MeasurementFacts>::empty());
        while i < ms.len()
            invariant
                i <= ms@.len(),
                ms@ == self.measurements@,
                measurements_check(ms@.take(i as int)) is Ok,
                self.format@ == BENCHMARK_DATASET_FORMAT@,
                self.format_version == BENCHMARK_DATASET_FORMAT_VERSION,
                ms@.len() > 0,
            decreases ms@.len() - i,
        {
            let checked = ms[i].validate();
            let repeated = key_among(ms, i, ms[i].key());
            proof {
                assert(ms@.take(i + 1).drop_last() =~= ms@.take(i as int));
                assert(ms@.take(i + 1).last() == ms@[i as int]);
            }
            if checked.is_err() {
                proof {
                    lemma_measurements_check_prefix(ms@, i + 1);
                }
                return checked;
            }
            if repeated {
                proof {
                    lemma_measurements_check_prefix(ms@, i + 1);
                }
                return Err(BenchmarkError::DuplicateBenchmark);
            }
            i = i + 1;
        }
        assert(ms@.take(ms@.len() as int) =~= ms@);
        self.provenance.validate()?;
        if !runs_within(ms, self.provenance.run_count) {
            return Err(BenchmarkError::InvalidRunIndex);
        }
        Ok(())
    }
}

/// Exit-code classification; a hypothesis until calibration pins it.
#[derive(Clone, Copy, Debug, PartialEq, Eq, Structural)]
pub enum BenchmarkExit {
    /// 0: every selected benchmark ran to completion.
    Passed,
    /// 101: a benchmark itself failed while running.
    BenchmarkFailed,
    /// 100: the bench target did not build.
    CompilationFailed,
    /// Any other code.
    Uncalibrated,
    /// Reserved for application policy when the sample set is not whole.
    Incomplete,
}

/// The class of each exit code.
pub open spec fn benchmark_exit_of(code: i32) -> BenchmarkExit {
    if code == 0 {
        BenchmarkExit::Passed
    } else if code == 101 {
        BenchmarkExit::BenchmarkFailed
    } else if code == 100 {
        BenchmarkExit::CompilationFailed
    } else {
        BenchmarkExit::Uncalibrated
    }
}

impl BenchmarkExit {
    /// `false` until calibration records the observed codes.
    pub const CALIBRATED: bool = false;

    pub fn classify(code: i32) -> (res: Self)
        ensures
            res == benchmark_exit_of(code),
    {
        match code {
            0 => BenchmarkExit::Passed,
            101 => BenchmarkExit::BenchmarkFailed,
            100 => BenchmarkExit::CompilationFailed,
            _ => BenchmarkExit::Uncalibrated,
        }
    }
}

/// The text shown for each refusal.
pub open spec fn benchmark_error_message(e: BenchmarkError) -> Seq<char> {
    match e {
        BenchmarkError::EmptyIdentity => "benchmark identity field is empty"@,
        BenchmarkError::IdentityTooLong => "benchmark text field exceeds its bounded length"@,
        BenchmarkError::InvalidText => "benchmark text field carries a control character"@,
        BenchmarkError::NoSamples => "benchmark measurement carries no sample"@,
        BenchmarkError::TooManySamples => "benchmark measurement exceeds the sample ceiling"@,
        BenchmarkError::InvalidSample => "raw sample is not a bounded positive duration"@,
        BenchmarkError::DuplicateBenchmark => "dataset repeats a benchmark key"@,
        BenchmarkError::UnknownFormat => "dataset format is not the current contract"@,
        BenchmarkError::InvalidRunIndex => "run index is outside its 1-based run count"@,
        BenchmarkError::EmptyDataset => "dataset carries no measurement"@,
        BenchmarkError::InvalidProvenance => "provenance field is empty"@,
    }
}

impl BenchmarkError {
    /// The text shown for this refusal.
    pub fn message(&self) -> (res: &'static str)
        ensures
            res@ == benchmark_error_message(*self),
    {
        match self {
            BenchmarkError::EmptyIdentity => "benchmark identity field is empty",
            BenchmarkError::IdentityTooLong => "benchmark text field exceeds its bounded length",
            BenchmarkError::InvalidText => "benchmark text field carries a control character",
            BenchmarkError::NoSamples => "benchmark measurement carries no sample",
            BenchmarkError::TooManySamples => "benchmark measurement exceeds the sample ceiling",
            BenchmarkError::InvalidSample => "raw sample is not a bounded positive duration",
            BenchmarkError::DuplicateBenchmark => "dataset repeats a benchmark key",
            BenchmarkError::UnknownFormat => "dataset format is not the current contract",
            BenchmarkError::InvalidRunIndex => "run index is outside its 1-based run count",
            BenchmarkError::EmptyDataset => "dataset carries no measurement",
            BenchmarkError::InvalidProvenance => "provenance field is empty",
        }
    }
}

} // verus!
