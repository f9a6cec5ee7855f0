//! What the execution adapter observed while running `cargo bench`: the harness
//! it found, the exit, the retained output tree and each repetition's logs.
//! The measurement itself is carried as an opaque dataset value.
use vstd::prelude::*;
use crate::benchmark::BenchmarkSelection;
use crate::execution::ExecutionTermination;
use crate::inspection::RuntimeIdentity;
use crate::value::{ExecutionFingerprint, SourceFingerprint};

verus! {

/// The harness found in the resolved dependency graph: an exact package and
/// version, or nothing recognised.
#[derive(Clone, Debug, PartialEq, Eq)]
pub enum HarnessDetection {
    /// The approved harness at the approved version.
    Criterion { version: String },
    /// The harness at a version whose output format is not frozen.
    CriterionUnapproved { version: String },
    /// Some other, or no, benchmark harness.
    Unrecognized,
}

impl HarnessDetection {
    /// Only the approved harness yields a measurement.
    pub fn measurable(&self) -> (res: bool)
        ensures
            res == (*self is Criterion),
    {
        match self {
            HarnessDetection::Criterion { .. } => true,
            _ => false,
        }
    }
}

/// Exit classification for `cargo bench`; a hypothesis until calibrated.
#[derive(Clone, Copy, Debug, PartialEq, Eq, Structural)]
pub enum BenchmarkExit {
    Passed,
    BenchmarkFailed,
    CompilationFailed,
    Uncalibrated,
    Incomplete,
}

/// The class of each exit code.
pub open spec fn run_exit_of(code: i32) -> BenchmarkExit {
    if code == 0 {
        BenchmarkExit::Passed
    } else if code == 100 {
        BenchmarkExit::CompilationFailed
    } else if code == 101 {
        BenchmarkExit::BenchmarkFailed
    } else {
        BenchmarkExit::Uncalibrated
    }
}

impl BenchmarkExit {
    /// `false` until a calibration receipt records the observed codes.
    pub const CALIBRATED: bool = false;

    pub fn classify(code: i32) -> (res: Self)
        ensures
            res == run_exit_of(code),
    {
        match code {
            0 => BenchmarkExit::Passed,
            100 => BenchmarkExit::CompilationFailed,
            101 => BenchmarkExit::BenchmarkFailed,
            _ => BenchmarkExit::Uncalibrated,
        }
    }
}

/// Why a run produced no dataset, or no output tree.
#[derive(Clone, Copy, Debug, PartialEq, Eq, Structural)]
pub enum DatasetOmission {
    HarnessUnrecognized,
    HarnessUnapproved,
    ExecutionFailed,
    OutputMissing,
    OutputUnparsable,
    OutputTooLarge,
    Cancelled,
}

/// Ceiling on a retained output tree; an oversize tree is refused, never trimmed.
pub const BENCHMARK_MAX_ARCHIVE_BYTES: usize = 32 * 1024 * 1024;

/// Ceiling on one repetition's retained stream.
pub const BENCHMARK_MAX_LOG_BYTES: usize = 256 * 1024;

/// One repetition's logs, never concatenated with another's.
#[derive(Clone, Debug)]
pub struct BenchmarkRunLog {
    /// 1-based position of the repetition inside the requested run set.
    pub run_index: u8,
    pub stdout: Vec<u8>,
    /// `stdout` is the prefix kept of a longer stream.
    pub stdout_truncated: bool,
    /// Bytes of `stdout` that were not UTF-8 were replaced.
    pub stdout_replaced: bool,
    pub stderr: Vec<u8>,
    pub stderr_truncated: bool,
    pub stderr_replaced: bool,
}

/// The output tree of exactly one repetition, retained verbatim.
#[derive(Clone, Debug)]
pub struct CriterionArchive {
    /// 1-based position of the repetition that exported the tree.
    pub run_index: u8,
    /// The archive stream exactly as exported.
    pub bytes: Vec<u8>,
}

/// One observed run. `D` is the dataset type published beside it; nothing here
/// reads inside a dataset.
#[derive(Clone, Debug)]
pub struct BenchmarkObservation<D> {
    pub selection: BenchmarkSelection,
    pub harness: HarnessDetection,
    pub exit: BenchmarkExit,
    pub exit_code: Option<i32>,
    pub termination: ExecutionTermination,
    /// 1-based repetition whose exit the fields above report: the last that ran.
    pub exit_run_index: u8,
    /// Present only when the harness was approved and its output parsed whole.
    pub dataset: Option<D>,
    pub omission: Option<DatasetOmission>,
    /// One repetition's output tree, when one was retained whole.
    pub archive: Option<CriterionArchive>,
    /// Why no tree is carried; exclusive with `archive`.
    pub archive_omission: Option<DatasetOmission>,
    pub runs_completed: u8,
    pub runs_requested: u8,
    pub runtime: RuntimeIdentity,
    pub execution_fingerprint: ExecutionFingerprint,
    pub vendor_fingerprint: SourceFingerprint,
    /// One entry per repetition that ran, in run order.
    pub logs: Vec<BenchmarkRunLog>,
}

/// A stream within the ceiling that does not claim a cut of nothing.
pub open spec fn stream_ok(bytes: Seq<u8>, truncated: bool) -> bool {
    bytes.len() <= BENCHMARK_MAX_LOG_BYTES && !(bytes.len() == 0 && truncated)
}

/// Both streams of one repetition are well formed.
pub open spec fn log_streams_ok(log: BenchmarkRunLog) -> bool {
    stream_ok(log.stdout@, log.stdout_truncated) && stream_ok(log.stderr@, log.stderr_truncated)
}

/// The logs describe repetitions of this run: at least one, at most the
/// requested count, strictly increasing indices inside the requested set,
/// every stream bounded, and the last entry is the repetition whose exit is
/// reported.
pub open spec fn logs_ok(logs: Seq<BenchmarkRunLog>, runs_requested: u8, exit_run_index: u8) -> bool {
    &&& logs.len() > 0
    &&& logs.len() <= runs_requested
    &&& 1 <= exit_run_index <= runs_requested
    &&& forall|i: int| 0 <= i < logs.len() ==> 1 <= #[trigger] logs[i].run_index <= runs_requested
    &&& forall|i: int, j: int|
        0 <= i < j < logs.len() ==> #[trigger] logs[i].run_index < #[trigger] logs[j].run_index
    &&& forall|i: int| 0 <= i < logs.len() ==> log_streams_ok(#[trigger] logs[i])
    &&& logs.last().run_index == exit_run_index
}

/// A dataset and an omission are exclusive, and a dataset needs the approved
/// harness and at least one completed run.
pub open spec fn dataset_ok<D>(o: BenchmarkObservation<D>) -> bool {
    match (o.dataset, o.omission) {
        (Some(_), None) => o.harness is Criterion && o.runs_completed >= 1,
        (None, Some(_)) => true,
        _ => false,
    }
}

/// A retained tree and its omission are exclusive; a tree names a repetition
/// inside the requested set, no later than the one whose exit is reported, and
/// is non-empty and within the archive ceiling.
pub open spec fn archive_ok<D>(o: BenchmarkObservation<D>) -> bool {
    match (o.archive, o.archive_omission) {
        (Some(a), None) => {
            &&& 1 <= a.run_index
            &&& a.run_index <= o.runs_requested
            &&& a.run_index <= o.exit_run_index
            &&& a.bytes@.len() > 0
            &&& a.bytes@.len() <= BENCHMARK_MAX_ARCHIVE_BYTES
        },
        (None, Some(_)) => true,
        _ => false,
    }
}

/// The whole observation is coherent.
pub open spec fn observation_ok<D>(o: BenchmarkObservation<D>) -> bool {
    dataset_ok(o) && archive_ok(o) && logs_ok(o.logs@, o.runs_requested, o.exit_run_index)
}

impl<D> BenchmarkObservation<D> {
    /// Checked by callers before publishing.
    pub fn consistent(&self) -> (res: bool)
        ensures
            res == observation_ok(*self),
    {
        self.dataset_consistent() && self.archive_consistent() && self.logs_consistent()
    }

    /// Any repetition's `stdout` was cut at the ceiling.
    pub fn any_stdout_truncated(&self) -> (res: bool)
        ensures
            res == exists|i: int| 0 <= i < self.logs@.len() && (#[trigger] self.logs@[i]).stdout_truncated,
    {
        let mut k: usize = 0;
        while k < self.logs.len()
            invariant
                k <= self.logs@.len(),
                forall|i: int| 0 <= i < k ==> !(#[trigger] self.logs@[i]).stdout_truncated,
            decreases self.logs@.len() - k,
        {
            if self.logs[k].stdout_truncated {
                return true;
            }
            k += 1;
        }
        false
    }

    /// Any repetition's `stderr` was cut at the ceiling.
    pub fn any_stderr_truncated(&self) -> (res: bool)
        ensures
            res == exists|i: int| 0 <= i < self.logs@.len() && (#[trigger] self.logs@[i]).stderr_truncated,
    {
        let mut k: usize = 0;
        while k < self.logs.len()
            invariant
                k <= self.logs@.len(),
                forall|i: int| 0 <= i < k ==> !(#[trigger] self.logs@[i]).stderr_truncated,
            decreases self.logs@.len() - k,
        {
            if self.logs[k].stderr_truncated {
                return true;
            }
            k += 1;
        }
        false
    }

    fn dataset_consistent(&self) -> (res: bool)
        ensures
            res == dataset_ok(*self),
    {
        match (&self.dataset, &self.omission) {
            (Some(_), None) => self.harness.measurable() && self.runs_completed >= 1,
            (None, Some(_)) => true,
            _ => false,
        }
    }

    fn archive_consistent(&self) -> (res: bool)
        ensures
            res == archive_ok(*self),
    {
        match (&self.archive, &self.archive_omission) {
            (Some(archive), None) => {
                archive.run_index >= 1 && archive.run_index <= self.runs_requested
                    && archive.run_index <= self.exit_run_index && archive.bytes.len() > 0
                    && archive.bytes.len() <= BENCHMARK_MAX_ARCHIVE_BYTES
            },
            (None, Some(_)) => true,
            _ => false,
        }
    }

    fn logs_consistent(&self) -> (res: bool)
        ensures
            res == logs_ok(self.logs@, self.runs_requested, self.exit_run_index),
    {
        let logs = &self.logs;
        let requested = self.runs_requested;
        let exit_index = self.exit_run_index;
        if logs.len() == 0 || logs.len() > requested as usize || exit_index < 1 || exit_index > requested {
            return false;
        }
        let mut previous: u8 = 0;
        let mut k: usize = 0;
        while k < logs.len()
            invariant
                k <= logs@.len(),
                logs@ == self.logs@,
                requested == self.runs_requested,
                k == 0 ==> previous == 0,
                k > 0 ==> previous == logs@[k - 1].run_index,
                forall|i: int| 0 <= i < k ==> 1 <= #[trigger] logs@[i].run_index <= requested,
                forall|i: int, j: int|
                    0 <= i < j < k ==> #[trigger] logs@[i].run_index < #[trigger] logs@[j].run_index,
                forall|i: int| 0 <= i < k ==> #[trigger] logs@[i].run_index <= previous,
                forall|i: int| 0 <= i < k ==> log_streams_ok(#[trigger] logs@[i]),
            decreases logs@.len() - k,
        {
            let log = &logs[k];
            if log.run_index <= previous || log.run_index > requested {
                proof {
                    if k > 0 && logs@[k as int].run_index <= previous {
                        assert(logs@[k - 1].run_index >= logs@[k as int].run_index);
                    }
                }
                return false;
            }
            let out_ok = log.stdout.len() <= BENCHMARK_MAX_LOG_BYTES
                && !(log.stdout.len() == 0 && log.stdout_truncated);
            let err_ok = log.stderr.len() <= BENCHMARK_MAX_LOG_BYTES
                && !(log.stderr.len() == 0 && log.stderr_truncated);
            if !out_ok || !err_ok {
                proof {
                    assert(!log_streams_ok(logs@[k as int]));
                }
                return false;
            }
            previous = log.run_index;
            k += 1;
        }
        previous == exit_index
    }
}

} // verus!
