//! What one sampling-profiler execution observed, including what it missed:
//! lost samples, unresolved frames and truncated stacks are first-class fields.
use vstd::prelude::*;
use crate::check::{ident_char, is_ident_char};
use crate::execution::ExecutionTermination;
use crate::inspection::RuntimeIdentity;
use crate::text::chars_of;
use crate::value::{ExecutionFingerprint, SourceFingerprint};

verus! {

/// The only sampling backend implemented.
pub const PROFILE_BACKEND: &'static str = "perf_event_software_cpu_clock";

pub const PROFILE_STACKS_FORMAT: &'static str = "rust-engineering-mcp.collapsed-stacks.v1";

pub const PROFILE_SVG_FORMAT: &'static str = "rust-engineering-mcp.flamegraph-svg.v1";

pub const PROFILE_MIN_FREQUENCY_HZ: u32 = 1;

pub const PROFILE_MAX_FREQUENCY_HZ: u32 = 999;

pub const PROFILE_DEFAULT_FREQUENCY_HZ: u32 = 99;

pub const PROFILE_MIN_DURATION_SECONDS: u64 = 1;

pub const PROFILE_MAX_DURATION_SECONDS: u64 = 60;

pub const PROFILE_DEFAULT_DURATION_SECONDS: u64 = 10;

/// The kernel may cap the depth lower; the observation records the depth applied.
pub const PROFILE_MAX_DEPTH: u32 = 127;

pub const PROFILE_MAX_SAMPLES: u64 = 2_000_000;

#[derive(Clone, Copy, Debug, PartialEq, Eq, Structural)]
pub enum ProfileError {
    InvalidFrequency,
    InvalidDuration,
    InvalidTarget,
}

/// A binary target name: 1 to 64 ASCII letters, digits, `_` and `-`; never a
/// path or an argument.
pub open spec fn target_name(s: Seq<char>) -> bool {
    0 < s.len() <= 64 && forall|i: int| 0 <= i < s.len() ==> #[trigger] ident_char(s[i])
}

/// What validating a request answers: the first failing check, in the order
/// target, frequency, duration.
pub open spec fn profile_check(target: Seq<char>, frequency_hz: u32, duration_seconds: u64) -> Result<(), ProfileError> {
    if !target_name(target) {
        Err(ProfileError::InvalidTarget)
    } else if !(PROFILE_MIN_FREQUENCY_HZ <= frequency_hz <= PROFILE_MAX_FREQUENCY_HZ) {
        Err(ProfileError::InvalidFrequency)
    } else if !(PROFILE_MIN_DURATION_SECONDS <= duration_seconds <= PROFILE_MAX_DURATION_SECONDS) {
        Err(ProfileError::InvalidDuration)
    } else {
        Ok(())
    }
}

/// A validated profiling request: a target name and two bounded numbers.
#[derive(Clone, Debug, PartialEq, Eq)]
pub struct ProfileOptions {
    binary_target: String,
    frequency_hz: u32,
    duration_seconds: u64,
}

fn is_target_name(value: &str) -> (res: bool)
    ensures
        res == target_name(value@),
{
    let v = chars_of(value);
    if v.len() == 0 || v.len() > 64 {
        return false;
    }
    let mut i: usize = 0;
    while i < v.len()
        invariant
            v@ == value@,
            i <= v@.len(),
            forall|k: int| 0 <= k < i ==> #[trigger] ident_char(v@[k]),
        decreases v.len() - i,
    {
        if !is_ident_char(v[i]) {
            return false;
        }
        i = i + 1;
    }
    true
}

impl ProfileOptions {
    pub closed spec fn target_spec(&self) -> Seq<char> {
        self.binary_target@
    }

    pub closed spec fn frequency_spec(&self) -> u32 {
        self.frequency_hz
    }

    pub closed spec fn duration_spec(&self) -> u64 {
        self.duration_seconds
    }

    /// The options are ones [`ProfileOptions::new`] accepts.
    pub closed spec fn wf(&self) -> bool {
        profile_check(self.binary_target@, self.frequency_hz, self.duration_seconds) is Ok
    }

    pub fn new(binary_target: String, frequency_hz: u32, duration_seconds: u64) -> (res: Result<Self, ProfileError>)
        ensures
            match profile_check(binary_target@, frequency_hz, duration_seconds) {
                Ok(()) => res matches Ok(o) && o.target_spec() == binary_target@ && o.frequency_spec()
                    == frequency_hz && o.duration_spec() == duration_seconds && o.wf(),
                Err(e) => res == Err::<Self, ProfileError>(e),
            },
    {
        if !is_target_name(binary_target.as_str()) {
            return Err(ProfileError::InvalidTarget);
        }
        if frequency_hz < PROFILE_MIN_FREQUENCY_HZ || frequency_hz > PROFILE_MAX_FREQUENCY_HZ {
            return Err(ProfileError::InvalidFrequency);
        }
        if duration_seconds < PROFILE_MIN_DURATION_SECONDS || duration_seconds
            > PROFILE_MAX_DURATION_SECONDS {
            return Err(ProfileError::InvalidDuration);
        }
        Ok(ProfileOptions { binary_target, frequency_hz, duration_seconds })
    }

    pub fn binary_target(&self) -> (res: &str)
        ensures
            res@ == self.target_spec(),
    {
        self.binary_target.as_str()
    }

    pub fn frequency_hz(&self) -> (res: u32)
        ensures
            res == self.frequency_spec(),
    {
        self.frequency_hz
    }

    pub fn duration_seconds(&self) -> (res: u64)
        ensures
            res == self.duration_spec(),
    {
        self.duration_seconds
    }

    /// The duration in milliseconds, saturating at `u64::MAX`.
    pub fn duration_ms(&self) -> (res: u64)
        ensures
            res == if self.duration_spec() * 1000 > u64::MAX {
                u64::MAX as int
            } else {
                self.duration_spec() * 1000
            },
    {
        if self.duration_seconds > u64::MAX / 1000 {
            u64::MAX
        } else {
            self.duration_seconds * 1000
        }
    }
}

/// The helper's own terminal state.
#[derive(Clone, Copy, Debug, PartialEq, Eq, Structural)]
pub enum ProfileStatus {
    Complete,
    SampleLimit,
    DurationLimit,
    ChildExited,
    ProfilerUnavailable,
}

/// What the build of the profiled target did; a compile failure is the
/// project's, not the profiler's.
#[derive(Clone, Copy, Debug, PartialEq, Eq, Structural)]
pub enum ProfileBuildOutcome {
    Built,
    CompilationFailed,
    TargetNotFound,
}

#[derive(Clone, Copy, Debug, Default, PartialEq, Eq, Structural)]
pub struct ProfileCounters {
    pub observed_duration_ms: u64,
    pub samples_collected: u64,
    pub samples_lost: u64,
    pub stacks_written: u64,
    pub frames_total: u64,
    pub frames_unresolved: u64,
    pub stacks_truncated: u64,
    pub modules_seen: u64,
    pub max_depth_applied: u32,
}

#[derive(Clone, Copy, Debug, Default, PartialEq, Eq, Structural)]
pub struct ProfileChild {
    pub exit_code: Option<i32>,
    pub signal: Option<i32>,
}

/// One ranked frame: `self_samples` counts stacks whose leaf it is,
/// `total_samples` counts stacks containing it, once per stack.
#[derive(Clone, Debug, PartialEq, Eq)]
pub struct ProfileFrameWeight {
    pub frame: String,
    pub self_samples: u64,
    pub total_samples: u64,
}

/// How complete the emitted evidence is; anything but `Complete` stays visible.
#[derive(Clone, Copy, Debug, PartialEq, Eq, Structural)]
pub enum ProfileCompleteness {
    Complete,
    LostSamples,
    NoSamples,
    Truncated,
    Unavailable,
}

#[derive(Clone, Debug)]
pub struct ProfileObservation {
    pub options: ProfileOptions,
    pub backend: &'static str,
    pub build: ProfileBuildOutcome,
    pub build_exit_code: Option<i32>,
    pub status: ProfileStatus,
    pub counters: ProfileCounters,
    pub child: ProfileChild,
    /// Errno reported when the sampler was refused.
    pub perf_errno: Option<i32>,
    pub completeness: ProfileCompleteness,
    pub top_frames: Vec<ProfileFrameWeight>,
    pub stacks: Vec<u8>,
    pub svg: Vec<u8>,
    pub termination: ExecutionTermination,
    pub runtime: RuntimeIdentity,
    pub execution_fingerprint: ExecutionFingerprint,
    pub vendor_fingerprint: SourceFingerprint,
    pub stdout: Vec<u8>,
    pub stderr: Vec<u8>,
    pub stdout_truncated: bool,
    pub stderr_truncated: bool,
}

/// The completeness label agrees with the counters it summarizes.
pub open spec fn profile_consistent(o: ProfileObservation) -> bool {
    let c = o.counters;
    match o.completeness {
        ProfileCompleteness::Unavailable => o.status == ProfileStatus::ProfilerUnavailable
            && c.samples_collected == 0 && o.svg@.len() == 0,
        ProfileCompleteness::NoSamples => c.samples_collected == 0,
        ProfileCompleteness::LostSamples => c.samples_lost > 0,
        ProfileCompleteness::Truncated => c.stacks_truncated > 0,
        ProfileCompleteness::Complete => c.samples_lost == 0 && c.stacks_truncated == 0
            && c.samples_collected > 0,
    }
}

impl ProfileObservation {
    pub fn consistent(&self) -> (res: bool)
        ensures
            res == profile_consistent(*self),
    {
        let c = self.counters;
        match self.completeness {
            ProfileCompleteness::Unavailable => self.status == ProfileStatus::ProfilerUnavailable
                && c.samples_collected == 0 && self.svg.len() == 0,
            ProfileCompleteness::NoSamples => c.samples_collected == 0,
            ProfileCompleteness::LostSamples => c.samples_lost > 0,
            ProfileCompleteness::Truncated => c.stacks_truncated > 0,
            ProfileCompleteness::Complete => c.samples_lost == 0 && c.stacks_truncated == 0
                && c.samples_collected > 0,
        }
    }
}

/// A profile labelled complete lost nothing, truncated nothing and saw samples.
pub proof fn law_complete_profile_lost_nothing(o: ProfileObservation)
    requires
        profile_consistent(o),
        o.completeness == ProfileCompleteness::Complete,
    ensures
        o.counters.samples_lost == 0,
        o.counters.stacks_truncated == 0,
        o.counters.samples_collected > 0,
{
}

} // verus!
