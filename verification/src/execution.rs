//! Closed execution vocabulary: sandbox tiers, probe scenarios and limits.
use vstd::prelude::*;
use crate::value::ExecutionFingerprint;

verus! {

#[derive(Clone, Copy, Debug, PartialEq, Eq, Structural)]
pub enum SandboxTier {
    Unsandboxed,
    Restricted,
    Strict,
}

/// What a sandbox configuration was observed to isolate or limit.
#[derive(Clone, Copy, Debug, Default, PartialEq, Eq, Structural)]
pub struct SandboxCapabilities {
    pub filesystem_isolated: bool,
    pub network_isolated: bool,
    pub environment_isolated: bool,
    pub children_contained: bool,
    pub wall_time_limited: bool,
    pub output_limited: bool,
    pub cpu_quota: bool,
    pub memory_limited: bool,
    pub pids_limited: bool,
    pub disk_limited: bool,
}

/// The isolation every sandbox tier needs.
pub open spec fn base_isolation(c: SandboxCapabilities) -> bool {
    c.filesystem_isolated && c.network_isolated && c.environment_isolated && c.children_contained
        && c.wall_time_limited && c.output_limited && c.pids_limited
}

/// Whether capabilities `c` meet `tier`; the `Unsandboxed` tier is never satisfied.
pub open spec fn satisfies_spec(c: SandboxCapabilities, tier: SandboxTier) -> bool {
    match tier {
        SandboxTier::Unsandboxed => false,
        SandboxTier::Restricted => base_isolation(c),
        SandboxTier::Strict => base_isolation(c) && c.cpu_quota && c.memory_limited
            && c.disk_limited,
    }
}

impl SandboxCapabilities {
    pub fn satisfies(self, tier: SandboxTier) -> (res: bool)
        ensures
            res == satisfies_spec(self, tier),
    {
        if tier == SandboxTier::Unsandboxed {
            return false;
        }
        let base = self.filesystem_isolated && self.network_isolated && self.environment_isolated
            && self.children_contained && self.wall_time_limited && self.output_limited
            && self.pids_limited;
        base && (tier == SandboxTier::Restricted || (self.cpu_quota && self.memory_limited
            && self.disk_limited))
    }
}

/// A strict sandbox also satisfies the restricted tier.
pub proof fn law_strict_implies_restricted(c: SandboxCapabilities)
    requires
        satisfies_spec(c, SandboxTier::Strict),
    ensures
        satisfies_spec(c, SandboxTier::Restricted),
{
}

#[derive(Clone, Copy, Debug, PartialEq, Eq, Structural)]
pub enum ProbeScenario {
    Success,
    Exit7,
    Output,
    Sleep,
    Environment,
    Network,
    Filesystem,
    Descendants,
    Pids,
    Memory,
    Disk,
    Cpu,
    Cgroups,
}

/// The probe's command-line argument for each scenario.
pub open spec fn probe_argument(s: ProbeScenario) -> Seq<char> {
    match s {
        ProbeScenario::Success => "success"@,
        ProbeScenario::Exit7 => "exit7"@,
        ProbeScenario::Output => "output"@,
        ProbeScenario::Sleep => "sleep"@,
        ProbeScenario::Environment => "environment"@,
        ProbeScenario::Network => "network"@,
        ProbeScenario::Filesystem => "filesystem"@,
        ProbeScenario::Descendants => "descendants"@,
        ProbeScenario::Pids => "pids"@,
        ProbeScenario::Memory => "memory"@,
        ProbeScenario::Disk => "disk"@,
        ProbeScenario::Cpu => "cpu"@,
        ProbeScenario::Cgroups => "cgroups"@,
    }
}

impl ProbeScenario {
    /// Every scenario, in declaration order.
    pub fn all() -> (res: Vec<ProbeScenario>)
        ensures
            res@ == seq![
                ProbeScenario::Success,
                ProbeScenario::Exit7,
                ProbeScenario::Output,
                ProbeScenario::Sleep,
                ProbeScenario::Environment,
                ProbeScenario::Network,
                ProbeScenario::Filesystem,
                ProbeScenario::Descendants,
                ProbeScenario::Pids,
                ProbeScenario::Memory,
                ProbeScenario::Disk,
                ProbeScenario::Cpu,
                ProbeScenario::Cgroups,
            ],
    {
        vec![
            ProbeScenario::Success,
            ProbeScenario::Exit7,
            ProbeScenario::Output,
            ProbeScenario::Sleep,
            ProbeScenario::Environment,
            ProbeScenario::Network,
            ProbeScenario::Filesystem,
            ProbeScenario::Descendants,
            ProbeScenario::Pids,
            ProbeScenario::Memory,
            ProbeScenario::Disk,
            ProbeScenario::Cpu,
            ProbeScenario::Cgroups,
        ]
    }

    pub fn argument(self) -> (res: &'static str)
        ensures
            res@ == probe_argument(self),
    {
        match self {
            ProbeScenario::Success => "success",
            ProbeScenario::Exit7 => "exit7",
            ProbeScenario::Output => "output",
            ProbeScenario::Sleep => "sleep",
            ProbeScenario::Environment => "environment",
            ProbeScenario::Network => "network",
            ProbeScenario::Filesystem => "filesystem",
            ProbeScenario::Descendants => "descendants",
            ProbeScenario::Pids => "pids",
            ProbeScenario::Memory => "memory",
            ProbeScenario::Disk => "disk",
            ProbeScenario::Cpu => "cpu",
            ProbeScenario::Cgroups => "cgroups",
        }
    }
}

/// Smallest and largest wall-clock budgets, in milliseconds.
pub const MIN_WALL_MS: u64 = 100;
pub const MAX_SYNC_WALL_MS: u64 = 60_000;
pub const MAX_JOB_WALL_MS: u64 = 3_600_000;
/// Retained bytes per stream.
pub const MIN_OUTPUT_BYTES: usize = 1024;
pub const MAX_OUTPUT_BYTES: usize = 1_048_576;

/// Wall-clock and per-stream output limits of one execution.
#[derive(Clone, Copy, Debug, PartialEq, Eq, Structural)]
pub struct ExecutionLimits {
    wall_ms: u64,
    output_bytes: usize,
}

impl View for ExecutionLimits {
    type V = (u64, usize);

    closed spec fn view(&self) -> (u64, usize) {
        (self.wall_ms, self.output_bytes)
    }
}

impl ExecutionLimits {
    /// Limits for the synchronous command family: at most 60 s of wall time.
    pub fn new(wall_ms: u64, output_bytes: usize) -> (res: Option<Self>)
        ensures
            res is Some <==> MIN_WALL_MS <= wall_ms <= MAX_SYNC_WALL_MS && MIN_OUTPUT_BYTES
                <= output_bytes <= MAX_OUTPUT_BYTES,
            res matches Some(l) ==> l@ == (wall_ms, output_bytes),
    {
        if wall_ms < MIN_WALL_MS || wall_ms > MAX_SYNC_WALL_MS {
            return None;
        }
        Self::new_bounded(wall_ms, output_bytes)
    }

    /// Limits for a bounded quality job: at most one hour of wall time.
    pub fn new_job(wall_ms: u64, output_bytes: usize) -> (res: Option<Self>)
        ensures
            res is Some <==> MIN_WALL_MS <= wall_ms <= MAX_JOB_WALL_MS && MIN_OUTPUT_BYTES
                <= output_bytes <= MAX_OUTPUT_BYTES,
            res matches Some(l) ==> l@ == (wall_ms, output_bytes),
    {
        if wall_ms < MIN_WALL_MS || wall_ms > MAX_JOB_WALL_MS {
            return None;
        }
        Self::new_bounded(wall_ms, output_bytes)
    }

    fn new_bounded(wall_ms: u64, output_bytes: usize) -> (res: Option<Self>)
        ensures
            res is Some <==> MIN_OUTPUT_BYTES <= output_bytes <= MAX_OUTPUT_BYTES,
            res matches Some(l) ==> l@ == (wall_ms, output_bytes),
    {
        if output_bytes < MIN_OUTPUT_BYTES || output_bytes > MAX_OUTPUT_BYTES {
            return None;
        }
        Some(ExecutionLimits { wall_ms, output_bytes })
    }

    pub fn wall_ms(self) -> (res: u64)
        ensures
            res == self@.0,
    {
        self.wall_ms
    }

    /// Maximum retained bytes per stream (stdout and stderr independently).
    pub fn output_bytes(self) -> (res: usize)
        ensures
            res == self@.1,
    {
        self.output_bytes
    }
}

impl Default for ExecutionLimits {
    fn default() -> (res: Self)
        ensures
            res@ == (10_000u64, 65_536usize),
    {
        ExecutionLimits { wall_ms: 10_000, output_bytes: 65_536 }
    }
}

#[derive(Clone, Debug, PartialEq, Eq)]
pub struct ExecutionSpec {
    pub scenario: ProbeScenario,
    pub limits: ExecutionLimits,
}

/// How a sandboxed process ended.
#[derive(Clone, Copy, Debug, PartialEq, Eq, Structural)]
pub enum ExecutionTermination {
    Exited,
    TimedOut,
    Cancelled,
    OutputLimit,
}

#[derive(Clone, Debug)]
pub struct ExecutionResult {
    pub termination: ExecutionTermination,
    pub exit_code: Option<i32>,
    pub oom_killed: Option<bool>,
    pub stdout: String,
    pub stderr: String,
    pub stdout_truncated: bool,
    pub stderr_truncated: bool,
    pub duration_ms: u64,
    pub total_duration_ms: u64,
    pub execution_fingerprint: ExecutionFingerprint,
    pub platform: &'static str,
    pub image_id: String,
}

/// Evidence is scoped to one generated configuration; it is not peer authority.
#[derive(Clone, Debug)]
pub struct SandboxEvidence {
    pub configuration_fingerprint: ExecutionFingerprint,
    pub capabilities: SandboxCapabilities,
}

} // verus!
