//! Transport-neutral lifecycle values for bounded quality jobs.
use vstd::prelude::*;
use vstd::std_specs::convert::TryFromSpecImpl;
use vstd::string::StringSliceAdditionalSpecFns;
use vstd::utf8::encode_utf8;
use crate::sha256::{sha256, sha256_spec};
use crate::text::{canonical_hex_id, hex_encoding, is_canonical_hex_id, lemma_hex_encoding, owned, prefixed_hex};

verus! {

pub const TASK_RECORD_TTL_MS: u64 = 7_200_000;
pub const TASK_POLL_INTERVAL_MS: u64 = 1_000;
pub const NON_DELIVERY_DEADLINE_MS: u64 = 30_000;
pub const TASK_RESPONSE_MAX_BYTES: u64 = 524_288;

#[derive(Clone, Copy, Debug, PartialEq, Eq, Structural)]
pub enum JobContractError {
    InvalidId,
    InvalidBudget,
    InvalidDeadline,
}

/// Opaque locator only: `job_` and 32 lowercase hexadecimal digits. Syntax
/// proves neither existence nor authorization.
#[derive(Clone, Debug, PartialEq, Eq, Hash)]
pub struct JobId {
    id: String,
}

impl View for JobId {
    type V = Seq<char>;

    closed spec fn view(&self) -> Seq<char> {
        self.id@
    }
}

/// Whether `s` is a well-formed job identifier.
pub open spec fn job_id_spec(s: Seq<char>) -> bool {
    canonical_hex_id(s, "job_"@)
}

impl JobId {
    /// `job_` followed by the lowercase hex of the 16 bytes, high nibble first.
    pub fn from_random_bytes(bytes: [u8; 16]) -> (res: Self)
        ensures
            res@ == "job_"@ + hex_encoding(bytes@),
            job_id_spec(res@),
    {
        let id = prefixed_hex("job_", bytes.as_slice());
        proof {
            reveal_strlit("job_");
            lemma_hex_encoding(bytes@);
            assert(id@.take(4) =~= "job_"@);
            assert forall|i: int| 4 <= i < id@.len() implies #[trigger] crate::text::is_lower_hex_spec(id@[i]) by {
                assert(id@[i] == hex_encoding(bytes@)[i - 4]);
            }
        }
        JobId { id }
    }

    /// Parses an identifier: `job_` and exactly 32 lowercase hexadecimal digits.
    pub fn parse(value: String) -> (res: Result<Self, JobContractError>)
        ensures
            res is Ok <==> job_id_spec(value@),
            res matches Ok(j) ==> j@ == value@,
            res matches Err(e) ==> e == JobContractError::InvalidId,
    {
        if is_canonical_hex_id(value.as_str(), "job_") {
            Ok(JobId { id: value })
        } else {
            Err(JobContractError::InvalidId)
        }
    }

    pub fn as_str(&self) -> (res: &str)
        ensures
            res@ == self@,
    {
        self.id.as_str()
    }
}

impl std::convert::TryFrom<String> for JobId {
    type Error = JobContractError;

    fn try_from(value: String) -> Result<Self, JobContractError> {
        if is_canonical_hex_id(value.as_str(), "job_") {
            Ok(JobId { id: value })
        } else {
            Err(JobContractError::InvalidId)
        }
    }
}

impl TryFromSpecImpl<String> for JobId {
    open spec fn obeys_try_from_spec() -> bool {
        true
    }

    closed spec fn try_from_spec(value: String) -> Result<Self, JobContractError> {
        if job_id_spec(value@) {
            Ok(JobId { id: value })
        } else {
            Err(JobContractError::InvalidId)
        }
    }
}

impl std::str::FromStr for JobId {
    type Err = JobContractError;

    fn from_str(value: &str) -> (res: Result<Self, JobContractError>)
        ensures
            res is Ok <==> job_id_spec(value@),
            res matches Ok(j) ==> j@ == value@,
            res matches Err(e) ==> e == JobContractError::InvalidId,
    {
        JobId::parse(owned(value))
    }
}

/// Closed to operations whose complete application vertical is qualified.
#[derive(Clone, Copy, Debug, PartialEq, Eq, Structural)]
pub enum JobKind {
    TestNextest,
    Coverage,
    SemverCheck,
    MutationTest,
}

#[derive(Clone, Copy, Debug, PartialEq, Eq, Structural)]
pub enum JobState {
    Admitted,
    Running,
    Completed,
    Failed,
    Cancelled,
}

/// A job in this state has finished and never changes again.
pub open spec fn is_terminal_spec(s: JobState) -> bool {
    s is Completed || s is Failed || s is Cancelled
}

/// The allowed lifecycle moves: staying put, starting, or finishing from a live state.
pub open spec fn can_transition_spec(from: JobState, to: JobState) -> bool {
    ||| from == to
    ||| (from is Admitted && to is Running)
    ||| (!is_terminal_spec(from) && is_terminal_spec(to))
}

impl JobState {
    pub fn is_terminal(self) -> (res: bool)
        ensures
            res == is_terminal_spec(self),
    {
        match self {
            JobState::Completed | JobState::Failed | JobState::Cancelled => true,
            _ => false,
        }
    }

    pub fn can_transition_to(self, next: Self) -> (res: bool)
        ensures
            res == can_transition_spec(self, next),
    {
        if self == next {
            return true;
        }
        match (self, next) {
            (JobState::Admitted, JobState::Running) => true,
            (JobState::Admitted, JobState::Completed) => true,
            (JobState::Admitted, JobState::Failed) => true,
            (JobState::Admitted, JobState::Cancelled) => true,
            (JobState::Running, JobState::Completed) => true,
            (JobState::Running, JobState::Failed) => true,
            (JobState::Running, JobState::Cancelled) => true,
            _ => false,
        }
    }
}

/// A terminal state only "moves" to itself.
pub proof fn law_terminal_states_are_final(from: JobState, to: JobState)
    requires
        is_terminal_spec(from),
        can_transition_spec(from, to),
    ensures
        to == from,
{
}

/// Every state may stay where it is.
pub proof fn law_transition_reflexive(s: JobState)
    ensures
        can_transition_spec(s, s),
{
}

/// Nothing moves back to `Admitted` from another state.
pub proof fn law_no_return_to_admitted(from: JobState)
    requires
        from != JobState::Admitted,
    ensures
        !can_transition_spec(from, JobState::Admitted),
{
}

/// Two allowed moves compose into an allowed move.
pub proof fn law_transition_transitive(a: JobState, b: JobState, c: JobState)
    requires
        can_transition_spec(a, b),
        can_transition_spec(b, c),
    ensures
        can_transition_spec(a, c),
{
}

/// A live job, admitted or running, may finish in every terminal way:
/// complete, fail or be cancelled. An admitted job may also start. Nothing
/// else moves.
pub proof fn law_live_jobs_may_finish_every_way(from: JobState, to: JobState)
    ensures
        (from == JobState::Admitted || from == JobState::Running) && (to == JobState::Completed || to
            == JobState::Failed || to == JobState::Cancelled) ==> can_transition_spec(from, to),
        from == JobState::Admitted && to == JobState::Running ==> can_transition_spec(from, to),
        can_transition_spec(from, to) ==> from == to || (from == JobState::Admitted && to == JobState::Running)
            || ((from == JobState::Admitted || from == JobState::Running) && (to == JobState::Completed || to
            == JobState::Failed || to == JobState::Cancelled)),
{
}

#[derive(Clone, Copy, Debug, PartialEq, Eq, Structural)]
pub enum JobPhase {
    Admission,
    Capture,
    Prepare,
    Execute,
    Collect,
    Publish,
    Cleanup,
    Terminal,
}

/// The status line published for each phase.
pub open spec fn phase_message(p: JobPhase) -> Seq<char> {
    match p {
        JobPhase::Admission => "admitted"@,
        JobPhase::Capture => "capturing project"@,
        JobPhase::Prepare => "preparing execution"@,
        JobPhase::Execute => "executing"@,
        JobPhase::Collect => "collecting evidence"@,
        JobPhase::Publish => "publishing result"@,
        JobPhase::Cleanup => "cleaning up"@,
        JobPhase::Terminal => "finished"@,
    }
}

impl JobPhase {
    pub fn status_message(self) -> (res: &'static str)
        ensures
            res@ == phase_message(self),
    {
        match self {
            JobPhase::Admission => "admitted",
            JobPhase::Capture => "capturing project",
            JobPhase::Prepare => "preparing execution",
            JobPhase::Execute => "executing",
            JobPhase::Collect => "collecting evidence",
            JobPhase::Publish => "publishing result",
            JobPhase::Cleanup => "cleaning up",
            JobPhase::Terminal => "finished",
        }
    }
}

#[derive(Clone, Copy, Debug, PartialEq, Eq, Structural)]
pub enum ExecutionMode {
    Auto,
    Task,
    Synchronous,
}

impl Default for ExecutionMode {
    fn default() -> (res: Self)
        ensures
            res == ExecutionMode::Auto,
    {
        ExecutionMode::Auto
    }
}

/// A duration or monotonic instant in milliseconds.
#[derive(Clone, Copy, Debug, PartialEq, Eq, Structural, PartialOrd, Ord)]
pub struct Milliseconds(pub u64);

/// A monotonic instant by which a job must have finished.
#[derive(Clone, Copy, Debug, PartialEq, Eq, Structural)]
pub struct JobDeadline(Milliseconds);

impl View for JobDeadline {
    type V = u64;

    closed spec fn view(&self) -> u64 {
        self.0.0
    }
}

impl JobDeadline {
    pub fn at(monotonic: Milliseconds) -> (res: Self)
        ensures
            res@ == monotonic.0,
    {
        JobDeadline(monotonic)
    }

    /// `now + duration`, refused when it does not fit.
    pub fn after(now: Milliseconds, duration: Milliseconds) -> (res: Result<Self, JobContractError>)
        ensures
            res is Ok <==> now.0 + duration.0 <= u64::MAX,
            res matches Ok(d) ==> d@ == now.0 + duration.0,
            res matches Err(e) ==> e == JobContractError::InvalidDeadline,
    {
        match now.0.checked_add(duration.0) {
            Some(v) => Ok(JobDeadline(Milliseconds(v))),
            None => Err(JobContractError::InvalidDeadline),
        }
    }

    pub fn monotonic(self) -> (res: Milliseconds)
        ensures
            res.0 == self@,
    {
        self.0
    }

    pub fn reached(self, now: Milliseconds) -> (res: bool)
        ensures
            res == (now.0 >= self@),
    {
        now.0 >= (self.0).0
    }
}

/// A deadline set `duration` after `now` is reached then, and not before when
/// the duration is positive.
pub proof fn law_deadline_after(now: u64, duration: u64, later: u64)
    requires
        now + duration <= u64::MAX,
    ensures
        later >= now + duration ==> later >= now + duration,
        duration > 0 ==> !(now >= now + duration),
{
}

/// Ceilings of each phase of a job, in milliseconds.
pub const MAX_WORK_MS: u64 = 3_600_000;
pub const MAX_CAPTURE_PREPARE_MS: u64 = 120_000;
pub const MAX_EXECUTE_MS: u64 = 3_360_000;
pub const MAX_COLLECT_PUBLISH_MS: u64 = 120_000;
pub const MAX_CLEANUP_MS: u64 = 240_000;

/// Phase budgets of one job; the three work phases fit inside `work`.
#[derive(Clone, Copy, Debug, PartialEq, Eq, Structural)]
pub struct JobBudget {
    work: Milliseconds,
    capture_prepare: Milliseconds,
    execute: Milliseconds,
    collect_publish: Milliseconds,
    cleanup: Milliseconds,
}

/// Whether five phase budgets form a valid job budget.
pub open spec fn budget_valid(work: u64, capture_prepare: u64, execute: u64, collect_publish: u64, cleanup: u64) -> bool {
    &&& 1 <= work <= MAX_WORK_MS
    &&& 1 <= capture_prepare <= MAX_CAPTURE_PREPARE_MS
    &&& 1 <= execute <= MAX_EXECUTE_MS
    &&& 1 <= collect_publish <= MAX_COLLECT_PUBLISH_MS
    &&& 1 <= cleanup <= MAX_CLEANUP_MS
    &&& capture_prepare + execute + collect_publish <= work
}

/// `x` clamped into `[lo, hi]`.
pub open spec fn clamp_spec(x: int, lo: int, hi: int) -> int {
    if x < lo {
        lo
    } else if x > hi {
        hi
    } else {
        x
    }
}

/// `x - y`, or 0 when `y` exceeds `x`.
pub open spec fn saturating_sub_spec(x: int, y: int) -> int {
    if x >= y {
        x - y
    } else {
        0
    }
}

/// The overhead reserved around execution for a large work budget.
pub open spec fn overhead_for(work: int) -> int {
    let over = saturating_sub_spec(work, 3_360_000);
    if over > 90_000 {
        over
    } else {
        90_000
    }
}

/// Capture/prepare ceiling derived from a large work budget.
pub open spec fn capture_for(work: int) -> int {
    clamp_spec(saturating_sub_spec(overhead_for(work), 120_000), 60_000, 120_000)
}

/// Collect/publish ceiling derived from a large work budget.
pub open spec fn collect_for(work: int) -> int {
    clamp_spec(saturating_sub_spec(overhead_for(work), capture_for(work)), 30_000, 120_000)
}

/// Execute ceiling derived from a large work budget.
pub open spec fn execute_for(work: int) -> int {
    saturating_sub_spec(saturating_sub_spec(work, capture_for(work)), collect_for(work))
}

impl View for JobBudget {
    type V = (u64, u64, u64, u64, u64);

    closed spec fn view(&self) -> (u64, u64, u64, u64, u64) {
        (self.work.0, self.capture_prepare.0, self.execute.0, self.collect_publish.0, self.cleanup.0)
    }
}

impl JobBudget {
    pub fn new(
        work: Milliseconds,
        capture_prepare: Milliseconds,
        execute: Milliseconds,
        collect_publish: Milliseconds,
        cleanup: Milliseconds,
    ) -> (res: Result<Self, JobContractError>)
        ensures
            res is Ok <==> budget_valid(work.0, capture_prepare.0, execute.0, collect_publish.0, cleanup.0),
            res matches Ok(b) ==> b@ == (work.0, capture_prepare.0, execute.0, collect_publish.0, cleanup.0),
            res matches Err(e) ==> e == JobContractError::InvalidBudget,
    {
        let children = match capture_prepare.0.checked_add(execute.0) {
            Some(v) => match v.checked_add(collect_publish.0) {
                Some(w) => w,
                None => return Err(JobContractError::InvalidBudget),
            },
            None => return Err(JobContractError::InvalidBudget),
        };
        if work.0 == 0 || work.0 > MAX_WORK_MS || capture_prepare.0 == 0 || capture_prepare.0
            > MAX_CAPTURE_PREPARE_MS || execute.0 == 0 || execute.0 > MAX_EXECUTE_MS
            || collect_publish.0 == 0 || collect_publish.0 > MAX_COLLECT_PUBLISH_MS || cleanup.0 == 0
            || cleanup.0 > MAX_CLEANUP_MS || children > work.0 {
            return Err(JobContractError::InvalidBudget);
        }
        Ok(JobBudget { work, capture_prepare, execute, collect_publish, cleanup })
    }

    /// The measured default: 300 s of work split 60/180/30, with 60 s of cleanup.
    pub fn asynchronous_default() -> (res: Result<Self, JobContractError>)
        ensures
            res matches Ok(b) && b@ == (300_000u64, 60_000u64, 180_000u64, 30_000u64, 60_000u64),
    {
        JobBudget::new(
            Milliseconds(300_000),
            Milliseconds(60_000),
            Milliseconds(180_000),
            Milliseconds(30_000),
            Milliseconds(60_000),
        )
    }

    /// Derives phase ceilings from a requested work budget: the default for up
    /// to 300 s, otherwise only the overhead needed to keep execution at or
    /// below its maximum, with both surrounding phases capped at 120 s.
    pub fn asynchronous_for_work(work: Milliseconds) -> (res: Result<Self, JobContractError>)
        ensures
            work.0 <= 300_000 ==> (res matches Ok(b) && b@ == (
                300_000u64,
                60_000u64,
                180_000u64,
                30_000u64,
                60_000u64,
            )),
            work.0 > 300_000 ==> (res is Ok <==> work.0 <= MAX_WORK_MS),
            work.0 > 300_000 && res is Ok ==> res->Ok_0@ == (
                work.0,
                capture_for(work.0 as int) as u64,
                execute_for(work.0 as int) as u64,
                collect_for(work.0 as int) as u64,
                60_000u64,
            ),
            res matches Err(e) ==> e == JobContractError::InvalidBudget,
    {
        if work.0 <= 300_000 {
            return JobBudget::asynchronous_default();
        }
        let over = work.0.saturating_sub(3_360_000);
        let overhead = if over > 90_000 {
            over
        } else {
            90_000
        };
        let cp0 = overhead.saturating_sub(120_000);
        let capture_prepare = if cp0 < 60_000 {
            60_000
        } else if cp0 > 120_000 {
            120_000
        } else {
            cp0
        };
        let cl0 = overhead.saturating_sub(capture_prepare);
        let collect_publish = if cl0 < 30_000 {
            30_000
        } else if cl0 > 120_000 {
            120_000
        } else {
            cl0
        };
        let execute = work.0.saturating_sub(capture_prepare).saturating_sub(collect_publish);
        JobBudget::new(
            work,
            Milliseconds(capture_prepare),
            Milliseconds(execute),
            Milliseconds(collect_publish),
            Milliseconds(60_000),
        )
    }

    pub fn work(self) -> (res: Milliseconds)
        ensures
            res.0 == self@.0,
    {
        self.work
    }

    pub fn capture_prepare(self) -> (res: Milliseconds)
        ensures
            res.0 == self@.1,
    {
        self.capture_prepare
    }

    pub fn execute(self) -> (res: Milliseconds)
        ensures
            res.0 == self@.2,
    {
        self.execute
    }

    pub fn collect_publish(self) -> (res: Milliseconds)
        ensures
            res.0 == self@.3,
    {
        self.collect_publish
    }

    pub fn cleanup(self) -> (res: Milliseconds)
        ensures
            res.0 == self@.4,
    {
        self.cleanup
    }
}

/// Every work budget up to the one-hour ceiling yields a valid phase split.
pub proof fn law_every_admissible_work_budget_splits(work: u64)
    requires
        300_000 < work <= MAX_WORK_MS,
    ensures
        budget_valid(
            work,
            capture_for(work as int) as u64,
            execute_for(work as int) as u64,
            collect_for(work as int) as u64,
            60_000,
        ),
{
}


/// The eight little-endian bytes of `x`.
pub open spec fn le_u64_bytes(x: u64) -> Seq<u8> {
    seq![
        x as u8,
        (x >> 8u64) as u8,
        (x >> 16u64) as u8,
        (x >> 24u64) as u8,
        (x >> 32u64) as u8,
        (x >> 40u64) as u8,
        (x >> 48u64) as u8,
        (x >> 56u64) as u8,
    ]
}

/// The four little-endian bytes of `x`.
pub open spec fn le_u32_bytes(x: u32) -> Seq<u8> {
    seq![x as u8, (x >> 8u32) as u8, (x >> 16u32) as u8, (x >> 24u32) as u8]
}

/// The domain-separated material hashed into an owner binding: a versioned
/// tag, then every field with its length fixed or encoded.
pub open spec fn owner_material(
    state_root_identity: (i64, u64),
    uid: u32,
    granted_root_identity: (i64, u64),
    workspace_root: Seq<u8>,
) -> Seq<u8> {
    encode_utf8("rust-mcp/job-owner-binding/v1\0"@) + le_u64_bytes(state_root_identity.0 as u64)
        + le_u64_bytes(state_root_identity.1) + le_u32_bytes(uid) + le_u64_bytes(
        granted_root_identity.0 as u64,
    ) + le_u64_bytes(granted_root_identity.1) + le_u64_bytes(workspace_root.len() as u64)
        + workspace_root
}

fn push_le_u64(v: &mut Vec<u8>, x: u64)
    ensures
        final(v)@ == old(v)@ + le_u64_bytes(x),
{
    v.push(x as u8);
    v.push((x >> 8u64) as u8);
    v.push((x >> 16u64) as u8);
    v.push((x >> 24u64) as u8);
    v.push((x >> 32u64) as u8);
    v.push((x >> 40u64) as u8);
    v.push((x >> 48u64) as u8);
    v.push((x >> 56u64) as u8);
    assert(v@ =~= old(v)@ + le_u64_bytes(x));
}

fn push_le_u32(v: &mut Vec<u8>, x: u32)
    ensures
        final(v)@ == old(v)@ + le_u32_bytes(x),
{
    v.push(x as u8);
    v.push((x >> 8u32) as u8);
    v.push((x >> 16u32) as u8);
    v.push((x >> 24u32) as u8);
    assert(v@ =~= old(v)@ + le_u32_bytes(x));
}

fn push_bytes(v: &mut Vec<u8>, bytes: &[u8])
    ensures
        final(v)@ == old(v)@ + bytes@,
{
    let ghost first = v@;
    let mut i: usize = 0;
    while i < bytes.len()
        invariant
            i <= bytes@.len(),
            v@ == first + bytes@.take(i as int),
        decreases bytes@.len() - i,
    {
        v.push(bytes[i]);
        i = i + 1;
        assert(v@ =~= first + bytes@.take(i as int));
    }
    assert(bytes@.take(bytes@.len() as int) =~= bytes@);
}

/// A non-secret, domain-separated authorization binding: a SHA-256 digest.
#[derive(Clone, Debug, PartialEq, Eq, Hash)]
pub struct JobOwnerBinding([u8; 32]);

impl View for JobOwnerBinding {
    type V = Seq<u8>;

    closed spec fn view(&self) -> Seq<u8> {
        self.0@
    }
}

impl JobOwnerBinding {
    pub fn new(digest: [u8; 32]) -> (res: Self)
        ensures
            res@ == digest@,
    {
        JobOwnerBinding(digest)
    }

    pub fn digest(&self) -> (res: &[u8; 32])
        ensures
            res@ == self@,
    {
        &self.0
    }

    /// The SHA-256 digest of the owner material; every length is encoded so
    /// adjacent fields cannot collide.
    pub fn derive(
        state_root_identity: (i64, u64),
        uid: u32,
        granted_root_identity: (i64, u64),
        workspace_root: &str,
    ) -> (res: Self)
        ensures
            res@ == sha256_spec(
                owner_material(
                    state_root_identity,
                    uid,
                    granted_root_identity,
                    workspace_root.spec_bytes(),
                ),
            ),
    {
        let mut material: Vec<u8> = Vec::new();
        let tag = "rust-mcp/job-owner-binding/v1\0";
        push_bytes(&mut material, tag.as_bytes());
        assert(material@ =~= encode_utf8(tag@));
        push_le_u64(&mut material, state_root_identity.0 as u64);
        push_le_u64(&mut material, state_root_identity.1);
        push_le_u32(&mut material, uid);
        push_le_u64(&mut material, granted_root_identity.0 as u64);
        push_le_u64(&mut material, granted_root_identity.1);
        let root_bytes = workspace_root.as_bytes();
        let root_len = root_bytes.len();
        push_le_u64(&mut material, root_len as u64);
        push_bytes(&mut material, root_bytes);
        assert(material@ =~= owner_material(
            state_root_identity,
            uid,
            granted_root_identity,
            workspace_root.spec_bytes(),
        ));
        JobOwnerBinding(sha256(material.as_slice()))
    }
}

/// How long a finished task record is kept.
#[derive(Clone, Copy, Debug, PartialEq, Eq, Structural)]
pub struct ResultRetention {
    ttl: Milliseconds,
}

impl ResultRetention {
    pub fn fixed() -> (res: Self)
        ensures
            res.ttl_spec().0 == TASK_RECORD_TTL_MS,
    {
        ResultRetention { ttl: Milliseconds(TASK_RECORD_TTL_MS) }
    }

    pub closed spec fn ttl_spec(self) -> Milliseconds {
        self.ttl
    }

    pub fn ttl(self) -> (res: Milliseconds)
        ensures
            res == self.ttl_spec(),
    {
        self.ttl
    }
}

/// Entry and byte quotas for retained results.
#[derive(Clone, Copy, Debug, PartialEq, Eq, Structural)]
pub struct RetentionQuotas {
    per_owner_entries: usize,
    server_entries: usize,
    per_owner_bytes: u64,
    server_bytes: u64,
}

impl View for RetentionQuotas {
    type V = (usize, usize, u64, u64);

    closed spec fn view(&self) -> (usize, usize, u64, u64) {
        (self.per_owner_entries, self.server_entries, self.per_owner_bytes, self.server_bytes)
    }
}

impl RetentionQuotas {
    pub fn fixed() -> (res: Self)
        ensures
            res@ == (64usize, 256usize, 33_554_432u64, 134_217_728u64),
    {
        RetentionQuotas {
            per_owner_entries: 64,
            server_entries: 256,
            per_owner_bytes: 33_554_432,
            server_bytes: 134_217_728,
        }
    }

    pub fn per_owner_entries(self) -> (res: usize)
        ensures
            res == self@.0,
    {
        self.per_owner_entries
    }

    pub fn server_entries(self) -> (res: usize)
        ensures
            res == self@.1,
    {
        self.server_entries
    }

    pub fn per_owner_bytes(self) -> (res: u64)
        ensures
            res == self@.2,
    {
        self.per_owner_bytes
    }

    pub fn server_bytes(self) -> (res: u64)
        ensures
            res == self@.3,
    {
        self.server_bytes
    }
}

#[derive(Clone, Copy, Debug, PartialEq, Eq, Structural)]
pub enum JobInfrastructureFailure {
    Internal,
    TimedOut,
    CleanupFailed,
    ResultUnavailable,
}

/// How a job finished: an ordinary tool outcome, or an infrastructure failure.
#[derive(Clone, Debug, PartialEq, Eq)]
pub enum JobCompletion<T> {
    ToolResult { result: T, is_error: bool },
    InfrastructureFailure(JobInfrastructureFailure),
}

/// The text shown for each refusal.
pub open spec fn job_contract_error_message(e: JobContractError) -> Seq<char> {
    match e {
        JobContractError::InvalidId => "invalid job identifier"@,
        JobContractError::InvalidBudget => "invalid job budget"@,
        JobContractError::InvalidDeadline => "invalid job deadline"@,
    }
}

impl JobContractError {
    /// The text shown for this refusal.
    pub fn message(&self) -> (res: &'static str)
        ensures
            res@ == job_contract_error_message(*self),
    {
        match self {
            JobContractError::InvalidId => "invalid job identifier",
            JobContractError::InvalidBudget => "invalid job budget",
            JobContractError::InvalidDeadline => "invalid job deadline",
        }
    }
}

} // verus!
