//! Provenance and freshness of snapshot evidence; no host clock is embedded.
use vstd::prelude::*;
use crate::value::{ContractError, NonEmptyText};

verus! {

/// UTC seconds since the Unix epoch.
#[derive(Clone, Copy, Debug, PartialEq, Eq, Structural, PartialOrd, Ord)]
pub struct UnixSeconds(pub u64);

/// The only effect boundary needed by freshness evaluation.
pub trait Clock {
    fn now(&self) -> UnixSeconds;
}

#[derive(Clone, Copy, Debug, PartialEq, Eq, Structural)]
pub enum SourceKind {
    RegistrySnapshot,
    ProjectSnapshot,
    RustsecSnapshot,
    EmbeddingModel,
    Artifact,
}

#[derive(Clone, Copy, Debug, PartialEq, Eq, Structural)]
pub enum IntegrityStatus {
    Verified,
    Unverified,
    Failed,
    Unknown,
}

/// Where a snapshot came from; it was never observed before it was created.
#[derive(Clone, Debug, PartialEq, Eq)]
pub struct Provenance {
    source_kind: SourceKind,
    source_id: NonEmptyText,
    created_at: Option<UnixSeconds>,
    observed_at: Option<UnixSeconds>,
    integrity: IntegrityStatus,
    network_used: bool,
}

/// Whether an observation time precedes the creation time.
pub open spec fn observed_before_created(created_at: Option<UnixSeconds>, observed_at: Option<UnixSeconds>) -> bool {
    match (created_at, observed_at) {
        (Some(c), Some(o)) => o.0 < c.0,
        _ => false,
    }
}

impl Provenance {
    pub closed spec fn source_kind_spec(&self) -> SourceKind {
        self.source_kind
    }

    pub closed spec fn source_id_spec(&self) -> Seq<char> {
        self.source_id@
    }

    pub closed spec fn created_at_spec(&self) -> Option<UnixSeconds> {
        self.created_at
    }

    pub closed spec fn observed_at_spec(&self) -> Option<UnixSeconds> {
        self.observed_at
    }

    pub closed spec fn integrity_spec(&self) -> IntegrityStatus {
        self.integrity
    }

    pub closed spec fn network_used_spec(&self) -> bool {
        self.network_used
    }

    pub fn new(
        source_kind: SourceKind,
        source_id: NonEmptyText,
        created_at: Option<UnixSeconds>,
        observed_at: Option<UnixSeconds>,
        integrity: IntegrityStatus,
        network_used: bool,
    ) -> (res: Result<Self, ContractError>)
        ensures
            res is Ok <==> !observed_before_created(created_at, observed_at),
            res matches Err(e) ==> e == ContractError::InvalidProvenance,
            res matches Ok(p) ==> p.source_kind_spec() == source_kind && p.source_id_spec()
                == source_id@ && p.created_at_spec() == created_at && p.observed_at_spec()
                == observed_at && p.integrity_spec() == integrity && p.network_used_spec()
                == network_used,
    {
        match (created_at, observed_at) {
            (Some(created), Some(observed)) => {
                if observed.0 < created.0 {
                    return Err(ContractError::InvalidProvenance);
                }
            },
            _ => {},
        }
        Ok(Provenance { source_kind, source_id, created_at, observed_at, integrity, network_used })
    }

    pub fn source_kind(&self) -> (res: SourceKind)
        ensures
            res == self.source_kind_spec(),
    {
        self.source_kind
    }

    pub fn source_id(&self) -> (res: &NonEmptyText)
        ensures
            res@ == self.source_id_spec(),
    {
        &self.source_id
    }

    pub fn created_at(&self) -> (res: Option<UnixSeconds>)
        ensures
            res == self.created_at_spec(),
    {
        self.created_at
    }

    pub fn observed_at(&self) -> (res: Option<UnixSeconds>)
        ensures
            res == self.observed_at_spec(),
    {
        self.observed_at
    }

    pub fn integrity(&self) -> (res: IntegrityStatus)
        ensures
            res == self.integrity_spec(),
    {
        self.integrity
    }

    pub fn network_used(&self) -> (res: bool)
        ensures
            res == self.network_used_spec(),
    {
        self.network_used
    }
}

/// How long a snapshot stays fresh, and when it turns stale.
#[derive(Clone, Debug, PartialEq, Eq)]
pub struct FreshnessPolicy {
    id: NonEmptyText,
    fresh_for_seconds: u64,
    stale_after_seconds: u64,
}

impl FreshnessPolicy {
    pub closed spec fn id_spec(&self) -> Seq<char> {
        self.id@
    }

    pub closed spec fn fresh_for_spec(&self) -> u64 {
        self.fresh_for_seconds
    }

    pub closed spec fn stale_after_spec(&self) -> u64 {
        self.stale_after_seconds
    }

    /// The fresh window must end before the stale threshold.
    pub fn new(id: NonEmptyText, fresh_for_seconds: u64, stale_after_seconds: u64) -> (res: Result<
        Self,
        ContractError,
    >)
        ensures
            res is Ok <==> fresh_for_seconds < stale_after_seconds,
            res matches Err(e) ==> e == ContractError::InvalidFreshnessPolicy,
            res matches Ok(p) ==> p.id_spec() == id@ && p.fresh_for_spec() == fresh_for_seconds
                && p.stale_after_spec() == stale_after_seconds,
    {
        if fresh_for_seconds >= stale_after_seconds {
            return Err(ContractError::InvalidFreshnessPolicy);
        }
        Ok(FreshnessPolicy { id, fresh_for_seconds, stale_after_seconds })
    }

    pub fn id(&self) -> (res: &NonEmptyText)
        ensures
            res@ == self.id_spec(),
    {
        &self.id
    }

    pub fn fresh_for_seconds(&self) -> (res: u64)
        ensures
            res == self.fresh_for_spec(),
    {
        self.fresh_for_seconds
    }

    pub fn stale_after_seconds(&self) -> (res: u64)
        ensures
            res == self.stale_after_spec(),
    {
        self.stale_after_seconds
    }
}

#[derive(Clone, Copy, Debug, PartialEq, Eq, Structural)]
pub enum FreshnessState {
    Live,
    Fresh,
    Aging,
    Stale,
    Unknown,
}

/// The age of a snapshot created at `created_at`, seen at `now`: unknown when
/// the creation time is unknown or lies in the future.
pub open spec fn age_of(created_at: Option<UnixSeconds>, now: u64) -> Option<u64> {
    match created_at {
        Some(c) => if c.0 <= now {
            Some((now - c.0) as u64)
        } else {
            None
        },
        None => None,
    }
}

/// The freshness state of an age under a policy's thresholds.
pub open spec fn state_of(age: Option<u64>, fresh_for: u64, stale_after: u64) -> FreshnessState {
    match age {
        None => FreshnessState::Unknown,
        Some(a) => if a <= fresh_for {
            FreshnessState::Fresh
        } else if a <= stale_after {
            FreshnessState::Aging
        } else {
            FreshnessState::Stale
        },
    }
}

/// Constructed only through assessment of snapshot evidence, never from a label.
#[derive(Clone, Debug, PartialEq, Eq)]
pub struct Freshness {
    state: FreshnessState,
    age_seconds: Option<u64>,
    assessed_at: UnixSeconds,
    policy: FreshnessPolicy,
}

impl Freshness {
    pub closed spec fn state_spec(&self) -> FreshnessState {
        self.state
    }

    pub closed spec fn age_spec(&self) -> Option<u64> {
        self.age_seconds
    }

    pub closed spec fn assessed_at_spec(&self) -> UnixSeconds {
        self.assessed_at
    }

    pub closed spec fn policy_spec(&self) -> FreshnessPolicy {
        self.policy
    }

    /// Whether this assessment is what `provenance` under its policy gives at its time.
    pub open spec fn assesses(&self, provenance: Provenance) -> bool {
        &&& self.age_spec() == age_of(provenance.created_at_spec(), self.assessed_at_spec().0)
        &&& self.state_spec() == state_of(
            self.age_spec(),
            self.policy_spec().fresh_for_spec(),
            self.policy_spec().stale_after_spec(),
        )
    }

    /// Assesses `provenance` under `policy` at time `now`.
    pub fn assess(provenance: &Provenance, policy: FreshnessPolicy, now: UnixSeconds) -> (res: Self)
        ensures
            res.assessed_at_spec() == now,
            res.policy_spec() == policy,
            res.assesses(*provenance),
    {
        let age_seconds = match provenance.created_at {
            Some(created) => now.0.checked_sub(created.0),
            None => None,
        };
        let state = match age_seconds {
            None => FreshnessState::Unknown,
            Some(age) => if age <= policy.fresh_for_seconds {
                FreshnessState::Fresh
            } else if age <= policy.stale_after_seconds {
                FreshnessState::Aging
            } else {
                FreshnessState::Stale
            },
        };
        Freshness { state, age_seconds, assessed_at: now, policy }
    }

    pub fn state(&self) -> (res: FreshnessState)
        ensures
            res == self.state_spec(),
    {
        self.state
    }

    pub fn age_seconds(&self) -> (res: Option<u64>)
        ensures
            res == self.age_spec(),
    {
        self.age_seconds
    }

    pub fn assessed_at(&self) -> (res: UnixSeconds)
        ensures
            res == self.assessed_at_spec(),
    {
        self.assessed_at
    }

    pub fn policy(&self) -> (res: &FreshnessPolicy)
        ensures
            *res == self.policy_spec(),
    {
        &self.policy
    }
}

/// Under a valid policy, a fresh snapshot is younger than an aging one, which
/// is younger than a stale one.
pub proof fn law_freshness_is_monotone_in_age(a1: u64, a2: u64, fresh_for: u64, stale_after: u64)
    requires
        fresh_for < stale_after,
        a1 <= a2,
    ensures
        state_of(Some(a2), fresh_for, stale_after) == FreshnessState::Fresh ==> state_of(
            Some(a1),
            fresh_for,
            stale_after,
        ) == FreshnessState::Fresh,
        state_of(Some(a1), fresh_for, stale_after) == FreshnessState::Stale ==> state_of(
            Some(a2),
            fresh_for,
            stale_after,
        ) == FreshnessState::Stale,
{
}

/// Provenance together with a freshness assessment of it.
#[derive(Clone, Debug, PartialEq, Eq)]
pub struct SnapshotEvidence {
    provenance: Provenance,
    freshness: Freshness,
}

impl SnapshotEvidence {
    pub closed spec fn provenance_spec(&self) -> Provenance {
        self.provenance
    }

    pub closed spec fn freshness_spec(&self) -> Freshness {
        self.freshness
    }

    /// Assesses `provenance` at the time `clock` reports.
    pub fn assess<C: Clock>(provenance: Provenance, policy: FreshnessPolicy, clock: &C) -> (res: Self)
        ensures
            res.provenance_spec() == provenance,
            res.freshness_spec().policy_spec() == policy,
            res.freshness_spec().assesses(provenance),
    {
        let now = clock.now();
        let freshness = Freshness::assess(&provenance, policy, now);
        SnapshotEvidence { provenance, freshness }
    }

    /// Rebuilds evidence from a recorded assessment, refusing a state or age
    /// that the recorded time and policy do not give.
    pub fn from_recorded(
        provenance: Provenance,
        state: FreshnessState,
        age_seconds: Option<u64>,
        assessed_at: UnixSeconds,
        policy: FreshnessPolicy,
    ) -> (res: Result<Self, ContractError>)
        ensures
            res is Ok <==> (age_seconds == age_of(provenance.created_at_spec(), assessed_at.0)
                && state == state_of(
                age_seconds,
                policy.fresh_for_spec(),
                policy.stale_after_spec(),
            )),
            res matches Err(e) ==> e == ContractError::InconsistentFreshness,
            res matches Ok(ev) ==> ev.provenance_spec() == provenance
                && ev.freshness_spec().assessed_at_spec() == assessed_at
                && ev.freshness_spec().policy_spec() == policy && ev.freshness_spec().assesses(
                provenance,
            ),
    {
        let expected = Freshness::assess(&provenance, policy, assessed_at);
        if expected.state != state || expected.age_seconds != age_seconds {
            return Err(ContractError::InconsistentFreshness);
        }
        Ok(SnapshotEvidence { provenance, freshness: expected })
    }

    pub fn provenance(&self) -> (res: &Provenance)
        ensures
            *res == self.provenance_spec(),
    {
        &self.provenance
    }

    pub fn freshness(&self) -> (res: &Freshness)
        ensures
            *res == self.freshness_spec(),
    {
        &self.freshness
    }
}

/// Provenance and freshness cannot be independently omitted from a snapshot.
#[derive(Clone, Debug, PartialEq, Eq)]
pub enum Evidence {
    Local,
    Snapshot(SnapshotEvidence),
}

} // verus!
