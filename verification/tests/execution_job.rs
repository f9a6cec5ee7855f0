use rust_engineering_domain::execution::{
    ExecutionLimits, ProbeScenario, SandboxCapabilities, SandboxTier,
};
use rust_engineering_domain::job::{
    JobBudget, JobContractError, JobDeadline, JobId, JobOwnerBinding, JobPhase, JobState,
    Milliseconds, RetentionQuotas, ResultRetention, TASK_RECORD_TTL_MS,
};
use rust_engineering_domain::sha256::sha256;

#[test]
fn m1_and_job_wall_time_ceilings_are_distinct_and_closed() {
    assert!(ExecutionLimits::new(60_000, 1024).is_some());
    assert!(ExecutionLimits::new(60_001, 1024).is_none());
    assert!(ExecutionLimits::new_job(3_600_000, 1024).is_some());
    assert!(ExecutionLimits::new_job(3_600_001, 1024).is_none());
    assert!(ExecutionLimits::new_job(3_600_000, 1023).is_none());
}

#[test]
fn default_limits_and_probe_arguments() {
    let limits = ExecutionLimits::default();
    assert_eq!(limits.wall_ms(), 10_000);
    assert_eq!(limits.output_bytes(), 64 * 1024);
    assert_eq!(ProbeScenario::Exit7.argument(), "exit7");
    assert_eq!(ProbeScenario::Cgroups.argument(), "cgroups");
    assert_eq!(ProbeScenario::all().len(), 13);
}

#[test]
fn strict_tier_needs_every_limit_and_unsandboxed_is_never_met() {
    let mut caps = SandboxCapabilities {
        filesystem_isolated: true,
        network_isolated: true,
        environment_isolated: true,
        children_contained: true,
        wall_time_limited: true,
        output_limited: true,
        cpu_quota: false,
        memory_limited: true,
        pids_limited: true,
        disk_limited: true,
    };
    assert!(caps.satisfies(SandboxTier::Restricted));
    assert!(!caps.satisfies(SandboxTier::Strict));
    caps.cpu_quota = true;
    assert!(caps.satisfies(SandboxTier::Strict));
    assert!(!caps.satisfies(SandboxTier::Unsandboxed));
    caps.network_isolated = false;
    assert!(!caps.satisfies(SandboxTier::Restricted));
}

#[test]
fn sha256_matches_published_vectors() {
    let empty = sha256(b"");
    assert_eq!(
        empty[..4],
        [0xe3, 0xb0, 0xc4, 0x42],
        "sha256 of the empty message"
    );
    assert_eq!(empty[28..], [0x78, 0x52, 0xb8, 0x55]);
    let abc = sha256(b"abc");
    assert_eq!(abc[..4], [0xba, 0x78, 0x16, 0xbf]);
    assert_eq!(abc[28..], [0xf2, 0x00, 0x15, 0xad]);
    let two_blocks = sha256(b"abcdbcdecdefdefgefghfghighijhijkijkljklmklmnlmnomnopnopq");
    assert_eq!(two_blocks[..4], [0x24, 0x8d, 0x6a, 0x61]);
    assert_eq!(two_blocks[28..], [0x19, 0xdb, 0x06, 0xc1]);
}

#[test]
fn owner_binding_is_deterministic_and_separates_fields() {
    let a = JobOwnerBinding::derive((1, 2), 3, (4, 5), "/workspace");
    let b = JobOwnerBinding::derive((1, 2), 3, (4, 5), "/workspace");
    let c = JobOwnerBinding::derive((1, 2), 3, (4, 5), "/workspacf");
    let d = JobOwnerBinding::derive((-1, 2), 3, (4, 5), "/workspace");
    assert_eq!(a, b);
    assert_ne!(a, c);
    assert_ne!(a, d);
    assert_eq!(JobOwnerBinding::new(*a.digest()), a);
}

#[test]
fn job_ids_are_canonical() {
    let id = JobId::from_random_bytes([0xab; 16]);
    assert_eq!(id.as_str(), format!("job_{}", "ab".repeat(16)));
    assert!(JobId::try_from(id.as_str().to_owned()).is_ok());
    assert_eq!(
        JobId::try_from("job_ABAB".to_owned()),
        Err(JobContractError::InvalidId)
    );
    assert_eq!(
        JobId::try_from(format!("task_{}", "0".repeat(32))),
        Err(JobContractError::InvalidId)
    );
    assert!("job_0123456789abcdef0123456789abcdef".parse::<JobId>().is_ok());
}

#[test]
fn terminal_states_only_stay_put() {
    assert!(JobState::Completed.is_terminal());
    assert!(!JobState::Running.is_terminal());
    assert!(JobState::Admitted.can_transition_to(JobState::Running));
    assert!(JobState::Running.can_transition_to(JobState::Cancelled));
    assert!(!JobState::Completed.can_transition_to(JobState::Running));
    assert!(!JobState::Running.can_transition_to(JobState::Admitted));
    assert!(JobState::Failed.can_transition_to(JobState::Failed));
    assert_eq!(JobPhase::Collect.status_message(), "collecting evidence");
}

#[test]
fn budgets_split_work_and_reject_out_of_range_phases() {
    let default = JobBudget::asynchronous_default().unwrap();
    assert_eq!(default.work(), Milliseconds(300_000));
    assert_eq!(default.execute(), Milliseconds(180_000));
    assert_eq!(JobBudget::asynchronous_for_work(Milliseconds(10)).unwrap(), default);
    let hour = JobBudget::asynchronous_for_work(Milliseconds(3_600_000)).unwrap();
    assert_eq!(hour.capture_prepare(), Milliseconds(120_000));
    assert_eq!(hour.collect_publish(), Milliseconds(120_000));
    assert_eq!(hour.execute(), Milliseconds(3_360_000));
    assert_eq!(hour.cleanup(), Milliseconds(60_000));
    let mid = JobBudget::asynchronous_for_work(Milliseconds(600_000)).unwrap();
    assert_eq!(mid.capture_prepare(), Milliseconds(60_000));
    assert_eq!(mid.collect_publish(), Milliseconds(30_000));
    assert_eq!(mid.execute(), Milliseconds(510_000));
    assert_eq!(
        JobBudget::asynchronous_for_work(Milliseconds(3_600_001)),
        Err(JobContractError::InvalidBudget)
    );
    assert_eq!(
        JobBudget::new(
            Milliseconds(100),
            Milliseconds(50),
            Milliseconds(50),
            Milliseconds(1),
            Milliseconds(1)
        ),
        Err(JobContractError::InvalidBudget)
    );
}

#[test]
fn deadlines_and_retention() {
    let deadline = JobDeadline::after(Milliseconds(10), Milliseconds(5)).unwrap();
    assert_eq!(deadline.monotonic(), Milliseconds(15));
    assert!(!deadline.reached(Milliseconds(14)));
    assert!(deadline.reached(Milliseconds(15)));
    assert_eq!(
        JobDeadline::after(Milliseconds(u64::MAX), Milliseconds(1)),
        Err(JobContractError::InvalidDeadline)
    );
    assert_eq!(JobDeadline::at(Milliseconds(3)).monotonic(), Milliseconds(3));
    assert_eq!(ResultRetention::fixed().ttl(), Milliseconds(TASK_RECORD_TTL_MS));
    let quotas = RetentionQuotas::fixed();
    assert_eq!(quotas.per_owner_entries(), 64);
    assert_eq!(quotas.server_entries(), 256);
    assert_eq!(quotas.per_owner_bytes(), 32 * 1024 * 1024);
    assert_eq!(quotas.server_bytes(), 128 * 1024 * 1024);
}
