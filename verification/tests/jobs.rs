use std::time::Duration;

use forgeerp::common::{TenantId, Timestamp};
use forgeerp::jobs::executor::JobExecutor;
use forgeerp::jobs::store::{InMemoryJobStore, JobStats, JobStore, JobStoreError};
use forgeerp::jobs::types::{
    BackoffStrategy, Job, JobId, JobKind, JobResult, JobStatus, RetryPolicy,
};
use forgeerp::json::Json;

fn ms(d: Duration) -> u64 {
    d.as_millis() as u64
}

fn test_tenant() -> TenantId {
    TenantId::new()
}

fn payload_with(key: &str, value: Json) -> Json {
    Json::Object(vec![(key.to_string(), value)])
}

// ---- types ----------------------------------------------------------------

#[test]
fn exponential_backoff_calculates_correctly() {
    let policy = RetryPolicy {
        max_attempts: 5,
        base_delay_ms: ms(Duration::from_millis(100)),
        max_delay_ms: ms(Duration::from_secs(10)),
        strategy: BackoffStrategy::Exponential,
        jitter_permille: 0,
    };

    assert_eq!(policy.delay_for_attempt(1), ms(Duration::from_millis(100)));
    assert_eq!(policy.delay_for_attempt(2), ms(Duration::from_millis(200)));
    assert_eq!(policy.delay_for_attempt(3), ms(Duration::from_millis(400)));
    assert_eq!(policy.delay_for_attempt(4), ms(Duration::from_millis(800)));
}

#[test]
fn fixed_backoff_is_constant() {
    let policy = RetryPolicy::fixed(3, ms(Duration::from_millis(500)));

    assert_eq!(policy.delay_for_attempt(1), ms(Duration::from_millis(500)));
    assert_eq!(policy.delay_for_attempt(2), ms(Duration::from_millis(500)));
    assert_eq!(policy.delay_for_attempt(3), ms(Duration::from_millis(500)));
}

#[test]
fn linear_backoff_increases_linearly() {
    let policy = RetryPolicy {
        max_attempts: 5,
        base_delay_ms: ms(Duration::from_millis(100)),
        max_delay_ms: ms(Duration::from_secs(10)),
        strategy: BackoffStrategy::Linear,
        jitter_permille: 0,
    };

    assert_eq!(policy.delay_for_attempt(1), ms(Duration::from_millis(100)));
    assert_eq!(policy.delay_for_attempt(2), ms(Duration::from_millis(200)));
    assert_eq!(policy.delay_for_attempt(3), ms(Duration::from_millis(300)));
}

#[test]
fn should_retry_respects_max_attempts() {
    let policy = RetryPolicy { max_attempts: 3, ..Default::default() };

    assert!(policy.should_retry(0));
    assert!(policy.should_retry(1));
    assert!(policy.should_retry(2));
    assert!(!policy.should_retry(3));
    assert!(!policy.should_retry(4));
}

#[test]
fn job_lifecycle() {
    let tenant_id = TenantId::new();
    let mut job = Job::new(
        tenant_id,
        JobKind::custom("test"),
        payload_with("key", Json::Str("value".to_string())),
    );

    assert!(matches!(job.status, JobStatus::Pending));
    assert_eq!(job.attempt, 0);

    job.mark_running();
    assert!(matches!(job.status, JobStatus::Running));
    assert_eq!(job.attempt, 1);

    let started = Timestamp::now();
    job.mark_completed(started);
    assert!(matches!(job.status, JobStatus::Completed));
    assert_eq!(job.history.len(), 1);
    assert!(job.history[0].success);
}

#[test]
fn job_failure_and_retry() {
    let tenant_id = TenantId::new();
    let mut job = Job::new(tenant_id, JobKind::custom("test"), Json::empty_object())
        .with_retry_policy(RetryPolicy { max_attempts: 2, ..Default::default() });

    job.mark_running();
    let started = Timestamp::now();
    job.mark_failed("error 1".to_string(), started);

    assert!(matches!(job.status, JobStatus::Failed { .. }));
    assert!(job.scheduled_at.is_some());

    job.mark_running();
    let started = Timestamp::now();
    job.mark_failed("error 2".to_string(), started);

    assert!(matches!(job.status, JobStatus::DeadLettered { .. }));
}

#[test]
fn default_retry_policy_values() {
    let p = RetryPolicy::default();
    assert_eq!(p.max_attempts, 5);
    assert_eq!(p.base_delay_ms, 500);
    assert_eq!(p.max_delay_ms, 60_000);
    assert_eq!(p.strategy, BackoffStrategy::Exponential);
    assert_eq!(p.jitter_permille, 100);
    assert_eq!(BackoffStrategy::default(), BackoffStrategy::Exponential);
    assert_eq!(RetryPolicy::no_retry().max_attempts, 0);
}

#[test]
fn exponential_backoff_is_capped_and_zero_before_first_attempt() {
    let policy = RetryPolicy {
        max_attempts: 50,
        base_delay_ms: 100,
        max_delay_ms: 1_000,
        strategy: BackoffStrategy::Exponential,
        jitter_permille: 0,
    };
    assert_eq!(policy.delay_for_attempt(0), 0);
    assert_eq!(policy.delay_for_attempt(5), 1_000);
    assert_eq!(policy.delay_for_attempt(40), 1_000);
    let linear = RetryPolicy { strategy: BackoffStrategy::Linear, ..policy };
    assert_eq!(linear.delay_for_attempt(30), 1_000);
}

#[test]
fn jitter_moves_the_delay_deterministically() {
    // attempt 1: point 17 -> factor 1 + 0.1 * (0.34 - 1) = 0.934
    let policy = RetryPolicy::exponential(5, 1_000, 60_000);
    assert_eq!(policy.delay_for_attempt(1), 934);
    // attempt 3: point 51 -> factor 1 + 0.1 * 0.02 = 1.002, delay 4000
    assert_eq!(policy.delay_for_attempt(3), 4_008);
}

#[test]
fn kind_names_route_jobs() {
    assert_eq!(JobKind::ai_inference("ai.x").kind_name(), "ai.x");
    assert_eq!(JobKind::projection_rebuild("parties").kind_name(), "parties");
    assert_eq!(JobKind::saga_step("saga.sales_ar", "step1").kind_name(), "saga.sales_ar");
    assert_eq!(JobKind::custom("c").kind_name(), "c");
    assert!(JobKind::custom("c").same_as(&JobKind::custom("c")));
    assert!(!JobKind::custom("c").same_as(&JobKind::ai_inference("c")));
}

#[test]
fn status_classification() {
    assert!(JobStatus::Completed.is_terminal());
    assert!(JobStatus::Cancelled.is_terminal());
    assert!(JobStatus::DeadLettered { error: "e".to_string(), attempts: 1 }.is_terminal());
    assert!(!JobStatus::Pending.is_terminal());
    assert!(!JobStatus::Running.is_terminal());
    assert!(!JobStatus::Failed { error: "e".to_string(), attempt: 1 }.is_terminal());
    assert!(JobStatus::Failed { error: "e".to_string(), attempt: 1 }.is_retriable());
    assert!(!JobStatus::Pending.is_retriable());
}

#[test]
fn failed_attempt_is_scheduled_after_backoff() {
    let tenant = test_tenant();
    let mut job = Job::new_at(
        JobId::from_uuid(7),
        tenant,
        JobKind::custom("t"),
        Json::Null,
        Timestamp::from_millis(1_000),
    )
    .with_retry_policy(RetryPolicy::fixed(3, 250));
    job.mark_running_at(Timestamp::from_millis(2_000));
    job.mark_failed_at("boom".to_string(), Timestamp::from_millis(2_000), Timestamp::from_millis(2_100));
    assert_eq!(job.scheduled_at, Some(Timestamp::from_millis(2_350)));
    assert_eq!(job.history[0].duration_ms, 100);
    assert_eq!(job.history[0].error.as_deref(), Some("boom"));
    assert!(!job.is_ready_at(Timestamp::from_millis(2_349)));
    assert!(job.is_ready_at(Timestamp::from_millis(2_350)));
}

// ---- store ----------------------------------------------------------------

#[test]
fn enqueue_and_claim() {
    let mut store = InMemoryJobStore::new();
    let tenant = test_tenant();

    let job = Job::new(tenant, JobKind::custom("test"), Json::empty_object());
    let job_id = store.enqueue(job).unwrap();

    let claimed = store.claim_next(Some(tenant)).unwrap().unwrap();
    assert_eq!(claimed.id, job_id);
    assert!(matches!(claimed.status, JobStatus::Running));
    assert_eq!(claimed.attempt, 1);

    // No more jobs
    assert!(store.claim_next(Some(tenant)).unwrap().is_none());
}

#[test]
fn tenant_isolation() {
    let mut store = InMemoryJobStore::new();
    let tenant1 = test_tenant();
    let tenant2 = test_tenant();

    let job = Job::new(tenant1, JobKind::custom("test"), Json::empty_object());
    let job_id = store.enqueue(job).unwrap();

    // Can't get job from wrong tenant
    assert!(matches!(store.get(tenant2, job_id), Err(JobStoreError::TenantIsolation)));

    // Can't claim job from wrong tenant
    assert!(store.claim_next(Some(tenant2)).unwrap().is_none());
}

#[test]
fn dead_letter_flow() {
    let mut store = InMemoryJobStore::new();
    let tenant = test_tenant();

    let job = Job::new(tenant, JobKind::custom("test"), Json::empty_object());
    let job_id = job.id;
    store.enqueue(job).unwrap();

    let mut claimed = store.claim_next(Some(tenant)).unwrap().unwrap();
    claimed.mark_failed("test error".to_string(), Timestamp::now());

    store.dead_letter(claimed, "max retries exceeded".to_string()).unwrap();

    // Job is no longer in main queue
    assert!(store.get(tenant, job_id).unwrap().is_none());

    // Job is in DLQ
    let dls = store.list_dead_letters(tenant, 10).unwrap();
    assert_eq!(dls.len(), 1);
    assert_eq!(dls[0].job.id, job_id);

    // Retry the job
    let retried = store.retry_dead_letter(tenant, job_id).unwrap();
    assert!(matches!(retried.status, JobStatus::Pending));

    // DLQ is now empty
    let dls = store.list_dead_letters(tenant, 10).unwrap();
    assert!(dls.is_empty());
}

#[test]
fn stats_tracking() {
    let mut store = InMemoryJobStore::new();
    let tenant = test_tenant();

    for i in 0..5 {
        let job = Job::new(tenant, JobKind::custom("test"), payload_with("i", Json::Int(i)));
        store.enqueue(job).unwrap();
    }

    let stats = store.stats(tenant).unwrap();
    assert_eq!(stats.pending, 5);

    store.claim_next(Some(tenant)).unwrap();
    store.claim_next(Some(tenant)).unwrap();

    let stats = store.stats(tenant).unwrap();
    assert_eq!(stats.pending, 3);
    assert_eq!(stats.running, 2);
}

#[test]
fn enqueue_refuses_a_duplicate_id() {
    let mut store = InMemoryJobStore::new();
    let tenant = test_tenant();
    let id = JobId::from_uuid(42);
    let a = Job::new_at(id, tenant, JobKind::custom("a"), Json::Null, Timestamp::from_millis(1));
    let b = Job::new_at(id, tenant, JobKind::custom("b"), Json::Null, Timestamp::from_millis(2));
    assert_eq!(store.enqueue(a).unwrap(), id);
    assert!(matches!(store.enqueue(b), Err(JobStoreError::AlreadyExists(x)) if x == id));
    assert_eq!(
        JobStoreError::AlreadyExists(id).message(),
        "job already exists: 00000000-0000-0000-0000-00000000002a"
    );
}

#[test]
fn claims_oldest_first_and_lists_by_creation() {
    let mut store = InMemoryJobStore::new();
    let tenant = test_tenant();
    let late = Job::new_at(JobId::from_uuid(1), tenant, JobKind::custom("k"), Json::Null, Timestamp::from_millis(30));
    let early = Job::new_at(JobId::from_uuid(2), tenant, JobKind::custom("k"), Json::Null, Timestamp::from_millis(10));
    let other = Job::new_at(JobId::from_uuid(3), tenant, JobKind::custom("z"), Json::Null, Timestamp::from_millis(20));
    store.enqueue(late).unwrap();
    store.enqueue(early).unwrap();
    store.enqueue(other).unwrap();

    let listed = store.list_by_status(tenant, Some(JobStatus::Pending), 10).unwrap();
    let ids: Vec<u128> = listed.iter().map(|j| j.id.0).collect();
    assert_eq!(ids, vec![2, 3, 1]);
    let by_kind = store.list_by_kind(tenant, &JobKind::custom("k"), 1).unwrap();
    assert_eq!(by_kind.len(), 1);
    assert_eq!(by_kind[0].id.0, 2);

    let claimed = store.claim_next_at(None, Timestamp::from_millis(100)).unwrap().unwrap();
    assert_eq!(claimed.id.0, 2);
    assert_eq!(claimed.updated_at, Timestamp::from_millis(100));
}

#[test]
fn update_of_unknown_job_fails() {
    let mut store = InMemoryJobStore::new();
    let job = Job::new_at(JobId::from_uuid(9), test_tenant(), JobKind::custom("x"), Json::Null, Timestamp::from_millis(0));
    assert!(matches!(store.update(&job), Err(JobStoreError::NotFound(_))));
    assert!(matches!(store.delete_dead_letter(job.tenant_id, job.id), Err(JobStoreError::NotFound(_))));
    assert_eq!(store.stats(job.tenant_id).unwrap(), JobStats::default());
}

// ---- executor ---------------------------------------------------------------

#[test]
fn execute_successful_job() {
    let mut executor = JobExecutor::new(InMemoryJobStore::new());
    executor.register_handler("test", |_job: &Job| JobResult::Success);

    let tenant = test_tenant();
    let job = Job::new(tenant, JobKind::custom("test"), Json::empty_object());
    executor.store.enqueue(job.clone()).unwrap();

    let mut claimed = executor.store.claim_next(Some(tenant)).unwrap().unwrap();
    let result = executor.execute_one(&mut claimed);

    assert!(result.is_ok());
    assert!(matches!(claimed.status, JobStatus::Completed));
}

#[test]
fn execute_failing_job_with_retry() {
    let mut executor = JobExecutor::new(InMemoryJobStore::new());
    executor.register_handler("test", |_job: &Job| JobResult::Failure("test error".to_string()));

    let tenant = test_tenant();
    let job = Job::new(tenant, JobKind::custom("test"), Json::empty_object())
        .with_retry_policy(RetryPolicy { max_attempts: 2, ..Default::default() });

    executor.store.enqueue(job.clone()).unwrap();

    // First attempt
    let mut claimed = executor.store.claim_next(Some(tenant)).unwrap().unwrap();
    let result = executor.execute_one(&mut claimed);
    assert!(result.is_err());
    assert!(matches!(claimed.status, JobStatus::Failed { .. }));

    // Second attempt (after backoff would expire)
    claimed.scheduled_at = None; // Skip backoff for test
    executor.store.update(&claimed).unwrap();

    let mut claimed = executor.store.claim_next(Some(tenant)).unwrap().unwrap();
    let result = executor.execute_one(&mut claimed);
    assert!(result.is_err());
    assert!(matches!(claimed.status, JobStatus::DeadLettered { .. }));
}

#[test]
fn wildcard_handler() {
    let mut executor = JobExecutor::new(InMemoryJobStore::new());
    executor.register_handler("*", |_job: &Job| JobResult::Success);

    let tenant = test_tenant();
    let job = Job::new(tenant, JobKind::custom("anything"), Json::empty_object());
    executor.store.enqueue(job.clone()).unwrap();

    let mut claimed = executor.store.claim_next(Some(tenant)).unwrap().unwrap();
    let result = executor.execute_one(&mut claimed);

    assert!(result.is_ok());
}

#[test]
fn category_handler() {
    let mut executor = JobExecutor::new(InMemoryJobStore::new());
    executor.register_handler("ai.*", |_job: &Job| JobResult::Success);

    let tenant = test_tenant();
    let job = Job::new(tenant, JobKind::ai_inference("ai.inventory_anomaly"), Json::empty_object());
    executor.store.enqueue(job.clone()).unwrap();

    let mut claimed = executor.store.claim_next(Some(tenant)).unwrap().unwrap();
    let result = executor.execute_one(&mut claimed);

    assert!(result.is_ok());
}

#[test]
fn exact_handler_wins_over_category_and_wildcard() {
    let mut executor: JobExecutor<InMemoryJobStore, fn(&Job) -> JobResult> = JobExecutor::new(InMemoryJobStore::new());
    executor.register_handler("*", |_job: &Job| JobResult::Success);
    executor.register_handler("ai.*", |_job: &Job| JobResult::Success);
    executor.register_handler("ai.x", |_job: &Job| JobResult::Success);
    assert_eq!(executor.handler_index("ai.x"), Some(2));
    assert_eq!(executor.handler_index("ai.y"), Some(1));
    assert_eq!(executor.handler_index("other"), Some(0));
    let empty: JobExecutor<InMemoryJobStore, fn(&Job) -> JobResult> = JobExecutor::new(InMemoryJobStore::new());
    assert_eq!(empty.handler_index("x"), None);
}

#[test]
fn missing_handler_leaves_job_unchanged() {
    let mut executor: JobExecutor<InMemoryJobStore, fn(&Job) -> JobResult> = JobExecutor::new(InMemoryJobStore::new());
    let tenant = test_tenant();
    let mut job = Job::new(tenant, JobKind::custom("nobody"), Json::Null);
    let r = executor.execute_one(&mut job);
    assert!(r.unwrap_err().starts_with("no handler for job kind: "));
    assert!(matches!(job.status, JobStatus::Pending));
    assert_eq!(job.attempt, 0);
}

#[test]
fn retry_requests_are_settled() {
    let mut executor = JobExecutor::new(InMemoryJobStore::new());
    executor.register_handler("now", |_job: &Job| JobResult::RetryNow);
    let tenant = test_tenant();
    let job = Job::new_at(JobId::from_uuid(5), tenant, JobKind::custom("now"), Json::Null, Timestamp::from_millis(0));
    executor.store.enqueue(job).unwrap();
    let mut claimed = executor.store.claim_next_at(Some(tenant), Timestamp::from_millis(10)).unwrap().unwrap();
    let r = executor.run_claimed_at(&mut claimed, Timestamp::from_millis(20));
    assert_eq!(r, Err("retry requested".to_string()));
    assert!(matches!(claimed.status, JobStatus::Failed { .. }));
    assert_eq!(claimed.scheduled_at, None);
}
