//! Job identities, kinds and statuses, retry policies with backoff, and the
//! lifecycle of a job from pending to completed or dead-lettered.
use vstd::prelude::*;

use crate::common::{fresh_v7, TenantId, Timestamp};
use crate::json::{uuid_chars, uuid_text, Json, JsonView};
use crate::text::{copy_opt_string, owned, same_text};

verus! {

broadcast use vstd::string::group_string_axioms;

/// Unique job identifier: a time-ordered UUID, by its 128-bit value.
#[derive(Debug, Clone, Copy, PartialEq, Eq, Hash, Structural)]
pub struct JobId(pub u128);

impl JobId {
    /// A fresh time-ordered identifier.
    pub fn new() -> (r: JobId) {
        JobId(fresh_v7())
    }

    pub fn from_uuid(uuid: u128) -> (r: JobId)
        ensures
            r.0 == uuid,
    {
        JobId(uuid)
    }

    /// The identifier in its hyphenated text form, as `Display` writes it.
    pub fn display_text(&self) -> (r: String)
        ensures
            r@ == uuid_chars(self.0),
    {
        uuid_text(self.0)
    }
}

/// What a job does, which decides the handler that runs it.
#[derive(Debug)]
pub enum JobKind {
    /// Inference work, such as inventory anomaly detection.
    AiInference { job_type: String },
    /// Rebuilding one projection.
    ProjectionRebuild { projection_name: String },
    /// One step of a saga.
    SagaStep { saga_type: String, step_name: String },
    /// Anything else.
    Custom { kind: String },
}

pub enum JobKindView {
    AiInference(Seq<char>),
    ProjectionRebuild(Seq<char>),
    SagaStep(Seq<char>, Seq<char>),
    Custom(Seq<char>),
}

impl View for JobKind {
    type V = JobKindView;

    open spec fn view(&self) -> JobKindView {
        match self {
            JobKind::AiInference { job_type } => JobKindView::AiInference(job_type@),
            JobKind::ProjectionRebuild { projection_name } => JobKindView::ProjectionRebuild(
                projection_name@,
            ),
            JobKind::SagaStep { saga_type, step_name } => JobKindView::SagaStep(
                saga_type@,
                step_name@,
            ),
            JobKind::Custom { kind } => JobKindView::Custom(kind@),
        }
    }
}

/// The name a kind is routed by: the job type, the projection name, the saga
/// type or the custom kind.
pub open spec fn kind_type_name(k: JobKindView) -> Seq<char> {
    match k {
        JobKindView::AiInference(t) => t,
        JobKindView::ProjectionRebuild(p) => p,
        JobKindView::SagaStep(s, _) => s,
        JobKindView::Custom(c) => c,
    }
}

impl JobKind {
    pub fn ai_inference(job_type: &str) -> (r: JobKind)
        ensures
            r@ == JobKindView::AiInference(job_type@),
    {
        JobKind::AiInference { job_type: owned(job_type) }
    }

    pub fn projection_rebuild(projection_name: &str) -> (r: JobKind)
        ensures
            r@ == JobKindView::ProjectionRebuild(projection_name@),
    {
        JobKind::ProjectionRebuild { projection_name: owned(projection_name) }
    }

    pub fn saga_step(saga_type: &str, step_name: &str) -> (r: JobKind)
        ensures
            r@ == JobKindView::SagaStep(saga_type@, step_name@),
    {
        JobKind::SagaStep { saga_type: owned(saga_type), step_name: owned(step_name) }
    }

    pub fn custom(kind: &str) -> (r: JobKind)
        ensures
            r@ == JobKindView::Custom(kind@),
    {
        JobKind::Custom { kind: owned(kind) }
    }

    /// The name this kind is routed by.
    pub fn kind_name(&self) -> (r: &str)
        ensures
            r@ == kind_type_name(self@),
    {
        match self {
            JobKind::AiInference { job_type } => job_type.as_str(),
            JobKind::ProjectionRebuild { projection_name } => projection_name.as_str(),
            JobKind::SagaStep { saga_type, .. } => saga_type.as_str(),
            JobKind::Custom { kind } => kind.as_str(),
        }
    }

    /// Whether two kinds are the same variant with the same names.
    pub fn same_as(&self, other: &JobKind) -> (r: bool)
        ensures
            r == (self@ == other@),
    {
        match (self, other) {
            (JobKind::AiInference { job_type: a }, JobKind::AiInference { job_type: b }) => {
                same_text(a.as_str(), b.as_str())
            },
            (
                JobKind::ProjectionRebuild { projection_name: a },
                JobKind::ProjectionRebuild { projection_name: b },
            ) => same_text(a.as_str(), b.as_str()),
            (
                JobKind::SagaStep { saga_type: a, step_name: x },
                JobKind::SagaStep { saga_type: b, step_name: y },
            ) => same_text(a.as_str(), b.as_str()) && same_text(x.as_str(), y.as_str()),
            (JobKind::Custom { kind: a }, JobKind::Custom { kind: b }) => same_text(
                a.as_str(),
                b.as_str(),
            ),
            _ => false,
        }
    }
}

impl Clone for JobKind {
    fn clone(&self) -> (r: JobKind)
        ensures
            r@ == self@,
    {
        match self {
            JobKind::AiInference { job_type } => JobKind::AiInference { job_type: job_type.clone() },
            JobKind::ProjectionRebuild { projection_name } => JobKind::ProjectionRebuild {
                projection_name: projection_name.clone(),
            },
            JobKind::SagaStep { saga_type, step_name } => JobKind::SagaStep {
                saga_type: saga_type.clone(),
                step_name: step_name.clone(),
            },
            JobKind::Custom { kind } => JobKind::Custom { kind: kind.clone() },
        }
    }
}

/// Where a job stands.
#[derive(Debug)]
pub enum JobStatus {
    /// Queued, waiting to be picked up.
    Pending,
    /// Being executed.
    Running,
    /// Finished successfully.
    Completed,
    /// Failed; will be retried.
    Failed { error: String, attempt: u32 },
    /// Out of retries; moved to the dead-letter queue.
    DeadLettered { error: String, attempts: u32 },
    /// Cancelled.
    Cancelled,
}

pub enum JobStatusView {
    Pending,
    Running,
    Completed,
    Failed(Seq<char>, u32),
    DeadLettered(Seq<char>, u32),
    Cancelled,
}

impl View for JobStatus {
    type V = JobStatusView;

    open spec fn view(&self) -> JobStatusView {
        match self {
            JobStatus::Pending => JobStatusView::Pending,
            JobStatus::Running => JobStatusView::Running,
            JobStatus::Completed => JobStatusView::Completed,
            JobStatus::Failed { error, attempt } => JobStatusView::Failed(error@, *attempt),
            JobStatus::DeadLettered { error, attempts } => JobStatusView::DeadLettered(
                error@,
                *attempts,
            ),
            JobStatus::Cancelled => JobStatusView::Cancelled,
        }
    }
}

/// Which variant a status is, by number.
pub open spec fn status_variant(s: JobStatusView) -> nat {
    match s {
        JobStatusView::Pending => 0,
        JobStatusView::Running => 1,
        JobStatusView::Completed => 2,
        JobStatusView::Failed(..) => 3,
        JobStatusView::DeadLettered(..) => 4,
        JobStatusView::Cancelled => 5,
    }
}

/// Completed, dead-lettered and cancelled jobs never run again.
pub open spec fn status_is_terminal(s: JobStatusView) -> bool {
    s is Completed || s is DeadLettered || s is Cancelled
}

impl JobStatus {
    pub fn is_terminal(&self) -> (r: bool)
        ensures
            r == status_is_terminal(self@),
    {
        match self {
            JobStatus::Completed | JobStatus::DeadLettered { .. } | JobStatus::Cancelled => true,
            _ => false,
        }
    }

    pub fn is_retriable(&self) -> (r: bool)
        ensures
            r == (self@ is Failed),
    {
        match self {
            JobStatus::Failed { .. } => true,
            _ => false,
        }
    }

    /// The variant's number (the fields are not looked at).
    pub fn variant(&self) -> (r: u8)
        ensures
            r == status_variant(self@),
    {
        match self {
            JobStatus::Pending => 0,
            JobStatus::Running => 1,
            JobStatus::Completed => 2,
            JobStatus::Failed { .. } => 3,
            JobStatus::DeadLettered { .. } => 4,
            JobStatus::Cancelled => 5,
        }
    }
}

impl Clone for JobStatus {
    fn clone(&self) -> (r: JobStatus)
        ensures
            r@ == self@,
    {
        match self {
            JobStatus::Pending => JobStatus::Pending,
            JobStatus::Running => JobStatus::Running,
            JobStatus::Completed => JobStatus::Completed,
            JobStatus::Failed { error, attempt } => JobStatus::Failed {
                error: error.clone(),
                attempt: *attempt,
            },
            JobStatus::DeadLettered { error, attempts } => JobStatus::DeadLettered {
                error: error.clone(),
                attempts: *attempts,
            },
            JobStatus::Cancelled => JobStatus::Cancelled,
        }
    }
}

/// How the delay grows from one retry to the next.
#[derive(Debug, Clone, Copy, PartialEq, Eq, Structural)]
pub enum BackoffStrategy {
    /// The same delay every time.
    Fixed,
    /// `base * 2^(attempt - 1)`, capped.
    Exponential,
    /// `base * attempt`, capped.
    Linear,
}

impl Default for BackoffStrategy {
    fn default() -> (r: BackoffStrategy)
        ensures
            r == BackoffStrategy::Exponential,
    {
        BackoffStrategy::Exponential
    }
}

/// Retry policy. Delays are in milliseconds; the jitter is in thousandths of
/// the delay (a tenth is 100).
#[derive(Debug, Clone, Copy, PartialEq, Eq, Structural)]
pub struct RetryPolicy {
    /// Retries allowed after the first attempt fails (0: none).
    pub max_attempts: u32,
    pub base_delay_ms: u64,
    /// Cap on the exponential and linear delays.
    pub max_delay_ms: u64,
    pub strategy: BackoffStrategy,
    pub jitter_permille: u32,
}

/// Five attempts, exponential from half a second up to a minute, a tenth of
/// jitter.
pub open spec fn default_policy() -> RetryPolicy {
    RetryPolicy {
        max_attempts: 5,
        base_delay_ms: 500,
        max_delay_ms: 60_000,
        strategy: BackoffStrategy::Exponential,
        jitter_permille: 100,
    }
}

impl Default for RetryPolicy {
    fn default() -> (r: RetryPolicy)
        ensures
            r == default_policy(),
    {
        RetryPolicy {
            max_attempts: 5,
            base_delay_ms: 500,
            max_delay_ms: 60_000,
            strategy: BackoffStrategy::Exponential,
            jitter_permille: 100,
        }
    }
}

/// `base * 2^n`.
pub open spec fn doubled(base: int, n: nat) -> int
    decreases n,
{
    if n == 0 {
        base
    } else {
        2 * doubled(base, (n - 1) as nat)
    }
}

pub open spec fn capped(v: int, cap: int) -> int {
    if v < cap {
        v
    } else {
        cap
    }
}

/// The delay before retry number `attempt` (1-based), without jitter.
pub open spec fn backoff_ms(p: RetryPolicy, attempt: u32) -> int {
    match p.strategy {
        BackoffStrategy::Fixed => p.base_delay_ms as int,
        BackoffStrategy::Exponential => capped(
            doubled(p.base_delay_ms as int, (attempt - 1) as nat),
            p.max_delay_ms as int,
        ),
        BackoffStrategy::Linear => capped(p.base_delay_ms * attempt, p.max_delay_ms as int),
    }
}

/// Where in `[0, 100)` the deterministic jitter of an attempt falls.
pub open spec fn jitter_point(attempt: u32) -> int {
    (attempt * 17) % 100
}

/// The delay with jitter, times 100000: the jitter moves the delay by up to
/// `jitter` of itself, down for the lower half of `jitter_point` and up for
/// the upper half.
pub open spec fn jittered_scaled(d: int, jitter_permille: u32, attempt: u32) -> int {
    d * (100_000 + jitter_permille * (2 * jitter_point(attempt) - 100))
}

/// The delay before retry number `attempt`: none before the first attempt;
/// else the backoff with jitter, never negative, in whole milliseconds.
pub open spec fn retry_delay_ms(p: RetryPolicy, attempt: u32) -> int {
    if attempt == 0 {
        0
    } else {
        let n = jittered_scaled(backoff_ms(p, attempt), p.jitter_permille, attempt);
        if n <= 0 {
            0
        } else if n / 100_000 > u64::MAX {
            u64::MAX as int
        } else {
            n / 100_000
        }
    }
}

pub proof fn lemma_doubled_grows(base: int, n: nat, m: nat)
    requires
        base >= 0,
        n <= m,
    ensures
        doubled(base, n) <= doubled(base, m),
        doubled(base, n) >= 0,
    decreases m,
{
    if n < m {
        lemma_doubled_grows(base, n, (m - 1) as nat);
    } else if n > 0 {
        lemma_doubled_grows(base, (n - 1) as nat, (n - 1) as nat);
    }
}

impl RetryPolicy {
    /// No retries.
    pub fn no_retry() -> (r: RetryPolicy)
        ensures
            r == (RetryPolicy { max_attempts: 0, ..default_policy() }),
    {
        RetryPolicy { max_attempts: 0, ..RetryPolicy::default() }
    }

    /// The same delay before every retry, without jitter.
    pub fn fixed(max_attempts: u32, delay_ms: u64) -> (r: RetryPolicy)
        ensures
            r == (RetryPolicy {
                max_attempts,
                base_delay_ms: delay_ms,
                max_delay_ms: delay_ms,
                strategy: BackoffStrategy::Fixed,
                jitter_permille: 0,
            }),
    {
        RetryPolicy {
            max_attempts,
            base_delay_ms: delay_ms,
            max_delay_ms: delay_ms,
            strategy: BackoffStrategy::Fixed,
            jitter_permille: 0,
        }
    }

    /// Exponential backoff with a tenth of jitter.
    pub fn exponential(max_attempts: u32, base_delay_ms: u64, max_delay_ms: u64) -> (r: RetryPolicy)
        ensures
            r == (RetryPolicy {
                max_attempts,
                base_delay_ms,
                max_delay_ms,
                strategy: BackoffStrategy::Exponential,
                jitter_permille: 100,
            }),
    {
        RetryPolicy {
            max_attempts,
            base_delay_ms,
            max_delay_ms,
            strategy: BackoffStrategy::Exponential,
            jitter_permille: 100,
        }
    }

    fn backoff(&self, attempt: u32) -> (r: u64)
        requires
            attempt >= 1,
        ensures
            r == backoff_ms(*self, attempt),
    {
        let base = self.base_delay_ms;
        let cap = self.max_delay_ms;
        match self.strategy {
            BackoffStrategy::Fixed => base,
            BackoffStrategy::Linear => {
                assert((base as u128) * (attempt as u128) <= u64::MAX * u32::MAX) by (nonlinear_arith)
                    requires
                        base <= u64::MAX,
                        attempt <= u32::MAX,
                ;
                let v: u128 = (base as u128) * (attempt as u128);
                if v < cap as u128 {
                    v as u64
                } else {
                    cap
                }
            },
            BackoffStrategy::Exponential => {
                if base == 0 {
                    proof {
                        lemma_doubled_grows(0, 0, (attempt - 1) as nat);
                        lemma_doubled_zero((attempt - 1) as nat);
                    }
                    return 0;
                }
                let mut cur: u128 = base as u128;
                let mut i: u32 = 1;
                while i < attempt && cur < cap as u128
                    invariant
                        1 <= i <= attempt,
                        1 <= base,
                        cur == doubled(base as int, (i - 1) as nat),
                        cur <= 2 * (u64::MAX as int),
                    decreases attempt - i,
                {
                    cur = cur * 2;
                    i = i + 1;
                }
                proof {
                    lemma_doubled_grows(base as int, (i - 1) as nat, (attempt - 1) as nat);
                }
                if cur < cap as u128 {
                    cur as u64
                } else {
                    cap
                }
            },
        }
    }

    /// The delay before retry number `attempt` (1-based), in milliseconds.
    pub fn delay_for_attempt(&self, attempt: u32) -> (r: u64)
        ensures
            r == retry_delay_ms(*self, attempt),
    {
        if attempt == 0 {
            return 0;
        }
        let d = self.backoff(attempt);
        let point: i128 = ((attempt as u64 * 17) % 100) as i128;
        let jp: i128 = self.jitter_permille as i128;
        let w: i128 = 2 * point - 100;
        assert(-500_000_000_000 <= jp * w <= 500_000_000_000) by (nonlinear_arith)
            requires
                0 <= jp <= u32::MAX,
                -100 <= w <= 100,
        ;
        let factor: i128 = 100_000 + jp * w;
        assert(-(u64::MAX as int) * 600_000_000_000 <= d * factor <= (u64::MAX as int) * 600_000_000_000) by (nonlinear_arith)
            requires
                0 <= d <= u64::MAX,
                -600_000_000_000i128 <= factor <= 600_000_000_000i128,
        ;
        let n: i128 = (d as i128) * factor;
        assert(n == d * factor) by (nonlinear_arith)
            requires
                n == (d as i128) * factor,
                0 <= d <= u64::MAX,
                -600_000_000_000i128 <= factor <= 600_000_000_000i128,
        ;
        assert(jittered_scaled(d as int, self.jitter_permille, attempt) == n);
        if n <= 0 {
            0
        } else if n / 100_000 > u64::MAX as i128 {
            u64::MAX
        } else {
            (n / 100_000) as u64
        }
    }

    /// Whether another attempt is allowed after `attempt` attempts.
    pub fn should_retry(&self, attempt: u32) -> (r: bool)
        ensures
            r == (attempt < self.max_attempts),
    {
        attempt < self.max_attempts
    }
}

pub proof fn lemma_doubled_zero(n: nat)
    ensures
        doubled(0, n) == 0,
    decreases n,
{
    if n > 0 {
        lemma_doubled_zero((n - 1) as nat);
    }
}

/// One execution attempt of a job.
#[derive(Debug, Clone)]
pub struct JobAttemptRecord {
    pub attempt: u32,
    pub started_at: Timestamp,
    pub finished_at: Timestamp,
    pub success: bool,
    pub error: Option<String>,
    pub duration_ms: u64,
}

pub struct AttemptView {
    pub attempt: u32,
    pub started_at: Timestamp,
    pub finished_at: Timestamp,
    pub success: bool,
    pub error: Option<Seq<char>>,
    pub duration_ms: u64,
}

pub open spec fn opt_text(o: Option<String>) -> Option<Seq<char>> {
    match o {
        Some(s) => Some(s@),
        None => None,
    }
}

impl View for JobAttemptRecord {
    type V = AttemptView;

    open spec fn view(&self) -> AttemptView {
        AttemptView {
            attempt: self.attempt,
            started_at: self.started_at,
            finished_at: self.finished_at,
            success: self.success,
            error: opt_text(self.error),
            duration_ms: self.duration_ms,
        }
    }
}

impl JobAttemptRecord {
    pub fn duplicate(&self) -> (r: JobAttemptRecord)
        ensures
            r@ == self@,
    {
        JobAttemptRecord {
            attempt: self.attempt,
            started_at: self.started_at,
            finished_at: self.finished_at,
            success: self.success,
            error: copy_opt_string(&self.error),
            duration_ms: self.duration_ms,
        }
    }
}

/// A background job.
#[derive(Debug)]
pub struct Job {
    pub id: JobId,
    pub tenant_id: TenantId,
    pub kind: JobKind,
    pub payload: Json,
    pub status: JobStatus,
    pub retry_policy: RetryPolicy,
    /// Attempts started so far.
    pub attempt: u32,
    pub created_at: Timestamp,
    pub updated_at: Timestamp,
    /// Not to run before this instant, when set.
    pub scheduled_at: Option<Timestamp>,
    /// The attempts made, oldest first.
    pub history: Vec<JobAttemptRecord>,
}

pub struct JobView {
    pub id: JobId,
    pub tenant_id: TenantId,
    pub kind: JobKindView,
    pub payload: JsonView,
    pub status: JobStatusView,
    pub retry_policy: RetryPolicy,
    pub attempt: u32,
    pub created_at: Timestamp,
    pub updated_at: Timestamp,
    pub scheduled_at: Option<Timestamp>,
    pub history: Seq<AttemptView>,
}

pub open spec fn attempt_views(h: Seq<JobAttemptRecord>) -> Seq<AttemptView> {
    h.map_values(|r: JobAttemptRecord| r@)
}

impl View for Job {
    type V = JobView;

    open spec fn view(&self) -> JobView {
        JobView {
            id: self.id,
            tenant_id: self.tenant_id,
            kind: self.kind@,
            payload: self.payload@,
            status: self.status@,
            retry_policy: self.retry_policy,
            attempt: self.attempt,
            created_at: self.created_at,
            updated_at: self.updated_at,
            scheduled_at: self.scheduled_at,
            history: attempt_views(self.history@),
        }
    }
}

/// Milliseconds from `started` to `now`, none if `now` is earlier.
pub open spec fn elapsed_ms(started: Timestamp, now: Timestamp) -> u64 {
    if now.0 - started.0 <= 0 {
        0
    } else {
        (now.0 - started.0) as u64
    }
}

/// `now` moved forward by `delay_ms`. A delay beyond what a signed 64-bit
/// millisecond count holds counts as none; the result stops at the largest
/// instant.
pub open spec fn later(now: Timestamp, delay_ms: u64) -> Timestamp {
    let d: int = if delay_ms <= i64::MAX {
        delay_ms as int
    } else {
        0
    };
    if now.0 + d > i64::MAX {
        Timestamp(i64::MAX)
    } else {
        Timestamp((now.0 + d) as i64)
    }
}

/// A new job: pending, default retry policy, no attempt yet.
pub open spec fn new_job(
    id: JobId,
    tenant_id: TenantId,
    kind: JobKindView,
    payload: JsonView,
    now: Timestamp,
) -> JobView {
    JobView {
        id,
        tenant_id,
        kind,
        payload,
        status: JobStatusView::Pending,
        retry_policy: default_policy(),
        attempt: 0,
        created_at: now,
        updated_at: now,
        scheduled_at: None,
        history: Seq::empty(),
    }
}

/// A job that starts its next attempt.
pub open spec fn started(j: JobView, now: Timestamp) -> JobView {
    JobView { status: JobStatusView::Running, attempt: (j.attempt + 1) as u32, updated_at: now, ..j }
}

pub open spec fn attempt_record(
    j: JobView,
    started_at: Timestamp,
    now: Timestamp,
    error: Option<Seq<char>>,
) -> AttemptView {
    AttemptView {
        attempt: j.attempt,
        started_at,
        finished_at: now,
        success: error is None,
        error,
        duration_ms: elapsed_ms(started_at, now),
    }
}

/// A job whose current attempt succeeded.
pub open spec fn completed(j: JobView, started_at: Timestamp, now: Timestamp) -> JobView {
    JobView {
        status: JobStatusView::Completed,
        updated_at: now,
        history: j.history.push(attempt_record(j, started_at, now, None)),
        ..j
    }
}

/// A job whose current attempt failed: retried after the backoff while the
/// policy allows it, dead-lettered after that.
pub open spec fn failed(j: JobView, error: Seq<char>, started_at: Timestamp, now: Timestamp) -> JobView {
    let recorded = JobView {
        updated_at: now,
        history: j.history.push(attempt_record(j, started_at, now, Some(error))),
        ..j
    };
    if j.attempt < j.retry_policy.max_attempts {
        JobView {
            scheduled_at: Some(
                later(now, retry_delay_ms(j.retry_policy, j.attempt) as u64),
            ),
            status: JobStatusView::Failed(error, j.attempt),
            ..recorded
        }
    } else {
        JobView { status: JobStatusView::DeadLettered(error, j.attempt), ..recorded }
    }
}

pub open spec fn cancelled(j: JobView, now: Timestamp) -> JobView {
    JobView { status: JobStatusView::Cancelled, updated_at: now, ..j }
}

/// Whether a job may run at `now`.
pub open spec fn ready_at(j: JobView, now: Timestamp) -> bool {
    match j.scheduled_at {
        Some(at) => now.0 >= at.0,
        None => true,
    }
}

fn elapsed(started_at: Timestamp, now: Timestamp) -> (r: u64)
    ensures
        r == elapsed_ms(started_at, now),
{
    let d: i128 = now.0 as i128 - started_at.0 as i128;
    if d <= 0 {
        0
    } else {
        d as u64
    }
}

/// `later` computed.
pub fn shift(now: Timestamp, delay_ms: u64) -> (r: Timestamp)
    ensures
        r == later(now, delay_ms),
{
    let d: i128 = if delay_ms <= i64::MAX as u64 {
        delay_ms as i128
    } else {
        0
    };
    let t: i128 = now.0 as i128 + d;
    if t > i64::MAX as i128 {
        Timestamp(i64::MAX)
    } else {
        Timestamp(t as i64)
    }
}

fn copy_history(h: &Vec<JobAttemptRecord>) -> (r: Vec<JobAttemptRecord>)
    ensures
        attempt_views(r@) == attempt_views(h@),
{
    let mut out: Vec<JobAttemptRecord> = Vec::new();
    let mut i: usize = 0;
    while i < h.len()
        invariant
            i <= h@.len(),
            out@.len() == i,
            forall|j: int| 0 <= j < i ==> (#[trigger] out@[j])@ == h@[j]@,
        decreases h@.len() - i,
    {
        let c = h[i].duplicate();
        out.push(c);
        i = i + 1;
    }
    assert(attempt_views(out@) =~= attempt_views(h@));
    out
}

impl Clone for Job {
    fn clone(&self) -> (r: Job)
        ensures
            r@ == self@,
    {
        Job {
            id: self.id,
            tenant_id: self.tenant_id,
            kind: self.kind.clone(),
            payload: self.payload.clone(),
            status: self.status.clone(),
            retry_policy: self.retry_policy,
            attempt: self.attempt,
            created_at: self.created_at,
            updated_at: self.updated_at,
            scheduled_at: self.scheduled_at,
            history: copy_history(&self.history),
        }
    }
}

impl Job {
    /// A new pending job with a fresh id, created now.
    pub fn new(tenant_id: TenantId, kind: JobKind, payload: Json) -> (r: Job)
        ensures
            exists|id: JobId, now: Timestamp| r@ == new_job(id, tenant_id, kind@, payload@, now),
    {
        let id = JobId::new();
        let now = Timestamp::now();
        Job::new_at(id, tenant_id, kind, payload, now)
    }

    /// A new pending job with the given id and creation time.
    pub fn new_at(id: JobId, tenant_id: TenantId, kind: JobKind, payload: Json, now: Timestamp) -> (r: Job)
        ensures
            r@ == new_job(id, tenant_id, kind@, payload@, now),
    {
        let r = Job {
            id,
            tenant_id,
            kind,
            payload,
            status: JobStatus::Pending,
            retry_policy: RetryPolicy::default(),
            attempt: 0,
            created_at: now,
            updated_at: now,
            scheduled_at: None,
            history: Vec::new(),
        };
        assert(r@.history =~= Seq::<AttemptView>::empty());
        r
    }

    pub fn with_retry_policy(self, policy: RetryPolicy) -> (r: Job)
        ensures
            r@ == (JobView { retry_policy: policy, ..self@ }),
    {
        let mut job = self;
        job.retry_policy = policy;
        job
    }

    /// The job, not to run before `at`.
    pub fn scheduled_at(self, at: Timestamp) -> (r: Job)
        ensures
            r@ == (JobView { scheduled_at: Some(at), ..self@ }),
    {
        let mut job = self;
        job.scheduled_at = Some(at);
        job
    }

    /// The job, not to run before `delay_ms` from now.
    pub fn delayed(self, delay_ms: u64) -> (r: Job)
        ensures
            exists|now: Timestamp| r@ == (JobView { scheduled_at: Some(#[trigger] later(now, delay_ms)), ..self@ }),
    {
        let now = Timestamp::now();
        self.scheduled_at(shift(now, delay_ms))
    }

    /// Whether the job may run now.
    pub fn is_ready(&self) -> (r: bool)
        ensures
            exists|now: Timestamp| r == #[trigger] ready_at(self@, now),
    {
        self.is_ready_at(Timestamp::now())
    }

    pub fn is_ready_at(&self, now: Timestamp) -> (r: bool)
        ensures
            r == ready_at(self@, now),
    {
        match self.scheduled_at {
            Some(at) => now.0 >= at.0,
            None => true,
        }
    }

    /// Start the next attempt, now.
    pub fn mark_running(&mut self)
        requires
            old(self).attempt < u32::MAX,
        ensures
            exists|now: Timestamp| final(self)@ == #[trigger] started(old(self)@, now),
    {
        self.mark_running_at(Timestamp::now());
    }

    pub fn mark_running_at(&mut self, now: Timestamp)
        requires
            old(self).attempt < u32::MAX,
        ensures
            final(self)@ == started(old(self)@, now),
    {
        self.status = JobStatus::Running;
        self.attempt = self.attempt + 1;
        self.updated_at = now;
    }

    /// Record the current attempt, begun at `started_at`, as a success.
    pub fn mark_completed(&mut self, started_at: Timestamp)
        ensures
            exists|now: Timestamp| final(self)@ == #[trigger] completed(old(self)@, started_at, now),
    {
        self.mark_completed_at(started_at, Timestamp::now());
    }

    pub fn mark_completed_at(&mut self, started_at: Timestamp, now: Timestamp)
        ensures
            final(self)@ == completed(old(self)@, started_at, now),
    {
        let ghost before = self@;
        let record = JobAttemptRecord {
            attempt: self.attempt,
            started_at,
            finished_at: now,
            success: true,
            error: None,
            duration_ms: elapsed(started_at, now),
        };
        self.status = JobStatus::Completed;
        self.updated_at = now;
        self.history.push(record);
        assert(self@.history =~= before.history.push(attempt_record(before, started_at, now, None)));
    }

    /// Record the current attempt, begun at `started_at`, as a failure.
    pub fn mark_failed(&mut self, error: String, started_at: Timestamp)
        ensures
            exists|now: Timestamp| final(self)@ == #[trigger] failed(old(self)@, error@, started_at, now),
    {
        self.mark_failed_at(error, started_at, Timestamp::now());
    }

    pub fn mark_failed_at(&mut self, error: String, started_at: Timestamp, now: Timestamp)
        ensures
            final(self)@ == failed(old(self)@, error@, started_at, now),
    {
        let ghost before = self@;
        let record = JobAttemptRecord {
            attempt: self.attempt,
            started_at,
            finished_at: now,
            success: false,
            error: Some(error.clone()),
            duration_ms: elapsed(started_at, now),
        };
        self.updated_at = now;
        self.history.push(record);
        assert(self@.history =~= before.history.push(
            attempt_record(before, started_at, now, Some(error@)),
        ));
        if self.retry_policy.should_retry(self.attempt) {
            let delay = self.retry_policy.delay_for_attempt(self.attempt);
            self.scheduled_at = Some(shift(now, delay));
            self.status = JobStatus::Failed { error, attempt: self.attempt };
        } else {
            self.status = JobStatus::DeadLettered { error, attempts: self.attempt };
        }
    }

    /// Cancel the job, now.
    pub fn mark_cancelled(&mut self)
        ensures
            exists|now: Timestamp| final(self)@ == #[trigger] cancelled(old(self)@, now),
    {
        self.mark_cancelled_at(Timestamp::now());
    }

    pub fn mark_cancelled_at(&mut self, now: Timestamp)
        ensures
            final(self)@ == cancelled(old(self)@, now),
    {
        self.status = JobStatus::Cancelled;
        self.updated_at = now;
    }
}

/// What a handler reports for one attempt.
#[derive(Debug)]
pub enum JobResult {
    Success,
    Failure(String),
    /// Retry at once (a transient failure).
    RetryNow,
    /// Retry after this many milliseconds.
    RetryAfter(u64),
}

pub enum JobResultView {
    Success,
    Failure(Seq<char>),
    RetryNow,
    RetryAfter(u64),
}

impl View for JobResult {
    type V = JobResultView;

    open spec fn view(&self) -> JobResultView {
        match self {
            JobResult::Success => JobResultView::Success,
            JobResult::Failure(e) => JobResultView::Failure(e@),
            JobResult::RetryNow => JobResultView::RetryNow,
            JobResult::RetryAfter(d) => JobResultView::RetryAfter(*d),
        }
    }
}

/// A job in the dead-letter queue.
#[derive(Debug, Clone)]
pub struct DeadLetterEntry {
    pub job: Job,
    pub dead_lettered_at: Timestamp,
    pub reason: String,
}

pub struct DeadLetterView {
    pub job: JobView,
    pub dead_lettered_at: Timestamp,
    pub reason: Seq<char>,
}

impl View for DeadLetterEntry {
    type V = DeadLetterView;

    open spec fn view(&self) -> DeadLetterView {
        DeadLetterView { job: self.job@, dead_lettered_at: self.dead_lettered_at, reason: self.reason@ }
    }
}

impl DeadLetterEntry {
    /// An entry dead-lettered now.
    pub fn new(job: Job, reason: String) -> (r: DeadLetterEntry)
        ensures
            r@.job == job@,
            r@.reason == reason@,
    {
        DeadLetterEntry::new_at(job, reason, Timestamp::now())
    }

    pub fn new_at(job: Job, reason: String, now: Timestamp) -> (r: DeadLetterEntry)
        ensures
            r@ == (DeadLetterView { job: job@, dead_lettered_at: now, reason: reason@ }),
    {
        DeadLetterEntry { job, dead_lettered_at: now, reason }
    }

    pub fn duplicate(&self) -> (r: DeadLetterEntry)
        ensures
            r@ == self@,
    {
        DeadLetterEntry {
            job: self.job.clone(),
            dead_lettered_at: self.dead_lettered_at,
            reason: self.reason.clone(),
        }
    }
}

/// Bounded retries: a failed attempt is retried while the attempts made
/// stay below the policy's maximum, and dead-lettered from then on.
pub proof fn law_failure_retries_then_dead_letters(j: JobView, error: Seq<char>, started_at: Timestamp, now: Timestamp)
    ensures
        failed(j, error, started_at, now).status == if j.attempt < j.retry_policy.max_attempts {
            JobStatusView::Failed(error, j.attempt)
        } else {
            JobStatusView::DeadLettered(error, j.attempt)
        },
        failed(j, error, started_at, now).history == j.history.push(attempt_record(j, started_at, now, Some(error))),
{
}

/// Capped backoff: without jitter, exponential and linear delays never
/// exceed the maximum delay, and every delay is the backoff itself.
pub proof fn law_delay_capped(p: RetryPolicy, attempt: u32)
    requires
        p.jitter_permille == 0,
        attempt >= 1,
    ensures
        retry_delay_ms(p, attempt) == backoff_ms(p, attempt),
        p.strategy != BackoffStrategy::Fixed ==> retry_delay_ms(p, attempt) <= p.max_delay_ms,
{
    let d = backoff_ms(p, attempt);
    if p.strategy is Exponential {
        lemma_doubled_grows(p.base_delay_ms as int, 0, (attempt - 1) as nat);
    }
    assert(d >= 0) by (nonlinear_arith)
        requires
            p.strategy is Linear ==> d == capped(p.base_delay_ms * attempt, p.max_delay_ms as int),
            p.strategy is Fixed ==> d == p.base_delay_ms,
            p.strategy is Exponential ==> d == capped(doubled(p.base_delay_ms as int, (attempt - 1) as nat), p.max_delay_ms as int),
            doubled(p.base_delay_ms as int, 0) <= doubled(p.base_delay_ms as int, (attempt - 1) as nat) || !(p.strategy is Exponential),
            doubled(p.base_delay_ms as int, 0) == p.base_delay_ms,
            p.base_delay_ms >= 0,
            p.max_delay_ms >= 0,
            attempt >= 1,
    ;
    assert(jittered_scaled(d, 0, attempt) == d * 100_000);
    assert((d * 100_000) / 100_000 == d) by (nonlinear_arith);
    assert(d <= u64::MAX);
}

} // verus!
