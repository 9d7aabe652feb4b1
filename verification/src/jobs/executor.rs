//! Running jobs: routing a job to its handler, and settling what the handler
//! reported into the job and the store (completion, retry with backoff,
//! dead-lettering).
use vstd::prelude::*;
use vstd::string::StringExecFns;

use crate::common::{debug_text, TenantId, Timestamp};
use crate::jobs::store::{
    buried, job_position, lemma_job_position, put_entry, store_error_text, JobStore,
    JobStoreErrorView,
};
use crate::jobs::types::{
    completed, failed, kind_type_name, later, shift, started, DeadLetterView, Job, JobResult,
    JobResultView, JobStatus, JobView,
};
use crate::text::{owned, same_text, starts_with_chars};

verus! {

broadcast use vstd::string::group_string_axioms;

/// Executor settings; the poll interval is in milliseconds.
#[derive(Debug, Clone)]
pub struct JobExecutorConfig {
    pub poll_interval_ms: u64,
    pub max_concurrent: usize,
    /// Name for logging.
    pub name: String,
    /// Only this tenant's jobs, when set.
    pub tenant_id: Option<TenantId>,
}

impl Default for JobExecutorConfig {
    fn default() -> (r: JobExecutorConfig)
        ensures
            r.poll_interval_ms == 100,
            r.max_concurrent == 4,
            r.name@ == "job-executor"@,
            r.tenant_id is None,
    {
        JobExecutorConfig {
            poll_interval_ms: 100,
            max_concurrent: 4,
            name: String::from_str("job-executor"),
            tenant_id: None,
        }
    }
}

impl JobExecutorConfig {
    pub fn with_name(self, name: &str) -> (r: JobExecutorConfig)
        ensures
            r.name@ == name@,
            r.poll_interval_ms == self.poll_interval_ms,
            r.max_concurrent == self.max_concurrent,
            r.tenant_id == self.tenant_id,
    {
        let mut c = self;
        c.name = owned(name);
        c
    }

    pub fn with_tenant(self, tenant_id: TenantId) -> (r: JobExecutorConfig)
        ensures
            r.tenant_id == Some(tenant_id),
            r.name@ == self.name@,
            r.poll_interval_ms == self.poll_interval_ms,
            r.max_concurrent == self.max_concurrent,
    {
        let mut c = self;
        c.tenant_id = Some(tenant_id);
        c
    }

    pub fn with_max_concurrent(self, max: usize) -> (r: JobExecutorConfig)
        ensures
            r.max_concurrent == max,
            r.name@ == self.name@,
            r.poll_interval_ms == self.poll_interval_ms,
            r.tenant_id == self.tenant_id,
    {
        let mut c = self;
        c.max_concurrent = max;
        c
    }
}

/// Counters of a running executor.
#[derive(Debug, Clone, Copy, PartialEq, Eq, Structural)]
pub struct ExecutorStats {
    pub jobs_processed: u64,
    pub jobs_succeeded: u64,
    pub jobs_failed: u64,
    pub jobs_dead_lettered: u64,
    pub current_running: usize,
    pub uptime_secs: u64,
}

impl Default for ExecutorStats {
    fn default() -> (r: ExecutorStats)
        ensures
            r == (ExecutorStats {
                jobs_processed: 0,
                jobs_succeeded: 0,
                jobs_failed: 0,
                jobs_dead_lettered: 0,
                current_running: 0,
                uptime_secs: 0,
            }),
    {
        ExecutorStats {
            jobs_processed: 0,
            jobs_succeeded: 0,
            jobs_failed: 0,
            jobs_dead_lettered: 0,
            current_running: 0,
            uptime_secs: 0,
        }
    }
}

impl ExecutorStats {
    /// A claimed job starts running.
    pub fn job_started(&mut self)
        requires
            old(self).current_running < usize::MAX,
        ensures
            *final(self) == (ExecutorStats { current_running: (old(self).current_running + 1) as usize, ..*old(self) }),
    {
        self.current_running = self.current_running + 1;
    }

    /// A job finished, successfully or not, leaving `status`: one more
    /// processed, and one more succeeded, or one more failed (and
    /// dead-lettered, where it was).
    pub fn job_finished(&mut self, succeeded: bool, status: &JobStatus)
        requires
            old(self).jobs_processed < u64::MAX,
            old(self).jobs_succeeded < u64::MAX,
            old(self).jobs_failed < u64::MAX,
            old(self).jobs_dead_lettered < u64::MAX,
        ensures
            final(self).current_running == if old(self).current_running > 0 {
                old(self).current_running - 1
            } else {
                0
            },
            final(self).jobs_processed == old(self).jobs_processed + 1,
            final(self).jobs_succeeded == old(self).jobs_succeeded + if succeeded { 1int } else { 0int },
            final(self).jobs_failed == old(self).jobs_failed + if succeeded { 0int } else { 1int },
            final(self).jobs_dead_lettered == old(self).jobs_dead_lettered + if !succeeded
                && status@ is DeadLettered {
                1int
            } else {
                0int
            },
            final(self).uptime_secs == old(self).uptime_secs,
    {
        if self.current_running > 0 {
            self.current_running = self.current_running - 1;
        }
        self.jobs_processed = self.jobs_processed + 1;
        if succeeded {
            self.jobs_succeeded = self.jobs_succeeded + 1;
        } else {
            self.jobs_failed = self.jobs_failed + 1;
            if let JobStatus::DeadLettered { .. } = status {
                self.jobs_dead_lettered = self.jobs_dead_lettered + 1;
            }
        }
    }
}

// ---------------------------------------------------------------------------
// Routing.
// ---------------------------------------------------------------------------

/// `p` ends with `.*`: it stands for every name that starts with the rest.
pub open spec fn is_category(p: Seq<char>) -> bool {
    p.len() >= 2 && p[p.len() - 2] == '.' && p[p.len() - 1] == '*'
}

pub open spec fn category_matches(p: Seq<char>, name: Seq<char>) -> bool {
    is_category(p) && p.len() - 2 <= name.len() && name.take(p.len() - 2) == p.take(p.len() - 2)
}

/// The first position from `i` on whose pattern is the name itself (`0`), a
/// category the name falls in (`1`), or the wildcard `*` (`2`).
pub open spec fn first_pattern(pats: Seq<Seq<char>>, name: Seq<char>, how: nat, i: int) -> Option<int>
    decreases pats.len() - i,
{
    if i < 0 || i >= pats.len() {
        None
    } else if (how == 0 && pats[i] == name) || (how == 1 && category_matches(pats[i], name)) || (
    how == 2 && pats[i] == seq!['*']) {
        Some(i)
    } else {
        first_pattern(pats, name, how, i + 1)
    }
}

/// The handler for a name: registered for the name itself; else the first
/// registered category that the name falls in; else the wildcard.
pub open spec fn handler_for(pats: Seq<Seq<char>>, name: Seq<char>) -> Option<int> {
    match first_pattern(pats, name, 0, 0) {
        Some(i) => Some(i),
        None => match first_pattern(pats, name, 1, 0) {
            Some(i) => Some(i),
            None => first_pattern(pats, name, 2, 0),
        },
    }
}

pub proof fn lemma_first_pattern(pats: Seq<Seq<char>>, name: Seq<char>, how: nat, i: int)
    requires
        0 <= i,
    ensures
        match first_pattern(pats, name, how, i) {
            Some(p) => i <= p < pats.len(),
            None => true,
        },
    decreases pats.len() - i,
{
    if i < pats.len() {
        lemma_first_pattern(pats, name, how, i + 1);
    }
}

// ---------------------------------------------------------------------------
// Settling what a handler reported.
// ---------------------------------------------------------------------------

/// The error an outcome reports, if any.
pub open spec fn outcome_error(outcome: JobResultView) -> Option<Seq<char>> {
    match outcome {
        JobResultView::Success => None,
        JobResultView::Failure(e) => Some(e),
        JobResultView::RetryNow => Some("retry requested"@),
        JobResultView::RetryAfter(_) => Some("retry after delay"@),
    }
}

/// The running job `j` after its attempt ended at `now` with `outcome`: a
/// success completes it; a failure is retried after the backoff, or
/// dead-lettered; a retry request fails the attempt and retries at once or
/// after the requested delay.
pub open spec fn settled(j: JobView, outcome: JobResultView, now: Timestamp) -> JobView {
    match outcome {
        JobResultView::Success => completed(j, now, now),
        JobResultView::Failure(e) => failed(j, e, now, now),
        JobResultView::RetryNow => JobView {
            scheduled_at: None,
            ..failed(j, "retry requested"@, now, now)
        },
        JobResultView::RetryAfter(d) => JobView {
            scheduled_at: Some(later(now, d)),
            ..failed(j, "retry after delay"@, now, now)
        },
    }
}

/// What settling did to the store and what it answered: the settled job
/// replaces the stored one (an error if none is stored); a failure that
/// dead-letters the job also moves it to the dead-letter queue; the answer
/// is the outcome's error, if any.
pub open spec fn settle_effect(
    jobs_before: Seq<JobView>,
    dls_before: Seq<DeadLetterView>,
    jobs_after: Seq<JobView>,
    dls_after: Seq<DeadLetterView>,
    job: JobView,
    outcome: JobResultView,
    now: Timestamp,
    r: Result<(), String>,
) -> bool {
    match job_position(jobs_before, job.id) {
        None => r matches Err(m) && m@ == store_error_text(JobStoreErrorView::NotFound(job.id))
            && jobs_after == jobs_before && dls_after == dls_before,
        Some(p) => {
            &&& match outcome_error(outcome) {
                None => r is Ok,
                Some(e) => r matches Err(m) && m@ == e,
            }
            &&& if outcome is Failure && job.status is DeadLettered {
                let e = outcome->Failure_0;
                &&& jobs_after == jobs_before.update(p, job).remove(p)
                &&& dls_after == put_entry(
                    dls_before,
                    DeadLetterView { job: buried(job, e, now), dead_lettered_at: now, reason: e },
                )
            } else {
                jobs_after == jobs_before.update(p, job) && dls_after == dls_before
            }
        },
    }
}

/// Settle the outcome of the running job's attempt at `now`: update the job
/// and the store.
pub fn settle<S: JobStore>(store: &mut S, job: &mut Job, outcome: JobResult, now: Timestamp) -> (r: Result<(), String>)
    requires
        old(store).valid(),
    ensures
        final(store).valid(),
        final(job)@ == settled(old(job)@, outcome@, now),
        settle_effect(
            old(store).spec_jobs(),
            old(store).spec_dead_letters(),
            final(store).spec_jobs(),
            final(store).spec_dead_letters(),
            final(job)@,
            outcome@,
            now,
            r,
        ),
{
    let ghost jobs0 = store.spec_jobs();
    proof {
        lemma_job_position(jobs0, job.id, 0);
    }
    match outcome {
        JobResult::Success => {
            job.mark_completed_at(now, now);
            match store.update(job) {
                Ok(()) => Ok(()),
                Err(e) => Err(e.message()),
            }
        },
        JobResult::Failure(error) => {
            job.mark_failed_at(error.clone(), now, now);
            match store.update(job) {
                Ok(()) => {},
                Err(e) => {
                    return Err(e.message());
                },
            }
            if let JobStatus::DeadLettered { .. } = job.status {
                let ghost jobs1 = store.spec_jobs();
                proof {
                    let p = job_position(jobs0, job.id).unwrap();
                    lemma_job_position(jobs1, job.id, 0);
                    assert(jobs1[p].id == job.id);
                    if job_position(jobs1, job.id) != Some(p) {
                        let q = job_position(jobs1, job.id).unwrap();
                        assert(jobs1[q] == jobs0[q]);
                    }
                }
                let _ = store.dead_letter_at(job.clone(), error.clone(), now);
            }
            Err(error)
        },
        JobResult::RetryNow => {
            job.mark_failed_at(String::from_str("retry requested"), now, now);
            job.scheduled_at = None;
            match store.update(job) {
                Ok(()) => Err(String::from_str("retry requested")),
                Err(e) => Err(e.message()),
            }
        },
        JobResult::RetryAfter(delay_ms) => {
            job.mark_failed_at(String::from_str("retry after delay"), now, now);
            job.scheduled_at = Some(shift(now, delay_ms));
            match store.update(job) {
                Ok(()) => Err(String::from_str("retry after delay")),
                Err(e) => Err(e.message()),
            }
        },
    }
}

// ---------------------------------------------------------------------------
// The executor.
// ---------------------------------------------------------------------------

/// The patterns of registered handlers, in registration order.
pub open spec fn patterns<H>(handlers: Seq<(String, H)>) -> Seq<Seq<char>> {
    handlers.map_values(|h: (String, H)| h.0@)
}

/// Every handler accepts every job.
pub open spec fn handlers_total<H: Fn(&Job) -> JobResult>(handlers: Seq<(String, H)>) -> bool {
    forall|i: int, j: &Job| 0 <= i < handlers.len() ==> #[trigger] handlers[i].1.requires((j,))
}

/// Executes jobs from a store with the handlers registered for their kinds.
pub struct JobExecutor<S, H> {
    pub store: S,
    /// Handlers by pattern, in registration order; no pattern twice.
    pub handlers: Vec<(String, H)>,
}

/// The job as its handler sees it: a job already running (claimed) keeps
/// its attempt; any other starts the next one at `now`.
pub open spec fn attempt_started(j: JobView, now: Timestamp) -> JobView {
    if j.status is Running {
        j
    } else {
        started(j, now)
    }
}

/// What running one attempt of `job` at `now` did: with no handler the job
/// and the store stay as they were and an error is answered; else the job
/// started its attempt (unless it was already running), the handler ran on
/// it, and its outcome was settled.
pub open spec fn attempt_effect<S: JobStore, H: Fn(&Job) -> JobResult>(
    before: JobExecutor<S, H>,
    after: JobExecutor<S, H>,
    job_before: JobView,
    job_after: JobView,
    now: Timestamp,
    r: Result<(), String>,
) -> bool {
    &&& after.handlers@ == before.handlers@
    &&& match handler_for(patterns(before.handlers@), kind_type_name(job_before.kind)) {
        None => r is Err && job_after == job_before && after.store.spec_jobs() == before.store.spec_jobs()
            && after.store.spec_dead_letters() == before.store.spec_dead_letters(),
        Some(i) => exists|running: Job, outcome: JobResult|
            running@ == attempt_started(job_before, now) && #[trigger] before.handlers@[i].1.ensures(
                (&running,),
                outcome,
            ) && job_after == settled(running@, outcome@, now) && settle_effect(
                before.store.spec_jobs(),
                before.store.spec_dead_letters(),
                after.store.spec_jobs(),
                after.store.spec_dead_letters(),
                job_after,
                outcome@,
                now,
                r,
            ),
    }
}

pub proof fn lemma_attempt_effect<S: JobStore, H: Fn(&Job) -> JobResult>(
    before: JobExecutor<S, H>,
    after: JobExecutor<S, H>,
    job_before: JobView,
    job_after: JobView,
    now: Timestamp,
    r: Result<(), String>,
    i: int,
    running: Job,
    outcome: JobResult,
)
    requires
        after.handlers@ == before.handlers@,
        handler_for(patterns(before.handlers@), kind_type_name(job_before.kind)) == Some(i),
        running@ == attempt_started(job_before, now),
        before.handlers@[i].1.ensures((&running,), outcome),
        job_after == settled(running@, outcome@, now),
        settle_effect(
            before.store.spec_jobs(),
            before.store.spec_dead_letters(),
            after.store.spec_jobs(),
            after.store.spec_dead_letters(),
            job_after,
            outcome@,
            now,
            r,
        ),
    ensures
        attempt_effect(before, after, job_before, job_after, now, r),
{
    let k = handler_for(patterns(before.handlers@), kind_type_name(job_before.kind))->0;
    assert(exists|running2: Job, outcome2: JobResult|
        running2@ == attempt_started(job_before, now) && #[trigger] before.handlers@[k].1.ensures(
            (&running2,),
            outcome2,
        ) && job_after == settled(running2@, outcome2@, now) && settle_effect(
            before.store.spec_jobs(),
            before.store.spec_dead_letters(),
            after.store.spec_jobs(),
            after.store.spec_dead_letters(),
            job_after,
            outcome2@,
            now,
            r,
        ));
}

impl<S: JobStore, H: Fn(&Job) -> JobResult> JobExecutor<S, H> {
    pub fn new(store: S) -> (r: JobExecutor<S, H>)
        ensures
            r.store == store,
            r.handlers@.len() == 0,
    {
        JobExecutor { store, handlers: Vec::new() }
    }

    /// Register `handler` for `pattern`: a job kind name, a category such as
    /// `ai.*`, or `*` for every job. It replaces the handler registered for
    /// the same pattern.
    pub fn register_handler(&mut self, pattern: &str, handler: H)
        ensures
            final(self).store == old(self).store,
            match patterns(old(self).handlers@).index_of_first(pattern@) {
                Some(i) => final(self).handlers@ == old(self).handlers@.update(i, (final(self).handlers@[i].0, handler))
                    && final(self).handlers@[i].0@ == pattern@,
                None => final(self).handlers@.len() == old(self).handlers@.len() + 1
                    && final(self).handlers@.take(old(self).handlers@.len() as int) == old(self).handlers@
                    && final(self).handlers@.last().0@ == pattern@ && final(self).handlers@.last().1 == handler,
            },
    {
        let ghost pats = patterns(self.handlers@);
        let mut i: usize = 0;
        while i < self.handlers.len()
            invariant
                i <= self.handlers@.len(),
                pats == patterns(self.handlers@),
                self.store == old(self).store,
                self.handlers@ == old(self).handlers@,
                forall|k: int| 0 <= k < i ==> pats[k] != pattern@,
            decreases self.handlers@.len() - i,
        {
            if same_text(self.handlers[i].0.as_str(), pattern) {
                proof {
                    pats.index_of_first_ensures(pattern@);
                    assert(pats[i as int] == pattern@);
                    if pats.index_of_first(pattern@) != Some(i as int) {
                        let q = pats.index_of_first(pattern@).unwrap();
                        assert(pats[q] == pattern@);
                    }
                }
                let name = owned(pattern);
                self.handlers.set(i, (name, handler));
                return;
            }
            i = i + 1;
        }
        proof {
            pats.index_of_first_ensures(pattern@);
            if pats.index_of_first(pattern@) is Some {
                let q = pats.index_of_first(pattern@).unwrap();
                assert(pats[q] == pattern@);
            }
        }
        let ghost before = self.handlers@;
        self.handlers.push((owned(pattern), handler));
        assert(self.handlers@.take(before.len() as int) =~= before);
    }

    /// The position of the handler for a job kind name.
    pub fn handler_index(&self, name: &str) -> (r: Option<usize>)
        ensures
            match r {
                Some(i) => handler_for(patterns(self.handlers@), name@) == Some(i as int) && i < self.handlers@.len(),
                None => handler_for(patterns(self.handlers@), name@) is None,
            },
    {
        let ghost pats = patterns(self.handlers@);
        let mut how: u8 = 0;
        while how < 3
            invariant
                how <= 3,
                pats == patterns(self.handlers@),
                forall|h: nat| h < how ==> #[trigger] first_pattern(pats, name@, h, 0) is None,
            decreases 3 - how,
        {
            let mut i: usize = 0;
            while i < self.handlers.len()
                invariant
                    i <= self.handlers@.len(),
                    how < 3,
                    pats == patterns(self.handlers@),
                    forall|h: nat| h < how ==> #[trigger] first_pattern(pats, name@, h, 0) is None,
                    first_pattern(pats, name@, how as nat, 0) == first_pattern(pats, name@, how as nat, i as int),
                decreases self.handlers@.len() - i,
            {
                let p = self.handlers[i].0.as_str();
                let hit = if how == 0 {
                    same_text(p, name)
                } else if how == 1 {
                    let n = p.unicode_len();
                    if n >= 2 && p.get_char(n - 2) == '.' && p.get_char(n - 1) == '*' {
                        starts_with_chars(name, p, n - 2)
                    } else {
                        false
                    }
                } else {
                    p.unicode_len() == 1 && p.get_char(0) == '*'
                };
                proof {
                    assert(pats[i as int] == p@);
                    if how == 2 {
                        if p@.len() == 1 && p@[0] == '*' {
                            assert(p@ =~= seq!['*']);
                        }
                    }
                    if how == 1 && p@.len() >= 2 {
                        assert(p@.take(p@.len() - 2) == p@.take(p@.len() - 2));
                    }
                }
                if hit {
                    proof {
                        lemma_first_pattern(pats, name@, how as nat, 0);
                        assert(first_pattern(pats, name@, how as nat, i as int) == Some(i as int));
                        if how >= 1 {
                            assert(first_pattern(pats, name@, 0, 0) is None);
                        }
                        if how == 2 {
                            assert(first_pattern(pats, name@, 1, 0) is None);
                        }
                    }
                    return Some(i);
                }
                i = i + 1;
            }
            how = how + 1;
        }
        None
    }

    /// Run one attempt of `job` at `now`: start it (a job claimed from the
    /// store is running already), run its handler and settle the outcome
    /// into the job and the store.
    pub fn execute_one_at(&mut self, job: &mut Job, now: Timestamp) -> (r: Result<(), String>)
        requires
            old(self).store.valid(),
            handlers_total(old(self).handlers@),
            !(old(job).status is Running) ==> old(job).attempt < u32::MAX,
        ensures
            final(self).store.valid(),
            attempt_effect(*old(self), *final(self), old(job)@, final(job)@, now, r),
    {
        let ghost before = *self;
        let ghost job0 = job@;
        let found = self.handler_index(job.kind.kind_name());
        match found {
            None => {
                assert(handler_for(patterns(before.handlers@), kind_type_name(job@.kind)) is None);
                let text = debug_text(&job.kind);
                Err(String::from_str("no handler for job kind: ").concat(text.as_str()))
            },
            Some(i) => {
                if let JobStatus::Running = job.status {
                } else {
                    job.mark_running_at(now);
                }
                let ghost running = *job;
                let outcome = (self.handlers[i].1)(&*job);
                let ghost oc = outcome;
                let r = settle(&mut self.store, job, outcome, now);
                assert(before.handlers@[i as int].1.ensures((&running,), oc));
                assert(running@ == attempt_started(job0, now));
                assert(job@ == settled(running@, oc@, now));
                proof {
                    lemma_attempt_effect(before, *self, job0, job@, now, r, i as int, running, oc);
                }
                r
            },
        }
    }

    /// Run one attempt of `job` now.
    pub fn execute_one(&mut self, job: &mut Job) -> (r: Result<(), String>)
        requires
            old(self).store.valid(),
            handlers_total(old(self).handlers@),
            !(old(job).status is Running) ==> old(job).attempt < u32::MAX,
        ensures
            final(self).store.valid(),
            exists|now: Timestamp| #[trigger] attempt_effect(*old(self), *final(self), old(job)@, final(job)@, now, r),
    {
        self.execute_one_at(job, Timestamp::now())
    }

    /// Run the handler of a job already claimed (and so started) at `now`,
    /// and settle its outcome. A job with no handler fails its attempt.
    pub fn run_claimed_at(&mut self, job: &mut Job, now: Timestamp) -> (r: Result<(), String>)
        requires
            old(self).store.valid(),
            handlers_total(old(self).handlers@),
        ensures
            final(self).store.valid(),
            claimed_effect(*old(self), *final(self), old(job)@, final(job)@, now, r),
    {
        let ghost before = *self;
        let ghost job0 = job@;
        let found = self.handler_index(job.kind.kind_name());
        match found {
            None => {
                let text = debug_text(&job.kind);
                let error = String::from_str("no handler for job kind: ").concat(text.as_str());
                job.mark_failed_at(error.clone(), now, now);
                let _ = self.store.update(job);
                proof {
                    lemma_job_position(before.store.spec_jobs(), job0.id, 0);
                }
                Err(error)
            },
            Some(i) => {
                let ghost running = *job;
                let outcome = (self.handlers[i].1)(&*job);
                let ghost oc = outcome;
                let r = settle(&mut self.store, job, outcome, now);
                proof {
                    lemma_claimed_effect(before, *self, job0, job@, now, r, i as int, running, oc);
                }
                r
            },
        }
    }

    /// `run_claimed_at` at the current time.
    pub fn run_claimed(&mut self, job: &mut Job) -> (r: Result<(), String>)
        requires
            old(self).store.valid(),
            handlers_total(old(self).handlers@),
        ensures
            final(self).store.valid(),
            exists|now: Timestamp| #[trigger] claimed_effect(*old(self), *final(self), old(job)@, final(job)@, now, r),
    {
        self.run_claimed_at(job, Timestamp::now())
    }
}

/// What running a claimed job at `now` did: with no handler the attempt
/// failed (its error names the kind) and the job was stored back where it
/// was; else the handler ran on the job and its outcome was settled.
pub open spec fn claimed_effect<S: JobStore, H: Fn(&Job) -> JobResult>(
    before: JobExecutor<S, H>,
    after: JobExecutor<S, H>,
    job_before: JobView,
    job_after: JobView,
    now: Timestamp,
    r: Result<(), String>,
) -> bool {
    &&& after.handlers@ == before.handlers@
    &&& match handler_for(patterns(before.handlers@), kind_type_name(job_before.kind)) {
        None => r matches Err(e) && job_after == failed(job_before, e@, now, now)
            && after.store.spec_dead_letters() == before.store.spec_dead_letters()
            && after.store.spec_jobs() == match job_position(before.store.spec_jobs(), job_before.id) {
                Some(p) => before.store.spec_jobs().update(p, job_after),
                None => before.store.spec_jobs(),
            },
        Some(i) => exists|running: Job, outcome: JobResult|
            running@ == job_before && #[trigger] before.handlers@[i].1.ensures((&running,), outcome)
                && job_after == settled(running@, outcome@, now) && settle_effect(
                before.store.spec_jobs(),
                before.store.spec_dead_letters(),
                after.store.spec_jobs(),
                after.store.spec_dead_letters(),
                job_after,
                outcome@,
                now,
                r,
            ),
    }
}

pub proof fn lemma_claimed_effect<S: JobStore, H: Fn(&Job) -> JobResult>(
    before: JobExecutor<S, H>,
    after: JobExecutor<S, H>,
    job_before: JobView,
    job_after: JobView,
    now: Timestamp,
    r: Result<(), String>,
    i: int,
    running: Job,
    outcome: JobResult,
)
    requires
        after.handlers@ == before.handlers@,
        handler_for(patterns(before.handlers@), kind_type_name(job_before.kind)) == Some(i),
        running@ == job_before,
        before.handlers@[i].1.ensures((&running,), outcome),
        job_after == settled(running@, outcome@, now),
        settle_effect(
            before.store.spec_jobs(),
            before.store.spec_dead_letters(),
            after.store.spec_jobs(),
            after.store.spec_dead_letters(),
            job_after,
            outcome@,
            now,
            r,
        ),
    ensures
        claimed_effect(before, after, job_before, job_after, now, r),
{
    let k = handler_for(patterns(before.handlers@), kind_type_name(job_before.kind))->0;
    assert(exists|running2: Job, outcome2: JobResult|
        running2@ == job_before && #[trigger] before.handlers@[k].1.ensures((&running2,), outcome2)
            && job_after == settled(running2@, outcome2@, now) && settle_effect(
            before.store.spec_jobs(),
            before.store.spec_dead_letters(),
            after.store.spec_jobs(),
            after.store.spec_dead_letters(),
            job_after,
            outcome2@,
            now,
            r,
        ));
}

} // verus!
