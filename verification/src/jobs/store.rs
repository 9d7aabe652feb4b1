//! Job storage: a queue of jobs and a dead-letter queue, both tenant-scoped.
use vstd::prelude::*;
use vstd::string::StringExecFns;

use crate::common::{TenantId, Timestamp};
use crate::json::{uuid_chars, uuid_text};
use crate::jobs::types::{
    ready_at, started, status_variant, DeadLetterEntry, DeadLetterView, Job, JobId, JobKind,
    JobKindView, JobStatus, JobStatusView, JobView,
};
use crate::projections::{replay_order, stable_order};

verus! {

broadcast use vstd::string::group_string_axioms, vstd::seq_lib::group_filter_ensures;

/// Why a store operation was refused.
#[derive(Debug, Clone)]
pub enum JobStoreError {
    NotFound(JobId),
    /// The job belongs to another tenant.
    TenantIsolation,
    AlreadyExists(JobId),
    Storage(String),
}

pub enum JobStoreErrorView {
    NotFound(JobId),
    TenantIsolation,
    AlreadyExists(JobId),
    Storage(Seq<char>),
}

impl View for JobStoreError {
    type V = JobStoreErrorView;

    open spec fn view(&self) -> JobStoreErrorView {
        match self {
            JobStoreError::NotFound(id) => JobStoreErrorView::NotFound(*id),
            JobStoreError::TenantIsolation => JobStoreErrorView::TenantIsolation,
            JobStoreError::AlreadyExists(id) => JobStoreErrorView::AlreadyExists(*id),
            JobStoreError::Storage(m) => JobStoreErrorView::Storage(m@),
        }
    }
}

/// The text of a store error.
pub open spec fn store_error_text(e: JobStoreErrorView) -> Seq<char> {
    match e {
        JobStoreErrorView::NotFound(id) => "job not found: "@ + uuid_chars(id.0),
        JobStoreErrorView::TenantIsolation => "tenant isolation violation"@,
        JobStoreErrorView::AlreadyExists(id) => "job already exists: "@ + uuid_chars(id.0),
        JobStoreErrorView::Storage(m) => "storage error: "@ + m,
    }
}

impl JobStoreError {
    /// The error's text.
    pub fn message(&self) -> (r: String)
        ensures
            r@ == store_error_text(self@),
    {
        match self {
            JobStoreError::NotFound(id) => String::from_str("job not found: ").concat(
                uuid_text(id.0).as_str(),
            ),
            JobStoreError::TenantIsolation => String::from_str("tenant isolation violation"),
            JobStoreError::AlreadyExists(id) => String::from_str("job already exists: ").concat(
                uuid_text(id.0).as_str(),
            ),
            JobStoreError::Storage(m) => String::from_str("storage error: ").concat(m.as_str()),
        }
    }
}

/// Job counts of one tenant, by status.
#[derive(Debug, Clone, Copy, PartialEq, Eq, Structural)]
pub struct JobStats {
    pub pending: usize,
    pub running: usize,
    pub completed: usize,
    pub failed: usize,
    pub dead_lettered: usize,
    pub cancelled: usize,
}

impl Default for JobStats {
    fn default() -> (r: JobStats)
        ensures
            r == (JobStats { pending: 0, running: 0, completed: 0, failed: 0, dead_lettered: 0, cancelled: 0 }),
    {
        JobStats { pending: 0, running: 0, completed: 0, failed: 0, dead_lettered: 0, cancelled: 0 }
    }
}

// ---------------------------------------------------------------------------
// The model: jobs and dead letters in the order they were first stored.
// ---------------------------------------------------------------------------

/// The first position from `i` on of the job with id `id`.
pub open spec fn job_position_from(jobs: Seq<JobView>, id: JobId, i: int) -> Option<int>
    decreases jobs.len() - i,
{
    if i < 0 || i >= jobs.len() {
        None
    } else if jobs[i].id == id {
        Some(i)
    } else {
        job_position_from(jobs, id, i + 1)
    }
}

pub open spec fn job_position(jobs: Seq<JobView>, id: JobId) -> Option<int> {
    job_position_from(jobs, id, 0)
}

pub open spec fn entry_jobs(dls: Seq<DeadLetterView>) -> Seq<JobView> {
    dls.map_values(|e: DeadLetterView| e.job)
}

/// No id occurs twice.
pub open spec fn ids_unique(jobs: Seq<JobView>) -> bool {
    forall|i: int, j: int| 0 <= i < jobs.len() && 0 <= j < jobs.len() && i != j ==> jobs[i].id != jobs[j].id
}

/// Store `job`: in place of the job with its id, or after the others.
pub open spec fn put_job(jobs: Seq<JobView>, job: JobView) -> Seq<JobView> {
    match job_position(jobs, job.id) {
        Some(p) => jobs.update(p, job),
        None => jobs.push(job),
    }
}

pub open spec fn put_entry(dls: Seq<DeadLetterView>, e: DeadLetterView) -> Seq<DeadLetterView> {
    match job_position(entry_jobs(dls), e.job.id) {
        Some(p) => dls.update(p, e),
        None => dls.push(e),
    }
}

/// Whether the claim of `tenant` (any tenant for `None`) may take `j` at `now`:
/// pending or failed, ready, and of that tenant.
pub open spec fn claimable(j: JobView, tenant: Option<TenantId>, now: Timestamp) -> bool {
    &&& (j.status is Pending || j.status is Failed)
    &&& ready_at(j, now)
    &&& match tenant {
        Some(t) => j.tenant_id == t,
        None => true,
    }
}

/// `p` is the claimable job created first, the earliest stored among equals.
pub open spec fn first_claimable(jobs: Seq<JobView>, tenant: Option<TenantId>, now: Timestamp, p: int) -> bool {
    &&& 0 <= p < jobs.len()
    &&& claimable(jobs[p], tenant, now)
    &&& forall|q: int|
        0 <= q < jobs.len() && #[trigger] claimable(jobs[q], tenant, now) ==> jobs[p].created_at.0
            < jobs[q].created_at.0 || (jobs[p].created_at.0 == jobs[q].created_at.0 && p <= q)
}

pub open spec fn none_claimable(jobs: Seq<JobView>, tenant: Option<TenantId>, now: Timestamp) -> bool {
    forall|q: int| 0 <= q < jobs.len() ==> !#[trigger] claimable(jobs[q], tenant, now)
}

/// What a claim at `now` did: nothing if no job was claimable; else it
/// started the claimable job created first and handed out a copy of it.
pub open spec fn claim_outcome(
    before: Seq<JobView>,
    after: Seq<JobView>,
    tenant: Option<TenantId>,
    now: Timestamp,
    r: Result<Option<Job>, JobStoreError>,
) -> bool {
    match r {
        Ok(None) => none_claimable(before, tenant, now) && after == before,
        Ok(Some(j)) => exists|p: int|
            #[trigger] first_claimable(before, tenant, now, p) && j@ == started(before[p], now) && after
                == before.update(p, j@),
        Err(_) => false,
    }
}

/// The sort key of an instant, order preserving.
pub open spec fn time_key(t: Timestamp) -> (u128, u128, u64) {
    (0, 0, (t.0 - i64::MIN) as u64)
}

/// Jobs stably sorted by creation time.
pub open spec fn by_creation(s: Seq<JobView>) -> Seq<JobView> {
    replay_order(s.map_values(|j: JobView| time_key(j.created_at)), s.len()).map_values(
        |k: int| s[k],
    )
}

/// Dead letters stably sorted by the time they were dead-lettered.
pub open spec fn by_burial(s: Seq<DeadLetterView>) -> Seq<DeadLetterView> {
    replay_order(s.map_values(|e: DeadLetterView| time_key(e.dead_lettered_at)), s.len()).map_values(
        |k: int| s[k],
    )
}

pub open spec fn at_most<T>(s: Seq<T>, limit: usize) -> Seq<T> {
    if s.len() <= limit {
        s
    } else {
        s.take(limit as int)
    }
}

pub open spec fn with_status(tenant: TenantId, status: Option<JobStatusView>) -> spec_fn(JobView) -> bool {
    |j: JobView|
        j.tenant_id == tenant && match status {
            Some(s) => status_variant(j.status) == status_variant(s),
            None => true,
        }
}

pub open spec fn status_opt_view(status: Option<JobStatus>) -> Option<JobStatusView> {
    match status {
        Some(s) => Some(s@),
        None => None,
    }
}

pub open spec fn with_kind(tenant: TenantId, kind: JobKindView) -> spec_fn(JobView) -> bool {
    |j: JobView| j.tenant_id == tenant && j.kind == kind
}

pub open spec fn of_tenant(tenant: TenantId) -> spec_fn(DeadLetterView) -> bool {
    |e: DeadLetterView| e.job.tenant_id == tenant
}

/// A job as the dead-letter queue keeps it.
pub open spec fn buried(j: JobView, reason: Seq<char>, now: Timestamp) -> JobView {
    JobView { status: JobStatusView::DeadLettered(reason, j.attempt), updated_at: now, ..j }
}

/// A dead-lettered job given a fresh start.
pub open spec fn revived(j: JobView, now: Timestamp) -> JobView {
    JobView {
        status: JobStatusView::Pending,
        attempt: 0,
        scheduled_at: None,
        updated_at: now,
        history: Seq::empty(),
        ..j
    }
}

pub open spec fn count_status(jobs: Seq<JobView>, tenant: TenantId, variant: nat) -> nat {
    jobs.filter(|j: JobView| j.tenant_id == tenant && status_variant(j.status) == variant).len()
}

/// The statistics of a tenant: its stored jobs by status, each dead letter
/// counted as dead-lettered too.
pub open spec fn tenant_stats(jobs: Seq<JobView>, dls: Seq<DeadLetterView>, tenant: TenantId) -> JobStats {
    JobStats {
        pending: count_status(jobs, tenant, 0) as usize,
        running: count_status(jobs, tenant, 1) as usize,
        completed: count_status(jobs, tenant, 2) as usize,
        failed: count_status(jobs, tenant, 3) as usize,
        dead_lettered: (count_status(jobs, tenant, 4) + dls.filter(of_tenant(tenant)).len()) as usize,
        cancelled: count_status(jobs, tenant, 5) as usize,
    }
}

pub open spec fn job_views(s: Seq<Job>) -> Seq<JobView> {
    s.map_values(|j: Job| j@)
}

pub open spec fn entry_views(s: Seq<DeadLetterEntry>) -> Seq<DeadLetterView> {
    s.map_values(|e: DeadLetterEntry| e@)
}

pub proof fn lemma_job_position(jobs: Seq<JobView>, id: JobId, i: int)
    requires
        0 <= i,
    ensures
        match job_position_from(jobs, id, i) {
            Some(p) => i <= p < jobs.len() && jobs[p].id == id && forall|k: int|
                i <= k < p ==> jobs[k].id != id,
            None => forall|k: int| i <= k < jobs.len() ==> jobs[k].id != id,
        },
    decreases jobs.len() - i,
{
    if i < jobs.len() && jobs[i].id != id {
        lemma_job_position(jobs, id, i + 1);
    }
}

/// The first position holding `id`, from `i` on, is `p` when `p` holds it
/// and nothing between does.
proof fn lemma_job_position_at(jobs: Seq<JobView>, id: JobId, i: int, p: int)
    requires
        0 <= i <= p < jobs.len(),
        jobs[p].id == id,
        forall|k: int| i <= k < p ==> jobs[k].id != id,
    ensures
        job_position_from(jobs, id, i) == Some(p),
    decreases p - i,
{
    if i < p {
        lemma_job_position_at(jobs, id, i + 1, p);
    }
}

/// A dead-lettered job can be retried: after a job is moved to the
/// dead-letter queue, the queue holds it (as buried) under its id, and
/// retrying it gives the same job pending again, with no attempts, no
/// schedule and no history, of the same tenant; once it is taken out of the
/// queue, the queue no longer holds a job of its id.
pub proof fn law_dead_letter_then_retry(
    dls: Seq<DeadLetterView>,
    j: JobView,
    reason: Seq<char>,
    buried_at: Timestamp,
    now: Timestamp,
)
    requires
        ids_unique(entry_jobs(dls)),
    ensures
        ({
            let after = put_entry(dls, DeadLetterView { job: buried(j, reason, buried_at), dead_lettered_at: buried_at, reason });
            &&& job_position(entry_jobs(after), j.id) is Some
            &&& job_position(entry_jobs(after.remove(job_position(entry_jobs(after), j.id)->0)), j.id) is None
            &&& after[job_position(entry_jobs(after), j.id)->0].job.tenant_id == j.tenant_id
            &&& revived(after[job_position(entry_jobs(after), j.id)->0].job, now) == (JobView {
                status: JobStatusView::Pending,
                attempt: 0,
                scheduled_at: None,
                updated_at: now,
                history: Seq::empty(),
                ..j
            })
        }),
{
    let e = DeadLetterView { job: buried(j, reason, buried_at), dead_lettered_at: buried_at, reason };
    let after = put_entry(dls, e);
    lemma_job_position(entry_jobs(dls), j.id, 0);
    match job_position(entry_jobs(dls), j.id) {
        Some(p) => {
            assert(entry_jobs(after) =~= entry_jobs(dls).update(p, e.job));
            lemma_job_position_at(entry_jobs(after), j.id, 0, p);
        },
        None => {
            assert(entry_jobs(after) =~= entry_jobs(dls).push(e.job));
            lemma_job_position_at(entry_jobs(after), j.id, 0, dls.len() as int);
        },
    }
    let pos = job_position(entry_jobs(after), j.id)->0;
    let rest = entry_jobs(after.remove(pos));
    assert forall|k: int| 0 <= k < rest.len() implies rest[k].id != j.id by {
        let q = if k < pos { k } else { k + 1 };
        assert(rest[k] == entry_jobs(after)[q]);
        assert(q != pos);
        if q < dls.len() {
            assert(entry_jobs(after)[q] == entry_jobs(dls)[q]);
            if pos < dls.len() {
                assert(entry_jobs(dls)[pos].id == j.id);
            }
        }
    }
    lemma_job_position(rest, j.id, 0);
}

pub proof fn lemma_put_job_unique(jobs: Seq<JobView>, job: JobView)
    requires
        ids_unique(jobs),
    ensures
        ids_unique(put_job(jobs, job)),
{
    lemma_job_position(jobs, job.id, 0);
}

pub proof fn lemma_remove_unique(jobs: Seq<JobView>, p: int)
    requires
        ids_unique(jobs),
        0 <= p < jobs.len(),
    ensures
        ids_unique(jobs.remove(p)),
{
    let r = jobs.remove(p);
    assert forall|i: int, j: int| 0 <= i < r.len() && 0 <= j < r.len() && i != j implies r[i].id != r[j].id by {
        let a = if i < p { i } else { i + 1 };
        let b = if j < p { j } else { j + 1 };
        assert(r[i] == jobs[a]);
        assert(r[j] == jobs[b]);
    }
}

/// Where a job with `id` is stored.
fn find_job(jobs: &Vec<Job>, id: JobId) -> (r: Option<usize>)
    ensures
        match r {
            Some(p) => p < jobs@.len() && job_position(job_views(jobs@), id) == Some(p as int),
            None => job_position(job_views(jobs@), id) is None,
        },
{
    let ghost views = job_views(jobs@);
    let mut i: usize = 0;
    while i < jobs.len()
        invariant
            i <= jobs@.len(),
            views == job_views(jobs@),
            job_position(views, id) == job_position_from(views, id, i as int),
        decreases jobs@.len() - i,
    {
        if jobs[i].id == id {
            return Some(i);
        }
        i = i + 1;
    }
    None
}

/// Where the dead letter of the job `id` is stored.
fn find_entry(dls: &Vec<DeadLetterEntry>, id: JobId) -> (r: Option<usize>)
    ensures
        match r {
            Some(p) => p < dls@.len() && job_position(entry_jobs(entry_views(dls@)), id) == Some(p as int),
            None => job_position(entry_jobs(entry_views(dls@)), id) is None,
        },
{
    let ghost views = entry_jobs(entry_views(dls@));
    let mut i: usize = 0;
    while i < dls.len()
        invariant
            i <= dls@.len(),
            views == entry_jobs(entry_views(dls@)),
            job_position(views, id) == job_position_from(views, id, i as int),
        decreases dls@.len() - i,
    {
        if dls[i].job.id == id {
            return Some(i);
        }
        i = i + 1;
    }
    None
}

/// Where jobs and dead letters are kept. The contracts speak of the jobs and
/// the dead letters in the order they were first stored.
pub trait JobStore {
    spec fn spec_jobs(&self) -> Seq<JobView>;

    spec fn spec_dead_letters(&self) -> Seq<DeadLetterView>;

    /// No job id occurs twice in either queue.
    open spec fn valid(&self) -> bool {
        ids_unique(self.spec_jobs()) && ids_unique(entry_jobs(self.spec_dead_letters()))
    }

    /// Add a job, unless one with its id is stored.
    fn enqueue(&mut self, job: Job) -> (r: Result<JobId, JobStoreError>)
        requires
            old(self).valid(),
        ensures
            final(self).valid(),
            final(self).spec_dead_letters() == old(self).spec_dead_letters(),
            job_position(old(self).spec_jobs(), job.id) is Some ==> (r matches Err(e) && e@
                == JobStoreErrorView::AlreadyExists(job.id) && final(self).spec_jobs() == old(
                self,
            ).spec_jobs()),
            job_position(old(self).spec_jobs(), job.id) is None ==> r == Ok::<JobId, JobStoreError>(job.id)
                && final(self).spec_jobs() == old(self).spec_jobs().push(job@),
    ;

    /// The job `job_id` if it is the tenant's; an error if another tenant's.
    fn get(&self, tenant_id: TenantId, job_id: JobId) -> (r: Result<Option<Job>, JobStoreError>)
        ensures
            match job_position(self.spec_jobs(), job_id) {
                None => r matches Ok(None),
                Some(p) => if self.spec_jobs()[p].tenant_id == tenant_id {
                    r matches Ok(Some(j)) && j@ == self.spec_jobs()[p]
                } else {
                    r matches Err(e) && e@ == JobStoreErrorView::TenantIsolation
                },
            },
    ;

    /// Replace the stored job with the same id.
    fn update(&mut self, job: &Job) -> (r: Result<(), JobStoreError>)
        requires
            old(self).valid(),
        ensures
            final(self).valid(),
            final(self).spec_dead_letters() == old(self).spec_dead_letters(),
            match job_position(old(self).spec_jobs(), job.id) {
                None => r matches Err(e) && e@ == JobStoreErrorView::NotFound(job.id)
                    && final(self).spec_jobs() == old(self).spec_jobs(),
                Some(p) => r is Ok && final(self).spec_jobs() == old(self).spec_jobs().update(p, job@),
            },
    ;

    /// Start the claimable job created first, at `now`, and hand out a copy.
    fn claim_next_at(&mut self, tenant_id: Option<TenantId>, now: Timestamp) -> (r: Result<Option<Job>, JobStoreError>)
        requires
            old(self).valid(),
            forall|q: int|
                0 <= q < old(self).spec_jobs().len() && #[trigger] claimable(old(self).spec_jobs()[q], tenant_id, now)
                    ==> old(self).spec_jobs()[q].attempt < u32::MAX,
        ensures
            final(self).valid(),
            final(self).spec_dead_letters() == old(self).spec_dead_letters(),
            claim_outcome(old(self).spec_jobs(), final(self).spec_jobs(), tenant_id, now, r),
    ;

    /// The tenant's jobs, of one status variant if given, by creation time,
    /// at most `limit`.
    fn list_by_status(&self, tenant_id: TenantId, status: Option<JobStatus>, limit: usize) -> (r: Result<Vec<Job>, JobStoreError>)
        ensures
            r matches Ok(v) && job_views(v@) == at_most(
                by_creation(
                    self.spec_jobs().filter(
                        with_status(tenant_id, status_opt_view(status)),
                    ),
                ),
                limit,
            ),
    ;

    /// The tenant's jobs of the kind, by creation time, at most `limit`.
    fn list_by_kind(&self, tenant_id: TenantId, kind: &JobKind, limit: usize) -> (r: Result<Vec<Job>, JobStoreError>)
        ensures
            r matches Ok(v) && job_views(v@) == at_most(
                by_creation(self.spec_jobs().filter(with_kind(tenant_id, kind@))),
                limit,
            ),
    ;

    /// Move a job to the dead-letter queue at `now`, with the reason as its
    /// error.
    fn dead_letter_at(&mut self, job: Job, reason: String, now: Timestamp) -> (r: Result<(), JobStoreError>)
        requires
            old(self).valid(),
        ensures
            final(self).valid(),
            r is Ok,
            final(self).spec_jobs() == match job_position(old(self).spec_jobs(), job.id) {
                Some(p) => old(self).spec_jobs().remove(p),
                None => old(self).spec_jobs(),
            },
            final(self).spec_dead_letters() == put_entry(
                old(self).spec_dead_letters(),
                DeadLetterView { job: buried(job@, reason@, now), dead_lettered_at: now, reason: reason@ },
            ),
    ;

    /// The tenant's dead letters, oldest first, at most `limit`.
    fn list_dead_letters(&self, tenant_id: TenantId, limit: usize) -> (r: Result<Vec<DeadLetterEntry>, JobStoreError>)
        ensures
            r matches Ok(v) && entry_views(v@) == at_most(
                by_burial(self.spec_dead_letters().filter(of_tenant(tenant_id))),
                limit,
            ),
    ;

    /// Put a dead-lettered job of the tenant back in the queue, pending and
    /// with no attempts, at `now`.
    fn retry_dead_letter_at(&mut self, tenant_id: TenantId, job_id: JobId, now: Timestamp) -> (r: Result<Job, JobStoreError>)
        requires
            old(self).valid(),
        ensures
            final(self).valid(),
            match job_position(entry_jobs(old(self).spec_dead_letters()), job_id) {
                None => r matches Err(e) && e@ == JobStoreErrorView::NotFound(job_id) && final(self).spec_jobs()
                    == old(self).spec_jobs() && final(self).spec_dead_letters() == old(self).spec_dead_letters(),
                Some(p) => if old(self).spec_dead_letters()[p].job.tenant_id != tenant_id {
                    r matches Err(e) && e@ == JobStoreErrorView::TenantIsolation && final(self).spec_jobs() == old(self).spec_jobs()
                        && final(self).spec_dead_letters() == old(self).spec_dead_letters()
                } else {
                    r matches Ok(j) && j@ == revived(old(self).spec_dead_letters()[p].job, now)
                        && final(self).spec_dead_letters() == old(self).spec_dead_letters().remove(p)
                        && final(self).spec_jobs() == put_job(old(self).spec_jobs(), j@)
                },
            },
    ;

    /// Drop a dead-lettered job of the tenant.
    fn delete_dead_letter(&mut self, tenant_id: TenantId, job_id: JobId) -> (r: Result<(), JobStoreError>)
        requires
            old(self).valid(),
        ensures
            final(self).valid(),
            final(self).spec_jobs() == old(self).spec_jobs(),
            match job_position(entry_jobs(old(self).spec_dead_letters()), job_id) {
                None => r matches Err(e) && e@ == JobStoreErrorView::NotFound(job_id)
                    && final(self).spec_dead_letters() == old(self).spec_dead_letters(),
                Some(p) => if old(self).spec_dead_letters()[p].job.tenant_id != tenant_id {
                    r matches Err(e) && e@ == JobStoreErrorView::TenantIsolation
                        && final(self).spec_dead_letters() == old(self).spec_dead_letters()
                } else {
                    r is Ok && final(self).spec_dead_letters() == old(self).spec_dead_letters().remove(p)
                },
            },
    ;

    /// The tenant's job counts by status.
    fn stats(&self, tenant_id: TenantId) -> (r: Result<JobStats, JobStoreError>)
        requires
            self.spec_jobs().len() + self.spec_dead_letters().len() <= usize::MAX,
        ensures
            r == Ok::<JobStats, JobStoreError>(tenant_stats(self.spec_jobs(), self.spec_dead_letters(), tenant_id)),
    ;

    /// `claim_next_at` at the current time.
    fn claim_next(&mut self, tenant_id: Option<TenantId>) -> (r: Result<Option<Job>, JobStoreError>)
        requires
            old(self).valid(),
            forall|q: int|
                0 <= q < old(self).spec_jobs().len() && (#[trigger] old(self).spec_jobs()[q].status is Pending
                    || old(self).spec_jobs()[q].status is Failed) ==> old(self).spec_jobs()[q].attempt < u32::MAX,
        ensures
            final(self).valid(),
            final(self).spec_dead_letters() == old(self).spec_dead_letters(),
            exists|now: Timestamp|
                #[trigger] claim_outcome(old(self).spec_jobs(), final(self).spec_jobs(), tenant_id, now, r),
    {
        let now = Timestamp::now();
        self.claim_next_at(tenant_id, now)
    }

    /// `dead_letter_at` at the current time.
    fn dead_letter(&mut self, job: Job, reason: String) -> (r: Result<(), JobStoreError>)
        requires
            old(self).valid(),
        ensures
            final(self).valid(),
            r is Ok,
            final(self).spec_jobs() == match job_position(old(self).spec_jobs(), job.id) {
                Some(p) => old(self).spec_jobs().remove(p),
                None => old(self).spec_jobs(),
            },
            exists|now: Timestamp|
                final(self).spec_dead_letters() == #[trigger] put_entry(
                    old(self).spec_dead_letters(),
                    DeadLetterView { job: buried(job@, reason@, now), dead_lettered_at: now, reason: reason@ },
                ),
    {
        let now = Timestamp::now();
        self.dead_letter_at(job, reason, now)
    }

    /// `retry_dead_letter_at` at the current time.
    fn retry_dead_letter(&mut self, tenant_id: TenantId, job_id: JobId) -> (r: Result<Job, JobStoreError>)
        requires
            old(self).valid(),
        ensures
            final(self).valid(),
            match job_position(entry_jobs(old(self).spec_dead_letters()), job_id) {
                None => r matches Err(e) && e@ == JobStoreErrorView::NotFound(job_id) && final(self).spec_jobs()
                    == old(self).spec_jobs() && final(self).spec_dead_letters() == old(self).spec_dead_letters(),
                Some(p) => if old(self).spec_dead_letters()[p].job.tenant_id != tenant_id {
                    r matches Err(e) && e@ == JobStoreErrorView::TenantIsolation && final(self).spec_jobs() == old(self).spec_jobs()
                        && final(self).spec_dead_letters() == old(self).spec_dead_letters()
                } else {
                    r matches Ok(j) && (exists|now: Timestamp| j@ == #[trigger] revived(old(self).spec_dead_letters()[p].job, now))
                        && final(self).spec_dead_letters() == old(self).spec_dead_letters().remove(p)
                        && final(self).spec_jobs() == put_job(old(self).spec_jobs(), j@)
                },
            },
    {
        let now = Timestamp::now();
        self.retry_dead_letter_at(tenant_id, job_id, now)
    }
}

fn time_key_of(t: Timestamp) -> (r: (u128, u128, u64))
    ensures
        r == time_key(t),
{
    (0, 0, ((t.0 as i128) - (i64::MIN as i128)) as u64)
}

/// Jobs stably sorted by creation time.
fn sort_by_creation(v: Vec<Job>) -> (r: Vec<Job>)
    ensures
        job_views(r@) == by_creation(job_views(v@)),
{
    let ghost views = job_views(v@);
    let ghost keys = views.map_values(|j: JobView| time_key(j.created_at));
    let mut ks: Vec<(u128, u128, u64)> = Vec::new();
    let mut i: usize = 0;
    while i < v.len()
        invariant
            i <= v@.len(),
            views == job_views(v@),
            keys == views.map_values(|j: JobView| time_key(j.created_at)),
            ks@ == keys.take(i as int),
        decreases v@.len() - i,
    {
        ks.push(time_key_of(v[i].created_at));
        i = i + 1;
        assert(ks@ =~= keys.take(i as int));
    }
    assert(ks@ =~= keys);
    let order = stable_order(&ks);
    proof {
        crate::projections::lemma_replay_order_shape(keys, keys.len());
    }
    let ghost sorted = replay_order(keys, keys.len());
    let mut out: Vec<Job> = Vec::new();
    let mut k: usize = 0;
    while k < order.len()
        invariant
            k <= order@.len(),
            order@.len() == v@.len(),
            views == job_views(v@),
            sorted == order@.map_values(|x: usize| x as int),
            forall|j: int| 0 <= j < order@.len() ==> order@[j] < v@.len(),
            out@.len() == k,
            forall|j: int| 0 <= j < k ==> (#[trigger] out@[j])@ == views[sorted[j]],
        decreases order@.len() - k,
    {
        let c = v[order[k]].clone();
        out.push(c);
        k = k + 1;
    }
    assert(job_views(out@) =~= sorted.map_values(|x: int| views[x]));
    out
}

/// Dead letters stably sorted by when they were dead-lettered.
fn sort_by_burial(v: Vec<DeadLetterEntry>) -> (r: Vec<DeadLetterEntry>)
    ensures
        entry_views(r@) == by_burial(entry_views(v@)),
{
    let ghost views = entry_views(v@);
    let ghost keys = views.map_values(|e: DeadLetterView| time_key(e.dead_lettered_at));
    let mut ks: Vec<(u128, u128, u64)> = Vec::new();
    let mut i: usize = 0;
    while i < v.len()
        invariant
            i <= v@.len(),
            views == entry_views(v@),
            keys == views.map_values(|e: DeadLetterView| time_key(e.dead_lettered_at)),
            ks@ == keys.take(i as int),
        decreases v@.len() - i,
    {
        ks.push(time_key_of(v[i].dead_lettered_at));
        i = i + 1;
        assert(ks@ =~= keys.take(i as int));
    }
    assert(ks@ =~= keys);
    let order = stable_order(&ks);
    proof {
        crate::projections::lemma_replay_order_shape(keys, keys.len());
    }
    let ghost sorted = replay_order(keys, keys.len());
    let mut out: Vec<DeadLetterEntry> = Vec::new();
    let mut k: usize = 0;
    while k < order.len()
        invariant
            k <= order@.len(),
            order@.len() == v@.len(),
            views == entry_views(v@),
            sorted == order@.map_values(|x: usize| x as int),
            forall|j: int| 0 <= j < order@.len() ==> order@[j] < v@.len(),
            out@.len() == k,
            forall|j: int| 0 <= j < k ==> (#[trigger] out@[j])@ == views[sorted[j]],
        decreases order@.len() - k,
    {
        let c = v[order[k]].duplicate();
        out.push(c);
        k = k + 1;
    }
    assert(entry_views(out@) =~= sorted.map_values(|x: int| views[x]));
    out
}

fn keep_jobs(v: Vec<Job>, limit: usize) -> (r: Vec<Job>)
    ensures
        job_views(r@) == at_most(job_views(v@), limit),
{
    let mut v = v;
    let ghost before = v@;
    v.truncate(limit);
    assert(job_views(v@) =~= at_most(job_views(before), limit));
    v
}

fn keep_entries(v: Vec<DeadLetterEntry>, limit: usize) -> (r: Vec<DeadLetterEntry>)
    ensures
        entry_views(r@) == at_most(entry_views(v@), limit),
{
    let mut v = v;
    let ghost before = v@;
    v.truncate(limit);
    assert(entry_views(v@) =~= at_most(entry_views(before), limit));
    v
}

fn is_claimable(j: &Job, tenant: Option<TenantId>, now: Timestamp) -> (r: bool)
    ensures
        r == claimable(j@, tenant, now),
{
    let waiting = match j.status {
        JobStatus::Pending | JobStatus::Failed { .. } => true,
        _ => false,
    };
    let mine = match tenant {
        Some(t) => j.tenant_id == t,
        None => true,
    };
    waiting && j.is_ready_at(now) && mine
}

/// Jobs and dead letters held in memory, in the order first stored.
#[derive(Debug)]
pub struct InMemoryJobStore {
    jobs: Vec<Job>,
    dead_letters: Vec<DeadLetterEntry>,
}

impl InMemoryJobStore {
    pub fn new() -> (r: InMemoryJobStore)
        ensures
            r.spec_jobs() == Seq::<JobView>::empty(),
            r.spec_dead_letters() == Seq::<DeadLetterView>::empty(),
            r.valid(),
    {
        let r = InMemoryJobStore { jobs: Vec::new(), dead_letters: Vec::new() };
        assert(r.spec_jobs() =~= Seq::<JobView>::empty());
        assert(r.spec_dead_letters() =~= Seq::<DeadLetterView>::empty());
        r
    }

    /// A new empty store behind a shared pointer.
    pub fn arc() -> (r: std::sync::Arc<InMemoryJobStore>)
        ensures
            (*r).spec_jobs() == Seq::<JobView>::empty(),
            (*r).spec_dead_letters() == Seq::<DeadLetterView>::empty(),
            (*r).valid(),
    {
        std::sync::Arc::new(InMemoryJobStore::new())
    }
}

impl Default for InMemoryJobStore {
    fn default() -> (r: InMemoryJobStore)
        ensures
            r.spec_jobs() == Seq::<JobView>::empty(),
            r.spec_dead_letters() == Seq::<DeadLetterView>::empty(),
    {
        InMemoryJobStore::new()
    }
}

impl JobStore for InMemoryJobStore {
    closed spec fn spec_jobs(&self) -> Seq<JobView> {
        job_views(self.jobs@)
    }

    closed spec fn spec_dead_letters(&self) -> Seq<DeadLetterView> {
        entry_views(self.dead_letters@)
    }

    fn enqueue(&mut self, job: Job) -> (r: Result<JobId, JobStoreError>) {
        let id = job.id;
        match find_job(&self.jobs, id) {
            Some(_) => Err(JobStoreError::AlreadyExists(id)),
            None => {
                let ghost before = self.spec_jobs();
                proof {
                    lemma_put_job_unique(before, job@);
                }
                self.jobs.push(job);
                assert(self.spec_jobs() =~= before.push(job@));
                Ok(id)
            },
        }
    }

    fn get(&self, tenant_id: TenantId, job_id: JobId) -> (r: Result<Option<Job>, JobStoreError>) {
        match find_job(&self.jobs, job_id) {
            None => Ok(None),
            Some(p) => {
                if self.jobs[p].tenant_id == tenant_id {
                    Ok(Some(self.jobs[p].clone()))
                } else {
                    Err(JobStoreError::TenantIsolation)
                }
            },
        }
    }

    fn update(&mut self, job: &Job) -> (r: Result<(), JobStoreError>) {
        match find_job(&self.jobs, job.id) {
            None => Err(JobStoreError::NotFound(job.id)),
            Some(p) => {
                let ghost before = self.spec_jobs();
                proof {
                    lemma_put_job_unique(before, job@);
                }
                let c = job.clone();
                self.jobs.set(p, c);
                assert(self.spec_jobs() =~= before.update(p as int, job@));
                Ok(())
            },
        }
    }

    fn claim_next_at(&mut self, tenant_id: Option<TenantId>, now: Timestamp) -> (r: Result<Option<Job>, JobStoreError>) {
        let ghost before = self.spec_jobs();
        let mut best: Option<usize> = None;
        let mut i: usize = 0;
        while i < self.jobs.len()
            invariant
                i <= self.jobs@.len(),
                before == job_views(self.jobs@),
                match best {
                    None => forall|q: int| 0 <= q < i ==> !#[trigger] claimable(before[q], tenant_id, now),
                    Some(b) => b < i && claimable(before[b as int], tenant_id, now) && forall|q: int|
                        0 <= q < i && #[trigger] claimable(before[q], tenant_id, now) ==> before[b as int].created_at.0
                            < before[q].created_at.0 || (before[b as int].created_at.0
                            == before[q].created_at.0 && b <= q),
                },
            decreases self.jobs@.len() - i,
        {
            if is_claimable(&self.jobs[i], tenant_id, now) {
                match best {
                    None => {
                        best = Some(i);
                    },
                    Some(b) => {
                        if self.jobs[i].created_at.0 < self.jobs[b].created_at.0 {
                            best = Some(i);
                        }
                    },
                }
            }
            i = i + 1;
        }
        match best {
            None => Ok(None),
            Some(b) => {
                assert(first_claimable(before, tenant_id, now, b as int));
                let mut job = self.jobs[b].clone();
                job.mark_running_at(now);
                let out = job.clone();
                proof {
                    lemma_put_job_unique(before, job@);
                }
                self.jobs.set(b, job);
                assert(self.spec_jobs() =~= before.update(b as int, out@));
                Ok(Some(out))
            },
        }
    }

    fn list_by_status(&self, tenant_id: TenantId, status: Option<JobStatus>, limit: usize) -> (r: Result<Vec<Job>, JobStoreError>) {
        let ghost want = status_opt_view(status);
        let ghost pred = with_status(tenant_id, want);
        let ghost all = self.spec_jobs();
        let mut picked: Vec<Job> = Vec::new();
        let mut i: usize = 0;
        while i < self.jobs.len()
            invariant
                i <= self.jobs@.len(),
                all == job_views(self.jobs@),
                pred == with_status(tenant_id, want),
                want == status_opt_view(status),
                job_views(picked@) == all.take(i as int).filter(pred),
            decreases self.jobs@.len() - i,
        {
            let keep = self.jobs[i].tenant_id == tenant_id && match &status {
                Some(s) => self.jobs[i].status.variant() == s.variant(),
                None => true,
            };
            proof {
                assert(all.take(i + 1) =~= all.take(i as int).push(all[i as int]));
                all.take(i as int).lemma_filter_push(all[i as int], pred);
            }
            if keep {
                let ghost prev = picked@;
                picked.push(self.jobs[i].clone());
                assert(job_views(picked@) =~= job_views(prev).push(all[i as int]));
            }
            i = i + 1;
        }
        assert(all.take(self.jobs@.len() as int) =~= all);
        Ok(keep_jobs(sort_by_creation(picked), limit))
    }

    fn list_by_kind(&self, tenant_id: TenantId, kind: &JobKind, limit: usize) -> (r: Result<Vec<Job>, JobStoreError>) {
        let ghost pred = with_kind(tenant_id, kind@);
        let ghost all = self.spec_jobs();
        let mut picked: Vec<Job> = Vec::new();
        let mut i: usize = 0;
        while i < self.jobs.len()
            invariant
                i <= self.jobs@.len(),
                all == job_views(self.jobs@),
                pred == with_kind(tenant_id, kind@),
                job_views(picked@) == all.take(i as int).filter(pred),
            decreases self.jobs@.len() - i,
        {
            let keep = self.jobs[i].tenant_id == tenant_id && self.jobs[i].kind.same_as(kind);
            proof {
                assert(all.take(i + 1) =~= all.take(i as int).push(all[i as int]));
                all.take(i as int).lemma_filter_push(all[i as int], pred);
            }
            if keep {
                let ghost prev = picked@;
                picked.push(self.jobs[i].clone());
                assert(job_views(picked@) =~= job_views(prev).push(all[i as int]));
            }
            i = i + 1;
        }
        assert(all.take(self.jobs@.len() as int) =~= all);
        Ok(keep_jobs(sort_by_creation(picked), limit))
    }

    fn dead_letter_at(&mut self, job: Job, reason: String, now: Timestamp) -> (r: Result<(), JobStoreError>) {
        let mut job = job;
        job.status = JobStatus::DeadLettered { error: reason.clone(), attempts: job.attempt };
        job.updated_at = now;
        let ghost jobs_before = self.spec_jobs();
        let ghost dls_before = self.spec_dead_letters();
        match find_job(&self.jobs, job.id) {
            Some(p) => {
                proof {
                    lemma_remove_unique(jobs_before, p as int);
                }
                self.jobs.remove(p);
                assert(self.spec_jobs() =~= jobs_before.remove(p as int));
            },
            None => {},
        }
        let entry = DeadLetterEntry::new_at(job, reason, now);
        proof {
            lemma_put_job_unique(entry_jobs(dls_before), entry@.job);
        }
        match find_entry(&self.dead_letters, entry.job.id) {
            Some(p) => {
                let ghost e = entry@;
                self.dead_letters.set(p, entry);
                assert(self.spec_dead_letters() =~= dls_before.update(p as int, e));
                assert(entry_jobs(self.spec_dead_letters()) =~= entry_jobs(dls_before).update(p as int, e.job));
            },
            None => {
                let ghost e = entry@;
                self.dead_letters.push(entry);
                assert(self.spec_dead_letters() =~= dls_before.push(e));
                assert(entry_jobs(self.spec_dead_letters()) =~= entry_jobs(dls_before).push(e.job));
            },
        }
        Ok(())
    }

    fn list_dead_letters(&self, tenant_id: TenantId, limit: usize) -> (r: Result<Vec<DeadLetterEntry>, JobStoreError>) {
        let ghost pred = of_tenant(tenant_id);
        let ghost all = self.spec_dead_letters();
        let mut picked: Vec<DeadLetterEntry> = Vec::new();
        let mut i: usize = 0;
        while i < self.dead_letters.len()
            invariant
                i <= self.dead_letters@.len(),
                all == entry_views(self.dead_letters@),
                pred == of_tenant(tenant_id),
                entry_views(picked@) == all.take(i as int).filter(pred),
            decreases self.dead_letters@.len() - i,
        {
            let keep = self.dead_letters[i].job.tenant_id == tenant_id;
            proof {
                assert(all.take(i + 1) =~= all.take(i as int).push(all[i as int]));
                all.take(i as int).lemma_filter_push(all[i as int], pred);
            }
            if keep {
                let ghost prev = picked@;
                picked.push(self.dead_letters[i].duplicate());
                assert(entry_views(picked@) =~= entry_views(prev).push(all[i as int]));
            }
            i = i + 1;
        }
        assert(all.take(self.dead_letters@.len() as int) =~= all);
        Ok(keep_entries(sort_by_burial(picked), limit))
    }

    fn retry_dead_letter_at(&mut self, tenant_id: TenantId, job_id: JobId, now: Timestamp) -> (r: Result<Job, JobStoreError>) {
        let ghost jobs_before = self.spec_jobs();
        let ghost dls_before = self.spec_dead_letters();
        match find_entry(&self.dead_letters, job_id) {
            None => Err(JobStoreError::NotFound(job_id)),
            Some(p) => {
                if self.dead_letters[p].job.tenant_id != tenant_id {
                    return Err(JobStoreError::TenantIsolation);
                }
                proof {
                    lemma_remove_unique(entry_jobs(dls_before), p as int);
                }
                let entry = self.dead_letters.remove(p);
                assert(self.spec_dead_letters() =~= dls_before.remove(p as int));
                assert(entry_jobs(self.spec_dead_letters()) =~= entry_jobs(dls_before).remove(p as int));
                assert(entry@ == dls_before[p as int]);
                let mut job = entry.job;
                job.status = JobStatus::Pending;
                job.attempt = 0;
                job.scheduled_at = None;
                job.updated_at = now;
                job.history = Vec::new();
                assert(job@.history =~= Seq::<crate::jobs::types::AttemptView>::empty());
                assert(job@ == revived(dls_before[p as int].job, now));
                let out = job.clone();
                proof {
                    lemma_put_job_unique(jobs_before, job@);
                }
                match find_job(&self.jobs, job.id) {
                    Some(q) => {
                        self.jobs.set(q, job);
                        assert(self.spec_jobs() =~= jobs_before.update(q as int, out@));
                    },
                    None => {
                        self.jobs.push(job);
                        assert(self.spec_jobs() =~= jobs_before.push(out@));
                    },
                }
                Ok(out)
            },
        }
    }

    fn delete_dead_letter(&mut self, tenant_id: TenantId, job_id: JobId) -> (r: Result<(), JobStoreError>) {
        let ghost dls_before = self.spec_dead_letters();
        match find_entry(&self.dead_letters, job_id) {
            None => Err(JobStoreError::NotFound(job_id)),
            Some(p) => {
                if self.dead_letters[p].job.tenant_id != tenant_id {
                    return Err(JobStoreError::TenantIsolation);
                }
                proof {
                    lemma_remove_unique(entry_jobs(dls_before), p as int);
                }
                self.dead_letters.remove(p);
                assert(self.spec_dead_letters() =~= dls_before.remove(p as int));
                assert(entry_jobs(self.spec_dead_letters()) =~= entry_jobs(dls_before).remove(p as int));
                Ok(())
            },
        }
    }

    fn stats(&self, tenant_id: TenantId) -> (r: Result<JobStats, JobStoreError>) {
        let ghost jobs = self.spec_jobs();
        let ghost dls = self.spec_dead_letters();
        let mut counts: [usize; 6] = [0, 0, 0, 0, 0, 0];
        let mut i: usize = 0;
        while i < self.jobs.len()
            invariant
                i <= self.jobs@.len(),
                jobs == job_views(self.jobs@),
                dls == entry_views(self.dead_letters@),
                jobs.len() + dls.len() <= usize::MAX,
                forall|k: nat| k < 6 ==> #[trigger] counts@[k as int] == count_status(jobs.take(i as int), tenant_id, k),
            decreases self.jobs@.len() - i,
        {
            proof {
                assert(jobs.take(i + 1) =~= jobs.take(i as int).push(jobs[i as int]));
                assert forall|k: nat| k < 6 implies count_status(jobs.take(i + 1), tenant_id, k) == count_status(jobs.take(i as int), tenant_id, k) + if jobs[i as int].tenant_id == tenant_id && status_variant(jobs[i as int].status) == k { 1int } else { 0int } by {
                    jobs.take(i as int).lemma_filter_push(jobs[i as int], |j: JobView| j.tenant_id == tenant_id && status_variant(j.status) == k);
                }
                lemma_count_bound(jobs.take(i as int), tenant_id);
            }
            if self.jobs[i].tenant_id == tenant_id {
                let v = self.jobs[i].status.variant() as usize;
                counts.set(v, counts[v] + 1);
            }
            i = i + 1;
        }
        assert(jobs.take(self.jobs@.len() as int) =~= jobs);
        let ghost pred = of_tenant(tenant_id);
        let mut buried_count: usize = 0;
        let mut k: usize = 0;
        while k < self.dead_letters.len()
            invariant
                k <= self.dead_letters@.len(),
                dls == entry_views(self.dead_letters@),
                pred == of_tenant(tenant_id),
                buried_count == dls.take(k as int).filter(pred).len(),
            decreases self.dead_letters@.len() - k,
        {
            proof {
                assert(dls.take(k + 1) =~= dls.take(k as int).push(dls[k as int]));
                dls.take(k as int).lemma_filter_push(dls[k as int], pred);
                dls.take(k as int).lemma_filter_len(pred);
            }
            if self.dead_letters[k].job.tenant_id == tenant_id {
                buried_count = buried_count + 1;
            }
            k = k + 1;
        }
        assert(dls.take(self.dead_letters@.len() as int) =~= dls);
        proof {
            jobs.filter(|j: JobView| j.tenant_id == tenant_id && status_variant(j.status) == 4).lemma_filter_len(|j: JobView| true);
            jobs.lemma_filter_len(|j: JobView| j.tenant_id == tenant_id && status_variant(j.status) == 4);
            dls.lemma_filter_len(pred);
        }
        Ok(JobStats {
            pending: counts[0],
            running: counts[1],
            completed: counts[2],
            failed: counts[3],
            dead_lettered: counts[4] + buried_count,
            cancelled: counts[5],
        })
    }
}

/// The tenant's jobs with one status never outnumber the jobs.
pub proof fn lemma_count_bound(jobs: Seq<JobView>, tenant: TenantId)
    ensures
        forall|k: nat| #[trigger] count_status(jobs, tenant, k) <= jobs.len(),
{
    assert forall|k: nat| #[trigger] count_status(jobs, tenant, k) <= jobs.len() by {
        jobs.lemma_filter_len(|j: JobView| j.tenant_id == tenant && status_variant(j.status) == k);
    }
}

} // verus!
