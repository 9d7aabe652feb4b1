//! Scheduling of the inventory anomaly runner: cadence, coalesced triggers,
//! and bounded retries with capped exponential backoff. The inference itself
//! belongs to another component.
use vstd::prelude::*;

use crate::common::{Replicate, TenantId};

verus! {

/// Where the runner delivers its insights (insights are not domain events).
pub trait AiInsightSink<R> {
    fn emit(&mut self, tenant_id: TenantId, result: R);
}

/// Insights kept in memory, in the order emitted.
pub struct InMemoryAiInsightSink<R> {
    insights: Vec<(TenantId, R)>,
}

/// The insights of a list, by view.
pub open spec fn insight_views<R: View>(v: Seq<(TenantId, R)>) -> Seq<(TenantId, R::V)> {
    v.map_values(|p: (TenantId, R)| (p.0, p.1@))
}

impl<R: Replicate> InMemoryAiInsightSink<R> {
    /// The insights emitted so far, oldest first.
    pub closed spec fn spec_insights(&self) -> Seq<(TenantId, R::V)> {
        insight_views(self.insights@)
    }

    pub fn new() -> (r: Self)
        ensures
            r.spec_insights() == Seq::<(TenantId, R::V)>::empty(),
    {
        let r = InMemoryAiInsightSink { insights: Vec::new() };
        assert(r.spec_insights() =~= Seq::<(TenantId, R::V)>::empty());
        r
    }

    /// Every insight emitted so far, oldest first.
    pub fn all(&self) -> (r: Vec<(TenantId, R)>)
        ensures
            insight_views(r@) == self.spec_insights(),
    {
        let mut out: Vec<(TenantId, R)> = Vec::new();
        let mut i: usize = 0;
        while i < self.insights.len()
            invariant
                i <= self.insights@.len(),
                insight_views(out@) == insight_views(self.insights@).take(i as int),
            decreases self.insights@.len() - i,
        {
            let ghost prev = out@;
            out.push((self.insights[i].0, self.insights[i].1.replicate()));
            assert(insight_views(out@) =~= insight_views(prev).push(insight_views(self.insights@)[i as int]));
            assert(insight_views(self.insights@).take(i + 1) =~= insight_views(self.insights@).take(i as int).push(
                insight_views(self.insights@)[i as int],
            ));
            i = i + 1;
        }
        assert(insight_views(self.insights@).take(self.insights@.len() as int) =~= insight_views(self.insights@));
        out
    }
}

impl<R: Replicate> AiInsightSink<R> for InMemoryAiInsightSink<R> {
    /// Keep the insight after those already emitted.
    fn emit(&mut self, tenant_id: TenantId, result: R)
        ensures
            final(self).spec_insights() == old(self).spec_insights().push((tenant_id, result@)),
    {
        let ghost before = self.insights@;
        self.insights.push((tenant_id, result));
        assert(insight_views(self.insights@) =~= insight_views(before).push((tenant_id, result@)));
    }
}

/// The runner's settings; times are in milliseconds.
#[derive(Debug, Clone, Copy, PartialEq, Eq, Structural)]
pub struct AnomalySchedule {
    pub interval_ms: u64,
    pub max_retries: u32,
    pub base_backoff_ms: u64,
    pub window: usize,
}

impl Default for AnomalySchedule {
    /// Every minute, five retries from a quarter second, a window of ten.
    fn default() -> (r: AnomalySchedule)
        ensures
            r == (AnomalySchedule { interval_ms: 60_000, max_retries: 5, base_backoff_ms: 250, window: 10 }),
    {
        AnomalySchedule { interval_ms: 60_000, max_retries: 5, base_backoff_ms: 250, window: 10 }
    }
}

/// `2^n` for small `n`.
pub open spec fn pow2_small(n: nat) -> nat
    decreases n,
{
    if n == 0 {
        1
    } else {
        2 * pow2_small((n - 1) as nat)
    }
}

/// The backoff before retry `attempt`: `base * 2^(attempt - 1)`, the
/// exponent at most 10, the delay at most ten seconds.
pub open spec fn anomaly_backoff(base_ms: u64, attempt: u32) -> int {
    let e: nat = if attempt == 0 {
        0
    } else if attempt - 1 > 10 {
        10
    } else {
        (attempt - 1) as nat
    };
    let ms = base_ms * pow2_small(e);
    if ms < 10_000 {
        ms
    } else {
        10_000
    }
}

pub fn backoff(base_ms: u64, attempt: u32) -> (r: u64)
    ensures
        r == anomaly_backoff(base_ms, attempt),
{
    let e: u32 = if attempt == 0 {
        0
    } else if attempt - 1 > 10 {
        10
    } else {
        attempt - 1
    };
    let mut pow: u128 = 1;
    let mut i: u32 = 0;
    while i < e
        invariant
            i <= e,
            e <= 10,
            pow == pow2_small(i as nat),
            pow <= 1024,
        decreases e - i,
    {
        proof {
            assert(pow2_small((i + 1) as nat) == 2 * pow2_small(i as nat));
            lemma_pow2_small_bound(i as nat);
        }
        pow = pow * 2;
        i = i + 1;
    }
    proof {
        lemma_pow2_small_bound(e as nat);
    }
    assert((base_ms as u128) * pow <= (u64::MAX as u128) * 1024) by (nonlinear_arith)
        requires
            pow <= 1024,
    ;
    let ms: u128 = (base_ms as u128) * pow;
    if ms < 10_000 {
        ms as u64
    } else {
        10_000
    }
}

pub proof fn lemma_pow2_small_mono(a: nat, b: nat)
    requires
        a <= b,
    ensures
        1 <= pow2_small(a) <= pow2_small(b),
    decreases b,
{
    if a < b {
        lemma_pow2_small_mono(a, (b - 1) as nat);
    } else if a > 0 {
        lemma_pow2_small_mono((a - 1) as nat, (a - 1) as nat);
    }
}

pub proof fn lemma_pow2_small_bound(n: nat)
    requires
        n <= 10,
    ensures
        1 <= pow2_small(n) <= 1024,
        n < 10 ==> pow2_small(n) <= 512,
{
    reveal_with_fuel(pow2_small, 11);
    assert(pow2_small(9) == 512);
    assert(pow2_small(10) == 1024);
    if n < 10 {
        lemma_pow2_small_mono(n, 9);
    } else {
        lemma_pow2_small_mono(n, 10);
    }
}

/// What a failed run leads to: one more failure; while the failures stay
/// within the retries, a retry after the backoff; after that, the count
/// starts over and the runner waits for its next turn.
pub open spec fn failure_outcome(failures: u32, max_retries: u32, base_ms: u64) -> (u32, Option<int>) {
    let n = failures + 1;
    if n <= max_retries {
        (n as u32, Some(anomaly_backoff(base_ms, n as u32)))
    } else {
        (0, None)
    }
}

/// After a failed run: the new failure count and, if it retries, the
/// backoff before the retry.
pub fn after_failure(failures: u32, max_retries: u32, base_ms: u64) -> (r: (u32, Option<u64>))
    requires
        failures < u32::MAX,
    ensures
        r.0 == failure_outcome(failures, max_retries, base_ms).0,
        match r.1 {
            Some(d) => failure_outcome(failures, max_retries, base_ms).1 == Some(d as int),
            None => failure_outcome(failures, max_retries, base_ms).1 is None,
        },
{
    let n = failures + 1;
    if n <= max_retries {
        (n, Some(backoff(base_ms, n)))
    } else {
        (0, None)
    }
}

/// The first tick on the cadence of `tick` that lies after `now`.
pub open spec fn tick_after(tick: u64, now: u64, interval_ms: u64) -> int {
    if tick > now {
        tick as int
    } else {
        tick + ((now - tick) as int / interval_ms as int + 1) * interval_ms
    }
}

/// The next scheduled run: the first tick on the cadence after `now`.
pub fn next_tick(tick: u64, now: u64, interval_ms: u64) -> (r: u64)
    requires
        interval_ms > 0,
        now + interval_ms <= u64::MAX,
    ensures
        r == tick_after(tick, now, interval_ms),
        tick > now ==> r == tick,
        tick <= now ==> now < r <= now + interval_ms && (r - tick) % (interval_ms as int) == 0,
{
    if tick > now {
        return tick;
    }
    let d: u64 = now - tick;
    let q: u64 = d / interval_ms;
    let steps: u64 = q + 1;
    assert(steps * interval_ms <= d + interval_ms && steps * interval_ms > d) by (nonlinear_arith)
        requires
            q == d / interval_ms,
            steps == q + 1,
            interval_ms > 0,
    ;
    let r = tick + steps * interval_ms;
    assert((r - tick) % (interval_ms as int) == 0) by (nonlinear_arith)
        requires
            r - tick == steps * interval_ms,
            interval_ms > 0,
    ;
    r
}

/// Where the runner stands between two of its steps.
#[derive(Debug, Clone, Copy, PartialEq, Eq, Structural)]
pub struct RunnerState {
    /// When the next scheduled run is due.
    pub tick: u64,
    /// A run is owed (at start, after a tick, a trigger or a retryable failure).
    pub pending: bool,
    /// Failed runs in a row, within the retries.
    pub failures: u32,
    /// No run before this time, while a retry waits out its backoff.
    pub backoff_until: Option<u64>,
}

/// What the runner learned since its last step.
#[derive(Debug, Clone, Copy, PartialEq, Eq, Structural)]
pub enum RunnerEvent {
    /// The clock reads `now`; `triggered` says whether any trigger was
    /// waiting (however many, they count as one).
    Poll { now: u64, triggered: bool },
    /// The run asked for succeeded.
    RunSucceeded,
    /// The run asked for failed at `now`.
    RunFailed { now: u64 },
}

/// What the runner does next.
#[derive(Debug, Clone, Copy, PartialEq, Eq, Structural)]
pub enum RunnerAction {
    /// Run the analysis now and report how it went.
    Run,
    /// Sleep this many milliseconds, then poll.
    Sleep(u64),
    /// Poll again at once.
    Poll,
}

/// The state a runner starts in at time zero: its first tick one interval
/// away, and one run owed at once.
pub open spec fn runner_initial(schedule: AnomalySchedule) -> RunnerState {
    RunnerState { tick: schedule.interval_ms, pending: true, failures: 0, backoff_until: None }
}

/// One step of the runner. A poll first turns a due tick into an owed run
/// and moves the tick past `now` on its cadence, and a waiting trigger into
/// an owed run; while a backoff lasts it sleeps fifty milliseconds; else
/// with nothing owed it sleeps until the tick, at most a quarter second;
/// else it runs, and the run is no longer owed. A success clears the
/// failures. A failure counts; within the retries the run is owed again
/// after the backoff, beyond them the count starts over and the runner waits
/// for its next tick or trigger.
pub open spec fn runner_next(s: RunnerState, schedule: AnomalySchedule, event: RunnerEvent) -> (RunnerState, RunnerAction) {
    match event {
        RunnerEvent::Poll { now, triggered } => {
            let due = now >= s.tick;
            let tick: u64 = if due { tick_after(s.tick, now, schedule.interval_ms) as u64 } else { s.tick };
            let pending = s.pending || due || triggered;
            match s.backoff_until {
                Some(until) if now < until => (
                    RunnerState { tick, pending, failures: s.failures, backoff_until: Some(until) },
                    RunnerAction::Sleep(50),
                ),
                _ => if !pending {
                    (
                        RunnerState { tick, pending, failures: s.failures, backoff_until: None },
                        RunnerAction::Sleep(if tick - now < 250 { (tick - now) as u64 } else { 250 }),
                    )
                } else {
                    (RunnerState { tick, pending: false, failures: s.failures, backoff_until: None }, RunnerAction::Run)
                },
            }
        },
        RunnerEvent::RunSucceeded => (RunnerState { failures: 0, ..s }, RunnerAction::Poll),
        RunnerEvent::RunFailed { now } => {
            let (n, retry) = failure_outcome(s.failures, schedule.max_retries, schedule.base_backoff_ms);
            match retry {
                Some(d) => (
                    RunnerState { pending: true, failures: n, backoff_until: Some((now + d) as u64), ..s },
                    RunnerAction::Poll,
                ),
                None => (RunnerState { failures: n, ..s }, RunnerAction::Poll),
            }
        },
    }
}

/// The state a runner starts in.
pub fn runner_start(schedule: &AnomalySchedule) -> (r: RunnerState)
    ensures
        r == runner_initial(*schedule),
{
    RunnerState { tick: schedule.interval_ms, pending: true, failures: 0, backoff_until: None }
}

/// Take one step of the runner: the next state and what to do.
pub fn runner_step(state: RunnerState, schedule: &AnomalySchedule, event: RunnerEvent) -> (r: (RunnerState, RunnerAction))
    requires
        schedule.interval_ms > 0,
        event matches RunnerEvent::Poll { now, .. } ==> now + schedule.interval_ms <= u64::MAX,
        event matches RunnerEvent::RunFailed { now } ==> now + 10_000 <= u64::MAX && state.failures < u32::MAX,
    ensures
        r == runner_next(state, *schedule, event),
{
    match event {
        RunnerEvent::Poll { now, triggered } => {
            let due = now >= state.tick;
            let tick = if due { next_tick(state.tick, now, schedule.interval_ms) } else { state.tick };
            let pending = state.pending || due || triggered;
            if let Some(until) = state.backoff_until {
                if now < until {
                    return (
                        RunnerState { tick, pending, failures: state.failures, backoff_until: Some(until) },
                        RunnerAction::Sleep(50),
                    );
                }
            }
            if !pending {
                let wait: u64 = if tick - now < 250 { tick - now } else { 250 };
                (RunnerState { tick, pending, failures: state.failures, backoff_until: None }, RunnerAction::Sleep(wait))
            } else {
                (RunnerState { tick, pending: false, failures: state.failures, backoff_until: None }, RunnerAction::Run)
            }
        },
        RunnerEvent::RunSucceeded => (RunnerState { failures: 0, ..state }, RunnerAction::Poll),
        RunnerEvent::RunFailed { now } => {
            let (n, retry) = after_failure(state.failures, schedule.max_retries, schedule.base_backoff_ms);
            match retry {
                Some(d) => {
                    proof {
                        lemma_backoff_capped(schedule.base_backoff_ms, n);
                    }
                    (
                        RunnerState { pending: true, failures: n, backoff_until: Some(now + d), ..state },
                        RunnerAction::Poll,
                    )
                },
                None => (RunnerState { failures: n, ..state }, RunnerAction::Poll),
            }
        },
    }
}

/// A backoff never exceeds ten seconds.
pub proof fn lemma_backoff_capped(base_ms: u64, attempt: u32)
    ensures
        0 <= anomaly_backoff(base_ms, attempt) <= 10_000,
{
}

/// The failures in a row never exceed the retries: every step keeps the
/// count within `max_retries`.
pub proof fn law_failures_within_retries(s: RunnerState, schedule: AnomalySchedule, event: RunnerEvent)
    requires
        s.failures <= schedule.max_retries,
    ensures
        runner_next(s, schedule, event).0.failures <= schedule.max_retries,
{
}

/// A poll never runs while a backoff lasts, and a run is asked for only when
/// one was owed: at start, at a due tick, on a trigger, or for a retry.
pub proof fn law_run_only_when_owed(s: RunnerState, schedule: AnomalySchedule, now: u64, triggered: bool)
    ensures
        runner_next(s, schedule, RunnerEvent::Poll { now, triggered }).1 == RunnerAction::Run <==> ((s.pending
            || now >= s.tick || triggered) && !(s.backoff_until matches Some(until) && now < until)),
{
}

} // verus!
