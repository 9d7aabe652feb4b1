//! Replaying a projection from the event store: which events take part, in
//! what order, and the progress a replay reports through its phases.
use vstd::prelude::*;
use vstd::string::StringExecFns;

use crate::common::{AggregateId, Replicate};
use crate::event_store::{records, store_error_display, EventRecord, EventStoreError, StoredEvent};
use crate::json::{Json, JsonView};
use crate::projections::{replay_order, stable_order};
use crate::text::{copy_opt_string, same_text};

verus! {

broadcast use vstd::string::group_string_axioms;

/// Why a replay failed.
#[derive(Debug)]
pub enum ReplayError {
    EventStore(EventStoreError),
    Projection(String),
    Cancelled,
    InvalidAggregateType(String),
}

/// The text of a replay error.
pub open spec fn replay_error_text(e: &ReplayError) -> Seq<char> {
    match e {
        ReplayError::EventStore(s) => "event store error: "@ + store_error_display(s),
        ReplayError::Projection(m) => "projection error: "@ + m@,
        ReplayError::Cancelled => "replay cancelled"@,
        ReplayError::InvalidAggregateType(t) => "invalid aggregate type: "@ + t@,
    }
}

impl ReplayError {
    pub fn message(&self) -> (r: String)
        ensures
            r@ == replay_error_text(self),
    {
        match self {
            ReplayError::EventStore(s) => String::from_str("event store error: ").concat(s.display_text().as_str()),
            ReplayError::Projection(m) => String::from_str("projection error: ").concat(m.as_str()),
            ReplayError::Cancelled => String::from_str("replay cancelled"),
            ReplayError::InvalidAggregateType(t) => String::from_str("invalid aggregate type: ").concat(t.as_str()),
        }
    }
}

/// Phase of a replay.
#[derive(Debug, Clone, Copy, PartialEq, Eq, Structural)]
pub enum ReplayPhase {
    Loading,
    Clearing,
    Replaying,
    Complete,
    /// Failed or cancelled.
    Failed,
}

/// What a replay reports.
#[derive(Debug, Clone)]
pub struct ReplayProgress {
    pub total_events: u64,
    pub processed_events: u64,
    pub processed_aggregates: u64,
    pub phase: ReplayPhase,
    pub is_complete: bool,
    pub error: Option<String>,
}

impl ReplayProgress {
    /// The progress of a replay that has not loaded anything yet.
    pub fn new() -> (r: ReplayProgress)
        ensures
            r.total_events == 0,
            r.processed_events == 0,
            r.processed_aggregates == 0,
            r.phase == ReplayPhase::Loading,
            !r.is_complete,
            r.error is None,
    {
        ReplayProgress {
            total_events: 0,
            processed_events: 0,
            processed_aggregates: 0,
            phase: ReplayPhase::Loading,
            is_complete: false,
            error: None,
        }
    }

    pub fn duplicate(&self) -> (r: ReplayProgress)
        ensures
            r.total_events == self.total_events,
            r.processed_events == self.processed_events,
            r.processed_aggregates == self.processed_aggregates,
            r.phase == self.phase,
            r.is_complete == self.is_complete,
            crate::text::opt_text(r.error) == crate::text::opt_text(self.error),
    {
        ReplayProgress {
            total_events: self.total_events,
            processed_events: self.processed_events,
            processed_aggregates: self.processed_aggregates,
            phase: self.phase,
            is_complete: self.is_complete,
            error: copy_opt_string(&self.error),
        }
    }
}

/// Events are loaded a page of this many at a time.
pub const REPLAY_PAGE_SIZE: u32 = 1000;

pub open spec fn texts(v: Seq<String>) -> Seq<Seq<char>> {
    v.map_values(|s: String| s@)
}

pub open spec fn of_types(types: Seq<Seq<char>>) -> spec_fn(EventRecord<JsonView>) -> bool {
    |e: EventRecord<JsonView>| types.contains(e.aggregate_type)
}

fn listed(types: &Vec<String>, t: &str) -> (r: bool)
    ensures
        r == texts(types@).contains(t@),
{
    let mut i: usize = 0;
    while i < types.len()
        invariant
            i <= types@.len(),
            forall|k: int| 0 <= k < i ==> texts(types@)[k] != t@,
        decreases types@.len() - i,
    {
        if same_text(types[i].as_str(), t) {
            assert(texts(types@)[i as int] == t@);
            return true;
        }
        i = i + 1;
    }
    false
}

/// The events of a page that belong to one of the projection's aggregate
/// types, in order.
pub fn relevant_events(events: &Vec<StoredEvent<Json>>, aggregate_types: &Vec<String>) -> (r: Vec<StoredEvent<Json>>)
    ensures
        records(r@) == records(events@).filter(of_types(texts(aggregate_types@))),
{
    let ghost pred = of_types(texts(aggregate_types@));
    let ghost all = records(events@);
    let mut out: Vec<StoredEvent<Json>> = Vec::new();
    let mut i: usize = 0;
    while i < events.len()
        invariant
            i <= events@.len(),
            all == records(events@),
            pred == of_types(texts(aggregate_types@)),
            records(out@) == all.take(i as int).filter(pred),
        decreases events@.len() - i,
    {
        proof {
            assert(all.take(i + 1) =~= all.take(i as int).push(all[i as int]));
            all.take(i as int).lemma_filter_push(all[i as int], pred);
        }
        if listed(aggregate_types, events[i].aggregate_type.as_str()) {
            let ghost prev = out@;
            out.push(events[i].replicate());
            assert(records(out@) =~= records(prev).push(all[i as int]));
        }
        i = i + 1;
    }
    assert(all.take(events@.len() as int) =~= all);
    out
}

/// The offset of the next page to load, if there is one.
pub fn next_page_offset(offset: u32, has_more: bool) -> (r: Option<u32>)
    requires
        has_more ==> offset + REPLAY_PAGE_SIZE <= u32::MAX,
    ensures
        r == if has_more {
            Some((offset + REPLAY_PAGE_SIZE) as u32)
        } else {
            None::<u32>
        },
{
    if has_more {
        Some(offset + REPLAY_PAGE_SIZE)
    } else {
        None
    }
}

/// The replay key of a stored event: tenant, aggregate, sequence number.
pub open spec fn event_key(e: EventRecord<JsonView>) -> (u128, u128, u64) {
    (e.tenant_id.0, e.aggregate_id.0, e.sequence_number)
}

/// The positions of the events in replay order: sorted by tenant, aggregate
/// and sequence number, equal keys kept in their loaded order.
pub fn replay_sequence(events: &Vec<StoredEvent<Json>>) -> (r: Vec<usize>)
    ensures
        r@.map_values(|i: usize| i as int) == replay_order(
            records(events@).map_values(|e: EventRecord<JsonView>| event_key(e)),
            events@.len() as nat,
        ),
        forall|j: int| 0 <= j < r@.len() ==> r@[j] < events@.len(),
{
    let ghost keys = records(events@).map_values(|e: EventRecord<JsonView>| event_key(e));
    let mut ks: Vec<(u128, u128, u64)> = Vec::new();
    let mut i: usize = 0;
    while i < events.len()
        invariant
            i <= events@.len(),
            keys == records(events@).map_values(|e: EventRecord<JsonView>| event_key(e)),
            ks@ == keys.take(i as int),
        decreases events@.len() - i,
    {
        ks.push((events[i].tenant_id.0, events[i].aggregate_id.0, events[i].sequence_number));
        i = i + 1;
        assert(ks@ =~= keys.take(i as int));
    }
    assert(ks@ =~= keys);
    stable_order(&ks)
}

/// A replay under way: its progress and the aggregate of the last event
/// replayed.
pub struct ReplayRun {
    pub progress: ReplayProgress,
    pub last_aggregate: Option<AggregateId>,
}

/// The progress after a replay ended with `result`: complete when it
/// succeeded; failed, with the reason, when it did not.
pub open spec fn ended(before: ReplayProgress, after: ReplayProgress, result: &Result<(), ReplayError>) -> bool {
    &&& after.is_complete
    &&& after.total_events == before.total_events
    &&& after.processed_events == before.processed_events
    &&& after.processed_aggregates == before.processed_aggregates
    &&& match result {
        Ok(()) => after.phase == ReplayPhase::Complete && crate::text::opt_text(after.error)
            == crate::text::opt_text(before.error),
        Err(ReplayError::Cancelled) => after.phase == ReplayPhase::Failed && crate::text::opt_text(after.error)
            == Some("Replay cancelled"@),
        Err(e) => after.phase == ReplayPhase::Failed && crate::text::opt_text(after.error) == Some(
            replay_error_text(e),
        ),
    }
}

impl ReplayRun {
    /// A replay that has not started loading.
    pub fn new() -> (r: ReplayRun)
        ensures
            r.progress.total_events == 0,
            r.progress.processed_events == 0,
            r.progress.processed_aggregates == 0,
            r.progress.phase == ReplayPhase::Loading,
            !r.progress.is_complete,
            r.progress.error is None,
            r.last_aggregate is None,
    {
        ReplayRun { progress: ReplayProgress::new(), last_aggregate: None }
    }

    /// Move to a phase.
    pub fn enter(&mut self, phase: ReplayPhase)
        ensures
            final(self).progress == (ReplayProgress { phase, ..old(self).progress }),
            final(self).last_aggregate == old(self).last_aggregate,
    {
        self.progress.phase = phase;
    }

    /// All relevant events are loaded: `total` of them.
    pub fn loaded(&mut self, total: usize)
        ensures
            final(self).progress == (ReplayProgress { total_events: total as u64, ..old(self).progress }),
            final(self).last_aggregate == old(self).last_aggregate,
    {
        self.progress.total_events = total as u64;
    }

    /// One more event was replayed: a new aggregate counts when its
    /// aggregate differs from the previous event's.
    pub fn event_replayed(&mut self, aggregate_id: AggregateId)
        requires
            old(self).progress.processed_events < u64::MAX,
            old(self).progress.processed_aggregates < u64::MAX,
        ensures
            final(self).progress.processed_events == old(self).progress.processed_events + 1,
            final(self).progress.processed_aggregates == old(self).progress.processed_aggregates + if old(
                self,
            ).last_aggregate == Some(aggregate_id) {
                0int
            } else {
                1int
            },
            final(self).last_aggregate == Some(aggregate_id),
            final(self).progress.total_events == old(self).progress.total_events,
            final(self).progress.phase == old(self).progress.phase,
            final(self).progress.is_complete == old(self).progress.is_complete,
            final(self).progress.error == old(self).progress.error,
    {
        let same = match self.last_aggregate {
            Some(a) => a.0 == aggregate_id.0,
            None => false,
        };
        if !same {
            self.progress.processed_aggregates = self.progress.processed_aggregates + 1;
            self.last_aggregate = Some(aggregate_id);
        }
        self.progress.processed_events = self.progress.processed_events + 1;
    }

    /// The replay ended with `result`.
    pub fn finish(&mut self, result: &Result<(), ReplayError>)
        ensures
            ended(old(self).progress, final(self).progress, result),
    {
        match result {
            Ok(()) => {
                self.progress.phase = ReplayPhase::Complete;
                self.progress.is_complete = true;
            },
            Err(ReplayError::Cancelled) => {
                self.progress.phase = ReplayPhase::Failed;
                self.progress.error = Some(String::from_str("Replay cancelled"));
                self.progress.is_complete = true;
            },
            Err(e) => {
                self.progress.phase = ReplayPhase::Failed;
                self.progress.error = Some(e.message());
                self.progress.is_complete = true;
            },
        }
    }
}

/// What waiting for a replay answers on seeing `progress`: nothing yet while
/// it runs; once it is complete or failed, its error as a projection error,
/// a cancellation for a failure with no error, else the progress.
pub fn completion(progress: &ReplayProgress) -> (r: Option<Result<ReplayProgress, ReplayError>>)
    ensures
        !(progress.is_complete || progress.phase == ReplayPhase::Failed) ==> r is None,
        (progress.is_complete || progress.phase == ReplayPhase::Failed) ==> match progress.error {
            Some(e) => r matches Some(Err(ReplayError::Projection(m))) && m@ == e@,
            None => if progress.phase == ReplayPhase::Failed {
                r matches Some(Err(ReplayError::Cancelled))
            } else {
                r matches Some(Ok(p)) && p.phase == progress.phase && p.total_events == progress.total_events
                    && p.processed_events == progress.processed_events && p.processed_aggregates
                    == progress.processed_aggregates && p.is_complete == progress.is_complete && p.error is None
            },
        },
{
    if progress.is_complete || progress.phase == ReplayPhase::Failed {
        match &progress.error {
            Some(e) => Some(Err(ReplayError::Projection(e.clone()))),
            None => {
                if progress.phase == ReplayPhase::Failed {
                    Some(Err(ReplayError::Cancelled))
                } else {
                    Some(Ok(progress.duplicate()))
                }
            },
        }
    } else {
        None
    }
}


/// Where a replay stands.
#[derive(Debug, Clone, Copy, PartialEq, Eq, Structural)]
pub enum ReplayStage {
    /// Loading pages of the tenant's events.
    Loading,
    /// Waiting for the projection's tenant state to be cleared.
    Clearing,
    /// Applying the events one by one.
    Replaying,
    /// Finished, successfully or not.
    Done,
}

/// What the driver of a replay reports.
#[derive(Debug)]
pub enum ReplayEvent {
    /// The replay begins.
    Start,
    /// A page of the tenant's events was loaded; more follow when `has_more`.
    PageLoaded { events: Vec<StoredEvent<Json>>, has_more: bool },
    /// Loading a page failed.
    LoadFailed(EventStoreError),
    /// The projection's tenant state was cleared.
    Cleared,
    /// The event last asked for was applied.
    Applied,
    /// Applying the event last asked for failed, with this message.
    ApplyFailed(String),
    /// The replay was cancelled.
    Cancelled,
}

/// What the driver of a replay is asked to do next.
#[derive(Debug)]
pub enum ReplayAction {
    /// Load the page of events at this offset.
    LoadPage(u32),
    /// Clear the projection's tenant state.
    Clear,
    /// Apply the loaded event at this position.
    Apply(usize),
    /// The replay is over, with this outcome.
    Finish(Result<(), ReplayError>),
    /// Nothing to do: the report does not fit where the replay stands.
    Idle,
}

/// A replay of a tenant's events of some aggregate types into a projection,
/// as a state machine: the driver performs each action and reports back.
/// Under `dry_run` the events are loaded and counted, never cleared or
/// applied.
pub struct ReplayMachine {
    dry_run: bool,
    aggregate_types: Vec<String>,
    offset: u32,
    events: Vec<StoredEvent<Json>>,
    order: Vec<usize>,
    next: usize,
    total: u64,
    processed_events: u64,
    processed_aggregates: u64,
    last_aggregate: Option<AggregateId>,
    phase: ReplayPhase,
    error: Option<String>,
    stage: ReplayStage,
}

/// A replay machine, by view.
pub struct ReplayMachineView {
    pub dry_run: bool,
    pub aggregate_types: Seq<Seq<char>>,
    pub offset: u32,
    pub events: Seq<EventRecord<JsonView>>,
    pub order: Seq<int>,
    pub next: int,
    pub total: int,
    pub processed_events: int,
    pub processed_aggregates: int,
    pub last_aggregate: Option<AggregateId>,
    pub phase: ReplayPhase,
    pub error: Option<Seq<char>>,
    pub stage: ReplayStage,
}

impl View for ReplayMachine {
    type V = ReplayMachineView;

    closed spec fn view(&self) -> ReplayMachineView {
        ReplayMachineView {
            dry_run: self.dry_run,
            aggregate_types: texts(self.aggregate_types@),
            offset: self.offset,
            events: records(self.events@),
            order: self.order@.map_values(|i: usize| i as int),
            next: self.next as int,
            total: self.total as int,
            processed_events: self.processed_events as int,
            processed_aggregates: self.processed_aggregates as int,
            last_aggregate: self.last_aggregate,
            phase: self.phase,
            error: crate::text::opt_text(self.error),
            stage: self.stage,
        }
    }
}

/// The replay keys of loaded events.
pub open spec fn replay_keys_of(events: Seq<EventRecord<JsonView>>) -> Seq<(u128, u128, u64)> {
    events.map_values(|e: EventRecord<JsonView>| event_key(e))
}

/// The counters after one more event of aggregate `id`: one more event, and
/// one more aggregate when it differs from the previous event's.
pub open spec fn step_counts(pe: int, pa: int, last: Option<AggregateId>, id: AggregateId) -> (int, int, Option<AggregateId>) {
    (
        pe + 1,
        pa + if last == Some(id) {
            0int
        } else {
            1int
        },
        Some(id),
    )
}

/// The counters after the first `k` events in replay order.
pub open spec fn tally(
    events: Seq<EventRecord<JsonView>>,
    order: Seq<int>,
    k: nat,
    pe: int,
    pa: int,
    last: Option<AggregateId>,
) -> (int, int, Option<AggregateId>)
    decreases k,
{
    if k == 0 {
        (pe, pa, last)
    } else {
        let prev = tally(events, order, (k - 1) as nat, pe, pa, last);
        step_counts(prev.0, prev.1, prev.2, events[order[k - 1]].aggregate_id)
    }
}

/// The text a failed replay reports.
pub open spec fn failure_text(e: ReplayError) -> Seq<char> {
    match e {
        ReplayError::Cancelled => "Replay cancelled"@,
        _ => replay_error_text(&e),
    }
}

/// The machine once finished with `result`.
pub open spec fn finished(m: ReplayMachineView, result: Result<(), ReplayError>) -> ReplayMachineView {
    ReplayMachineView {
        stage: ReplayStage::Done,
        phase: if result is Ok {
            ReplayPhase::Complete
        } else {
            ReplayPhase::Failed
        },
        error: match result {
            Ok(_) => None,
            Err(e) => Some(failure_text(e)),
        },
        ..m
    }
}

/// The events loaded once a page is added.
pub open spec fn with_page(m: ReplayMachineView, page: Seq<EventRecord<JsonView>>) -> Seq<EventRecord<JsonView>> {
    m.events + page.filter(of_types(m.aggregate_types))
}

/// Whether another page follows one reported with `has_more`.
pub open spec fn loads_more(m: ReplayMachineView, has_more: bool) -> bool {
    has_more && m.offset + REPLAY_PAGE_SIZE <= u32::MAX
}

/// The machine once every relevant event is loaded: counted and finished
/// under `dry_run`, else waiting for the clear.
pub open spec fn all_loaded(m: ReplayMachineView, evs: Seq<EventRecord<JsonView>>) -> ReplayMachineView {
    let order = replay_order(replay_keys_of(evs), evs.len() as nat);
    let base = ReplayMachineView { events: evs, order, next: 0, total: evs.len() as int, ..m };
    if m.dry_run {
        let c = tally(evs, order, order.len(), m.processed_events, m.processed_aggregates, m.last_aggregate);
        finished(
            ReplayMachineView {
                processed_events: c.0,
                processed_aggregates: c.1,
                last_aggregate: c.2,
                next: order.len() as int,
                phase: ReplayPhase::Replaying,
                ..base
            },
            Ok(()),
        )
    } else {
        ReplayMachineView { phase: ReplayPhase::Clearing, stage: ReplayStage::Clearing, ..base }
    }
}

/// The action a report leads to.
pub open spec fn replay_next(m: ReplayMachineView, e: ReplayEvent) -> ReplayAction {
    if m.stage == ReplayStage::Done {
        ReplayAction::Idle
    } else {
        match e {
            ReplayEvent::Cancelled => ReplayAction::Finish(Err(ReplayError::Cancelled)),
            ReplayEvent::Start => if m.stage == ReplayStage::Loading {
                ReplayAction::LoadPage(m.offset)
            } else {
                ReplayAction::Idle
            },
            ReplayEvent::PageLoaded { events, has_more } => if m.stage == ReplayStage::Loading {
                if loads_more(m, has_more) {
                    ReplayAction::LoadPage((m.offset + REPLAY_PAGE_SIZE) as u32)
                } else if m.dry_run {
                    ReplayAction::Finish(Ok(()))
                } else {
                    ReplayAction::Clear
                }
            } else {
                ReplayAction::Idle
            },
            ReplayEvent::LoadFailed(err) => if m.stage == ReplayStage::Loading {
                ReplayAction::Finish(Err(ReplayError::EventStore(err)))
            } else {
                ReplayAction::Idle
            },
            ReplayEvent::Cleared => if m.stage == ReplayStage::Clearing {
                if m.order.len() == 0 {
                    ReplayAction::Finish(Ok(()))
                } else {
                    ReplayAction::Apply(m.order[0] as usize)
                }
            } else {
                ReplayAction::Idle
            },
            ReplayEvent::Applied => if m.stage == ReplayStage::Replaying {
                if m.next + 1 >= m.order.len() {
                    ReplayAction::Finish(Ok(()))
                } else {
                    ReplayAction::Apply(m.order[m.next + 1] as usize)
                }
            } else {
                ReplayAction::Idle
            },
            ReplayEvent::ApplyFailed(msg) => if m.stage == ReplayStage::Replaying {
                ReplayAction::Finish(Err(ReplayError::Projection(msg)))
            } else {
                ReplayAction::Idle
            },
        }
    }
}

/// The machine after a report.
pub open spec fn replay_after(m: ReplayMachineView, e: ReplayEvent) -> ReplayMachineView {
    if m.stage == ReplayStage::Done {
        m
    } else {
        match e {
            ReplayEvent::Cancelled => finished(m, Err(ReplayError::Cancelled)),
            ReplayEvent::Start => m,
            ReplayEvent::PageLoaded { events, has_more } => if m.stage == ReplayStage::Loading {
                let evs = with_page(m, records(events@));
                if loads_more(m, has_more) {
                    ReplayMachineView { events: evs, offset: (m.offset + REPLAY_PAGE_SIZE) as u32, ..m }
                } else {
                    all_loaded(m, evs)
                }
            } else {
                m
            },
            ReplayEvent::LoadFailed(err) => if m.stage == ReplayStage::Loading {
                finished(m, Err(ReplayError::EventStore(err)))
            } else {
                m
            },
            ReplayEvent::Cleared => if m.stage == ReplayStage::Clearing {
                let m2 = ReplayMachineView { phase: ReplayPhase::Replaying, stage: ReplayStage::Replaying, ..m };
                if m.order.len() == 0 {
                    finished(m2, Ok(()))
                } else {
                    m2
                }
            } else {
                m
            },
            ReplayEvent::Applied => if m.stage == ReplayStage::Replaying {
                let c = step_counts(
                    m.processed_events,
                    m.processed_aggregates,
                    m.last_aggregate,
                    m.events[m.order[m.next]].aggregate_id,
                );
                let m2 = ReplayMachineView {
                    processed_events: c.0,
                    processed_aggregates: c.1,
                    last_aggregate: c.2,
                    next: m.next + 1,
                    ..m
                };
                if m.next + 1 >= m.order.len() {
                    finished(m2, Ok(()))
                } else {
                    m2
                }
            } else {
                m
            },
            ReplayEvent::ApplyFailed(msg) => if m.stage == ReplayStage::Replaying {
                finished(m, Err(ReplayError::Projection(msg)))
            } else {
                m
            },
        }
    }
}

/// The shape every replay machine keeps: positions in range, counters
/// bounded by the events, nothing counted before the replay starts, and
/// under `dry_run` never a stage that clears or applies.
pub open spec fn machine_wf(m: ReplayMachineView) -> bool {
    &&& forall|j: int| 0 <= j < m.order.len() ==> 0 <= #[trigger] m.order[j] < m.events.len()
    &&& 0 <= m.next <= m.order.len()
    &&& 0 <= m.processed_aggregates <= m.processed_events <= m.events.len()
    &&& m.events.len() <= usize::MAX
    &&& m.stage == ReplayStage::Loading ==> m.processed_events == 0 && m.processed_aggregates == 0
        && m.next == 0 && m.order.len() == 0 && m.last_aggregate is None
    &&& m.stage == ReplayStage::Clearing ==> !m.dry_run && m.next == 0 && m.processed_events == 0
        && m.processed_aggregates == 0 && m.order.len() == m.events.len() && m.last_aggregate is None
    &&& m.stage == ReplayStage::Replaying ==> !m.dry_run && m.processed_events == m.next && m.next
        < m.order.len() && m.order.len() == m.events.len()
}

/// The counters stay within the events counted.
proof fn lemma_tally_bounds(
    events: Seq<EventRecord<JsonView>>,
    order: Seq<int>,
    k: nat,
    pe: int,
    pa: int,
    last: Option<AggregateId>,
)
    requires
        0 <= pa <= pe,
    ensures
        tally(events, order, k, pe, pa, last).0 == pe + k,
        pa <= tally(events, order, k, pe, pa, last).1 <= tally(events, order, k, pe, pa, last).0,
    decreases k,
{
    if k > 0 {
        lemma_tally_bounds(events, order, (k - 1) as nat, pe, pa, last);
    }
}

impl ReplayMachine {
    /// A replay of events of `aggregate_types` that has not started.
    pub fn new(aggregate_types: Vec<String>, dry_run: bool) -> (r: ReplayMachine)
        ensures
            r@ == (ReplayMachineView {
                dry_run,
                aggregate_types: texts(aggregate_types@),
                offset: 0,
                events: Seq::empty(),
                order: Seq::empty(),
                next: 0,
                total: 0,
                processed_events: 0,
                processed_aggregates: 0,
                last_aggregate: None,
                phase: ReplayPhase::Loading,
                error: None,
                stage: ReplayStage::Loading,
            }),
            machine_wf(r@),
    {
        let r = ReplayMachine {
            dry_run,
            aggregate_types,
            offset: 0,
            events: Vec::new(),
            order: Vec::new(),
            next: 0,
            total: 0,
            processed_events: 0,
            processed_aggregates: 0,
            last_aggregate: None,
            phase: ReplayPhase::Loading,
            error: None,
            stage: ReplayStage::Loading,
        };
        assert(records(r.events@) =~= Seq::<EventRecord<JsonView>>::empty());
        assert(r.order@.map_values(|i: usize| i as int) =~= Seq::<int>::empty());
        r
    }

    /// The progress to report.
    pub fn progress(&self) -> (r: ReplayProgress)
        ensures
            r.total_events == self@.total,
            r.processed_events == self@.processed_events,
            r.processed_aggregates == self@.processed_aggregates,
            r.phase == self@.phase,
            r.is_complete == (self@.stage == ReplayStage::Done),
            crate::text::opt_text(r.error) == self@.error,
    {
        ReplayProgress {
            total_events: self.total,
            processed_events: self.processed_events,
            processed_aggregates: self.processed_aggregates,
            phase: self.phase,
            is_complete: self.stage == ReplayStage::Done,
            error: copy_opt_string(&self.error),
        }
    }

    /// The loaded event at a position, for the driver to apply.
    pub fn event(&self, i: usize) -> (r: &StoredEvent<Json>)
        requires
            i < self@.events.len(),
        ensures
            r@ == self@.events[i as int],
    {
        &self.events[i]
    }

    fn finish(&mut self, result: Result<(), ReplayError>) -> (action: ReplayAction)
        ensures
            final(self)@ == finished(old(self)@, result),
            action == ReplayAction::Finish(result),
    {
        self.stage = ReplayStage::Done;
        match &result {
            Ok(()) => {
                self.phase = ReplayPhase::Complete;
                self.error = None;
            },
            Err(ReplayError::Cancelled) => {
                self.phase = ReplayPhase::Failed;
                self.error = Some(String::from_str("Replay cancelled"));
            },
            Err(e) => {
                self.phase = ReplayPhase::Failed;
                self.error = Some(e.message());
            },
        }
        ReplayAction::Finish(result)
    }
}

/// One step of a replay: the action a report leads to, and the machine
/// after it.
pub fn replay_step(m: &mut ReplayMachine, event: ReplayEvent) -> (action: ReplayAction)
    requires
        machine_wf(old(m)@),
    ensures
        action == replay_next(old(m)@, event),
        final(m)@ == replay_after(old(m)@, event),
        machine_wf(final(m)@),
{
    let ghost e0 = event;
    if m.stage == ReplayStage::Done {
        return ReplayAction::Idle;
    }
    match event {
        ReplayEvent::Cancelled => m.finish(Err(ReplayError::Cancelled)),
        ReplayEvent::Start => {
            if m.stage == ReplayStage::Loading {
                ReplayAction::LoadPage(m.offset)
            } else {
                ReplayAction::Idle
            }
        },
        ReplayEvent::PageLoaded { events, has_more } => {
            if m.stage != ReplayStage::Loading {
                return ReplayAction::Idle;
            }
            let ghost m0 = m@;
            let relevant = relevant_events(&events, &m.aggregate_types);
            let ghost before = m.events@;
            let mut k: usize = 0;
            while k < relevant.len()
                invariant
                    k <= relevant@.len(),
                    records(m.events@) == records(before) + records(relevant@).take(k as int),
                    m.stage == ReplayStage::Loading,
                    m@ == (ReplayMachineView { events: records(m.events@), ..m0 }),
                decreases relevant@.len() - k,
            {
                let ghost prev = m.events@;
                m.events.push(relevant[k].replicate());
                proof {
                    assert(records(relevant@).take(k + 1) =~= records(relevant@).take(k as int).push(
                        relevant@[k as int]@,
                    ));
                    assert(records(m.events@) =~= records(prev).push(relevant@[k as int]@));
                }
                k = k + 1;
            }
            assert(records(relevant@).take(relevant@.len() as int) =~= records(relevant@));
            let ghost evs = records(m.events@);
            assert(evs == with_page(m0, records(events@)));
            if has_more && m.offset <= u32::MAX - REPLAY_PAGE_SIZE {
                m.offset = m.offset + REPLAY_PAGE_SIZE;
                assert(m@ == (ReplayMachineView { events: evs, offset: m.offset, ..m0 }));
                let loaded: usize = m.events.len();
                assert(evs.len() == loaded);
                assert(machine_wf(m@));
                return ReplayAction::LoadPage(m.offset);
            }
            let order = replay_sequence(&m.events);
            proof {
                crate::projections::lemma_replay_order_shape(replay_keys_of(evs), evs.len() as nat);
                assert(records(m.events@).map_values(|e: EventRecord<JsonView>| event_key(e)) == replay_keys_of(evs));
            }
            m.total = m.events.len() as u64;
            m.order = order;
            m.next = 0;
            if m.dry_run {
                m.phase = ReplayPhase::Replaying;
                let ghost ord = m@.order;
                let ghost start = m@;
                let n = m.order.len();
                let mut j: usize = 0;
                while j < n
                    invariant
                        n == m.order@.len(),
                        ord == m@.order,
                        n == evs.len(),
                        evs == m@.events,
                        forall|q: int| 0 <= q < ord.len() ==> 0 <= #[trigger] ord[q] < evs.len(),
                        j <= n,
                        m@ == (ReplayMachineView {
                            processed_events: m@.processed_events,
                            processed_aggregates: m@.processed_aggregates,
                            last_aggregate: m@.last_aggregate,
                            next: j as int,
                            ..start
                        }),
                        (m@.processed_events, m@.processed_aggregates, m@.last_aggregate) == tally(
                            evs,
                            ord,
                            j as nat,
                            0,
                            0,
                            None,
                        ),
                        start.processed_events == 0,
                        start.processed_aggregates == 0,
                        start.last_aggregate is None,
                    decreases n - j,
                {
                    proof {
                        lemma_tally_bounds(evs, ord, j as nat, 0, 0, None);
                    }
                    assert(m.order@[j as int] as int == ord[j as int]);
                    assert(m.events@.len() == evs.len());
                    let id = m.events[m.order[j]].aggregate_id;
                    assert(id == evs[ord[j as int]].aggregate_id);
                    let same = match m.last_aggregate {
                        Some(a) => a.0 == id.0,
                        None => false,
                    };
                    if !same {
                        m.processed_aggregates = m.processed_aggregates + 1;
                    }
                    m.processed_events = m.processed_events + 1;
                    m.last_aggregate = Some(id);
                    j = j + 1;
                    m.next = j;
                }
                proof {
                    lemma_tally_bounds(evs, ord, n as nat, 0, 0, None);
                }
                return m.finish(Ok(()));
            }
            m.phase = ReplayPhase::Clearing;
            m.stage = ReplayStage::Clearing;
            ReplayAction::Clear
        },
        ReplayEvent::LoadFailed(err) => {
            if m.stage == ReplayStage::Loading {
                m.finish(Err(ReplayError::EventStore(err)))
            } else {
                ReplayAction::Idle
            }
        },
        ReplayEvent::Cleared => {
            if m.stage != ReplayStage::Clearing {
                return ReplayAction::Idle;
            }
            m.phase = ReplayPhase::Replaying;
            m.stage = ReplayStage::Replaying;
            if m.order.len() == 0 {
                m.finish(Ok(()))
            } else {
                ReplayAction::Apply(m.order[0])
            }
        },
        ReplayEvent::Applied => {
            if m.stage != ReplayStage::Replaying {
                return ReplayAction::Idle;
            }
            let id = m.events[m.order[m.next]].aggregate_id;
            let same = match m.last_aggregate {
                Some(a) => a.0 == id.0,
                None => false,
            };
            if !same {
                m.processed_aggregates = m.processed_aggregates + 1;
            }
            m.processed_events = m.processed_events + 1;
            m.last_aggregate = Some(id);
            m.next = m.next + 1;
            if m.next >= m.order.len() {
                m.finish(Ok(()))
            } else {
                ReplayAction::Apply(m.order[m.next])
            }
        },
        ReplayEvent::ApplyFailed(msg) => {
            if m.stage == ReplayStage::Replaying {
                m.finish(Err(ReplayError::Projection(msg)))
            } else {
                ReplayAction::Idle
            }
        },
    }
}

/// Nothing is applied before the projection was cleared: an `Apply` comes
/// only while replaying or in answer to the report that the clear is done,
/// and replaying is entered only from that report.
pub proof fn law_no_apply_before_clear(m: ReplayMachineView, e: ReplayEvent)
    requires
        machine_wf(m),
    ensures
        replay_next(m, e) is Apply ==> m.stage == ReplayStage::Replaying || (m.stage == ReplayStage::Clearing
            && e is Cleared),
        replay_after(m, e).stage == ReplayStage::Replaying ==> m.stage == ReplayStage::Replaying || (m.stage
            == ReplayStage::Clearing && e is Cleared),
{
}

/// A dry run never clears or applies: no `Clear` or `Apply` is ever asked of
/// a machine made with `dry_run`.
pub proof fn law_dry_run_touches_nothing(m: ReplayMachineView, e: ReplayEvent)
    requires
        machine_wf(m),
        m.dry_run,
    ensures
        !(replay_next(m, e) is Clear),
        !(replay_next(m, e) is Apply),
        replay_after(m, e).dry_run,
{
}

/// The first failed apply finishes the replay as a projection failure with
/// its message, and a finished replay asks for nothing more.
pub proof fn law_first_failure_finishes(m: ReplayMachineView, msg: String, e: ReplayEvent)
    requires
        machine_wf(m),
        m.stage == ReplayStage::Replaying,
    ensures
        replay_next(m, ReplayEvent::ApplyFailed(msg)) == ReplayAction::Finish(Err(ReplayError::Projection(msg))),
        replay_after(m, ReplayEvent::ApplyFailed(msg)).stage == ReplayStage::Done,
        replay_next(replay_after(m, ReplayEvent::ApplyFailed(msg)), e) == ReplayAction::Idle,
{
}

/// The machine after `k` reports that an apply succeeded.
pub open spec fn after_applies(m: ReplayMachineView, k: nat) -> ReplayMachineView
    decreases k,
{
    if k == 0 {
        m
    } else {
        replay_after(after_applies(m, (k - 1) as nat), ReplayEvent::Applied)
    }
}

/// While every apply succeeds, the machine keeps replaying, one position of
/// its order further each time.
proof fn lemma_after_applies(m: ReplayMachineView, k: nat)
    requires
        m.stage == ReplayStage::Replaying,
        m.next == 0,
        k < m.order.len(),
    ensures
        after_applies(m, k).stage == ReplayStage::Replaying,
        after_applies(m, k).next == k,
        after_applies(m, k).order == m.order,
    decreases k,
{
    if k > 0 {
        lemma_after_applies(m, (k - 1) as nat);
    }
}

/// A replay clears once and then applies each loaded event exactly once, in
/// replay order: when the last page is loaded (not a dry run) the machine
/// asks for the clear; when the clear is done it asks for the first event of
/// its order; after each successful apply it asks for the next; after the
/// last it finishes with success. The order holds each loaded event once,
/// sorted by tenant, aggregate and sequence number.
pub proof fn law_replay_clears_then_applies_each_once(m: ReplayMachineView, events: Vec<StoredEvent<Json>>, has_more: bool)
    requires
        machine_wf(m),
        m.stage == ReplayStage::Loading,
        !m.dry_run,
        !loads_more(m, has_more),
    ensures
        ({
            let last = ReplayEvent::PageLoaded { events, has_more };
            let loaded = replay_after(m, last);
            let replaying = replay_after(loaded, ReplayEvent::Cleared);
            let n = loaded.order.len();
            &&& replay_next(m, last) == ReplayAction::Clear
            &&& loaded.stage == ReplayStage::Clearing
            &&& loaded.events == with_page(m, records(events@))
            &&& n == loaded.events.len()
            &&& forall|j: int| 0 <= j < n ==> 0 <= #[trigger] loaded.order[j] < n
            &&& forall|i: int, j: int| 0 <= i < j < n ==> #[trigger] loaded.order[i] != #[trigger] loaded.order[j]
            &&& forall|i: int, j: int|
                0 <= i < j < n ==> crate::projections::key_le(
                    event_key(#[trigger] loaded.events[loaded.order[i]]),
                    event_key(#[trigger] loaded.events[loaded.order[j]]),
                )
            &&& n == 0 ==> replay_next(loaded, ReplayEvent::Cleared) == ReplayAction::Finish(Ok(()))
                && replaying.stage == ReplayStage::Done
            &&& n > 0 ==> replay_next(loaded, ReplayEvent::Cleared) == ReplayAction::Apply(loaded.order[0] as usize)
            &&& forall|k: nat| k + 1 < n ==> replay_next(#[trigger] after_applies(replaying, k), ReplayEvent::Applied)
                == ReplayAction::Apply(loaded.order[k + 1 as int] as usize)
            &&& n > 0 ==> replay_next(after_applies(replaying, (n - 1) as nat), ReplayEvent::Applied)
                == ReplayAction::Finish(Ok(())) && after_applies(replaying, n).stage == ReplayStage::Done
        }),
{
    let last = ReplayEvent::PageLoaded { events, has_more };
    let loaded = replay_after(m, last);
    let evs = with_page(m, records(events@));
    let ks = replay_keys_of(evs);
    crate::projections::lemma_replay_order_shape(ks, evs.len() as nat);
    crate::projections::lemma_replay_order_distinct(ks, evs.len() as nat);
    crate::projections::lemma_replay_order_sorted(ks, evs.len() as nat);
    assert forall|i: int, j: int| 0 <= i < j < loaded.order.len() implies crate::projections::key_le(
        event_key(#[trigger] loaded.events[loaded.order[i]]),
        event_key(#[trigger] loaded.events[loaded.order[j]]),
    ) by {
        assert(ks[loaded.order[i]] == event_key(evs[loaded.order[i]]));
        assert(ks[loaded.order[j]] == event_key(evs[loaded.order[j]]));
    }
    assert(loaded == all_loaded(m, evs));
    let replaying = replay_after(loaded, ReplayEvent::Cleared);
    let n = loaded.order.len();
    if n > 0 {
        assert(replaying.stage == ReplayStage::Replaying && replaying.next == 0);
        assert forall|k: nat| k + 1 < n implies replay_next(#[trigger] after_applies(replaying, k), ReplayEvent::Applied)
            == ReplayAction::Apply(loaded.order[k + 1 as int] as usize) by {
            lemma_after_applies(replaying, k);
        }
        lemma_after_applies(replaying, (n - 1) as nat);
        assert(after_applies(replaying, n) == replay_after(
            after_applies(replaying, (n - 1) as nat),
            ReplayEvent::Applied,
        ));
    }
}

} // verus!
