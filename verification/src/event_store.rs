//! Append-only, tenant-scoped event store.
//!
//! A stream is identified by tenant and aggregate. Appends carry an
//! optimistic-concurrency expectation on the stream version (the sequence
//! number of its last event, 0 when empty); committed events are numbered
//! from the current version plus one; the aggregate type of a stream never
//! changes.
use vstd::prelude::*;
use vstd::string::StringExecFns;

use crate::bus::EventBus;
use crate::common::{debug_text, AggregateId, ExpectedVersion, Replicate, TenantId, Timestamp};
use crate::events::{Event, EventEnvelope};
use crate::read_model::{has_slot, lookup, same_slot, upserted, InMemoryTenantStore};
use crate::projections::{replay_order, stable_order};
use crate::text::{decimal_chars, decimal_text, opt_text, owned};

verus! {

/// An event ready to be appended, not yet numbered.
#[derive(Debug, Clone, PartialEq, Eq)]
pub struct UncommittedEvent<P> {
    pub event_id: u128,
    pub tenant_id: TenantId,
    pub aggregate_id: AggregateId,
    pub aggregate_type: String,
    pub event_type: String,
    pub event_version: u32,
    pub occurred_at: Timestamp,
    pub payload: P,
}

/// An event of a stream, with its position.
#[derive(Debug, Clone, PartialEq, Eq)]
pub struct StoredEvent<P> {
    pub event_id: u128,
    pub tenant_id: TenantId,
    pub aggregate_id: AggregateId,
    pub aggregate_type: String,
    /// Position in the stream; the first event of a stream is 1.
    pub sequence_number: u64,
    pub event_type: String,
    pub event_version: u32,
    pub occurred_at: Timestamp,
    pub payload: P,
}

/// An event to append, by view.
pub struct PendingRecord<PV> {
    pub event_id: u128,
    pub tenant_id: TenantId,
    pub aggregate_id: AggregateId,
    pub aggregate_type: Seq<char>,
    pub event_type: Seq<char>,
    pub event_version: u32,
    pub occurred_at: Timestamp,
    pub payload: PV,
}

/// A stored event, by view.
pub struct EventRecord<PV> {
    pub event_id: u128,
    pub tenant_id: TenantId,
    pub aggregate_id: AggregateId,
    pub aggregate_type: Seq<char>,
    pub sequence_number: u64,
    pub event_type: Seq<char>,
    pub event_version: u32,
    pub occurred_at: Timestamp,
    pub payload: PV,
}

impl<P: View> View for UncommittedEvent<P> {
    type V = PendingRecord<P::V>;

    open spec fn view(&self) -> PendingRecord<P::V> {
        PendingRecord {
            event_id: self.event_id,
            tenant_id: self.tenant_id,
            aggregate_id: self.aggregate_id,
            aggregate_type: self.aggregate_type@,
            event_type: self.event_type@,
            event_version: self.event_version,
            occurred_at: self.occurred_at,
            payload: self.payload@,
        }
    }
}

impl<P: View> View for StoredEvent<P> {
    type V = EventRecord<P::V>;

    open spec fn view(&self) -> EventRecord<P::V> {
        EventRecord {
            event_id: self.event_id,
            tenant_id: self.tenant_id,
            aggregate_id: self.aggregate_id,
            aggregate_type: self.aggregate_type@,
            sequence_number: self.sequence_number,
            event_type: self.event_type@,
            event_version: self.event_version,
            occurred_at: self.occurred_at,
            payload: self.payload@,
        }
    }
}

impl<P: Replicate> Replicate for StoredEvent<P> {
    fn replicate(&self) -> (r: StoredEvent<P>) {
        StoredEvent {
            event_id: self.event_id,
            tenant_id: self.tenant_id,
            aggregate_id: self.aggregate_id,
            aggregate_type: self.aggregate_type.clone(),
            sequence_number: self.sequence_number,
            event_type: self.event_type.clone(),
            event_version: self.event_version,
            occurred_at: self.occurred_at,
            payload: self.payload.replicate(),
        }
    }
}

/// The records of a list of stored events.
pub open spec fn records<P: View>(v: Seq<StoredEvent<P>>) -> Seq<EventRecord<P::V>> {
    v.map_values(|e: StoredEvent<P>| e@)
}

/// The records of a list of events to append.
pub open spec fn pending<P: View>(v: Seq<UncommittedEvent<P>>) -> Seq<PendingRecord<P::V>> {
    v.map_values(|e: UncommittedEvent<P>| e@)
}

/// A pending event committed at position `seq`.
pub open spec fn committed_at<PV>(p: PendingRecord<PV>, seq: u64) -> EventRecord<PV> {
    EventRecord {
        event_id: p.event_id,
        tenant_id: p.tenant_id,
        aggregate_id: p.aggregate_id,
        aggregate_type: p.aggregate_type,
        sequence_number: seq,
        event_type: p.event_type,
        event_version: p.event_version,
        occurred_at: p.occurred_at,
        payload: p.payload,
    }
}

/// Pending events committed at consecutive positions from `first`.
pub open spec fn numbered<PV>(events: Seq<PendingRecord<PV>>, first: int) -> Seq<EventRecord<PV>> {
    Seq::new(events.len(), |i: int| committed_at(events[i], (first + i) as u64))
}

/// The version of a stream: the position of its last event, 0 when empty.
pub open spec fn stream_version<PV>(s: Seq<EventRecord<PV>>) -> u64 {
    if s.len() == 0 {
        0
    } else {
        s.last().sequence_number
    }
}

/// The message an event store error carries.
pub open spec fn store_error_message(e: &EventStoreError) -> Seq<char> {
    match e {
        EventStoreError::Concurrency(m) => m@,
        EventStoreError::TenantIsolation(m) => m@,
        EventStoreError::AggregateTypeMismatch(m) => m@,
        EventStoreError::InvalidAppend(m) => m@,
        EventStoreError::Publish(m) => m@,
    }
}

/// The text of an event store error: what failed, then its message.
pub open spec fn store_error_display(e: &EventStoreError) -> Seq<char> {
    match e {
        EventStoreError::Concurrency(m) => "optimistic concurrency check failed: "@ + m@,
        EventStoreError::TenantIsolation(m) => "tenant isolation violation: "@ + m@,
        EventStoreError::AggregateTypeMismatch(m) => "aggregate type mismatch: "@ + m@,
        EventStoreError::InvalidAppend(m) => "invalid append: "@ + m@,
        EventStoreError::Publish(m) => "event publication failed: "@ + m@,
    }
}

/// Kind of an event store failure.
#[derive(Debug, Clone, Copy, PartialEq, Eq, Structural)]
pub enum StoreErrorKind {
    Concurrency,
    TenantIsolation,
    AggregateTypeMismatch,
    InvalidAppend,
    Publish,
}

/// Event store failure, with a message.
#[derive(Debug)]
pub enum EventStoreError {
    Concurrency(String),
    TenantIsolation(String),
    AggregateTypeMismatch(String),
    InvalidAppend(String),
    Publish(String),
}

impl EventStoreError {
    pub open spec fn spec_kind(&self) -> StoreErrorKind {
        match self {
            EventStoreError::Concurrency(_) => StoreErrorKind::Concurrency,
            EventStoreError::TenantIsolation(_) => StoreErrorKind::TenantIsolation,
            EventStoreError::AggregateTypeMismatch(_) => StoreErrorKind::AggregateTypeMismatch,
            EventStoreError::InvalidAppend(_) => StoreErrorKind::InvalidAppend,
            EventStoreError::Publish(_) => StoreErrorKind::Publish,
        }
    }

    pub fn kind(&self) -> (r: StoreErrorKind)
        ensures
            r == self.spec_kind(),
    {
        match self {
            EventStoreError::Concurrency(_) => StoreErrorKind::Concurrency,
            EventStoreError::TenantIsolation(_) => StoreErrorKind::TenantIsolation,
            EventStoreError::AggregateTypeMismatch(_) => StoreErrorKind::AggregateTypeMismatch,
            EventStoreError::InvalidAppend(_) => StoreErrorKind::InvalidAppend,
            EventStoreError::Publish(_) => StoreErrorKind::Publish,
        }
    }

    /// The message.
    pub fn message(&self) -> (r: &str)
        ensures
            r@ == store_error_message(self),
    {
        match self {
            EventStoreError::Concurrency(m) => m.as_str(),
            EventStoreError::TenantIsolation(m) => m.as_str(),
            EventStoreError::AggregateTypeMismatch(m) => m.as_str(),
            EventStoreError::InvalidAppend(m) => m.as_str(),
            EventStoreError::Publish(m) => m.as_str(),
        }
    }

    /// The error's text.
    pub fn display_text(&self) -> (r: String)
        ensures
            r@ == store_error_display(self),
    {
        match self {
            EventStoreError::Concurrency(m) => String::from_str("optimistic concurrency check failed: ").concat(m.as_str()),
            EventStoreError::TenantIsolation(m) => String::from_str("tenant isolation violation: ").concat(m.as_str()),
            EventStoreError::AggregateTypeMismatch(m) => String::from_str("aggregate type mismatch: ").concat(m.as_str()),
            EventStoreError::InvalidAppend(m) => String::from_str("invalid append: ").concat(m.as_str()),
            EventStoreError::Publish(m) => String::from_str("event publication failed: ").concat(m.as_str()),
        }
    }
}

/// The text of a batch refused at `idx` for holding more than one `what`.
pub(crate) fn batch_message(what: &str, idx: usize) -> (r: String)
    ensures
        r@ == "batch contains multiple "@ + what@ + " (index "@ + decimal_chars(idx as nat) + ")"@,
{
    String::from_str("batch contains multiple ").concat(what).concat(" (index ").concat(
        decimal_text(idx as u64).as_str(),
    ).concat(")")
}

/// An expectation as its `Debug` form writes it.
pub open spec fn expected_version_text(e: ExpectedVersion) -> Seq<char> {
    match e {
        ExpectedVersion::Any => "Any"@,
        ExpectedVersion::Exact(v) => "Exact("@ + decimal_chars(v as nat) + ")"@,
    }
}

/// The text of a version conflict: what was expected, what was found.
pub(crate) fn concurrency_message(expected: ExpectedVersion, current: u64) -> (r: String)
    ensures
        r@ == "expected "@ + expected_version_text(expected) + ", found "@ + decimal_chars(current as nat),
{
    let shown = match expected {
        ExpectedVersion::Any => String::from_str("Any"),
        ExpectedVersion::Exact(v) => String::from_str("Exact(").concat(decimal_text(v).as_str()).concat(")"),
    };
    String::from_str("expected ").concat(shown.as_str()).concat(", found ").concat(decimal_text(current).as_str())
}

/// The text of an append whose aggregate type differs from its stream's.
pub(crate) fn type_message(existing: &str, attempted: &str) -> (r: String)
    ensures
        r@ == "stream aggregate_type is '"@ + existing@ + "', attempted append with '"@ + attempted@ + "'"@,
{
    String::from_str("stream aggregate_type is '").concat(existing).concat("', attempted append with '").concat(
        attempted,
    ).concat("'")
}

/// What is wrong with one event of a batch led by `head`, in the order
/// tenant, aggregate, aggregate type.
pub open spec fn mismatch<PV>(head: PendingRecord<PV>, e: PendingRecord<PV>) -> Option<StoreErrorKind> {
    if e.tenant_id != head.tenant_id {
        Some(StoreErrorKind::TenantIsolation)
    } else if e.aggregate_id != head.aggregate_id {
        Some(StoreErrorKind::InvalidAppend)
    } else if e.aggregate_type != head.aggregate_type {
        Some(StoreErrorKind::AggregateTypeMismatch)
    } else {
        None
    }
}

/// The first problem among the first `n` events of a batch.
pub open spec fn batch_fault<PV>(events: Seq<PendingRecord<PV>>, n: nat) -> Option<StoreErrorKind>
    decreases n,
{
    if n == 0 {
        None
    } else {
        match batch_fault(events, (n - 1) as nat) {
            Some(k) => Some(k),
            None => mismatch(events[0], events[n - 1]),
        }
    }
}

pub proof fn lemma_batch_fault_stays<PV>(events: Seq<PendingRecord<PV>>, m: nat, n: nat)
    requires
        m <= n,
        batch_fault(events, m) is Some,
    ensures
        batch_fault(events, n) == batch_fault(events, m),
    decreases n,
{
    if n > m {
        lemma_batch_fault_stays(events, m, (n - 1) as nat);
    }
}

/// The first problem among the first `n` events of a batch, with the
/// position of the event that shows it.
pub open spec fn batch_fault_at<PV>(events: Seq<PendingRecord<PV>>, n: nat) -> Option<(StoreErrorKind, int)>
    decreases n,
{
    if n == 0 {
        None
    } else {
        match batch_fault_at(events, (n - 1) as nat) {
            Some(f) => Some(f),
            None => match mismatch(events[0], events[n - 1]) {
                Some(k) => Some((k, n - 1)),
                None => None,
            },
        }
    }
}

/// The positioned fault and the fault agree on the kind.
pub proof fn lemma_batch_fault_at<PV>(events: Seq<PendingRecord<PV>>, n: nat)
    ensures
        match batch_fault_at(events, n) {
            Some((k, i)) => batch_fault(events, n) == Some(k) && 0 <= i < n,
            None => batch_fault(events, n) is None,
        },
    decreases n,
{
    if n > 0 {
        lemma_batch_fault_at(events, (n - 1) as nat);
    }
}

proof fn lemma_batch_fault_at_stays<PV>(events: Seq<PendingRecord<PV>>, m: nat, n: nat)
    requires
        m <= n,
        batch_fault_at(events, m) is Some,
    ensures
        batch_fault_at(events, n) == batch_fault_at(events, m),
    decreases n,
{
    if n > m {
        lemma_batch_fault_at_stays(events, m, (n - 1) as nat);
    }
}

/// The field a batch fault of `kind` names.
pub open spec fn fault_field(kind: StoreErrorKind) -> Seq<char> {
    match kind {
        StoreErrorKind::TenantIsolation => "tenant_ids"@,
        StoreErrorKind::InvalidAppend => "aggregate_ids"@,
        _ => "aggregate_types"@,
    }
}

/// How a store in memory refuses a batch for the stream `cur`: the first
/// mixed field and its position, else the version conflict, else the type
/// mismatch.
pub open spec fn memory_refusal<PV>(
    cur: Seq<EventRecord<PV>>,
    events: Seq<PendingRecord<PV>>,
    expected: ExpectedVersion,
) -> (StoreErrorKind, Seq<char>) {
    match batch_fault_at(events, events.len()) {
        Some((k, i)) => (k, "batch contains multiple "@ + fault_field(k) + " (index "@ + decimal_chars(i as nat) + ")"@),
        None => if !expected.spec_matches(stream_version(cur)) {
            (
                StoreErrorKind::Concurrency,
                "expected "@ + expected_version_text(expected) + ", found "@ + decimal_chars(stream_version(cur) as nat),
            )
        } else {
            (
                StoreErrorKind::AggregateTypeMismatch,
                "stream aggregate_type is '"@ + cur[0].aggregate_type + "', attempted append with '"@
                    + events[0].aggregate_type + "'"@,
            )
        },
    }
}

pub proof fn lemma_batch_fault_kinds<PV>(events: Seq<PendingRecord<PV>>, n: nat)
    ensures
        batch_fault(events, n) matches Some(k) ==> k == StoreErrorKind::TenantIsolation || k
            == StoreErrorKind::InvalidAppend || k == StoreErrorKind::AggregateTypeMismatch,
    decreases n,
{
    if n > 0 {
        lemma_batch_fault_kinds(events, (n - 1) as nat);
    }
}

/// The outcome of an append, by kind: `Ok(first position)` or the failure.
/// Checks run in order: batch uniformity, the concurrency expectation on
/// the current version, then the stream's aggregate type.
pub open spec fn append_decision<PV>(
    cur: Seq<EventRecord<PV>>,
    events: Seq<PendingRecord<PV>>,
    expected: ExpectedVersion,
) -> Result<u64, StoreErrorKind> {
    match batch_fault(events, events.len()) {
        Some(k) => Err(k),
        None => if !expected.spec_matches(stream_version(cur)) {
            Err(StoreErrorKind::Concurrency)
        } else if cur.len() > 0 && cur[0].aggregate_type != events[0].aggregate_type {
            Err(StoreErrorKind::AggregateTypeMismatch)
        } else {
            Ok((stream_version(cur) + 1) as u64)
        },
    }
}

/// The streams of a store, as a function of tenant and aggregate.
pub type Streams<PV> = spec_fn(TenantId, AggregateId) -> Seq<EventRecord<PV>>;

/// No stream changed.
pub open spec fn unchanged<PV>(before: Streams<PV>, after: Streams<PV>) -> bool {
    forall|t: TenantId, a: AggregateId| #[trigger] after(t, a) == before(t, a)
}

/// A successful append of `events` that committed `committed`: the batch
/// was uniform (one tenant, aggregate and aggregate type), the expectation
/// held on the stream's version, the stream's type is the batch's, and the
/// events were committed at the next positions; other streams are untouched.
/// An empty batch commits nothing and changes nothing.
pub open spec fn appended<PV>(
    before: Streams<PV>,
    after: Streams<PV>,
    events: Seq<PendingRecord<PV>>,
    expected: ExpectedVersion,
    committed: Seq<EventRecord<PV>>,
) -> bool {
    if events.len() == 0 {
        committed.len() == 0 && unchanged(before, after)
    } else {
        let t = events[0].tenant_id;
        let a = events[0].aggregate_id;
        let cur = before(t, a);
        &&& append_decision(cur, events, expected) == Ok::<u64, StoreErrorKind>(
            (stream_version(cur) + 1) as u64,
        )
        &&& committed == numbered(events, stream_version(cur) + 1)
        &&& after(t, a) == cur + committed
        &&& forall|t2: TenantId, a2: AggregateId|
            (t2, a2) != (t, a) ==> #[trigger] after(t2, a2) == before(t2, a2)
    }
}

/// What an append of `events` commits when it succeeds.
pub open spec fn to_commit<PV>(before: Streams<PV>, events: Seq<PendingRecord<PV>>) -> Seq<EventRecord<PV>> {
    if events.len() == 0 {
        Seq::empty()
    } else {
        numbered(events, stream_version(before(events[0].tenant_id, events[0].aggregate_id)) + 1)
    }
}

/// A successful append on a store, from `before` to `after`.
pub open spec fn store_appended<P: View, S: EventStore<P>>(
    before: S,
    after: S,
    events: Seq<PendingRecord<P::V>>,
    expected: ExpectedVersion,
    committed: Seq<EventRecord<P::V>>,
) -> bool {
    appended(before.spec_streams(), after.spec_streams(), events, expected, committed)
}

/// No stream of a store changed from `before` to `after`.
pub open spec fn store_unchanged<P: View, S: EventStore<P>>(before: S, after: S) -> bool {
    unchanged(before.spec_streams(), after.spec_streams())
}

/// An append-only store of tenant-scoped event streams.
pub trait EventStore<P: View> {
    /// The streams, by tenant and aggregate.
    spec fn spec_streams(&self) -> Streams<P::V>;

    /// Whether the store takes a batch expecting a version: the append
    /// itself succeeds (what follows it, such as publishing, may still fail).
    spec fn spec_accepts(&self, events: Seq<PendingRecord<P::V>>, expected: ExpectedVersion) -> bool;

    /// How the store refuses a batch it does not take: the kind and the
    /// message of its error.
    spec fn spec_refusal(&self, events: Seq<PendingRecord<P::V>>, expected: ExpectedVersion) -> (StoreErrorKind, Seq<char>);

    /// Append a batch to one stream. A failure changes nothing, except a
    /// failure to publish, which comes after a successful append. A batch
    /// the store takes is appended; one it refuses fails as such.
    fn append(&mut self, events: Vec<UncommittedEvent<P>>, expected_version: ExpectedVersion) -> (r:
        Result<Vec<StoredEvent<P>>, EventStoreError>)
        requires
            events@.len() > 0 ==> stream_version(
                old(self).spec_streams()(events@[0].tenant_id, events@[0].aggregate_id),
            ) + events@.len() < u64::MAX,
        ensures
            old(self).spec_accepts(pending(events@), expected_version) ==> (r is Ok || (r matches Err(e)
                && e.spec_kind() == StoreErrorKind::Publish)),
            !old(self).spec_accepts(pending(events@), expected_version) ==> (r matches Err(e) && e.spec_kind()
                != StoreErrorKind::Publish && (e.spec_kind(), store_error_message(&e)) == old(self).spec_refusal(
                pending(events@),
                expected_version,
            )),
            match r {
                Ok(c) => appended(
                    old(self).spec_streams(),
                    final(self).spec_streams(),
                    pending(events@),
                    expected_version,
                    records(c@),
                ),
                Err(e) => if e.spec_kind() == StoreErrorKind::Publish {
                    appended(
                        old(self).spec_streams(),
                        final(self).spec_streams(),
                        pending(events@),
                        expected_version,
                        to_commit(old(self).spec_streams(), pending(events@)),
                    )
                } else {
                    unchanged(old(self).spec_streams(), final(self).spec_streams())
                },
            },
    ;

    /// Whether the store can read the stream of a tenant and aggregate.
    spec fn spec_can_load(&self, tenant_id: TenantId, aggregate_id: AggregateId) -> bool;

    /// Load the stream of a tenant and aggregate: its events in order, when
    /// the store can read it.
    fn load_stream(&self, tenant_id: TenantId, aggregate_id: AggregateId) -> (r: Result<
        Vec<StoredEvent<P>>,
        EventStoreError,
    >)
        ensures
            r is Ok <==> self.spec_can_load(tenant_id, aggregate_id),
            r matches Ok(v) ==> records(v@) == self.spec_streams()(tenant_id, aggregate_id),
    ;
}

/// A stream as stored in memory.
#[derive(Debug)]
pub struct EventStream<P> {
    events: Vec<StoredEvent<P>>,
}

impl<P: View> View for EventStream<P> {
    type V = Seq<EventRecord<P::V>>;

    closed spec fn view(&self) -> Seq<EventRecord<P::V>> {
        records(self.events@)
    }
}

fn copy_events<P: Replicate>(v: &Vec<StoredEvent<P>>) -> (r: Vec<StoredEvent<P>>)
    ensures
        records(r@) == records(v@),
{
    let mut out: Vec<StoredEvent<P>> = Vec::new();
    let mut i: usize = 0;
    while i < v.len()
        invariant
            i <= v@.len(),
            records(out@) == records(v@).take(i as int),
        decreases v@.len() - i,
    {
        let ghost before = out@;
        out.push(v[i].replicate());
        proof {
            assert(records(out@) =~= records(before).push(v@[i as int]@));
            assert(records(v@).take(i + 1) =~= records(v@).take(i as int).push(v@[i as int]@));
        }
        i = i + 1;
    }
    assert(records(v@).take(v@.len() as int) =~= records(v@));
    out
}

impl<P: Replicate> Replicate for EventStream<P> {
    fn replicate(&self) -> (r: EventStream<P>) {
        EventStream { events: copy_events(&self.events) }
    }
}

/// The stream stored under `(t, a)`, empty if none.
pub open spec fn stream_of<PV>(
    entries: Seq<(TenantId, AggregateId, Seq<EventRecord<PV>>)>,
    t: TenantId,
    a: AggregateId,
) -> Seq<EventRecord<PV>> {
    match lookup(entries, t, a) {
        Some(s) => s,
        None => Seq::empty(),
    }
}

/// The streams after making sure `(t, a)` has an entry.
pub open spec fn with_stream<PV>(
    entries: Seq<(TenantId, AggregateId, Seq<EventRecord<PV>>)>,
    t: TenantId,
    a: AggregateId,
) -> Seq<(TenantId, AggregateId, Seq<EventRecord<PV>>)> {
    if has_slot(entries, t, a) {
        entries
    } else {
        entries.push((t, a, Seq::empty()))
    }
}

/// In-memory event store.
#[derive(Debug)]
pub struct InMemoryEventStore<P> {
    streams: InMemoryTenantStore<AggregateId, EventStream<P>>,
}

impl<P: Replicate> InMemoryEventStore<P> {
    /// The streams in the order they were first touched.
    pub closed spec fn spec_entries(&self) -> Seq<(TenantId, AggregateId, Seq<EventRecord<P::V>>)> {
        self.streams.entries()
    }

    pub fn new() -> (r: Self)
        ensures
            r.spec_entries() == Seq::<(TenantId, AggregateId, Seq<EventRecord<P::V>>)>::empty(),
    {
        InMemoryEventStore { streams: InMemoryTenantStore::new() }
    }

    fn stream_copy(&self, tenant_id: TenantId, aggregate_id: AggregateId) -> (r: Vec<StoredEvent<P>>)
        ensures
            records(r@) == stream_of(self.spec_entries(), tenant_id, aggregate_id),
    {
        match self.streams.get(tenant_id, &aggregate_id) {
            Some(s) => {
                let v = s.events;
                assert(records(v@) == s@);
                v
            },
            None => {
                let v: Vec<StoredEvent<P>> = Vec::new();
                assert(records(v@) =~= Seq::<EventRecord<P::V>>::empty());
                v
            },
        }
    }

    /// The first problem of a batch, by index: (kind, index).
    fn check_batch(events: &Vec<UncommittedEvent<P>>) -> (r: Option<(StoreErrorKind, usize)>)
        requires
            events@.len() > 0,
        ensures
            match r {
                Some((k, i)) => batch_fault(pending(events@), events@.len() as nat) == Some(k)
                    && batch_fault_at(pending(events@), events@.len() as nat) == Some((k, i as int)),
                None => batch_fault(pending(events@), events@.len() as nat) is None,
            },
    {
        let ghost ps = pending(events@);
        let mut i: usize = 0;
        while i < events.len()
            invariant
                i <= events@.len(),
                events@.len() > 0,
                ps == pending(events@),
                batch_fault(ps, i as nat) is None,
                batch_fault_at(ps, i as nat) is None,
            decreases events@.len() - i,
        {
            let e = &events[i];
            let head = &events[0];
            assert(ps[i as int] == e@ && ps[0] == head@);
            let found = if e.tenant_id != head.tenant_id {
                Some(StoreErrorKind::TenantIsolation)
            } else if e.aggregate_id != head.aggregate_id {
                Some(StoreErrorKind::InvalidAppend)
            } else if e.aggregate_type != head.aggregate_type {
                Some(StoreErrorKind::AggregateTypeMismatch)
            } else {
                None
            };
            assert(found == mismatch(ps[0], ps[i as int]));
            assert(batch_fault(ps, (i + 1) as nat) == found);
            match found {
                Some(k) => {
                    proof {
                        lemma_batch_fault_stays(ps, (i + 1) as nat, events@.len() as nat);
                        assert(batch_fault_at(ps, (i + 1) as nat) == Some((k, i as int)));
                        lemma_batch_fault_at_stays(ps, (i + 1) as nat, events@.len() as nat);
                    }
                    return Some((k, i));
                },
                None => {},
            }
            i = i + 1;
        }
        None
    }

    /// Every event of a tenant: its streams in order, each in stream order.
    pub fn tenant_events(&self, tenant_id: TenantId) -> (r: Vec<StoredEvent<P>>)
        ensures
            records(r@) == tenant_events_of(self.spec_entries(), tenant_id),
    {
        let streams = self.streams.list(tenant_id);
        let ghost ss = streams@.map_values(|s: EventStream<P>| s@);
        proof {
            lemma_tenant_events_rows(self.spec_entries(), tenant_id);
        }
        let mut out: Vec<StoredEvent<P>> = Vec::new();
        let mut i: usize = 0;
        while i < streams.len()
            invariant
                i <= streams@.len(),
                ss == streams@.map_values(|s: EventStream<P>| s@),
                records(out@) == flatten(ss.take(i as int)),
            decreases streams@.len() - i,
        {
            proof {
                assert(ss.take(i + 1).drop_last() =~= ss.take(i as int));
            }
            let s = &streams[i];
            let mut j: usize = 0;
            let ghost base = records(out@);
            while j < s.events.len()
                invariant
                    j <= s.events@.len(),
                    records(out@) == base + records(s.events@).take(j as int),
                decreases s.events@.len() - j,
            {
                let ghost before = out@;
                out.push(s.events[j].replicate());
                proof {
                    assert(records(out@) =~= records(before).push(s.events@[j as int]@));
                    assert(records(s.events@).take(j + 1) =~= records(s.events@).take(j as int).push(
                        s.events@[j as int]@,
                    ));
                }
                j = j + 1;
            }
            proof {
                assert(records(s.events@).take(s.events@.len() as int) =~= records(s.events@));
                assert(ss[i as int] == records(s.events@));
            }
            i = i + 1;
        }
        assert(ss.take(ss.len() as int) =~= ss);
        out
    }
}

/// Writing a new key twice is writing it once with the second value.
pub proof fn lemma_upserted_twice<PV>(
    s: Seq<(TenantId, AggregateId, PV)>,
    t: TenantId,
    a: AggregateId,
    v1: PV,
    v2: PV,
)
    requires
        !has_slot(s, t, a),
    ensures
        upserted(upserted(s, t, a, v1), t, a, v2) == upserted(s, t, a, v2),
{
    let s1 = s.push((t, a, v1));
    assert(same_slot(s1[s.len() as int], t, a));
    assert(has_slot(s1, t, a));
    crate::read_model::lemma_first_slot_exists(s1, t, a);
    let f = crate::read_model::first_slot(s1, t, a);
    if f < s.len() {
        assert(s1[f] == s[f]);
        assert(same_slot(s[f], t, a));
    }
    assert(f == s.len());
    assert(s1.update(f, (t, a, v2)) =~= s.push((t, a, v2)));
}

/// Page size and position of a query.
#[derive(Debug, Clone, Copy, PartialEq, Eq, Structural)]
pub struct Pagination {
    /// Largest number of events returned.
    pub limit: u32,
    /// How many matching events to skip.
    pub offset: u32,
}

impl Default for Pagination {
    fn default() -> (r: Pagination)
        ensures
            r == (Pagination { limit: 50, offset: 0 }),
    {
        Pagination { limit: 50, offset: 0 }
    }
}

impl Pagination {
    /// A page of `limit` events (50 by default, at most 1000) after `offset`
    /// (0 by default).
    pub fn new(limit: Option<u32>, offset: Option<u32>) -> (r: Pagination)
        ensures
            r.limit == match limit {
                Some(l) => if l < 1000 {
                    l
                } else {
                    1000
                },
                None => 50,
            },
            r.offset == match offset {
                Some(o) => o,
                None => 0,
            },
    {
        let l = match limit {
            Some(l) => l,
            None => 50,
        };
        Pagination {
            limit: if l < 1000 {
                l
            } else {
                1000
            },
            offset: match offset {
                Some(o) => o,
                None => 0,
            },
        }
    }
}

/// Which events a query selects; every criterion left out selects all.
#[derive(Debug, Clone, PartialEq, Eq)]
pub struct EventFilter {
    pub aggregate_id: Option<AggregateId>,
    pub aggregate_type: Option<String>,
    pub event_type: Option<String>,
    /// Only events that occurred at or after this time.
    pub occurred_after: Option<Timestamp>,
    /// Only events that occurred at or before this time.
    pub occurred_before: Option<Timestamp>,
}

/// A filter, by view.
pub struct FilterView {
    pub aggregate_id: Option<AggregateId>,
    pub aggregate_type: Option<Seq<char>>,
    pub event_type: Option<Seq<char>>,
    pub occurred_after: Option<Timestamp>,
    pub occurred_before: Option<Timestamp>,
}

impl View for EventFilter {
    type V = FilterView;

    open spec fn view(&self) -> FilterView {
        FilterView {
            aggregate_id: self.aggregate_id,
            aggregate_type: opt_text(self.aggregate_type),
            event_type: opt_text(self.event_type),
            occurred_after: self.occurred_after,
            occurred_before: self.occurred_before,
        }
    }
}

impl Default for EventFilter {
    fn default() -> (r: EventFilter)
        ensures
            r.aggregate_id is None && r.aggregate_type is None && r.event_type is None
                && r.occurred_after is None && r.occurred_before is None,
    {
        EventFilter {
            aggregate_id: None,
            aggregate_type: None,
            event_type: None,
            occurred_after: None,
            occurred_before: None,
        }
    }
}

/// Whether an event meets every criterion of a filter.
pub open spec fn selected<PV>(e: EventRecord<PV>, f: FilterView) -> bool {
    &&& (f.aggregate_id matches Some(a) ==> e.aggregate_id == a)
    &&& (f.aggregate_type matches Some(t) ==> e.aggregate_type == t)
    &&& (f.event_type matches Some(t) ==> e.event_type == t)
    &&& (f.occurred_after matches Some(after) ==> e.occurred_at.0 >= after.0)
    &&& (f.occurred_before matches Some(before) ==> e.occurred_at.0 <= before.0)
}

/// Selects the events that meet a filter.
pub open spec fn filter_of<PV>(f: FilterView) -> spec_fn(EventRecord<PV>) -> bool {
    |e: EventRecord<PV>| selected(e, f)
}

/// Query order key: later events first, then by position.
pub open spec fn query_key<PV>(e: EventRecord<PV>) -> (u128, u128, u64) {
    ((0x7fff_ffff_ffff_ffffint - e.occurred_at.0) as u128, 0u128, e.sequence_number)
}

/// Events in query order: most recent first, equal times by position, and
/// otherwise in the order given.
pub open spec fn query_sorted<PV>(evs: Seq<EventRecord<PV>>) -> Seq<EventRecord<PV>> {
    let order = replay_order(evs.map_values(|e: EventRecord<PV>| query_key(e)), evs.len());
    order.map_values(|i: int| evs[i])
}

/// The page of `s` that a pagination selects.
pub open spec fn page<A>(s: Seq<A>, p: Pagination) -> Seq<A> {
    let start = if p.offset <= s.len() {
        p.offset as int
    } else {
        s.len() as int
    };
    let end = if p.offset + p.limit <= s.len() {
        p.offset + p.limit
    } else {
        s.len() as int
    };
    s.subrange(start, end)
}

/// A page of query results.
#[derive(Debug)]
pub struct EventQueryResult<P> {
    /// The events of the page.
    pub events: Vec<StoredEvent<P>>,
    /// How many events matched, over all pages.
    pub total: u64,
    pub pagination: Pagination,
    /// Whether matching events lie beyond this page.
    pub has_more: bool,
}

/// The events of `v` at positions `page(0..len)`.
fn page_of<P: Replicate>(v: &Vec<StoredEvent<P>>, p: Pagination) -> (r: Vec<StoredEvent<P>>)
    ensures
        records(r@) == page(records(v@), p),
{
    let n = v.len();
    let start: usize = if (p.offset as usize) <= n {
        p.offset as usize
    } else {
        n
    };
    let end: usize = if (p.offset as u64 + p.limit as u64) <= n as u64 {
        (p.offset as u64 + p.limit as u64) as usize
    } else {
        n
    };
    let mut out: Vec<StoredEvent<P>> = Vec::new();
    let mut i: usize = start;
    while i < end
        invariant
            start <= i <= end || (end < start && i == start),
            end <= n,
            n == v@.len(),
            start <= n,
            records(out@) == records(v@).subrange(start as int, i as int),
        decreases end - i,
    {
        let ghost before = out@;
        out.push(v[i].replicate());
        proof {
            assert(records(out@) =~= records(before).push(v@[i as int]@));
            assert(records(v@).subrange(start as int, i + 1) =~= records(v@).subrange(
                start as int,
                i as int,
            ).push(v@[i as int]@));
        }
        i = i + 1;
    }
    proof {
        if end < start {
            assert(records(out@) =~= page(records(v@), p));
        }
    }
    out
}

/// Read-only, tenant-scoped queries over stored events, one page at a time.
pub trait EventQuery<P> {
    /// The tenant's events that match `filter`, newest first, one page.
    fn query_events(&self, tenant_id: TenantId, filter: &EventFilter, pagination: Pagination) -> (r: Result<
        EventQueryResult<P>,
        EventStoreError,
    >)
        requires
            pagination.offset + pagination.limit <= u32::MAX,
    ;

    /// One page of a stream's events, by position (50 from the start by
    /// default).
    fn get_aggregate_events(
        &self,
        tenant_id: TenantId,
        aggregate_id: AggregateId,
        pagination: Option<Pagination>,
    ) -> (r: Result<EventQueryResult<P>, EventStoreError>)
        requires
            pagination matches Some(p) ==> p.offset + p.limit <= u32::MAX,
    ;

    /// The tenant's event with this id, if any.
    fn get_event_by_id(&self, tenant_id: TenantId, event_id: u128) -> (r: Result<
        Option<StoredEvent<P>>,
        EventStoreError,
    >);
}

impl<P: Replicate> EventQuery<P> for InMemoryEventStore<P> {
    fn query_events(&self, tenant_id: TenantId, filter: &EventFilter, pagination: Pagination) -> (r: Result<
        EventQueryResult<P>,
        EventStoreError,
    >)
        ensures
            r matches Ok(q) && {
                let matching = tenant_events_of(self.spec_entries(), tenant_id).filter(filter_of(filter@));
                &&& records(q.events@) == page(query_sorted(matching), pagination)
                &&& q.total == matching.len()
                &&& q.pagination == pagination
                &&& q.has_more == (matching.len() > pagination.offset + pagination.limit)
            },
    {
        InMemoryEventStore::query_events(self, tenant_id, filter, pagination)
    }

    fn get_aggregate_events(
        &self,
        tenant_id: TenantId,
        aggregate_id: AggregateId,
        pagination: Option<Pagination>,
    ) -> (r: Result<EventQueryResult<P>, EventStoreError>)
        ensures
            r matches Ok(q) && {
                let p = match pagination {
                    Some(p) => p,
                    None => Pagination { limit: 50, offset: 0 },
                };
                let all = self.spec_streams()(tenant_id, aggregate_id);
                &&& records(q.events@) == page(all, p)
                &&& q.total == all.len()
                &&& q.pagination == p
                &&& q.has_more == (all.len() > p.offset + p.limit)
            },
    {
        InMemoryEventStore::get_aggregate_events(self, tenant_id, aggregate_id, pagination)
    }

    fn get_event_by_id(&self, tenant_id: TenantId, event_id: u128) -> (r: Result<
        Option<StoredEvent<P>>,
        EventStoreError,
    >)
        ensures
            r matches Ok(found) && {
                let hits = tenant_events_of(self.spec_entries(), tenant_id).filter(
                    |e: EventRecord<P::V>| e.event_id == event_id,
                );
                match found {
                    Some(e) => hits.len() > 0 && e@ == hits[0],
                    None => hits.len() == 0,
                }
            },
    {
        InMemoryEventStore::get_event_by_id(self, tenant_id, event_id)
    }
}

impl<P: Replicate> InMemoryEventStore<P> {
    /// The events of one stream, a page at a time in stream order.
    pub fn get_aggregate_events(
        &self,
        tenant_id: TenantId,
        aggregate_id: AggregateId,
        pagination: Option<Pagination>,
    ) -> (r: Result<EventQueryResult<P>, EventStoreError>)
        requires
            pagination matches Some(p) ==> p.offset + p.limit <= u32::MAX,
        ensures
            r matches Ok(q) && {
                let p = match pagination {
                    Some(p) => p,
                    None => Pagination { limit: 50, offset: 0 },
                };
                let all = self.spec_streams()(tenant_id, aggregate_id);
                &&& records(q.events@) == page(all, p)
                &&& q.total == all.len()
                &&& q.pagination == p
                &&& q.has_more == (all.len() > p.offset + p.limit)
            },
    {
        let all = self.stream_copy(tenant_id, aggregate_id);
        let p = match pagination {
            Some(p) => p,
            None => Pagination::default(),
        };
        let total = all.len() as u64;
        let events = page_of(&all, p);
        let has_more = total > (p.offset + p.limit) as u64;
        Ok(EventQueryResult { events, total, pagination: p, has_more })
    }

    /// The first event of a tenant with the given id, its streams taken in
    /// order.
    pub fn get_event_by_id(&self, tenant_id: TenantId, event_id: u128) -> (r: Result<
        Option<StoredEvent<P>>,
        EventStoreError,
    >)
        ensures
            r matches Ok(found) && {
                let hits = tenant_events_of(self.spec_entries(), tenant_id).filter(
                    |e: EventRecord<P::V>| e.event_id == event_id,
                );
                match found {
                    Some(e) => hits.len() > 0 && e@ == hits[0],
                    None => hits.len() == 0,
                }
            },
    {
        let all = self.tenant_events(tenant_id);
        let ghost rs = records(all@);
        let ghost p = |e: EventRecord<P::V>| e.event_id == event_id;
        let mut i: usize = 0;
        while i < all.len()
            invariant
                i <= all@.len(),
                rs == records(all@),
                rs == tenant_events_of(self.spec_entries(), tenant_id),
                p == (|e: EventRecord<P::V>| e.event_id == event_id),
                rs.take(i as int).filter(p).len() == 0,
            decreases all@.len() - i,
        {
            proof {
                assert(rs.take(i + 1) =~= rs.take(i as int).push(rs[i as int]));
                rs.take(i as int).lemma_filter_push(rs[i as int], p);
            }
            if all[i].event_id == event_id {
                proof {
                    assert(rs[i as int] == all@[i as int]@);
                    assert(p(rs[i as int]));
                    assert(rs =~= rs.take(i + 1) + rs.skip(i + 1));
                    Seq::filter_distributes_over_add(rs.take(i + 1), rs.skip(i + 1), p);
                    assert(rs.take(i + 1).filter(p) =~= seq![rs[i as int]]);
                    assert(rs.filter(p) == seq![rs[i as int]] + rs.skip(i + 1).filter(p));
                    assert(rs.filter(p)[0] == rs[i as int]);
                }
                return Ok(Some(all[i].replicate()));
            }
            i = i + 1;
        }
        assert(rs.take(rs.len() as int) =~= rs);
        Ok(None)
    }

    /// Events of a tenant that meet a filter, most recent first (equal times
    /// by position), a page at a time.
    pub fn query_events(&self, tenant_id: TenantId, filter: &EventFilter, pagination: Pagination) -> (r:
        Result<EventQueryResult<P>, EventStoreError>)
        requires
            pagination.offset + pagination.limit <= u32::MAX,
        ensures
            r matches Ok(q) && {
                let matching = tenant_events_of(self.spec_entries(), tenant_id).filter(
                    filter_of(filter@),
                );
                &&& records(q.events@) == page(query_sorted(matching), pagination)
                &&& q.total == matching.len()
                &&& q.pagination == pagination
                &&& q.has_more == (matching.len() > pagination.offset + pagination.limit)
            },
    {
        let all = self.tenant_events(tenant_id);
        let ghost rs = records(all@);
        let ghost f = filter@;
        let mut matching: Vec<StoredEvent<P>> = Vec::new();
        let mut i: usize = 0;
        while i < all.len()
            invariant
                i <= all@.len(),
                rs == records(all@),
                f == filter@,
                records(matching@) == rs.take(i as int).filter(filter_of(f)),
            decreases all@.len() - i,
        {
            let e = &all[i];
            proof {
                assert(rs.take(i + 1) =~= rs.take(i as int).push(rs[i as int]));
                rs.take(i as int).lemma_filter_push(rs[i as int], filter_of(f));
                assert(rs[i as int] == e@);
            }
            let keep = (match filter.aggregate_id {
                Some(a) => e.aggregate_id == a,
                None => true,
            }) && (match &filter.aggregate_type {
                Some(t) => e.aggregate_type == *t,
                None => true,
            }) && (match &filter.event_type {
                Some(t) => e.event_type == *t,
                None => true,
            }) && (match filter.occurred_after {
                Some(after) => e.occurred_at.0 >= after.0,
                None => true,
            }) && (match filter.occurred_before {
                Some(before) => e.occurred_at.0 <= before.0,
                None => true,
            });
            assert(keep == selected(e@, f));
            if keep {
                let ghost before = matching@;
                matching.push(e.replicate());
                assert(records(matching@) =~= records(before).push(e@));
            }
            i = i + 1;
        }
        assert(rs.take(rs.len() as int) =~= rs);
        let ghost ms = records(matching@);
        let mut keys: Vec<(u128, u128, u64)> = Vec::new();
        let mut k: usize = 0;
        while k < matching.len()
            invariant
                k <= matching@.len(),
                ms == records(matching@),
                keys@ == ms.map_values(|e: EventRecord<P::V>| query_key(e)).take(k as int),
            decreases matching@.len() - k,
        {
            let e = &matching[k];
            let key = ((0x7fff_ffff_ffff_ffffi128 - e.occurred_at.0 as i128) as u128, 0u128, e.sequence_number);
            assert(key == query_key(ms[k as int]));
            keys.push(key);
            k = k + 1;
            assert(keys@ =~= ms.map_values(|e: EventRecord<P::V>| query_key(e)).take(k as int));
        }
        assert(keys@ =~= ms.map_values(|e: EventRecord<P::V>| query_key(e)));
        let order = stable_order(&keys);
        let ghost ord = order@.map_values(|x: usize| x as int);
        let mut sorted: Vec<StoredEvent<P>> = Vec::new();
        let mut j: usize = 0;
        while j < order.len()
            invariant
                j <= order@.len(),
                ms == records(matching@),
                ord == order@.map_values(|x: usize| x as int),
                forall|q: int| 0 <= q < order@.len() ==> order@[q] < matching@.len(),
                records(sorted@) == ord.map_values(|x: int| ms[x]).take(j as int),
            decreases order@.len() - j,
        {
            let ghost before = sorted@;
            sorted.push(matching[order[j]].replicate());
            proof {
                assert(records(sorted@) =~= records(before).push(ms[order@[j as int] as int]));
                assert(ord.map_values(|x: int| ms[x]).take(j + 1) =~= ord.map_values(|x: int| ms[x]).take(
                    j as int,
                ).push(ms[order@[j as int] as int]));
            }
            j = j + 1;
        }
        assert(ord.map_values(|x: int| ms[x]).take(ord.len() as int) =~= ord.map_values(|x: int| ms[x]));
        assert(records(sorted@) == query_sorted(ms));
        let total = matching.len() as u64;
        let events = page_of(&sorted, pagination);
        let has_more = total > (pagination.offset + pagination.limit) as u64;
        Ok(EventQueryResult { events, total, pagination, has_more })
    }
}

impl<P: Replicate> StoredEvent<P> {
    /// The stream version after this event: its position.
    pub fn stream_version(&self) -> (r: u64)
        ensures
            r == self.sequence_number,
    {
        self.sequence_number
    }

    /// The envelope that publishes this event.
    pub fn to_envelope(&self) -> (r: EventEnvelope<P>)
        ensures
            r.spec_event_id() == self.event_id,
            r.spec_tenant_id() == self.tenant_id,
            r.spec_aggregate_id() == self.aggregate_id,
            r.spec_aggregate_type() == self.aggregate_type@,
            r.spec_sequence_number() == self.sequence_number,
            r.spec_payload()@ == self.payload@,
    {
        EventEnvelope::new(
            self.event_id,
            self.tenant_id,
            self.aggregate_id,
            self.aggregate_type.clone(),
            self.sequence_number,
            self.payload.replicate(),
        )
    }
}

impl<P: Replicate + Event> UncommittedEvent<P> {
    /// An event to append, with its type name, schema version and time taken
    /// from the event itself.
    pub fn from_typed(
        tenant_id: TenantId,
        aggregate_id: AggregateId,
        aggregate_type: String,
        event_id: u128,
        event: &P,
    ) -> (r: UncommittedEvent<P>)
        ensures
            r.event_id == event_id,
            r.tenant_id == tenant_id,
            r.aggregate_id == aggregate_id,
            r.aggregate_type@ == aggregate_type@,
            r.event_type@ == event.spec_event_type(),
            r.occurred_at == event.spec_occurred_at(),
            r.payload@ == event@,
    {
        UncommittedEvent {
            event_id,
            tenant_id,
            aggregate_id,
            aggregate_type,
            event_type: owned(event.event_type()),
            event_version: event.version(),
            occurred_at: event.occurred_at(),
            payload: event.replicate(),
        }
    }
}

/// Sequences laid end to end.
pub open spec fn flatten<A>(ss: Seq<Seq<A>>) -> Seq<A>
    decreases ss.len(),
{
    if ss.len() == 0 {
        Seq::empty()
    } else {
        flatten(ss.drop_last()) + ss.last()
    }
}

/// Every event of a tenant: its streams in order, each in stream order.
pub open spec fn tenant_events_of<PV>(
    entries: Seq<(TenantId, AggregateId, Seq<EventRecord<PV>>)>,
    t: TenantId,
) -> Seq<EventRecord<PV>> {
    flatten(crate::read_model::tenant_rows(entries, t))
}

pub proof fn lemma_tenant_events_rows<PV>(entries: Seq<(TenantId, AggregateId, Seq<EventRecord<PV>>)>, t: TenantId)
    ensures
        tenant_events_of(entries, t) == flatten(crate::read_model::tenant_rows(entries, t)),
{
}

impl<P: Replicate> EventStore<P> for InMemoryEventStore<P> {
    open spec fn spec_streams(&self) -> Streams<P::V> {
        |t: TenantId, a: AggregateId| stream_of(self.spec_entries(), t, a)
    }

    fn append(&mut self, events: Vec<UncommittedEvent<P>>, expected_version: ExpectedVersion) -> (r:
        Result<Vec<StoredEvent<P>>, EventStoreError>)
        ensures
            events@.len() > 0 ==> ({
                let t = events@[0].tenant_id;
                let a = events@[0].aggregate_id;
                let cur = old(self).spec_streams()(t, a);
                match append_decision(cur, pending(events@), expected_version) {
                    Ok(_) => r is Ok,
                    Err(k) => r matches Err(e) && e.spec_kind() == k,
                }
            }),
            events@.len() == 0 ==> r is Ok,
            events@.len() > 0 && batch_fault(pending(events@), events@.len() as nat) is None
                ==> final(self).spec_entries() == match r {
                Ok(c) => upserted(
                    old(self).spec_entries(),
                    events@[0].tenant_id,
                    events@[0].aggregate_id,
                    old(self).spec_streams()(events@[0].tenant_id, events@[0].aggregate_id) + records(
                        c@,
                    ),
                ),
                Err(_) => with_stream(
                    old(self).spec_entries(),
                    events@[0].tenant_id,
                    events@[0].aggregate_id,
                ),
            },
    {
        if events.len() == 0 {
            let c: Vec<StoredEvent<P>> = Vec::new();
            return Ok(c);
        }
        let tenant_id = events[0].tenant_id;
        let aggregate_id = events[0].aggregate_id;
        let ghost ps = pending(events@);
        proof {
            lemma_batch_fault_kinds(ps, ps.len());
        }
        match Self::check_batch(&events) {
            Some((StoreErrorKind::TenantIsolation, idx)) => {
                return Err(EventStoreError::TenantIsolation(batch_message("tenant_ids", idx)));
            },
            Some((StoreErrorKind::InvalidAppend, idx)) => {
                return Err(EventStoreError::InvalidAppend(batch_message("aggregate_ids", idx)));
            },
            Some((_, idx)) => {
                return Err(
                    EventStoreError::AggregateTypeMismatch(batch_message("aggregate_types", idx)),
                );
            },
            None => {},
        }
        let ghost old_streams = self.spec_entries();
        let current_events = self.stream_copy(tenant_id, aggregate_id);
        if !self.streams.get(tenant_id, &aggregate_id).is_some() {
            let empty: Vec<StoredEvent<P>> = Vec::new();
            assert(records(empty@) =~= Seq::<EventRecord<P::V>>::empty());
            self.streams.upsert(tenant_id, aggregate_id, EventStream { events: empty });
        }
        proof {
            assert(self.spec_entries() == with_stream(old_streams, tenant_id, aggregate_id));
            if !has_slot(old_streams, tenant_id, aggregate_id) {
                assert(with_stream(old_streams, tenant_id, aggregate_id) == upserted(
                    old_streams,
                    tenant_id,
                    aggregate_id,
                    Seq::<EventRecord<P::V>>::empty(),
                ));
            }
            assert forall|t2: TenantId, a2: AggregateId| #[trigger]
                stream_of(self.spec_entries(), t2, a2) == stream_of(old_streams, t2, a2) by {
                if !has_slot(old_streams, tenant_id, aggregate_id) {
                    crate::read_model::lemma_lookup_upserted(
                        old_streams,
                        tenant_id,
                        aggregate_id,
                        Seq::<EventRecord<P::V>>::empty(),
                        t2,
                        a2,
                    );
                }
            }
        }
        let ghost cur = records(current_events@);
        let current: u64 = if current_events.len() == 0 {
            0
        } else {
            current_events[current_events.len() - 1].sequence_number
        };
        assert(current == stream_version(cur));
        proof {
            lemma_batch_fault_at(ps, ps.len());
            assert(ps[0] == events@[0]@);
            assert(cur == old(self).spec_streams()(ps[0].tenant_id, ps[0].aggregate_id));
        }
        if !expected_version.matches(current) {
            return Err(EventStoreError::Concurrency(concurrency_message(expected_version, current)));
        }
        if current_events.len() > 0 {
            assert(cur[0] == current_events@[0]@);
            if current_events[0].aggregate_type != events[0].aggregate_type {
                return Err(
                    EventStoreError::AggregateTypeMismatch(
                        type_message(
                            current_events[0].aggregate_type.as_str(),
                            events[0].aggregate_type.as_str(),
                        ),
                    ),
                );
            }
        }
        let mut stream = current_events;
        let mut committed: Vec<StoredEvent<P>> = Vec::new();
        let mut next = current + 1;
        let n = events.len();
        let mut i: usize = 0;
        while i < n
            invariant
                i <= n,
                n == events@.len(),
                ps == pending(events@),
                records(committed@) == numbered(ps, current + 1).take(i as int),
                records(stream@) == cur + records(committed@),
                next == current + 1 + i,
                current + n < u64::MAX,
            decreases n - i,
        {
            let e = &events[i];
            proof {
                assert(e@ == ps[i as int]);
            }
            let stored = StoredEvent {
                event_id: e.event_id,
                tenant_id: e.tenant_id,
                aggregate_id: e.aggregate_id,
                aggregate_type: e.aggregate_type.clone(),
                sequence_number: next,
                event_type: e.event_type.clone(),
                event_version: e.event_version,
                occurred_at: e.occurred_at,
                payload: e.payload.replicate(),
            };
            let ghost bc = committed@;
            let ghost bs = stream@;
            stream.push(stored.replicate());
            committed.push(stored);
            proof {
                assert(records(committed@) =~= records(bc).push(stored@));
                assert(records(stream@) =~= records(bs).push(stored@));
                assert(numbered(ps, current + 1).take(i + 1) =~= numbered(ps, current + 1).take(
                    i as int,
                ).push(committed_at(ps[i as int], next)));
            }
            next = next + 1;
            i = i + 1;
        }
        proof {
            assert(numbered(ps, current + 1).take(n as int) =~= numbered(ps, current + 1));
        }
        let ghost mid = self.spec_entries();
        self.streams.upsert(tenant_id, aggregate_id, EventStream { events: stream });
        proof {
            if !has_slot(old_streams, tenant_id, aggregate_id) {
                lemma_upserted_twice(
                    old_streams,
                    tenant_id,
                    aggregate_id,
                    Seq::<EventRecord<P::V>>::empty(),
                    cur + records(committed@),
                );
            }
            assert(self.spec_entries() == upserted(
                old_streams,
                tenant_id,
                aggregate_id,
                cur + records(committed@),
            ));
            assert forall|t2: TenantId, a2: AggregateId| #[trigger]
                stream_of(self.spec_entries(), t2, a2) == if t2 == tenant_id && a2 == aggregate_id {
                    cur + records(committed@)
                } else {
                    stream_of(old_streams, t2, a2)
                } by {
                crate::read_model::lemma_lookup_upserted(
                    old_streams,
                    tenant_id,
                    aggregate_id,
                    cur + records(committed@),
                    t2,
                    a2,
                );
            }
        }
        Ok(committed)
    }

    /// Memory takes an empty batch, and a uniform batch whose expectation
    /// and type fit its stream.
    open spec fn spec_accepts(&self, events: Seq<PendingRecord<P::V>>, expected: ExpectedVersion) -> bool {
        events.len() == 0 || append_decision(
            self.spec_streams()(events[0].tenant_id, events[0].aggregate_id),
            events,
            expected,
        ) is Ok
    }

    /// Memory refuses as `memory_refusal` says.
    open spec fn spec_refusal(&self, events: Seq<PendingRecord<P::V>>, expected: ExpectedVersion) -> (StoreErrorKind, Seq<char>) {
        memory_refusal(self.spec_streams()(events[0].tenant_id, events[0].aggregate_id), events, expected)
    }

    /// Memory always holds every stream.
    open spec fn spec_can_load(&self, tenant_id: TenantId, aggregate_id: AggregateId) -> bool {
        true
    }

    fn load_stream(&self, tenant_id: TenantId, aggregate_id: AggregateId) -> (r: Result<
        Vec<StoredEvent<P>>,
        EventStoreError,
    >)
        ensures
            r is Ok,
    {
        Ok(self.stream_copy(tenant_id, aggregate_id))
    }
}

/// Whether an envelope carries a stored record: same identity, stream,
/// position and payload.
pub open spec fn envelope_for<P: View>(env: EventEnvelope<P>, rec: EventRecord<P::V>) -> bool {
    &&& env.spec_event_id() == rec.event_id
    &&& env.spec_tenant_id() == rec.tenant_id
    &&& env.spec_aggregate_id() == rec.aggregate_id
    &&& env.spec_aggregate_type() == rec.aggregate_type
    &&& env.spec_sequence_number() == rec.sequence_number
    &&& env.spec_payload()@ == rec.payload
}

/// `after` is `before` followed by one envelope per record, in order.
pub open spec fn published_in_order<P: View>(
    before: Seq<EventEnvelope<P>>,
    after: Seq<EventEnvelope<P>>,
    recs: Seq<EventRecord<P::V>>,
) -> bool {
    &&& after.len() == before.len() + recs.len()
    &&& after.take(before.len() as int) == before
    &&& forall|i: int|
        #![trigger recs[i]]
        0 <= i < recs.len() ==> envelope_for(after[before.len() + i], recs[i])
}

/// A store that publishes each committed event after a successful append.
///
/// Publication happens only after the append succeeded, so consumers only
/// see stored events; a publication failure is reported after the events
/// were stored, and retrying delivers at least once.
#[derive(Debug)]
pub struct PublishingEventStore<S, B> {
    store: S,
    bus: B,
}

impl<S, B> PublishingEventStore<S, B> {
    pub fn new(store: S, bus: B) -> (r: Self)
        ensures
            r.spec_inner() == store,
            r.spec_bus() == bus,
    {
        PublishingEventStore { store, bus }
    }

    pub fn into_parts(self) -> (r: (S, B))
        ensures
            r.0 == self.spec_inner(),
            r.1 == self.spec_bus(),
    {
        (self.store, self.bus)
    }

    /// The wrapped store.
    pub closed spec fn spec_inner(&self) -> S {
        self.store
    }

    /// The bus that committed events are published to.
    pub closed spec fn spec_bus(&self) -> B {
        self.bus
    }
}

impl<P: Replicate, S: EventStore<P>, B: EventBus<EventEnvelope<P>>> EventStore<P> for PublishingEventStore<
    S,
    B,
> {
    closed spec fn spec_streams(&self) -> Streams<P::V> {
        self.store.spec_streams()
    }

    /// The wrapped store decides what is appended.
    open spec fn spec_accepts(&self, events: Seq<PendingRecord<P::V>>, expected: ExpectedVersion) -> bool {
        self.spec_inner().spec_accepts(events, expected)
    }

    /// A refusal is the wrapped store's, returned as it came.
    open spec fn spec_refusal(&self, events: Seq<PendingRecord<P::V>>, expected: ExpectedVersion) -> (StoreErrorKind, Seq<char>) {
        self.spec_inner().spec_refusal(events, expected)
    }

    /// Loading reads the wrapped store.
    open spec fn spec_can_load(&self, tenant_id: TenantId, aggregate_id: AggregateId) -> bool {
        self.spec_inner().spec_can_load(tenant_id, aggregate_id)
    }

    /// Append to the wrapped store, then publish the committed events in
    /// order: all of them when the append succeeds and every publication is
    /// accepted, up to the first refused one otherwise; nothing when the
    /// append fails, and then the error is the wrapped store's own refusal,
    /// of the same kind and with the same text.
    fn append(&mut self, events: Vec<UncommittedEvent<P>>, expected_version: ExpectedVersion) -> (r:
        Result<Vec<StoredEvent<P>>, EventStoreError>)
        ensures
            !old(self).spec_inner().spec_accepts(pending(events@), expected_version) ==> (r matches Err(e)
                && (e.spec_kind(), store_error_message(&e)) == old(self).spec_inner().spec_refusal(
                pending(events@),
                expected_version,
            )),
            match r {
                Ok(c) => published_in_order(
                    old(self).spec_bus().spec_published(),
                    final(self).spec_bus().spec_published(),
                    records(c@),
                ),
                Err(e) => if e.spec_kind() == StoreErrorKind::Publish {
                    exists|k: int|
                        0 <= k <= to_commit(old(self).spec_streams(), pending(events@)).len()
                            && #[trigger] published_in_order(
                            old(self).spec_bus().spec_published(),
                            final(self).spec_bus().spec_published(),
                            to_commit(old(self).spec_streams(), pending(events@)).take(k),
                        )
                } else {
                    final(self).spec_bus().spec_published() == old(self).spec_bus().spec_published()
                },
            },
    {
        let ghost ps = pending(events@);
        let ghost bus0 = self.bus.spec_published();
        let committed = match self.store.append(events, expected_version) {
            Ok(c) => c,
            Err(e) => {
                proof {
                    assert(self.bus == old(self).bus);
                    assert(bus0 == old(self).spec_bus().spec_published());
                    assert(self.spec_bus().spec_published() == bus0);
                    if e.spec_kind() == StoreErrorKind::Publish {
                        assert(bus0.take(bus0.len() as int) =~= bus0);
                        assert(to_commit(old(self).spec_streams(), ps).take(0).len() == 0);
                        assert(published_in_order(bus0, bus0, to_commit(old(self).spec_streams(), ps).take(0)));
                    }
                }
                return Err(e);
            },
        };
        let ghost inner = self.store;
        let ghost recs = records(committed@);
        assert(old(self).spec_accepts(ps, expected_version));
        assert(bus0.take(bus0.len() as int) =~= bus0);
        assert(recs.take(0).len() == 0);
        proof {
            if ps.len() > 0 {
                assert(records(committed@) == to_commit(old(self).spec_streams(), ps));
            } else {
                assert(records(committed@) =~= to_commit(old(self).spec_streams(), ps));
            }
        }
        let mut j: usize = 0;
        while j < committed.len()
            invariant
                j <= committed@.len(),
                self.store == inner,
                ps == pending(events@),
                appended(
                    old(self).spec_streams(),
                    self.spec_streams(),
                    ps,
                    expected_version,
                    to_commit(old(self).spec_streams(), ps),
                ),
                bus0 == old(self).spec_bus().spec_published(),
                recs == records(committed@),
                recs == to_commit(old(self).spec_streams(), ps),
                old(self).spec_accepts(ps, expected_version),
                published_in_order(bus0, self.bus.spec_published(), recs.take(j as int)),
            decreases committed@.len() - j,
        {
            let env = committed[j].to_envelope();
            let ghost g = env;
            let ghost before = self.bus.spec_published();
            match self.bus.publish(env) {
                Ok(()) => {
                    proof {
                        let after = self.bus.spec_published();
                        assert(recs.take(j + 1) =~= recs.take(j as int).push(recs[j as int]));
                        assert(after.take(bus0.len() as int) =~= before.take(bus0.len() as int));
                        assert forall|i: int| #![trigger recs.take(j + 1)[i]] 0 <= i < recs.take(j + 1).len()
                            implies envelope_for(after[bus0.len() + i], recs.take(j + 1)[i]) by {
                            if i < j {
                                assert(after[bus0.len() + i] == before[bus0.len() + i]);
                                assert(recs.take(j + 1)[i] == recs.take(j as int)[i]);
                            } else {
                                assert(after[bus0.len() + i] == g);
                                assert(recs[j as int] == committed@[j as int]@);
                            }
                        }
                    }
                },
                Err(err) => {
                    proof {
                        assert(recs.take(j as int).len() == j);
                        assert(self.spec_bus().spec_published() == before);
                        assert(published_in_order(
                            old(self).spec_bus().spec_published(),
                            self.spec_bus().spec_published(),
                            to_commit(old(self).spec_streams(), pending(events@)).take(j as int),
                        ));
                    }
                    return Err(EventStoreError::Publish(debug_text(&err)));
                },
            }
            j = j + 1;
        }
        assert(recs.take(committed@.len() as int) =~= recs);
        Ok(committed)
    }

    fn load_stream(&self, tenant_id: TenantId, aggregate_id: AggregateId) -> (r: Result<
        Vec<StoredEvent<P>>,
        EventStoreError,
    >) {
        self.store.load_stream(tenant_id, aggregate_id)
    }
}

/// Reading back a write: after a successful append of a non-empty batch,
/// the stream reads as it was followed by the committed events, which hold
/// the batch in order at the positions right after the old version; the
/// version grows by the batch's length; every other stream reads as before.
pub proof fn law_append_then_load<PV>(
    before: Streams<PV>,
    after: Streams<PV>,
    events: Seq<PendingRecord<PV>>,
    expected: ExpectedVersion,
    committed: Seq<EventRecord<PV>>,
)
    requires
        appended(before, after, events, expected, committed),
        events.len() > 0,
        stream_version(before(events[0].tenant_id, events[0].aggregate_id)) + events.len() <= u64::MAX,
    ensures
        ({
            let t = events[0].tenant_id;
            let a = events[0].aggregate_id;
            &&& after(t, a) == before(t, a) + committed
            &&& committed.len() == events.len()
            &&& forall|i: int|
                0 <= i < committed.len() ==> #[trigger] committed[i] == committed_at(
                    events[i],
                    (stream_version(before(t, a)) + 1 + i) as u64,
                )
            &&& stream_version(after(t, a)) == stream_version(before(t, a)) + events.len()
            &&& forall|t2: TenantId, a2: AggregateId|
                (t2, a2) != (t, a) ==> #[trigger] after(t2, a2) == before(t2, a2)
        }),
{
    let t = events[0].tenant_id;
    let a = events[0].aggregate_id;
    let cur = before(t, a);
    assert(committed == numbered(events, stream_version(cur) + 1));
    assert(after(t, a) == cur + committed);
    assert(committed.len() == events.len());
    let last = (cur + committed).last();
    assert(last == committed[committed.len() - 1]);
}

/// Optimistic concurrency: a uniform batch that expects a version other
/// than the stream's is refused as a concurrency conflict (and a refused
/// append changes no stream).
pub proof fn law_stale_expectation_conflicts<PV>(
    cur: Seq<EventRecord<PV>>,
    events: Seq<PendingRecord<PV>>,
    v: u64,
)
    requires
        batch_fault(events, events.len()) is None,
        v != stream_version(cur),
    ensures
        append_decision(cur, events, ExpectedVersion::Exact(v)) == Err::<u64, StoreErrorKind>(
            StoreErrorKind::Concurrency,
        ),
{
}

/// Appends accumulate: two successful appends to one stream leave it as it
/// was followed by both batches' committed events, the second numbered on
/// from the first.
pub proof fn law_appends_accumulate<PV>(
    s0: Streams<PV>,
    s1: Streams<PV>,
    s2: Streams<PV>,
    e1: Seq<PendingRecord<PV>>,
    e2: Seq<PendingRecord<PV>>,
    x1: ExpectedVersion,
    x2: ExpectedVersion,
    c1: Seq<EventRecord<PV>>,
    c2: Seq<EventRecord<PV>>,
)
    requires
        appended(s0, s1, e1, x1, c1),
        appended(s1, s2, e2, x2, c2),
        e1.len() > 0,
        e2.len() > 0,
        e1[0].tenant_id == e2[0].tenant_id,
        e1[0].aggregate_id == e2[0].aggregate_id,
        stream_version(s0(e1[0].tenant_id, e1[0].aggregate_id)) + e1.len() + e2.len() <= u64::MAX,
    ensures
        s2(e1[0].tenant_id, e1[0].aggregate_id) == s0(e1[0].tenant_id, e1[0].aggregate_id) + c1 + c2,
        c2.len() > 0 ==> c2[0].sequence_number == stream_version(s0(e1[0].tenant_id, e1[0].aggregate_id))
            + e1.len() + 1,
{
    law_append_then_load(s0, s1, e1, x1, c1);
    let t = e1[0].tenant_id;
    let a = e1[0].aggregate_id;
    assert(s2(t, a) == s1(t, a) + c2);
    assert(c2 == numbered(e2, stream_version(s1(t, a)) + 1));
    assert(c2[0] == committed_at(e2[0], (stream_version(s1(t, a)) + 1) as u64));
}

} // verus!
