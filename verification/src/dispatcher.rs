//! Command execution: load a stream, rehydrate the aggregate, decide,
//! append under optimistic concurrency, then publish what was committed.
use vstd::prelude::*;

use crate::bus::EventBus;
use crate::common::{
    debug_text, fresh_v7,
    replay, Aggregate, AggregateId, DomainError, DomainErrorKind, ExpectedVersion, Rejection,
    Replicate, TenantId, views,
};
use crate::event_store::{
    published_in_order, records, store_appended, store_unchanged, stream_version, EventRecord, EventStore, EventStoreError,
    PendingRecord, StoreErrorKind, StoredEvent, UncommittedEvent, pending,
};
use crate::events::{Event, EventEnvelope};
use crate::projections::{count_le, key_le, replay_order, stable_order};
use crate::text::{decimal_chars, decimal_text, owned};

verus! {

/// The text of a loaded stream whose event `idx` has the wrong `what`.
fn wrong_stream_message(what: &str, idx: usize) -> (r: String)
    ensures
        r@ == "loaded stream contains wrong "@ + what@ + " at index "@ + decimal_chars(idx as nat),
{
    String::from_str("loaded stream contains wrong ").concat(what).concat(" at index ").concat(
        decimal_text(idx as u64).as_str(),
    )
}

/// The text of a loaded stream whose positions do not increase.
fn non_monotonic_message(last: u64, found: u64) -> (r: String)
    ensures
        r@ == "non-monotonic sequence_number in loaded stream (last="@ + decimal_chars(last as nat) + ", found="@
            + decimal_chars(found as nat) + ")"@,
{
    String::from_str("non-monotonic sequence_number in loaded stream (last=").concat(
        decimal_text(last).as_str(),
    ).concat(", found=").concat(decimal_text(found).as_str()).concat(")")
}

/// Why a command could not be carried out.
#[derive(Debug)]
pub enum DispatchError {
    /// Optimistic concurrency failure.
    Concurrency(String),
    /// Tenant isolation violation.
    TenantIsolation(String),
    /// Domain validation failure.
    Validation(String),
    /// Domain invariant failure.
    InvariantViolation(String),
    /// Domain authorization failure.
    Unauthorized,
    /// Domain-level not found.
    NotFound,
    /// A stored payload was not an event of the aggregate.
    Deserialize(String),
    /// Persisting failed.
    Store(EventStoreError),
    /// Publication failed after a successful append.
    Publish(String),
}

/// A dispatch failure, by view.
pub enum DispatchFault {
    Concurrency(Seq<char>),
    TenantIsolation(Seq<char>),
    Validation(Seq<char>),
    InvariantViolation(Seq<char>),
    Unauthorized,
    NotFound,
    Deserialize(Seq<char>),
    Store(StoreErrorKind, Seq<char>),
    Publish(Seq<char>),
}

impl View for DispatchError {
    type V = DispatchFault;

    open spec fn view(&self) -> DispatchFault {
        match self {
            DispatchError::Concurrency(m) => DispatchFault::Concurrency(m@),
            DispatchError::TenantIsolation(m) => DispatchFault::TenantIsolation(m@),
            DispatchError::Validation(m) => DispatchFault::Validation(m@),
            DispatchError::InvariantViolation(m) => DispatchFault::InvariantViolation(m@),
            DispatchError::Unauthorized => DispatchFault::Unauthorized,
            DispatchError::NotFound => DispatchFault::NotFound,
            DispatchError::Deserialize(m) => DispatchFault::Deserialize(m@),
            DispatchError::Store(e) => DispatchFault::Store(e.spec_kind(), store_message(*e)),
            DispatchError::Publish(m) => DispatchFault::Publish(m@),
        }
    }
}

/// The message of a store failure.
pub open spec fn store_message(e: EventStoreError) -> Seq<char> {
    match e {
        EventStoreError::Concurrency(m) => m@,
        EventStoreError::TenantIsolation(m) => m@,
        EventStoreError::AggregateTypeMismatch(m) => m@,
        EventStoreError::InvalidAppend(m) => m@,
        EventStoreError::Publish(m) => m@,
    }
}

/// A store failure as a dispatch failure: concurrency and isolation keep
/// their meaning, everything else is a store failure.
pub open spec fn store_fault(e: EventStoreError) -> DispatchFault {
    match e {
        EventStoreError::Concurrency(m) => DispatchFault::Concurrency(m@),
        EventStoreError::TenantIsolation(m) => DispatchFault::TenantIsolation(m@),
        _ => DispatchFault::Store(e.spec_kind(), store_message(e)),
    }
}

/// A domain rejection as a dispatch failure: a conflict is a concurrency
/// failure and an invalid id a validation failure.
pub open spec fn domain_fault(r: Rejection) -> DispatchFault {
    match r.kind {
        DomainErrorKind::Validation => DispatchFault::Validation(r.message),
        DomainErrorKind::InvariantViolation => DispatchFault::InvariantViolation(r.message),
        DomainErrorKind::Conflict => DispatchFault::Concurrency(r.message),
        DomainErrorKind::Unauthorized => DispatchFault::Unauthorized,
        DomainErrorKind::NotFound => DispatchFault::NotFound,
        DomainErrorKind::InvalidId => DispatchFault::Validation(r.message),
    }
}

impl DispatchError {
    pub fn from_store_error(e: EventStoreError) -> (r: DispatchError)
        ensures
            r@ == store_fault(e),
    {
        match e {
            EventStoreError::Concurrency(m) => DispatchError::Concurrency(m),
            EventStoreError::TenantIsolation(m) => DispatchError::TenantIsolation(m),
            other => DispatchError::Store(other),
        }
    }

    pub fn from_domain_error(e: DomainError) -> (r: DispatchError)
        ensures
            r@ == domain_fault(e@),
    {
        match e {
            DomainError::Validation(m) => DispatchError::Validation(m),
            DomainError::InvariantViolation(m) => DispatchError::InvariantViolation(m),
            DomainError::Conflict(m) => DispatchError::Concurrency(m),
            DomainError::Unauthorized => DispatchError::Unauthorized,
            DomainError::NotFound => DispatchError::NotFound,
            DomainError::InvalidId(m) => DispatchError::Validation(m),
        }
    }
}

/// What is wrong with a loaded stream.
pub enum StreamFault {
    WrongTenant,
    WrongAggregate,
    ZeroSequence,
    NotIncreasing { last: u64, found: u64 },
}

/// The first problem among the first `n` events of a loaded stream: every
/// event must belong to the tenant and aggregate, and positions must be
/// positive and strictly increasing.
pub open spec fn stream_fault_upto<PV>(t: TenantId, a: AggregateId, s: Seq<EventRecord<PV>>, n: nat) -> Option<
    StreamFault,
>
    decreases n,
{
    if n == 0 {
        None
    } else {
        match stream_fault_upto(t, a, s, (n - 1) as nat) {
            Some(f) => Some(f),
            None => {
                let e = s[n - 1];
                let last = if n == 1 {
                    0u64
                } else {
                    s[n - 2].sequence_number
                };
                if e.tenant_id != t {
                    Some(StreamFault::WrongTenant)
                } else if e.aggregate_id != a {
                    Some(StreamFault::WrongAggregate)
                } else if e.sequence_number == 0 {
                    Some(StreamFault::ZeroSequence)
                } else if e.sequence_number <= last {
                    Some(StreamFault::NotIncreasing { last, found: e.sequence_number })
                } else {
                    None
                }
            },
        }
    }
}

/// The first problem of a loaded stream.
pub open spec fn stream_fault<PV>(t: TenantId, a: AggregateId, s: Seq<EventRecord<PV>>) -> Option<StreamFault> {
    stream_fault_upto(t, a, s, s.len())
}

/// The dispatch failure a stream problem is reported as.
pub open spec fn stream_fault_matches(f: StreamFault, e: DispatchFault) -> bool {
    match f {
        StreamFault::WrongTenant => e is TenantIsolation,
        StreamFault::WrongAggregate => e is TenantIsolation,
        StreamFault::ZeroSequence => e == DispatchFault::Store(
            StoreErrorKind::InvalidAppend,
            "stored event has sequence_number=0"@,
        ),
        StreamFault::NotIncreasing { .. } => e matches DispatchFault::Store(k, _) && k
            == StoreErrorKind::InvalidAppend,
    }
}

pub proof fn lemma_stream_fault_stays<PV>(t: TenantId, a: AggregateId, s: Seq<EventRecord<PV>>, m: nat, n: nat)
    requires
        m <= n,
        stream_fault_upto(t, a, s, m) is Some,
    ensures
        stream_fault_upto(t, a, s, n) == stream_fault_upto(t, a, s, m),
    decreases n,
{
    if n > m {
        lemma_stream_fault_stays(t, a, s, m, (n - 1) as nat);
    }
}

/// Check a loaded stream: tenant, aggregate, and strictly increasing
/// positive positions.
pub fn validate_loaded_stream<P: View>(
    tenant_id: TenantId,
    aggregate_id: AggregateId,
    stream: &Vec<StoredEvent<P>>,
) -> (r: Result<(), DispatchError>)
    ensures
        match stream_fault(tenant_id, aggregate_id, records(stream@)) {
            None => r is Ok,
            Some(f) => r matches Err(e) && stream_fault_matches(f, e@),
        },
{
    let ghost rs = records(stream@);
    let mut last: u64 = 0;
    let mut i: usize = 0;
    while i < stream.len()
        invariant
            i <= stream@.len(),
            rs == records(stream@),
            stream_fault_upto(tenant_id, aggregate_id, rs, i as nat) is None,
            last == if i == 0 {
                0u64
            } else {
                rs[i - 1].sequence_number
            },
        decreases stream@.len() - i,
    {
        let e = &stream[i];
        assert(rs[i as int] == e@);
        let fault = if e.tenant_id != tenant_id {
            Some(DispatchError::TenantIsolation(wrong_stream_message("tenant_id", i)))
        } else if e.aggregate_id != aggregate_id {
            Some(DispatchError::TenantIsolation(wrong_stream_message("aggregate_id", i)))
        } else if e.sequence_number == 0 {
            Some(
                DispatchError::Store(
                    EventStoreError::InvalidAppend(owned("stored event has sequence_number=0")),
                ),
            )
        } else if e.sequence_number <= last {
            Some(
                DispatchError::Store(
                    EventStoreError::InvalidAppend(non_monotonic_message(last, e.sequence_number)),
                ),
            )
        } else {
            None
        };
        match fault {
            Some(err) => {
                proof {
                    let f = stream_fault_upto(tenant_id, aggregate_id, rs, (i + 1) as nat);
                    assert(f is Some);
                    lemma_stream_fault_stays(
                        tenant_id,
                        aggregate_id,
                        rs,
                        (i + 1) as nat,
                        rs.len(),
                    );
                }
                return Err(err);
            },
            None => {},
        }
        last = e.sequence_number;
        i = i + 1;
    }
    Ok(())
}

/// The version of a loaded stream: its last position, 0 when empty.
pub fn stream_version_of<P: View>(stream: &Vec<StoredEvent<P>>) -> (r: u64)
    ensures
        r == stream_version(records(stream@)),
{
    if stream.len() == 0 {
        0
    } else {
        stream[stream.len() - 1].sequence_number
    }
}

/// The payloads of a stream, by view.
pub open spec fn payloads<PV>(s: Seq<EventRecord<PV>>) -> Seq<PV> {
    s.map_values(|e: EventRecord<PV>| e.payload)
}

/// Sort key of an event: its position.
pub open spec fn position_key<PV>(e: EventRecord<PV>) -> (u128, u128, u64) {
    (0u128, 0u128, e.sequence_number)
}

/// A stream's payloads by position, equal positions in stream order.
pub open spec fn by_position<PV>(s: Seq<EventRecord<PV>>) -> Seq<PV> {
    replay_order(s.map_values(|e: EventRecord<PV>| position_key(e)), s.len()).map_values(
        |i: int| s[i].payload,
    )
}

/// Every event of a history can be applied in turn.
pub open spec fn history_defined<A: Aggregate>(s: A::V, version: u64, evs: Seq<<A::Event as View>::V>) -> bool {
    &&& version + evs.len() <= u64::MAX
    &&& forall|i: int|
        0 <= i < evs.len() ==> A::spec_apply_defined(#[trigger] replay::<A>(s, evs.take(i)), evs[i])
}

/// Apply a stream's events to an aggregate, ordered by position.
pub fn apply_history<A: Aggregate>(aggregate: &mut A, history: &Vec<StoredEvent<A::Event>>) -> (r: Result<
    (),
    DispatchError,
>)
    where A::Event: Replicate,
    requires
        history_defined::<A>(old(aggregate)@, old(aggregate).spec_version(), by_position(records(history@))),
    ensures
        r is Ok,
        final(aggregate)@ == replay::<A>(old(aggregate)@, by_position(records(history@))),
        final(aggregate).spec_version() == old(aggregate).spec_version() + history@.len(),
{
    let ghost rs = records(history@);
    let ghost evs = by_position(rs);
    let mut keys: Vec<(u128, u128, u64)> = Vec::new();
    let mut k: usize = 0;
    while k < history.len()
        invariant
            k <= history@.len(),
            rs == records(history@),
            keys@ == rs.map_values(|e: EventRecord<<A::Event as View>::V>| position_key(e)).take(
                k as int,
            ),
        decreases history@.len() - k,
    {
        keys.push((0u128, 0u128, history[k].sequence_number));
        k = k + 1;
        assert(keys@ =~= rs.map_values(|e: EventRecord<<A::Event as View>::V>| position_key(e)).take(
            k as int,
        ));
    }
    assert(keys@ =~= rs.map_values(|e: EventRecord<<A::Event as View>::V>| position_key(e)));
    let order = stable_order(&keys);
    let ghost ord = order@.map_values(|x: usize| x as int);
    proof {
        crate::projections::lemma_replay_order_shape(keys@, keys@.len() as nat);
    }
    let ghost s0 = aggregate@;
    let ghost v0 = aggregate.spec_version();
    let mut i: usize = 0;
    while i < order.len()
        invariant
            i <= order@.len(),
            ord == order@.map_values(|x: usize| x as int),
            ord.len() == rs.len(),
            rs == records(history@),
            evs == by_position(rs),
            evs == ord.map_values(|x: int| rs[x].payload),
            forall|j: int| 0 <= j < order@.len() ==> order@[j] < history@.len(),
            history_defined::<A>(s0, v0, evs),
            aggregate@ == replay::<A>(s0, evs.take(i as int)),
            aggregate.spec_version() == v0 + i,
        decreases order@.len() - i,
    {
        let e = &history[order[i]];
        proof {
            assert(evs[i as int] == e.payload@);
            assert(evs.take(i + 1).drop_last() =~= evs.take(i as int));
            assert(A::spec_apply_defined(replay::<A>(s0, evs.take(i as int)), evs[i as int]));
        }
        aggregate.apply(&e.payload);
        i = i + 1;
    }
    assert(evs.take(evs.len() as int) =~= evs);
    Ok(())
}

/// Positions strictly increase, so ordering by position keeps stream order.
pub proof fn lemma_increasing_keeps_order<PV>(s: Seq<EventRecord<PV>>)
    requires
        forall|i: int, j: int|
            0 <= i < j < s.len() ==> s[i].sequence_number < s[j].sequence_number,
    ensures
        by_position(s) == payloads(s),
    decreases s.len(),
{
    let ks = s.map_values(|e: EventRecord<PV>| position_key(e));
    lemma_identity_order(ks, s.len());
    assert(by_position(s) =~= payloads(s));
}

/// For keys in increasing order, the stable order of the first `n` is the
/// identity.
pub proof fn lemma_identity_order(ks: Seq<(u128, u128, u64)>, n: nat)
    requires
        n <= ks.len(),
        forall|i: int, j: int| 0 <= i < j < ks.len() ==> key_le(#[trigger] ks[i], #[trigger] ks[j]),
    ensures
        replay_order(ks, n) == Seq::new(n, |i: int| i),
    decreases n,
{
    if n > 0 {
        lemma_identity_order(ks, (n - 1) as nat);
        let prev = replay_order(ks, (n - 1) as nat);
        lemma_count_all(prev, ks, ks[n - 1], (n - 1) as nat);
        assert(prev.insert((n - 1) as int, n - 1) =~= Seq::new(n, |i: int| i));
    }
}

proof fn lemma_count_all(order: Seq<int>, ks: Seq<(u128, u128, u64)>, k: (u128, u128, u64), m: nat)
    requires
        m < ks.len(),
        k == ks[m as int],
        order == Seq::new(m, |i: int| i),
        forall|i: int, j: int| 0 <= i < j < ks.len() ==> key_le(#[trigger] ks[i], #[trigger] ks[j]),
    ensures
        count_le(order, ks, k) == m,
    decreases m,
{
    if m > 0 {
        let prev = Seq::new((m - 1) as nat, |i: int| i);
        assert(order.drop_last() =~= prev);
        lemma_count_all(prev, ks, ks[(m - 1) as int], (m - 1) as nat);
        lemma_count_all_le(prev, ks, k, (m - 1) as nat, m);
        assert(key_le(ks[(m - 1) as int], ks[m as int]));
    }
}

proof fn lemma_count_all_le(order: Seq<int>, ks: Seq<(u128, u128, u64)>, k: (u128, u128, u64), m: nat, top: nat)
    requires
        m < top < ks.len(),
        k == ks[top as int],
        order == Seq::new(m, |i: int| i),
        forall|i: int, j: int| 0 <= i < j < ks.len() ==> key_le(#[trigger] ks[i], #[trigger] ks[j]),
    ensures
        count_le(order, ks, k) == m,
    decreases m,
{
    if m > 0 {
        let prev = Seq::new((m - 1) as nat, |i: int| i);
        assert(order.drop_last() =~= prev);
        lemma_count_all_le(prev, ks, k, (m - 1) as nat, top);
        assert(key_le(ks[(m - 1) as int], ks[top as int]));
    }
}

/// What dispatching a command comes to, before anything is appended.
pub enum Plan<EV> {
    /// The loaded stream is unsound.
    Refused(StreamFault),
    /// The aggregate rejected the command.
    Rejected(Rejection),
    /// The command decided no events.
    Nothing,
    /// The command decided these events.
    Append(Seq<EV>),
}

/// The plan of a dispatch from the loaded stream `h`.
pub open spec fn dispatch_plan<A: Aggregate>(
    init: A::V,
    t: TenantId,
    a: AggregateId,
    h: Seq<EventRecord<<A::Event as View>::V>>,
    command: A::Command,
) -> Plan<<A::Event as View>::V> {
    match stream_fault(t, a, h) {
        Some(f) => Plan::Refused(f),
        None => match A::spec_decide(replay::<A>(init, payloads(h)), command) {
            Err(rej) => Plan::Rejected(rej),
            Ok(evs) => if evs.len() == 0 {
                Plan::Nothing
            } else {
                Plan::Append(evs)
            },
        },
    }
}

/// The events a dispatch appends: one per decided event, on the stream of
/// `t` and `a` with aggregate type `ty`, carrying the event.
pub open spec fn framed<PV>(ps: Seq<PendingRecord<PV>>, evs: Seq<PV>, t: TenantId, a: AggregateId, ty: Seq<char>) -> bool {
    &&& ps.len() == evs.len()
    &&& forall|i: int|
        0 <= i < ps.len() ==> (#[trigger] ps[i]).tenant_id == t && ps[i].aggregate_id == a
            && ps[i].aggregate_type == ty && ps[i].payload == evs[i]
}

/// Sound streams are in position order.
pub proof fn lemma_sound_stream_increasing<PV>(t: TenantId, a: AggregateId, s: Seq<EventRecord<PV>>, n: nat)
    requires
        n <= s.len(),
        stream_fault_upto(t, a, s, n) is None,
    ensures
        forall|i: int, j: int|
            0 <= i < j < n ==> s[i].sequence_number < s[j].sequence_number,
        forall|i: int| 0 <= i < n ==> s[i].tenant_id == t && s[i].aggregate_id == a,
    decreases n,
{
    if n > 0 {
        lemma_sound_stream_increasing(t, a, s, (n - 1) as nat);
    }
}

/// A successful dispatch that committed `c`: nothing when the command
/// decided nothing; otherwise one appended event per decided event, at the
/// loaded version.
pub open spec fn dispatched<A: Aggregate, S: EventStore<A::Event>>(
    before: S,
    after: S,
    init: A::V,
    t: TenantId,
    a: AggregateId,
    ty: Seq<char>,
    command: A::Command,
    c: Seq<EventRecord<<A::Event as View>::V>>,
) -> bool {
    let h = before.spec_streams()(t, a);
    match dispatch_plan::<A>(init, t, a, h, command) {
        Plan::Nothing => c.len() == 0 && store_unchanged::<A::Event, S>(before, after),
        Plan::Append(evs) => exists|ps: Seq<PendingRecord<<A::Event as View>::V>>|
            framed(ps, evs, t, a, ty) && #[trigger] store_appended::<A::Event, S>(
                before,
                after,
                ps,
                ExpectedVersion::Exact(stream_version(h)),
                c,
            ),
        _ => false,
    }
}

/// A failed dispatch: a refused stream or a rejected command is reported as
/// such or as a failure of the store to load the stream, and changes
/// nothing; a publication failure only follows an append.
pub open spec fn dispatch_failed<A: Aggregate, S: EventStore<A::Event>>(
    before: S,
    after: S,
    init: A::V,
    t: TenantId,
    a: AggregateId,
    command: A::Command,
    e: DispatchFault,
) -> bool {
    let plan = dispatch_plan::<A>(init, t, a, before.spec_streams()(t, a), command);
    let load_failure = e is Concurrency || e is TenantIsolation || e is Store;
    &&& (plan matches Plan::Refused(f) ==> store_unchanged::<A::Event, S>(before, after) && (
    stream_fault_matches(f, e) || load_failure))
    &&& (plan matches Plan::Rejected(rej) ==> store_unchanged::<A::Event, S>(before, after) && (e
        == domain_fault(rej) || load_failure))
    &&& (plan is Nothing ==> store_unchanged::<A::Event, S>(before, after) && load_failure)
    &&& (e is Publish ==> plan is Append)
}

/// What a dispatch comes to once its stream was loaded: a refused stream
/// is reported as its fault, a rejected command as the domain failure, a
/// command that decides nothing succeeds; an append is settled by the store
/// and the bus.
pub open spec fn dispatch_after_load<A: Aggregate, S: EventStore<A::Event>>(
    before: S,
    init: A::V,
    t: TenantId,
    a: AggregateId,
    command: A::Command,
    r: Result<(), DispatchFault>,
) -> bool {
    match dispatch_plan::<A>(init, t, a, before.spec_streams()(t, a), command) {
        Plan::Refused(f) => r matches Err(e) && stream_fault_matches(f, e),
        Plan::Rejected(rej) => r == Err::<(), DispatchFault>(domain_fault(rej)),
        Plan::Nothing => r is Ok,
        Plan::Append(_) => true,
    }
}

/// Whether the store takes every batch the decided events could be framed
/// into, at the loaded version (only when the command decides events).
pub open spec fn store_takes_plan<A: Aggregate, S: EventStore<A::Event>>(
    before: S,
    init: A::V,
    t: TenantId,
    a: AggregateId,
    ty: Seq<char>,
    command: A::Command,
) -> bool {
    let h = before.spec_streams()(t, a);
    match dispatch_plan::<A>(init, t, a, h, command) {
        Plan::Append(evs) => forall|ps: Seq<PendingRecord<<A::Event as View>::V>>|
            #[trigger] framed(ps, evs, t, a, ty) ==> before.spec_accepts(ps, ExpectedVersion::Exact(stream_version(h))),
        _ => false,
    }
}

/// A failure that comes only after the events were stored: publishing them.
pub open spec fn publication_fault(e: DispatchFault) -> bool {
    e is Publish || (e matches DispatchFault::Store(k, _) && k == StoreErrorKind::Publish)
}

/// The outcome of a dispatch without its committed events.
pub open spec fn outcome_of<T>(r: Result<T, DispatchError>) -> Result<(), DispatchFault> {
    match r {
        Ok(_) => Ok(()),
        Err(e) => Err(e@),
    }
}

/// Reusable command execution engine over a store and a bus.
#[derive(Debug)]
pub struct CommandDispatcher<S, B> {
    store: S,
    bus: B,
}

impl<S, B> CommandDispatcher<S, B> {
    pub fn new(store: S, bus: B) -> (r: Self)
        ensures
            r.spec_store() == store,
            r.spec_bus() == bus,
    {
        CommandDispatcher { store, bus }
    }

    pub fn into_parts(self) -> (r: (S, B))
        ensures
            r.0 == self.spec_store(),
            r.1 == self.spec_bus(),
    {
        (self.store, self.bus)
    }

    /// The store the dispatcher appends to.
    pub closed spec fn spec_store(&self) -> S {
        self.store
    }

    /// The bus the dispatcher publishes to.
    pub closed spec fn spec_bus(&self) -> B {
        self.bus
    }

    /// The store.
    pub fn store(&self) -> (r: &S)
        ensures
            *r == self.spec_store(),
    {
        &self.store
    }
}

impl<S, B> CommandDispatcher<S, B> {
    /// Dispatch a command to the aggregate `aggregate` (fresh for `tenant_id`
    /// and `aggregate_id`): load and check its stream, rehydrate, decide,
    /// append the decided events expecting the loaded version, and publish
    /// the committed events in order. Returns the committed events.
    pub fn dispatch<A: Aggregate>(
        &mut self,
        tenant_id: TenantId,
        aggregate_id: AggregateId,
        aggregate_type: String,
        command: A::Command,
        aggregate: A,
    ) -> (r: Result<Vec<StoredEvent<A::Event>>, DispatchError>)
        where
            S: EventStore<A::Event>,
            B: EventBus<EventEnvelope<A::Event>>,
            A::Event: Replicate + Event,
        requires
            ({
                let h = old(self).spec_store().spec_streams()(tenant_id, aggregate_id);
                stream_fault(tenant_id, aggregate_id, h) is None ==> {
                    let s = replay::<A>(aggregate@, payloads(h));
                    &&& history_defined::<A>(aggregate@, aggregate.spec_version(), payloads(h))
                    &&& A::spec_handle_defined(s, command)
                    &&& A::spec_decide(s, command) matches Ok(evs) ==> stream_version(h) + evs.len()
                        < u64::MAX
                }
            }),
        ensures
            r matches Ok(c) ==> dispatched::<A, S>(
                old(self).spec_store(),
                final(self).spec_store(),
                aggregate@,
                tenant_id,
                aggregate_id,
                aggregate_type@,
                command,
                records(c@),
            ),
            r matches Err(e) ==> dispatch_failed::<A, S>(
                old(self).spec_store(),
                final(self).spec_store(),
                aggregate@,
                tenant_id,
                aggregate_id,
                command,
                e@,
            ),
            old(self).spec_store().spec_can_load(tenant_id, aggregate_id) ==> dispatch_after_load::<A, S>(
                old(self).spec_store(),
                aggregate@,
                tenant_id,
                aggregate_id,
                command,
                outcome_of(r),
            ),
            old(self).spec_store().spec_can_load(tenant_id, aggregate_id) && store_takes_plan::<A, S>(
                old(self).spec_store(),
                aggregate@,
                tenant_id,
                aggregate_id,
                aggregate_type@,
                command,
            ) ==> (r is Ok || (r matches Err(e) && publication_fault(e@))),
            r matches Ok(c) ==> published_in_order(
                old(self).spec_bus().spec_published(),
                final(self).spec_bus().spec_published(),
                records(c@),
            ),
            r matches Err(e) ==> if e is Publish {
                exists|k: int|
                    0 <= k && #[trigger] published_in_order(
                        old(self).spec_bus().spec_published(),
                        final(self).spec_bus().spec_published(),
                        final(self).spec_store().spec_streams()(tenant_id, aggregate_id).skip(
                            old(self).spec_store().spec_streams()(tenant_id, aggregate_id).len() as int,
                        ).take(k),
                    )
            } else {
                final(self).spec_bus().spec_published() == old(self).spec_bus().spec_published()
            },
    {
        let ghost bus0 = self.bus.spec_published();
        assert(bus0.take(bus0.len() as int) =~= bus0);
        let history = match self.store.load_stream(tenant_id, aggregate_id) {
            Ok(h) => h,
            Err(e) => {
                return Err(DispatchError::from_store_error(e));
            },
        };
        let ghost h = records(history@);
        match validate_loaded_stream(tenant_id, aggregate_id, &history) {
            Ok(()) => {},
            Err(e) => {
                return Err(e);
            },
        }
        proof {
            lemma_sound_stream_increasing(tenant_id, aggregate_id, h, h.len());
            lemma_increasing_keeps_order(h);
        }
        let expected = ExpectedVersion::Exact(stream_version_of(&history));
        let mut agg = aggregate;
        let ghost init = agg@;
        match apply_history(&mut agg, &history) {
            Ok(()) => {},
            Err(e) => {
                return Err(e);
            },
        }
        let decided = match agg.handle(&command) {
            Ok(evs) => evs,
            Err(e) => {
                return Err(DispatchError::from_domain_error(e));
            },
        };
        if decided.len() == 0 {
            let none: Vec<StoredEvent<A::Event>> = Vec::new();
            assert(records(none@) =~= Seq::<EventRecord<<A::Event as View>::V>>::empty());
            return Ok(none);
        }
        let ghost evs = views(decided@);
        proof {
            assert(A::spec_decide(replay::<A>(init, payloads(h)), command) == Ok::<
                Seq<<A::Event as View>::V>,
                Rejection,
            >(evs));
            assert(dispatch_plan::<A>(init, tenant_id, aggregate_id, h, command) == Plan::Append(evs));
        }
        let mut uncommitted: Vec<UncommittedEvent<A::Event>> = Vec::new();
        let mut i: usize = 0;
        while i < decided.len()
            invariant
                i <= decided@.len(),
                evs == views(decided@),
                framed(pending(uncommitted@), evs.take(i as int), tenant_id, aggregate_id, aggregate_type@),
            decreases decided@.len() - i,
        {
            let ev = UncommittedEvent::from_typed(
                tenant_id,
                aggregate_id,
                aggregate_type.clone(),
                fresh_v7(),
                &decided[i],
            );
            let ghost before = uncommitted@;
            uncommitted.push(ev);
            proof {
                assert(pending(uncommitted@) =~= pending(before).push(ev@));
                assert(evs.take(i + 1) =~= evs.take(i as int).push(evs[i as int]));
            }
            i = i + 1;
        }
        assert(evs.take(evs.len() as int) =~= evs);
        let ghost ps = pending(uncommitted@);
        proof {
            assert(ps[0] == uncommitted@[0]@);
            assert(uncommitted@[0].tenant_id == tenant_id);
            assert(uncommitted@[0].aggregate_id == aggregate_id);
        }
        proof {
            assert(framed(ps, evs, tenant_id, aggregate_id, aggregate_type@));
            assert(expected == ExpectedVersion::Exact(stream_version(h)));
        }
        let ghost store0 = self.spec_store();
        assert(store0 == old(self).spec_store());
        assert(h == old(self).spec_store().spec_streams()(tenant_id, aggregate_id));
        let committed = match self.store.append(uncommitted, expected) {
            Ok(c) => c,
            Err(e) => {
                proof {
                    if store_takes_plan::<A, S>(store0, aggregate@, tenant_id, aggregate_id, aggregate_type@, command) {
                        assert(dispatch_plan::<A>(aggregate@, tenant_id, aggregate_id, h, command) == Plan::Append(evs));
                        assert(store0.spec_streams()(tenant_id, aggregate_id) == h);
                        assert(framed(ps, evs, tenant_id, aggregate_id, aggregate_type@));
                        let plan = dispatch_plan::<A>(aggregate@, tenant_id, aggregate_id, store0.spec_streams()(tenant_id, aggregate_id), command);
                        assert(plan == Plan::Append(evs));
                        assert(plan matches Plan::Append(e2) && (forall|ps2: Seq<PendingRecord<<A::Event as View>::V>>|
                            #[trigger] framed(ps2, e2, tenant_id, aggregate_id, aggregate_type@) ==> store0.spec_accepts(
                                ps2,
                                ExpectedVersion::Exact(stream_version(store0.spec_streams()(tenant_id, aggregate_id))),
                            )));
                        assert(framed(ps, plan->Append_0, tenant_id, aggregate_id, aggregate_type@));
                        assert(store0.spec_accepts(ps, ExpectedVersion::Exact(stream_version(h))));
                        assert(e.spec_kind() == StoreErrorKind::Publish);
                    }
                }
                return Err(DispatchError::from_store_error(e));
            },
        };
        let ghost stored = self.spec_store();
        assert(store_appended::<A::Event, S>(old(self).spec_store(), stored, ps, expected, records(committed@)));
        let ghost recs = records(committed@);
        proof {
            crate::event_store::law_append_then_load(
                old(self).spec_store().spec_streams(),
                stored.spec_streams(),
                ps,
                expected,
                recs,
            );
            assert(stored.spec_streams()(tenant_id, aggregate_id).skip(h.len() as int) =~= recs);
        }
        assert(recs.take(0).len() == 0);
        let mut j: usize = 0;
        while j < committed.len()
            invariant
                j <= committed@.len(),
                self.spec_store() == stored,
                dispatch_plan::<A>(init, tenant_id, aggregate_id, h, command) is Append,
                init == aggregate@,
                h == old(self).spec_store().spec_streams()(tenant_id, aggregate_id),
                bus0 == old(self).spec_bus().spec_published(),
                recs == records(committed@),
                stored.spec_streams()(tenant_id, aggregate_id).skip(h.len() as int) == recs,
                published_in_order(bus0, self.bus.spec_published(), recs.take(j as int)),
            decreases committed@.len() - j,
        {
            let env = committed[j].to_envelope();
            let ghost g = env;
            let ghost before = self.bus.spec_published();
            match self.bus.publish(env) {
                Ok(()) => {
                    proof {
                        let after = self.bus.spec_published();
                        assert(recs.take(j + 1) =~= recs.take(j as int).push(recs[j as int]));
                        assert(after.take(bus0.len() as int) =~= before.take(bus0.len() as int));
                        assert forall|i: int| #![trigger recs.take(j + 1)[i]] 0 <= i < recs.take(j + 1).len()
                            implies crate::event_store::envelope_for(after[bus0.len() + i], recs.take(j + 1)[i]) by {
                            if i < j {
                                assert(after[bus0.len() + i] == before[bus0.len() + i]);
                                assert(recs.take(j + 1)[i] == recs.take(j as int)[i]);
                            } else {
                                assert(after[bus0.len() + i] == g);
                                assert(recs[j as int] == committed@[j as int]@);
                            }
                        }
                    }
                },
                Err(e) => {
                    proof {
                        assert(self.spec_bus().spec_published() == before);
                        assert(published_in_order(
                            old(self).spec_bus().spec_published(),
                            self.spec_bus().spec_published(),
                            self.spec_store().spec_streams()(tenant_id, aggregate_id).skip(h.len() as int).take(j as int),
                        ));
                    }
                    return Err(DispatchError::Publish(debug_text(&e)));
                },
            }
            j = j + 1;
        }
        assert(recs.take(committed@.len() as int) =~= recs);
        assert(framed(ps, evs, tenant_id, aggregate_id, aggregate_type@));
        assert(expected == ExpectedVersion::Exact(stream_version(h)));
        assert(store_appended::<A::Event, S>(
            old(self).spec_store(),
            self.spec_store(),
            ps,
            ExpectedVersion::Exact(stream_version(h)),
            records(committed@),
        ));
        assert(exists|ps2: Seq<PendingRecord<<A::Event as View>::V>>|
            framed(ps2, evs, tenant_id, aggregate_id, aggregate_type@)
                && #[trigger] store_appended::<A::Event, S>(
                old(self).spec_store(),
                self.spec_store(),
                ps2,
                ExpectedVersion::Exact(stream_version(h)),
                records(committed@),
            ));
        assert(dispatch_plan::<A>(aggregate@, tenant_id, aggregate_id, h, command) == Plan::Append(evs));
        assert(dispatched::<A, S>(
            old(self).spec_store(),
            self.spec_store(),
            aggregate@,
            tenant_id,
            aggregate_id,
            aggregate_type@,
            command,
            records(committed@),
        ));
        Ok(committed)
    }
}

/// A successful dispatch of a command that decided events commits exactly
/// those events, in order, on the command's stream right after the version
/// it was loaded at: one stored event per decided event, numbered from the
/// loaded version plus one, carrying the given tenant, aggregate and
/// aggregate type and the decided payload; the stream afterwards is the
/// loaded stream followed by them, and no other stream changes.
pub proof fn law_dispatch_commits_decided_events<A: Aggregate, S: EventStore<A::Event>>(
    before: S,
    after: S,
    init: A::V,
    t: TenantId,
    a: AggregateId,
    ty: Seq<char>,
    command: A::Command,
    c: Seq<EventRecord<<A::Event as View>::V>>,
)
    requires
        dispatched::<A, S>(before, after, init, t, a, ty, command, c),
        dispatch_plan::<A>(init, t, a, before.spec_streams()(t, a), command) is Append,
        stream_version(before.spec_streams()(t, a)) + dispatch_plan::<A>(
            init,
            t,
            a,
            before.spec_streams()(t, a),
            command,
        )->Append_0.len() < u64::MAX,
    ensures
        ({
            let h = before.spec_streams()(t, a);
            let evs = dispatch_plan::<A>(init, t, a, h, command)->Append_0;
            &&& c.len() == evs.len()
            &&& forall|i: int|
                0 <= i < c.len() ==> (#[trigger] c[i]).sequence_number == stream_version(h) + 1 + i
                    && c[i].tenant_id == t && c[i].aggregate_id == a && c[i].aggregate_type == ty
                    && c[i].payload == evs[i]
            &&& after.spec_streams()(t, a) == h + c
            &&& forall|t2: TenantId, a2: AggregateId|
                (t2, a2) != (t, a) ==> #[trigger] after.spec_streams()(t2, a2) == before.spec_streams()(t2, a2)
        }),
{
    let h = before.spec_streams()(t, a);
    let evs = dispatch_plan::<A>(init, t, a, h, command)->Append_0;
    let ps = choose|ps: Seq<PendingRecord<<A::Event as View>::V>>|
        framed(ps, evs, t, a, ty) && #[trigger] store_appended::<A::Event, S>(
            before,
            after,
            ps,
            ExpectedVersion::Exact(stream_version(h)),
            c,
        );
    assert(ps.len() > 0);
    assert(ps[0].tenant_id == t && ps[0].aggregate_id == a);
    assert forall|i: int| 0 <= i < c.len() implies (#[trigger] c[i]).sequence_number == stream_version(h) + 1 + i
        && c[i].tenant_id == t && c[i].aggregate_id == a && c[i].aggregate_type == ty && c[i].payload == evs[i] by {
        assert(ps[i].tenant_id == t);
        assert(c[i] == crate::event_store::committed_at(ps[i], (stream_version(h) + 1 + i) as u64));
    }
}

} // verus!
