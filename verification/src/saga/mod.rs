//! Sagas (process managers): explicit state machines that react to domain
//! events with actions (saga events to persist, commands and compensations to
//! dispatch), persisted through the event store.
pub mod sales_ar;

use vstd::prelude::*;
use vstd::string::StringExecFns;

use crate::common::{fresh_v7, AggregateId, ExpectedVersion, TenantId, Timestamp};
use crate::event_store::{
    appended, pending, records, stream_version, EventStore, EventStoreError,
    PendingRecord, StoreErrorKind, StoredEvent, Streams, UncommittedEvent, unchanged, to_commit,
};
use crate::events::EventEnvelope;
use crate::json::{Json, JsonView};
use crate::text::owned;

verus! {

broadcast use vstd::string::group_string_axioms;

/// What a saga asks for in response to an incoming event.
#[derive(Debug, Clone)]
pub enum SagaAction {
    /// Append a saga event to the saga's own stream.
    Emit { event_type: String, payload: Json },
    /// Dispatch a command to an aggregate.
    Command { aggregate_type: String, command_type: String, payload: Json },
    /// Dispatch a command that undoes earlier effects.
    Compensate { aggregate_type: String, command_type: String, payload: Json },
    /// The saga is done.
    Complete,
}

pub enum SagaActionView {
    Emit(Seq<char>, JsonView),
    Command(Seq<char>, Seq<char>, JsonView),
    Compensate(Seq<char>, Seq<char>, JsonView),
    Complete,
}

impl View for SagaAction {
    type V = SagaActionView;

    open spec fn view(&self) -> SagaActionView {
        match self {
            SagaAction::Emit { event_type, payload } => SagaActionView::Emit(event_type@, payload@),
            SagaAction::Command { aggregate_type, command_type, payload } => SagaActionView::Command(
                aggregate_type@,
                command_type@,
                payload@,
            ),
            SagaAction::Compensate { aggregate_type, command_type, payload } => SagaActionView::Compensate(
                aggregate_type@,
                command_type@,
                payload@,
            ),
            SagaAction::Complete => SagaActionView::Complete,
        }
    }
}

pub open spec fn action_views(s: Seq<SagaAction>) -> Seq<SagaActionView> {
    s.map_values(|a: SagaAction| a@)
}

/// A saga: its state machine, how incoming events find their instance, and
/// how it reacts.
pub trait Saga {
    type State;
    type SagaEvent;
    type CorrelationId;

    /// The saga's type, by view.
    spec fn spec_saga_type() -> Seq<char>;

    /// The saga's type, used as the aggregate type of its stream.
    fn saga_type() -> (r: &'static str)
        ensures
            r@ == Self::spec_saga_type(),
    ;

    /// The instance an incoming event belongs to, if any.
    fn correlate(envelope: &EventEnvelope<Json>) -> Option<Self::CorrelationId>;

    /// The stream id of an instance.
    fn saga_id(tenant_id: TenantId, correlation: &Self::CorrelationId) -> AggregateId;

    /// The state of a new instance.
    fn initial_state(tenant_id: TenantId, correlation: &Self::CorrelationId) -> Self::State;

    /// Apply a saga event to the state.
    fn apply(state: &mut Self::State, event: &Self::SagaEvent);

    /// The actions for an incoming event, given the state.
    fn react(
        state: &Self::State,
        tenant_id: TenantId,
        correlation: &Self::CorrelationId,
        incoming: &EventEnvelope<Json>,
    ) -> Vec<SagaAction>;
}

/// Dispatches the commands of saga actions; implemented by the application.
pub trait CommandExecutor {
    type Error;

    fn execute(
        &self,
        tenant_id: TenantId,
        aggregate_type: &str,
        command_type: &str,
        payload: &Json,
    ) -> Result<(), Self::Error>;
}

/// Persists saga events in the event store.
pub struct SagaRepository<S, E> {
    event_store: E,
    saga: std::marker::PhantomData<S>,
}

/// The saga event that `append_emit` appends: version 1, of the saga's type.
pub open spec fn emitted(
    event_id: u128,
    tenant_id: TenantId,
    saga_id: AggregateId,
    saga_type: Seq<char>,
    event_type: Seq<char>,
    occurred_at: Timestamp,
    payload: JsonView,
) -> PendingRecord<JsonView> {
    PendingRecord {
        event_id,
        tenant_id,
        aggregate_id: saga_id,
        aggregate_type: saga_type,
        event_type,
        event_version: 1,
        occurred_at,
        payload,
    }
}

impl<S: Saga, E: EventStore<Json>> SagaRepository<S, E> {
    pub fn new(event_store: E) -> (r: SagaRepository<S, E>)
        ensures
            r.streams() == event_store.spec_streams(),
    {
        SagaRepository { event_store, saga: std::marker::PhantomData }
    }

    /// The streams of the underlying store.
    pub closed spec fn streams(&self) -> Streams<JsonView> {
        self.event_store.spec_streams()
    }

    /// The underlying store.
    pub closed spec fn spec_store(&self) -> E {
        self.event_store
    }

    /// The saga's stored events, when the store can read them.
    pub fn load(&self, tenant_id: TenantId, saga_id: AggregateId) -> (r: Result<Vec<StoredEvent<Json>>, EventStoreError>)
        ensures
            r is Ok <==> self.spec_store().spec_can_load(tenant_id, saga_id),
            r matches Ok(v) ==> records(v@) == self.streams()(tenant_id, saga_id),
    {
        self.event_store.load_stream(tenant_id, saga_id)
    }

    /// Append one saga event to the saga's stream, whatever its version.
    pub fn append_emit(
        &mut self,
        tenant_id: TenantId,
        saga_id: AggregateId,
        event_type: &str,
        payload: Json,
    ) -> (r: Result<Vec<StoredEvent<Json>>, EventStoreError>)
        requires
            stream_version(old(self).streams()(tenant_id, saga_id)) + 1 < u64::MAX,
        ensures
            exists|event_id: u128, at: Timestamp| {
                let ev = #[trigger] emitted(event_id, tenant_id, saga_id, S::spec_saga_type(), event_type@, at, payload@);
                match r {
                    Ok(c) => appended(
                        old(self).streams(),
                        final(self).streams(),
                        seq![ev],
                        ExpectedVersion::Any,
                        records(c@),
                    ),
                    Err(e) => if e.spec_kind() == StoreErrorKind::Publish {
                        appended(
                            old(self).streams(),
                            final(self).streams(),
                            seq![ev],
                            ExpectedVersion::Any,
                            to_commit(old(self).streams(), seq![ev]),
                        )
                    } else {
                        unchanged(old(self).streams(), final(self).streams())
                    },
                }
            },
    {
        let ev = UncommittedEvent {
            tenant_id,
            aggregate_id: saga_id,
            aggregate_type: owned(S::saga_type()),
            event_id: fresh_v7(),
            event_type: owned(event_type),
            event_version: 1,
            payload,
            occurred_at: Timestamp::now(),
        };
        let ghost pv = ev@;
        let events = vec![ev];
        assert(pending(events@) =~= seq![pv]);
        let r = self.event_store.append(events, ExpectedVersion::Any);
        assert(pv == emitted(pv.event_id, tenant_id, saga_id, S::spec_saga_type(), event_type@, pv.occurred_at, pv.payload));
        r
    }
}

} // verus!
