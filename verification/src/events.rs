//! Event sourcing primitives: the event contract and the tenant-scoped
//! envelope that carries an event through the store and the bus.
use vstd::prelude::*;

use crate::common::{AggregateId, TenantId, Timestamp};

verus! {

/// A domain event: a named, versioned fact with its business time.
pub trait Event: Sized {
    spec fn spec_event_type(&self) -> Seq<char>;

    spec fn spec_occurred_at(&self) -> Timestamp;

    /// Stable event type name (`{module}.{aggregate}.{action}`).
    fn event_type(&self) -> (r: &'static str)
        ensures
            r@ == self.spec_event_type(),
    ;

    /// Schema version of the event.
    fn version(&self) -> u32;

    /// When the event happened (business time).
    fn occurred_at(&self) -> (r: Timestamp)
        ensures
            r == self.spec_occurred_at(),
    ;
}

/// A command: an intent aimed at one aggregate.
pub trait Command: Clone + core::fmt::Debug {
    /// The aggregate the command targets.
    fn target_aggregate_id(&self) -> AggregateId;
}

/// Turns a command into events, outside any aggregate's lifecycle.
pub trait CommandHandler {
    type Cmd: Command;
    type Ev: Event;
    type Error: core::fmt::Debug;

    fn handle(&self, command: Self::Cmd) -> Result<Vec<Self::Ev>, Self::Error>;
}

/// Envelope for an event: tenant, stream identity and stream position.
#[derive(Debug, Clone, PartialEq, Eq)]
pub struct EventEnvelope<E> {
    event_id: u128,
    tenant_id: TenantId,
    aggregate_id: AggregateId,
    aggregate_type: String,
    sequence_number: u64,
    payload: E,
}

impl<E> EventEnvelope<E> {
    pub closed spec fn spec_event_id(&self) -> u128 {
        self.event_id
    }

    pub closed spec fn spec_tenant_id(&self) -> TenantId {
        self.tenant_id
    }

    pub closed spec fn spec_aggregate_id(&self) -> AggregateId {
        self.aggregate_id
    }

    pub closed spec fn spec_aggregate_type(&self) -> Seq<char> {
        self.aggregate_type@
    }

    pub closed spec fn spec_sequence_number(&self) -> u64 {
        self.sequence_number
    }

    pub closed spec fn spec_payload(&self) -> E {
        self.payload
    }

    pub fn new(
        event_id: u128,
        tenant_id: TenantId,
        aggregate_id: AggregateId,
        aggregate_type: String,
        sequence_number: u64,
        payload: E,
    ) -> (r: Self)
        ensures
            r.spec_event_id() == event_id,
            r.spec_tenant_id() == tenant_id,
            r.spec_aggregate_id() == aggregate_id,
            r.spec_aggregate_type() == aggregate_type@,
            r.spec_sequence_number() == sequence_number,
            r.spec_payload() == payload,
    {
        EventEnvelope { event_id, tenant_id, aggregate_id, aggregate_type, sequence_number, payload }
    }

    pub fn event_id(&self) -> (r: u128)
        ensures
            r == self.spec_event_id(),
    {
        self.event_id
    }

    pub fn tenant_id(&self) -> (r: TenantId)
        ensures
            r == self.spec_tenant_id(),
    {
        self.tenant_id
    }

    pub fn aggregate_id(&self) -> (r: AggregateId)
        ensures
            r == self.spec_aggregate_id(),
    {
        self.aggregate_id
    }

    pub fn aggregate_type(&self) -> (r: &str)
        ensures
            r@ == self.spec_aggregate_type(),
    {
        self.aggregate_type.as_str()
    }

    pub fn sequence_number(&self) -> (r: u64)
        ensures
            r == self.spec_sequence_number(),
    {
        self.sequence_number
    }

    pub fn payload(&self) -> (r: &E)
        ensures
            *r == self.spec_payload(),
    {
        &self.payload
    }

    pub fn into_payload(self) -> (r: E)
        ensures
            r == self.spec_payload(),
    {
        self.payload
    }
}

/// Messages that belong to one tenant.
pub trait TenantScoped {
    spec fn spec_scope(&self) -> TenantId;

    fn tenant_id(&self) -> (r: TenantId)
        ensures
            r == self.spec_scope(),
    ;
}

impl<E> TenantScoped for EventEnvelope<E> {
    open spec fn spec_scope(&self) -> TenantId {
        self.spec_tenant_id()
    }

    fn tenant_id(&self) -> (r: TenantId) {
        self.tenant_id
    }
}

} // verus!
