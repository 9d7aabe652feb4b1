//! Sales orders: the identifiers, statuses and events that the read side
//! consumes.
use vstd::prelude::*;

use crate::common::{AggregateId, TenantId, Timestamp};
use crate::products::ProductId;
use crate::read_model::RecordKey;

verus! {

/// Sales order identifier.
#[derive(Debug, Clone, Copy, PartialEq, Eq, Hash, Structural)]
pub struct SalesOrderId(pub AggregateId);

impl View for SalesOrderId {
    type V = SalesOrderId;

    open spec fn view(&self) -> SalesOrderId {
        *self
    }
}

impl RecordKey for SalesOrderId {
    fn same_key(&self, other: &Self) -> (r: bool) {
        self.0.0 == other.0.0
    }

    fn copy_key(&self) -> (r: Self) {
        *self
    }
}

impl SalesOrderId {
    pub fn new(id: AggregateId) -> (r: SalesOrderId)
        ensures
            r.0 == id,
    {
        SalesOrderId(id)
    }
}

/// Sales order lifecycle.
#[derive(Debug, Clone, Copy, PartialEq, Eq, Structural)]
pub enum SalesOrderStatus {
    Draft,
    Confirmed,
    Invoiced,
}

/// Event: a sales order was created.
#[derive(Debug, Clone, PartialEq, Eq)]
pub struct SalesOrderCreated {
    pub tenant_id: TenantId,
    pub order_id: SalesOrderId,
    pub occurred_at: Timestamp,
}

/// Event: a line was added to a sales order.
#[derive(Debug, Clone, PartialEq, Eq)]
pub struct LineAdded {
    pub tenant_id: TenantId,
    pub order_id: SalesOrderId,
    pub line_no: u32,
    pub product_id: ProductId,
    pub quantity: i64,
    pub unit_price: u64,
    pub occurred_at: Timestamp,
}

/// Event: a sales order was confirmed.
#[derive(Debug, Clone, PartialEq, Eq)]
pub struct OrderConfirmed {
    pub tenant_id: TenantId,
    pub order_id: SalesOrderId,
    pub occurred_at: Timestamp,
}

/// Event: a sales order was invoiced.
#[derive(Debug, Clone, PartialEq, Eq)]
pub struct OrderInvoiced {
    pub tenant_id: TenantId,
    pub order_id: SalesOrderId,
    pub occurred_at: Timestamp,
}

#[derive(Debug, Clone, PartialEq, Eq)]
pub enum SalesOrderEvent {
    SalesOrderCreated(SalesOrderCreated),
    LineAdded(LineAdded),
    OrderConfirmed(OrderConfirmed),
    OrderInvoiced(OrderInvoiced),
}

impl SalesOrderEvent {
    /// Tenant and order the event belongs to.
    pub open spec fn spec_stream(self) -> (TenantId, SalesOrderId) {
        match self {
            SalesOrderEvent::SalesOrderCreated(e) => (e.tenant_id, e.order_id),
            SalesOrderEvent::LineAdded(e) => (e.tenant_id, e.order_id),
            SalesOrderEvent::OrderConfirmed(e) => (e.tenant_id, e.order_id),
            SalesOrderEvent::OrderInvoiced(e) => (e.tenant_id, e.order_id),
        }
    }

    pub fn stream(&self) -> (r: (TenantId, SalesOrderId))
        ensures
            r == self.spec_stream(),
    {
        match self {
            SalesOrderEvent::SalesOrderCreated(e) => (e.tenant_id, e.order_id),
            SalesOrderEvent::LineAdded(e) => (e.tenant_id, e.order_id),
            SalesOrderEvent::OrderConfirmed(e) => (e.tenant_id, e.order_id),
            SalesOrderEvent::OrderInvoiced(e) => (e.tenant_id, e.order_id),
        }
    }
}

} // verus!
