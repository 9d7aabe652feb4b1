//! Purchasing: the purchase order identifiers, statuses and events that the
//! read side consumes.
use vstd::prelude::*;

use crate::common::{AggregateId, TenantId, Timestamp};
use crate::parties::PartyId;
use crate::products::ProductId;
use crate::read_model::RecordKey;

verus! {

/// Purchase order identifier.
#[derive(Debug, Clone, Copy, PartialEq, Eq, Hash, Structural)]
pub struct PurchaseOrderId(pub AggregateId);

impl View for PurchaseOrderId {
    type V = PurchaseOrderId;

    open spec fn view(&self) -> PurchaseOrderId {
        *self
    }
}

impl RecordKey for PurchaseOrderId {
    fn same_key(&self, other: &Self) -> (r: bool) {
        self.0.0 == other.0.0
    }

    fn copy_key(&self) -> (r: Self) {
        *self
    }
}

impl PurchaseOrderId {
    pub fn new(id: AggregateId) -> (r: PurchaseOrderId)
        ensures
            r.0 == id,
    {
        PurchaseOrderId(id)
    }
}

/// Purchase order lifecycle.
#[derive(Debug, Clone, Copy, PartialEq, Eq, Structural)]
pub enum PurchaseOrderStatus {
    Draft,
    Approved,
    Received,
}

/// A line of a purchase order.
#[derive(Debug, Clone, Copy, PartialEq, Eq, Structural)]
pub struct LineItem {
    pub line_no: u32,
    pub product_id: ProductId,
    pub quantity: i64,
}

/// Event: a purchase order was created for a supplier.
#[derive(Debug, Clone, PartialEq, Eq)]
pub struct PurchaseOrderCreated {
    pub tenant_id: TenantId,
    pub order_id: PurchaseOrderId,
    pub supplier_id: PartyId,
    pub occurred_at: Timestamp,
}

/// Event: a line was added to a purchase order.
#[derive(Debug, Clone, PartialEq, Eq)]
pub struct PurchaseOrderLineAdded {
    pub tenant_id: TenantId,
    pub order_id: PurchaseOrderId,
    pub line_no: u32,
    pub product_id: ProductId,
    pub quantity: i64,
    pub occurred_at: Timestamp,
}

/// Event: a purchase order was approved.
#[derive(Debug, Clone, PartialEq, Eq)]
pub struct PurchaseOrderApproved {
    pub tenant_id: TenantId,
    pub order_id: PurchaseOrderId,
    pub occurred_at: Timestamp,
}

/// Event: the goods of a purchase order were received.
#[derive(Debug, Clone, PartialEq, Eq)]
pub struct GoodsReceived {
    pub tenant_id: TenantId,
    pub order_id: PurchaseOrderId,
    pub supplier_id: PartyId,
    pub lines: Vec<LineItem>,
    pub occurred_at: Timestamp,
}

#[derive(Debug, Clone, PartialEq, Eq)]
pub enum PurchaseOrderEvent {
    PurchaseOrderCreated(PurchaseOrderCreated),
    PurchaseOrderLineAdded(PurchaseOrderLineAdded),
    PurchaseOrderApproved(PurchaseOrderApproved),
    GoodsReceived(GoodsReceived),
}

impl PurchaseOrderEvent {
    /// Tenant and order the event belongs to.
    pub open spec fn spec_stream(self) -> (TenantId, PurchaseOrderId) {
        match self {
            PurchaseOrderEvent::PurchaseOrderCreated(e) => (e.tenant_id, e.order_id),
            PurchaseOrderEvent::PurchaseOrderLineAdded(e) => (e.tenant_id, e.order_id),
            PurchaseOrderEvent::PurchaseOrderApproved(e) => (e.tenant_id, e.order_id),
            PurchaseOrderEvent::GoodsReceived(e) => (e.tenant_id, e.order_id),
        }
    }

    pub fn stream(&self) -> (r: (TenantId, PurchaseOrderId))
        ensures
            r == self.spec_stream(),
    {
        match self {
            PurchaseOrderEvent::PurchaseOrderCreated(e) => (e.tenant_id, e.order_id),
            PurchaseOrderEvent::PurchaseOrderLineAdded(e) => (e.tenant_id, e.order_id),
            PurchaseOrderEvent::PurchaseOrderApproved(e) => (e.tenant_id, e.order_id),
            PurchaseOrderEvent::GoodsReceived(e) => (e.tenant_id, e.order_id),
        }
    }
}

} // verus!
