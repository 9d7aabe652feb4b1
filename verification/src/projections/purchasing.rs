//! Purchase orders: supplier, status and lines per order and tenant.
//!
//! A line or approval for an order that was never created creates its entry
//! with a freshly drawn supplier id standing in for the unknown one.
use vstd::prelude::*;

use crate::common::{copy_vec, AggregateId, Replicate, TenantId};
use crate::events::EventEnvelope;
use crate::parties::PartyId;
use crate::projections::{
    cleared, envelope_tenants, fault_view, intake, lemma_project_all_drawn_stops, project,
    project_all_drawn, replay_keys, replay_order, replay_order_of, tenants_of, CursorTable, Intake,
    ProjectionFault, ProjectionView, Rules,
};
use crate::purchasing::{LineItem, PurchaseOrderEvent, PurchaseOrderId, PurchaseOrderStatus};
use crate::read_model::{lookup, opt_view, tenant_rows, upserted, InMemoryTenantStore};
use crate::text::owned;

pub use crate::projections::InMemoryCursorStore;

verus! {

/// A purchase order with its lines.
#[derive(Debug, Clone, PartialEq, Eq)]
pub struct PurchaseOrderReadModel {
    pub order_id: PurchaseOrderId,
    pub supplier_id: PartyId,
    pub status: PurchaseOrderStatus,
    pub lines: Vec<LineItem>,
}

/// A purchase order with its lines, by view.
pub struct PurchaseOrderRow {
    pub order_id: PurchaseOrderId,
    pub supplier_id: PartyId,
    pub status: PurchaseOrderStatus,
    pub lines: Seq<LineItem>,
}

impl View for PurchaseOrderReadModel {
    type V = PurchaseOrderRow;

    open spec fn view(&self) -> PurchaseOrderRow {
        PurchaseOrderRow {
            order_id: self.order_id,
            supplier_id: self.supplier_id,
            status: self.status,
            lines: self.lines@,
        }
    }
}

impl Replicate for PurchaseOrderReadModel {
    fn replicate(&self) -> (r: PurchaseOrderReadModel) {
        PurchaseOrderReadModel {
            order_id: self.order_id,
            supplier_id: self.supplier_id,
            status: self.status,
            lines: copy_vec(&self.lines),
        }
    }
}

#[derive(Debug)]
pub enum PurchaseOrderProjectionError {
    Deserialize(String),
    TenantIsolation(String),
    NonMonotonicSequence { last: u64, found: u64 },
}

impl View for PurchaseOrderProjectionError {
    type V = ProjectionFault;

    open spec fn view(&self) -> ProjectionFault {
        match self {
            PurchaseOrderProjectionError::Deserialize(m) => ProjectionFault::Deserialize(m@),
            PurchaseOrderProjectionError::TenantIsolation(m) => ProjectionFault::TenantIsolation(m@),
            PurchaseOrderProjectionError::NonMonotonicSequence { last, found } => {
                ProjectionFault::NonMonotonicSequence { last: *last, found: *found }
            },
        }
    }
}

/// Rows of the purchase orders read model, by view.
pub type PurchaseOrderRows = Seq<(TenantId, PurchaseOrderId, PurchaseOrderRow)>;

/// The order a change applies to: the current entry, or an empty draft of
/// the given supplier.
pub open spec fn purchase_base(cur: Option<PurchaseOrderRow>, id: PurchaseOrderId, supplier: PartyId) -> PurchaseOrderRow {
    match cur {
        Some(b) => b,
        None => PurchaseOrderRow {
            order_id: id,
            supplier_id: supplier,
            status: PurchaseOrderStatus::Draft,
            lines: Seq::empty(),
        },
    }
}

/// The entry after an event, from the current one.
pub open spec fn purchase_row_after(cur: Option<PurchaseOrderRow>, e: PurchaseOrderEvent, placeholder: PartyId) -> PurchaseOrderRow {
    match e {
        PurchaseOrderEvent::PurchaseOrderCreated(c) => PurchaseOrderRow {
            order_id: c.order_id,
            supplier_id: c.supplier_id,
            status: PurchaseOrderStatus::Draft,
            lines: Seq::empty(),
        },
        PurchaseOrderEvent::PurchaseOrderLineAdded(l) => {
            let b = purchase_base(cur, l.order_id, placeholder);
            PurchaseOrderRow {
                lines: b.lines.push(
                    LineItem { line_no: l.line_no, product_id: l.product_id, quantity: l.quantity },
                ),
                ..b
            }
        },
        PurchaseOrderEvent::PurchaseOrderApproved(a) => PurchaseOrderRow {
            status: PurchaseOrderStatus::Approved,
            ..purchase_base(cur, a.order_id, placeholder)
        },
        PurchaseOrderEvent::GoodsReceived(g) => PurchaseOrderRow {
            status: PurchaseOrderStatus::Received,
            lines: g.lines@,
            ..purchase_base(cur, g.order_id, g.supplier_id)
        },
    }
}

/// The purchase orders rules, with the supplier id drawn for this envelope.
pub open spec fn purchase_rules(placeholder: PartyId) -> Rules<PurchaseOrderEvent, PurchaseOrderRows> {
    |rows: PurchaseOrderRows, t: TenantId, a: AggregateId, e: PurchaseOrderEvent|
        {
            let (et, id) = e.spec_stream();
            if et != t {
                Err(
                    ProjectionFault::TenantIsolation(
                        "event tenant_id does not match envelope tenant_id"@,
                    ),
                )
            } else if id.0 != a {
                Err(
                    ProjectionFault::TenantIsolation(
                        "event order_id does not match envelope aggregate_id"@,
                    ),
                )
            } else {
                Ok(upserted(rows, t, id, purchase_row_after(lookup(rows, t, id), e, placeholder)))
            }
        }
}

/// The purchase orders rules for each drawn supplier id.
pub open spec fn purchase_rules_by_draw() -> spec_fn(PartyId) -> Rules<PurchaseOrderEvent, PurchaseOrderRows> {
    |p: PartyId| purchase_rules(p)
}

/// Purchase orders projection.
#[derive(Debug)]
pub struct PurchaseOrdersProjection {
    store: InMemoryTenantStore<PurchaseOrderId, PurchaseOrderReadModel>,
    cursors: CursorTable,
}

impl View for PurchaseOrdersProjection {
    type V = ProjectionView<PurchaseOrderRows>;

    closed spec fn view(&self) -> ProjectionView<PurchaseOrderRows> {
        ProjectionView { rows: self.store.entries(), cursors: self.cursors.entries() }
    }
}

fn row_after(cur: Option<PurchaseOrderReadModel>, e: &PurchaseOrderEvent, placeholder: PartyId) -> (r:
    PurchaseOrderReadModel)
    ensures
        r@ == purchase_row_after(opt_view(cur), *e, placeholder),
{
    let id = e.stream().1;
    let supplier = match e {
        PurchaseOrderEvent::GoodsReceived(g) => g.supplier_id,
        _ => placeholder,
    };
    let mut b = match e {
        PurchaseOrderEvent::PurchaseOrderCreated(c) => PurchaseOrderReadModel {
            order_id: c.order_id,
            supplier_id: c.supplier_id,
            status: PurchaseOrderStatus::Draft,
            lines: Vec::new(),
        },
        _ => match cur {
            Some(b) => b,
            None => PurchaseOrderReadModel {
                order_id: id,
                supplier_id: supplier,
                status: PurchaseOrderStatus::Draft,
                lines: Vec::new(),
            },
        },
    };
    match e {
        PurchaseOrderEvent::PurchaseOrderCreated(_) => {},
        PurchaseOrderEvent::PurchaseOrderLineAdded(l) => {
            b.lines.push(LineItem { line_no: l.line_no, product_id: l.product_id, quantity: l.quantity });
        },
        PurchaseOrderEvent::PurchaseOrderApproved(_) => {
            b.status = PurchaseOrderStatus::Approved;
        },
        PurchaseOrderEvent::GoodsReceived(g) => {
            b.status = PurchaseOrderStatus::Received;
            b.lines = copy_vec(&g.lines);
        },
    }
    b
}

impl PurchaseOrdersProjection {
    /// Take up a stream's progress kept elsewhere (a cursor persisted across
    /// restarts): envelopes of the stream at or below `last` are then ignored.
    pub fn seed_cursor(&mut self, tenant_id: TenantId, aggregate_id: AggregateId, last: u64)
        ensures
            final(self)@.rows == old(self)@.rows,
            final(self)@.cursors == upserted(old(self)@.cursors, tenant_id, aggregate_id, last),
    {
        self.cursors.upsert(tenant_id, aggregate_id, last);
    }

    /// The last sequence number applied for a stream, 0 if none: the cursor
    /// to persist.
    pub fn stream_cursor(&self, tenant_id: TenantId, aggregate_id: AggregateId) -> (r: u64)
        ensures
            r == crate::projections::cursor_of(self@.cursors, tenant_id, aggregate_id),
    {
        crate::projections::read_cursor(&self.cursors, tenant_id, aggregate_id)
    }

    pub fn new() -> (r: Self)
        ensures
            r@.rows == Seq::<(TenantId, PurchaseOrderId, PurchaseOrderRow)>::empty(),
            r@.cursors == Seq::<(TenantId, AggregateId, u64)>::empty(),
    {
        PurchaseOrdersProjection { store: InMemoryTenantStore::new(), cursors: InMemoryTenantStore::new() }
    }

    /// The entry of one order.
    pub fn get(&self, tenant_id: TenantId, order_id: &PurchaseOrderId) -> (r: Option<PurchaseOrderReadModel>)
        ensures
            opt_view(r) == lookup(self@.rows, tenant_id, *order_id),
    {
        self.store.get(tenant_id, order_id)
    }

    /// Every order of a tenant.
    pub fn list(&self, tenant_id: TenantId) -> (r: Vec<PurchaseOrderReadModel>)
        ensures
            r@.map_values(|m: PurchaseOrderReadModel| m@) == tenant_rows(self@.rows, tenant_id),
    {
        self.store.list(tenant_id)
    }

    /// Apply one published envelope, with `placeholder` as the supplier of an
    /// entry created without its order.
    pub fn apply_envelope_with(
        &mut self,
        envelope: &EventEnvelope<Result<PurchaseOrderEvent, String>>,
        placeholder: PartyId,
    ) -> (r: Result<(), PurchaseOrderProjectionError>)
        ensures
            (fault_view(r), final(self)@) == project(
                "purchasing.order"@,
                old(self)@,
                *envelope,
                purchase_rules(placeholder),
            ),
    {
        let tenant_id = envelope.tenant_id();
        let aggregate_id = envelope.aggregate_id();
        let seq = envelope.sequence_number();
        match intake(&self.cursors, envelope, "purchasing.order") {
            Intake::Ignore => {
                return Ok(());
            },
            Intake::Stale { last, found } => {
                return Err(PurchaseOrderProjectionError::NonMonotonicSequence { last, found });
            },
            Intake::Proceed => {},
        }
        let ev = match envelope.payload() {
            Err(m) => {
                return Err(PurchaseOrderProjectionError::Deserialize(m.clone()));
            },
            Ok(e) => e,
        };
        let (event_tenant, order_id) = ev.stream();
        if event_tenant != tenant_id {
            return Err(
                PurchaseOrderProjectionError::TenantIsolation(
                    owned("event tenant_id does not match envelope tenant_id"),
                ),
            );
        }
        if order_id.0 != aggregate_id {
            return Err(
                PurchaseOrderProjectionError::TenantIsolation(
                    owned("event order_id does not match envelope aggregate_id"),
                ),
            );
        }
        let current = self.store.get(tenant_id, &order_id);
        let row = row_after(current, ev, placeholder);
        self.store.upsert(tenant_id, order_id, row);
        self.cursors.upsert(tenant_id, aggregate_id, seq);
        Ok(())
    }

    /// Apply one published envelope; a fresh random supplier id stands in
    /// where the order's creation is missing.
    pub fn apply_envelope(&mut self, envelope: &EventEnvelope<Result<PurchaseOrderEvent, String>>) -> (r:
        Result<(), PurchaseOrderProjectionError>)
        ensures
            exists|p: PartyId|
                (fault_view(r), final(self)@) == project(
                    "purchasing.order"@,
                    old(self)@,
                    *envelope,
                    #[trigger] purchase_rules(p),
                ),
    {
        let placeholder = PartyId::new(AggregateId::new());
        let r = self.apply_envelope_with(envelope, placeholder);
        assert((fault_view(r), self@) == project(
            "purchasing.order"@,
            old(self)@,
            *envelope,
            purchase_rules(placeholder),
        ));
        r
    }

    /// Clear the tenants of `envelopes` and replay them in replay order,
    /// stopping at the first refusal; each step draws its own placeholder.
    pub fn rebuild_from_scratch(&mut self, envelopes: Vec<EventEnvelope<Result<PurchaseOrderEvent, String>>>) -> (r:
        Result<(), PurchaseOrderProjectionError>)
        ensures
            exists|drawn: Seq<PartyId>|
                drawn.len() == envelopes@.len() && (fault_view(r), final(self)@)
                    == #[trigger] project_all_drawn(
                    "purchasing.order"@,
                    cleared(old(self)@, tenants_of(envelopes@)),
                    envelopes@,
                    replay_order(replay_keys(envelopes@), envelopes@.len() as nat),
                    purchase_rules_by_draw(),
                    drawn,
                ),
    {
        let tenants = envelope_tenants(&envelopes);
        self.store.clear_tenants(&tenants);
        self.cursors.clear_tenants(&tenants);
        let ghost s0 = self@;
        let order = replay_order_of(&envelopes);
        let mut drawn: Vec<PartyId> = Vec::new();
        let mut d: usize = 0;
        while d < order.len()
            invariant
                d <= order@.len(),
                drawn@.len() == d,
            decreases order@.len() - d,
        {
            drawn.push(PartyId::new(AggregateId::new()));
            d = d + 1;
        }
        let ghost ord = order@.map_values(|x: usize| x as int);
        let ghost ps = drawn@;
        proof {
            crate::projections::lemma_replay_order_shape(
                replay_keys(envelopes@),
                envelopes@.len() as nat,
            );
        }
        let mut i: usize = 0;
        proof {
            assert(ord.take(0) =~= Seq::<int>::empty());
        }
        while i < order.len()
            invariant
                i <= order@.len(),
                ord == order@.map_values(|x: usize| x as int),
                ord == replay_order(replay_keys(envelopes@), envelopes@.len() as nat),
                ord.len() == envelopes@.len(),
                ps == drawn@,
                ps.len() == order@.len(),
                forall|j: int| 0 <= j < order@.len() ==> order@[j] < envelopes@.len(),
                s0 == cleared(old(self)@, tenants_of(envelopes@)),
                project_all_drawn(
                    "purchasing.order"@,
                    s0,
                    envelopes@,
                    ord.take(i as int),
                    purchase_rules_by_draw(),
                    ps,
                ) == (Ok::<(), ProjectionFault>(()), self@),
            decreases order@.len() - i,
        {
            let k = order[i];
            proof {
                assert(ord.take(i + 1).drop_last() =~= ord.take(i as int));
                assert(ord.take(i + 1).last() == k as int);
                assert(purchase_rules_by_draw()(ps[i as int]) == purchase_rules(ps[i as int]));
            }
            let res = self.apply_envelope_with(&envelopes[k], drawn[i]);
            match res {
                Err(e) => {
                    proof {
                        lemma_project_all_drawn_stops(
                            "purchasing.order"@,
                            s0,
                            envelopes@,
                            ord,
                            purchase_rules_by_draw(),
                            ps,
                            i + 1,
                        );
                    }
                    return Err(e);
                },
                Ok(()) => {},
            }
            i = i + 1;
        }
        proof {
            assert(ord.take(ord.len() as int) =~= ord);
        }
        Ok(())
    }
}

/// What a purchase order's entry reads after an event of its stream: a
/// creation starts an empty draft of its supplier; an added line is appended
/// and leaves the status; an approval makes the order approved keeping its
/// lines; a receipt makes it received with the lines received. No other
/// order's entry changes. This holds whatever supplier is drawn for an order
/// not seen before.
pub proof fn law_purchase_entry_follows_events(
    rows: PurchaseOrderRows,
    t: TenantId,
    a: AggregateId,
    e: PurchaseOrderEvent,
    placeholder: PartyId,
)
    requires
        e.spec_stream().0 == t,
        e.spec_stream().1.0 == a,
    ensures
        ({
            let id = e.spec_stream().1;
            let r = (purchase_rules(placeholder))(rows, t, a, e);
            let (status0, lines0) = match lookup(rows, t, id) {
                Some(b) => (b.status, b.lines),
                None => (PurchaseOrderStatus::Draft, Seq::<LineItem>::empty()),
            };
            let row = lookup(r->Ok_0, t, id)->0;
            &&& r is Ok
            &&& lookup(r->Ok_0, t, id) is Some
            &&& e is PurchaseOrderCreated ==> row.status == PurchaseOrderStatus::Draft && row.lines.len() == 0
                && row.supplier_id == e->PurchaseOrderCreated_0.supplier_id
            &&& e is PurchaseOrderApproved ==> row.status == PurchaseOrderStatus::Approved && row.lines == lines0
            &&& e is GoodsReceived ==> row.status == PurchaseOrderStatus::Received && row.lines
                == e->GoodsReceived_0.lines@
            &&& e is PurchaseOrderLineAdded ==> row.status == status0 && row.lines.len() == lines0.len() + 1
                && row.lines.take(lines0.len() as int) == lines0 && row.lines.last() == (LineItem {
                line_no: e->PurchaseOrderLineAdded_0.line_no,
                product_id: e->PurchaseOrderLineAdded_0.product_id,
                quantity: e->PurchaseOrderLineAdded_0.quantity,
            })
            &&& forall|t2: TenantId, id2: PurchaseOrderId|
                (t2, id2) != (t, id) ==> #[trigger] lookup(r->Ok_0, t2, id2) == lookup(rows, t2, id2)
        }),
{
    let id = e.spec_stream().1;
    let nr = purchase_row_after(lookup(rows, t, id), e, placeholder);
    crate::read_model::lemma_lookup_upserted(rows, t, id, nr, t, id);
    if e is PurchaseOrderLineAdded {
        let b = purchase_base(lookup(rows, t, id), id, placeholder);
        assert(nr.lines.take(b.lines.len() as int) =~= b.lines);
    }
    assert forall|t2: TenantId, id2: PurchaseOrderId| (t2, id2) != (t, id) implies #[trigger] lookup(
        upserted(rows, t, id, nr),
        t2,
        id2,
    ) == lookup(rows, t2, id2) by {
        crate::read_model::lemma_lookup_upserted(rows, t, id, nr, t2, id2);
    }
}

} // verus!
