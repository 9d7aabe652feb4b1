//! Sales orders: status and lines per order and tenant.
use vstd::prelude::*;

use crate::common::{copy_vec, AggregateId, Replicate, TenantId};
use crate::events::EventEnvelope;
use crate::products::ProductId;
use crate::projections::{
    cleared, envelope_tenants, fault_view, intake, lemma_project_all_stops, project, project_all,
    replay_keys, replay_order, replay_order_of, tenants_of, CursorTable, Intake, ProjectionFault,
    ProjectionView, Rules,
};
use crate::read_model::{lookup, opt_view, tenant_rows, upserted, InMemoryTenantStore};
use crate::sales::{SalesOrderEvent, SalesOrderId, SalesOrderStatus};
use crate::text::owned;

pub use crate::projections::InMemoryCursorStore;

verus! {

/// A line of a sales order.
#[derive(Debug, Clone, Copy, PartialEq, Eq, Structural)]
pub struct SalesOrderLineReadModel {
    pub line_no: u32,
    pub product_id: ProductId,
    pub quantity: i64,
    pub unit_price: u64,
}

/// A sales order with its lines.
#[derive(Debug, Clone, PartialEq, Eq)]
pub struct SalesOrderReadModel {
    pub order_id: SalesOrderId,
    pub status: SalesOrderStatus,
    pub lines: Vec<SalesOrderLineReadModel>,
}

/// A sales order with its lines, by view.
pub struct SalesOrderRow {
    pub order_id: SalesOrderId,
    pub status: SalesOrderStatus,
    pub lines: Seq<SalesOrderLineReadModel>,
}

impl View for SalesOrderReadModel {
    type V = SalesOrderRow;

    open spec fn view(&self) -> SalesOrderRow {
        SalesOrderRow { order_id: self.order_id, status: self.status, lines: self.lines@ }
    }
}

impl Replicate for SalesOrderReadModel {
    fn replicate(&self) -> (r: SalesOrderReadModel) {
        SalesOrderReadModel { order_id: self.order_id, status: self.status, lines: copy_vec(&self.lines) }
    }
}

#[derive(Debug)]
pub enum SalesOrderProjectionError {
    Deserialize(String),
    TenantIsolation(String),
    NonMonotonicSequence { last: u64, found: u64 },
}

impl View for SalesOrderProjectionError {
    type V = ProjectionFault;

    open spec fn view(&self) -> ProjectionFault {
        match self {
            SalesOrderProjectionError::Deserialize(m) => ProjectionFault::Deserialize(m@),
            SalesOrderProjectionError::TenantIsolation(m) => ProjectionFault::TenantIsolation(m@),
            SalesOrderProjectionError::NonMonotonicSequence { last, found } => {
                ProjectionFault::NonMonotonicSequence { last: *last, found: *found }
            },
        }
    }
}

/// Rows of the sales orders read model, by view.
pub type SalesOrderRows = Seq<(TenantId, SalesOrderId, SalesOrderRow)>;

/// The order a change applies to: the current entry, or an empty draft.
pub open spec fn order_base(cur: Option<SalesOrderRow>, id: SalesOrderId) -> SalesOrderRow {
    match cur {
        Some(b) => b,
        None => SalesOrderRow { order_id: id, status: SalesOrderStatus::Draft, lines: Seq::empty() },
    }
}

/// The entry after an event, from the current one.
pub open spec fn order_row_after(cur: Option<SalesOrderRow>, e: SalesOrderEvent) -> SalesOrderRow {
    match e {
        SalesOrderEvent::SalesOrderCreated(c) => SalesOrderRow {
            order_id: c.order_id,
            status: SalesOrderStatus::Draft,
            lines: Seq::empty(),
        },
        SalesOrderEvent::LineAdded(l) => {
            let b = order_base(cur, l.order_id);
            SalesOrderRow {
                lines: b.lines.push(
                    SalesOrderLineReadModel {
                        line_no: l.line_no,
                        product_id: l.product_id,
                        quantity: l.quantity,
                        unit_price: l.unit_price,
                    },
                ),
                ..b
            }
        },
        SalesOrderEvent::OrderConfirmed(c) => SalesOrderRow {
            status: SalesOrderStatus::Confirmed,
            ..order_base(cur, c.order_id)
        },
        SalesOrderEvent::OrderInvoiced(i) => SalesOrderRow {
            status: SalesOrderStatus::Invoiced,
            ..order_base(cur, i.order_id)
        },
    }
}

/// The sales orders rules: the event must belong to the envelope's tenant
/// and stream; its order's entry is then rewritten.
pub open spec fn sales_order_rules() -> Rules<SalesOrderEvent, SalesOrderRows> {
    |rows: SalesOrderRows, t: TenantId, a: AggregateId, e: SalesOrderEvent|
        {
            let (et, id) = e.spec_stream();
            if et != t {
                Err(
                    ProjectionFault::TenantIsolation(
                        "event tenant_id does not match envelope tenant_id"@,
                    ),
                )
            } else if id.0 != a {
                Err(
                    ProjectionFault::TenantIsolation(
                        "event order_id does not match envelope aggregate_id"@,
                    ),
                )
            } else {
                Ok(upserted(rows, t, id, order_row_after(lookup(rows, t, id), e)))
            }
        }
}

/// Sales orders projection.
#[derive(Debug)]
pub struct SalesOrdersProjection {
    store: InMemoryTenantStore<SalesOrderId, SalesOrderReadModel>,
    cursors: CursorTable,
}

impl View for SalesOrdersProjection {
    type V = ProjectionView<SalesOrderRows>;

    closed spec fn view(&self) -> ProjectionView<SalesOrderRows> {
        ProjectionView { rows: self.store.entries(), cursors: self.cursors.entries() }
    }
}

fn row_after(cur: Option<SalesOrderReadModel>, e: &SalesOrderEvent) -> (r: SalesOrderReadModel)
    ensures
        r@ == order_row_after(opt_view(cur), *e),
{
    let id = e.stream().1;
    let mut b = match e {
        SalesOrderEvent::SalesOrderCreated(_) => SalesOrderReadModel {
            order_id: id,
            status: SalesOrderStatus::Draft,
            lines: Vec::new(),
        },
        _ => match cur {
            Some(b) => b,
            None => SalesOrderReadModel { order_id: id, status: SalesOrderStatus::Draft, lines: Vec::new() },
        },
    };
    match e {
        SalesOrderEvent::SalesOrderCreated(_) => {},
        SalesOrderEvent::LineAdded(l) => {
            b.lines.push(
                SalesOrderLineReadModel {
                    line_no: l.line_no,
                    product_id: l.product_id,
                    quantity: l.quantity,
                    unit_price: l.unit_price,
                },
            );
        },
        SalesOrderEvent::OrderConfirmed(_) => {
            b.status = SalesOrderStatus::Confirmed;
        },
        SalesOrderEvent::OrderInvoiced(_) => {
            b.status = SalesOrderStatus::Invoiced;
        },
    }
    b
}

impl SalesOrdersProjection {
    /// Take up a stream's progress kept elsewhere (a cursor persisted across
    /// restarts): envelopes of the stream at or below `last` are then ignored.
    pub fn seed_cursor(&mut self, tenant_id: TenantId, aggregate_id: AggregateId, last: u64)
        ensures
            final(self)@.rows == old(self)@.rows,
            final(self)@.cursors == upserted(old(self)@.cursors, tenant_id, aggregate_id, last),
    {
        self.cursors.upsert(tenant_id, aggregate_id, last);
    }

    /// The last sequence number applied for a stream, 0 if none: the cursor
    /// to persist.
    pub fn stream_cursor(&self, tenant_id: TenantId, aggregate_id: AggregateId) -> (r: u64)
        ensures
            r == crate::projections::cursor_of(self@.cursors, tenant_id, aggregate_id),
    {
        crate::projections::read_cursor(&self.cursors, tenant_id, aggregate_id)
    }

    pub fn new() -> (r: Self)
        ensures
            r@.rows == Seq::<(TenantId, SalesOrderId, SalesOrderRow)>::empty(),
            r@.cursors == Seq::<(TenantId, AggregateId, u64)>::empty(),
    {
        SalesOrdersProjection { store: InMemoryTenantStore::new(), cursors: InMemoryTenantStore::new() }
    }

    /// The entry of one order.
    pub fn get(&self, tenant_id: TenantId, order_id: &SalesOrderId) -> (r: Option<SalesOrderReadModel>)
        ensures
            opt_view(r) == lookup(self@.rows, tenant_id, *order_id),
    {
        self.store.get(tenant_id, order_id)
    }

    /// Every order of a tenant.
    pub fn list(&self, tenant_id: TenantId) -> (r: Vec<SalesOrderReadModel>)
        ensures
            r@.map_values(|m: SalesOrderReadModel| m@) == tenant_rows(self@.rows, tenant_id),
    {
        self.store.list(tenant_id)
    }

    /// Apply one published envelope.
    pub fn apply_envelope(&mut self, envelope: &EventEnvelope<Result<SalesOrderEvent, String>>) -> (r:
        Result<(), SalesOrderProjectionError>)
        ensures
            (fault_view(r), final(self)@) == project(
                "sales.order"@,
                old(self)@,
                *envelope,
                sales_order_rules(),
            ),
    {
        let tenant_id = envelope.tenant_id();
        let aggregate_id = envelope.aggregate_id();
        let seq = envelope.sequence_number();
        match intake(&self.cursors, envelope, "sales.order") {
            Intake::Ignore => {
                return Ok(());
            },
            Intake::Stale { last, found } => {
                return Err(SalesOrderProjectionError::NonMonotonicSequence { last, found });
            },
            Intake::Proceed => {},
        }
        let ev = match envelope.payload() {
            Err(m) => {
                return Err(SalesOrderProjectionError::Deserialize(m.clone()));
            },
            Ok(e) => e,
        };
        let (event_tenant, order_id) = ev.stream();
        if event_tenant != tenant_id {
            return Err(
                SalesOrderProjectionError::TenantIsolation(
                    owned("event tenant_id does not match envelope tenant_id"),
                ),
            );
        }
        if order_id.0 != aggregate_id {
            return Err(
                SalesOrderProjectionError::TenantIsolation(
                    owned("event order_id does not match envelope aggregate_id"),
                ),
            );
        }
        let current = self.store.get(tenant_id, &order_id);
        let row = row_after(current, ev);
        self.store.upsert(tenant_id, order_id, row);
        self.cursors.upsert(tenant_id, aggregate_id, seq);
        Ok(())
    }

    /// Clear the tenants of `envelopes` and replay them in replay order,
    /// stopping at the first refusal.
    pub fn rebuild_from_scratch(&mut self, envelopes: Vec<EventEnvelope<Result<SalesOrderEvent, String>>>) -> (r:
        Result<(), SalesOrderProjectionError>)
        ensures
            (fault_view(r), final(self)@) == project_all(
                "sales.order"@,
                cleared(old(self)@, tenants_of(envelopes@)),
                envelopes@,
                replay_order(replay_keys(envelopes@), envelopes@.len() as nat),
                sales_order_rules(),
            ),
    {
        let tenants = envelope_tenants(&envelopes);
        self.store.clear_tenants(&tenants);
        self.cursors.clear_tenants(&tenants);
        let ghost s0 = self@;
        let order = replay_order_of(&envelopes);
        let ghost ord = order@.map_values(|x: usize| x as int);
        let mut i: usize = 0;
        proof {
            assert(ord.take(0) =~= Seq::<int>::empty());
        }
        while i < order.len()
            invariant
                i <= order@.len(),
                ord == order@.map_values(|x: usize| x as int),
                ord == replay_order(replay_keys(envelopes@), envelopes@.len() as nat),
                forall|j: int| 0 <= j < order@.len() ==> order@[j] < envelopes@.len(),
                s0 == cleared(old(self)@, tenants_of(envelopes@)),
                project_all("sales.order"@, s0, envelopes@, ord.take(i as int), sales_order_rules())
                    == (Ok::<(), ProjectionFault>(()), self@),
            decreases order@.len() - i,
        {
            let k = order[i];
            proof {
                assert(ord.take(i + 1).drop_last() =~= ord.take(i as int));
                assert(ord.take(i + 1).last() == k as int);
            }
            let res = self.apply_envelope(&envelopes[k]);
            match res {
                Err(e) => {
                    proof {
                        lemma_project_all_stops(
                            "sales.order"@,
                            s0,
                            envelopes@,
                            ord,
                            sales_order_rules(),
                            i + 1,
                        );
                    }
                    return Err(e);
                },
                Ok(()) => {},
            }
            i = i + 1;
        }
        proof {
            assert(ord.take(ord.len() as int) =~= ord);
        }
        Ok(())
    }
}

/// What an order's entry reads after an event of its stream is applied: a
/// creation starts an empty draft; an added line is appended after the
/// order's lines and leaves its status; a confirmation makes the order
/// confirmed and an invoicing makes it invoiced, both keeping its lines.
/// An order not seen before is taken as an empty draft. No other order's
/// entry changes.
pub proof fn law_order_entry_follows_events(
    s: ProjectionView<SalesOrderRows>,
    env: EventEnvelope<Result<SalesOrderEvent, String>>,
)
    requires
        crate::projections::spec_intake("sales.order"@, s.cursors, env) == Intake::Proceed,
        env.spec_payload() is Ok,
        env.spec_payload()->Ok_0.spec_stream().0 == env.spec_tenant_id(),
        env.spec_payload()->Ok_0.spec_stream().1.0 == env.spec_aggregate_id(),
    ensures
        ({
            let t = env.spec_tenant_id();
            let e = env.spec_payload()->Ok_0;
            let id = e.spec_stream().1;
            let (status0, lines0) = match lookup(s.rows, t, id) {
                Some(b) => (b.status, b.lines),
                None => (SalesOrderStatus::Draft, Seq::<SalesOrderLineReadModel>::empty()),
            };
            let r = project("sales.order"@, s, env, sales_order_rules());
            let row = lookup(r.1.rows, t, id)->0;
            &&& r.0 is Ok
            &&& lookup(r.1.rows, t, id) is Some
            &&& e is SalesOrderCreated ==> row.order_id == id && row.status == SalesOrderStatus::Draft && row.lines.len()
                == 0
            &&& e is OrderConfirmed ==> row.status == SalesOrderStatus::Confirmed && row.lines == lines0
            &&& e is OrderInvoiced ==> row.status == SalesOrderStatus::Invoiced && row.lines == lines0
            &&& e is LineAdded ==> row.status == status0 && row.lines.len() == lines0.len() + 1
                && row.lines.take(lines0.len() as int) == lines0 && row.lines.last() == (SalesOrderLineReadModel {
                line_no: e->LineAdded_0.line_no,
                product_id: e->LineAdded_0.product_id,
                quantity: e->LineAdded_0.quantity,
                unit_price: e->LineAdded_0.unit_price,
            })
            &&& forall|t2: TenantId, id2: SalesOrderId|
                (t2, id2) != (t, id) ==> #[trigger] lookup(r.1.rows, t2, id2) == lookup(s.rows, t2, id2)
        }),
{
    let t = env.spec_tenant_id();
    let e = env.spec_payload()->Ok_0;
    let id = e.spec_stream().1;
    let nr = order_row_after(lookup(s.rows, t, id), e);
    crate::read_model::lemma_lookup_upserted(s.rows, t, id, nr, t, id);
    if e is LineAdded {
        let b = order_base(lookup(s.rows, t, id), id);
        assert(nr.lines.take(b.lines.len() as int) =~= b.lines);
    }
    assert forall|t2: TenantId, id2: SalesOrderId| (t2, id2) != (t, id) implies #[trigger] lookup(
        upserted(s.rows, t, id, nr),
        t2,
        id2,
    ) == lookup(s.rows, t2, id2) by {
        crate::read_model::lemma_lookup_upserted(s.rows, t, id, nr, t2, id2);
    }
}

} // verus!
