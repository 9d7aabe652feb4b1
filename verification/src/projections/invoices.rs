//! Invoices: header and lines per invoice and tenant.
//!
//! A payment or void for an invoice that was never issued creates its entry
//! with a freshly drawn sales order id standing in for the unknown one.
use vstd::prelude::*;

use crate::common::{copy_vec, AggregateId, Replicate, TenantId, Timestamp};
use crate::events::EventEnvelope;
use crate::invoicing::{InvoiceEvent, InvoiceId, InvoiceLine, InvoiceStatus};
use crate::projections::{
    cleared, envelope_tenants, fault_view, intake, lemma_project_all_drawn_stops, project,
    project_all_drawn, replay_keys, replay_order, replay_order_of, tenants_of, CursorTable, Intake,
    ProjectionFault, ProjectionView, Rules,
};
use crate::read_model::{lookup, opt_view, tenant_rows, upserted, InMemoryTenantStore};
use crate::sales::SalesOrderId;
use crate::text::owned;

pub use crate::projections::InMemoryCursorStore;

verus! {

/// An invoice with its lines.
#[derive(Debug, Clone, PartialEq, Eq)]
pub struct InvoiceReadModel {
    pub invoice_id: InvoiceId,
    pub sales_order_id: SalesOrderId,
    pub due_date: Option<Timestamp>,
    pub status: InvoiceStatus,
    pub total_amount: u64,
    pub total_paid: u64,
    pub lines: Vec<InvoiceLine>,
}

/// An invoice with its lines, by view.
pub struct InvoiceRow {
    pub invoice_id: InvoiceId,
    pub sales_order_id: SalesOrderId,
    pub due_date: Option<Timestamp>,
    pub status: InvoiceStatus,
    pub total_amount: u64,
    pub total_paid: u64,
    pub lines: Seq<InvoiceLine>,
}

impl View for InvoiceReadModel {
    type V = InvoiceRow;

    open spec fn view(&self) -> InvoiceRow {
        InvoiceRow {
            invoice_id: self.invoice_id,
            sales_order_id: self.sales_order_id,
            due_date: self.due_date,
            status: self.status,
            total_amount: self.total_amount,
            total_paid: self.total_paid,
            lines: self.lines@,
        }
    }
}

impl Replicate for InvoiceReadModel {
    fn replicate(&self) -> (r: InvoiceReadModel) {
        InvoiceReadModel {
            invoice_id: self.invoice_id,
            sales_order_id: self.sales_order_id,
            due_date: self.due_date,
            status: self.status,
            total_amount: self.total_amount,
            total_paid: self.total_paid,
            lines: copy_vec(&self.lines),
        }
    }
}

#[derive(Debug)]
pub enum InvoiceProjectionError {
    Deserialize(String),
    TenantIsolation(String),
    NonMonotonicSequence { last: u64, found: u64 },
}

impl View for InvoiceProjectionError {
    type V = ProjectionFault;

    open spec fn view(&self) -> ProjectionFault {
        match self {
            InvoiceProjectionError::Deserialize(m) => ProjectionFault::Deserialize(m@),
            InvoiceProjectionError::TenantIsolation(m) => ProjectionFault::TenantIsolation(m@),
            InvoiceProjectionError::NonMonotonicSequence { last, found } => {
                ProjectionFault::NonMonotonicSequence { last: *last, found: *found }
            },
        }
    }
}

/// Rows of the invoices read model, by view.
pub type InvoiceRows = Seq<(TenantId, InvoiceId, InvoiceRow)>;

/// The entry a payment or void applies to when the invoice was never issued.
pub open spec fn blank_invoice(id: InvoiceId, placeholder: SalesOrderId) -> InvoiceRow {
    InvoiceRow {
        invoice_id: id,
        sales_order_id: placeholder,
        due_date: None,
        status: InvoiceStatus::Open,
        total_amount: 0,
        total_paid: 0,
        lines: Seq::empty(),
    }
}

/// The entry after an event, from the current one. A payment records the
/// running total paid and settles the invoice once it covers the total.
pub open spec fn invoice_row_after(cur: Option<InvoiceRow>, e: InvoiceEvent, placeholder: SalesOrderId) -> InvoiceRow {
    match e {
        InvoiceEvent::InvoiceIssued(i) => InvoiceRow {
            invoice_id: i.invoice_id,
            sales_order_id: i.sales_order_id,
            due_date: Some(i.due_date),
            status: InvoiceStatus::Open,
            total_amount: i.total_amount,
            total_paid: 0,
            lines: i.lines@,
        },
        InvoiceEvent::PaymentRegistered(p) => {
            let b = match cur {
                Some(b) => b,
                None => blank_invoice(p.invoice_id, placeholder),
            };
            InvoiceRow {
                total_paid: p.new_total_paid,
                status: if p.new_total_paid >= b.total_amount {
                    InvoiceStatus::Paid
                } else {
                    b.status
                },
                ..b
            }
        },
        InvoiceEvent::InvoiceVoided(v) => {
            let b = match cur {
                Some(b) => b,
                None => blank_invoice(v.invoice_id, placeholder),
            };
            InvoiceRow { status: InvoiceStatus::Void, ..b }
        },
    }
}

/// The invoices rules, with the sales order id drawn for this envelope.
pub open spec fn invoice_rules(placeholder: SalesOrderId) -> Rules<InvoiceEvent, InvoiceRows> {
    |rows: InvoiceRows, t: TenantId, a: AggregateId, e: InvoiceEvent|
        {
            let (et, id) = e.spec_stream();
            if et != t {
                Err(
                    ProjectionFault::TenantIsolation(
                        "event tenant_id does not match envelope tenant_id"@,
                    ),
                )
            } else if id.0 != a {
                Err(
                    ProjectionFault::TenantIsolation(
                        "event invoice_id does not match envelope aggregate_id"@,
                    ),
                )
            } else {
                Ok(upserted(rows, t, id, invoice_row_after(lookup(rows, t, id), e, placeholder)))
            }
        }
}

/// The invoices rules for each drawn sales order id.
pub open spec fn invoice_rules_by_draw() -> spec_fn(SalesOrderId) -> Rules<InvoiceEvent, InvoiceRows> {
    |p: SalesOrderId| invoice_rules(p)
}

/// Invoices projection.
#[derive(Debug)]
pub struct InvoicesProjection {
    store: InMemoryTenantStore<InvoiceId, InvoiceReadModel>,
    cursors: CursorTable,
}

impl View for InvoicesProjection {
    type V = ProjectionView<InvoiceRows>;

    closed spec fn view(&self) -> ProjectionView<InvoiceRows> {
        ProjectionView { rows: self.store.entries(), cursors: self.cursors.entries() }
    }
}

fn row_after(cur: Option<InvoiceReadModel>, e: &InvoiceEvent, placeholder: SalesOrderId) -> (r: InvoiceReadModel)
    ensures
        r@ == invoice_row_after(opt_view(cur), *e, placeholder),
{
    match e {
        InvoiceEvent::InvoiceIssued(i) => InvoiceReadModel {
            invoice_id: i.invoice_id,
            sales_order_id: i.sales_order_id,
            due_date: Some(i.due_date),
            status: InvoiceStatus::Open,
            total_amount: i.total_amount,
            total_paid: 0,
            lines: copy_vec(&i.lines),
        },
        InvoiceEvent::PaymentRegistered(p) => {
            let mut b = match cur {
                Some(b) => b,
                None => InvoiceReadModel {
                    invoice_id: p.invoice_id,
                    sales_order_id: placeholder,
                    due_date: None,
                    status: InvoiceStatus::Open,
                    total_amount: 0,
                    total_paid: 0,
                    lines: Vec::new(),
                },
            };
            b.total_paid = p.new_total_paid;
            if b.total_paid >= b.total_amount {
                b.status = InvoiceStatus::Paid;
            }
            b
        },
        InvoiceEvent::InvoiceVoided(v) => {
            let mut b = match cur {
                Some(b) => b,
                None => InvoiceReadModel {
                    invoice_id: v.invoice_id,
                    sales_order_id: placeholder,
                    due_date: None,
                    status: InvoiceStatus::Open,
                    total_amount: 0,
                    total_paid: 0,
                    lines: Vec::new(),
                },
            };
            b.status = InvoiceStatus::Void;
            b
        },
    }
}

impl InvoicesProjection {
    /// Take up a stream's progress kept elsewhere (a cursor persisted across
    /// restarts): envelopes of the stream at or below `last` are then ignored.
    pub fn seed_cursor(&mut self, tenant_id: TenantId, aggregate_id: AggregateId, last: u64)
        ensures
            final(self)@.rows == old(self)@.rows,
            final(self)@.cursors == upserted(old(self)@.cursors, tenant_id, aggregate_id, last),
    {
        self.cursors.upsert(tenant_id, aggregate_id, last);
    }

    /// The last sequence number applied for a stream, 0 if none: the cursor
    /// to persist.
    pub fn stream_cursor(&self, tenant_id: TenantId, aggregate_id: AggregateId) -> (r: u64)
        ensures
            r == crate::projections::cursor_of(self@.cursors, tenant_id, aggregate_id),
    {
        crate::projections::read_cursor(&self.cursors, tenant_id, aggregate_id)
    }

    pub fn new() -> (r: Self)
        ensures
            r@.rows == Seq::<(TenantId, InvoiceId, InvoiceRow)>::empty(),
            r@.cursors == Seq::<(TenantId, AggregateId, u64)>::empty(),
    {
        InvoicesProjection { store: InMemoryTenantStore::new(), cursors: InMemoryTenantStore::new() }
    }

    /// The entry of one invoice.
    pub fn get(&self, tenant_id: TenantId, invoice_id: &InvoiceId) -> (r: Option<InvoiceReadModel>)
        ensures
            opt_view(r) == lookup(self@.rows, tenant_id, *invoice_id),
    {
        self.store.get(tenant_id, invoice_id)
    }

    /// Every invoice of a tenant.
    pub fn list(&self, tenant_id: TenantId) -> (r: Vec<InvoiceReadModel>)
        ensures
            r@.map_values(|m: InvoiceReadModel| m@) == tenant_rows(self@.rows, tenant_id),
    {
        self.store.list(tenant_id)
    }

    /// Apply one published envelope, with `placeholder` as the sales order of
    /// an entry created without its issue.
    pub fn apply_envelope_with(
        &mut self,
        envelope: &EventEnvelope<Result<InvoiceEvent, String>>,
        placeholder: SalesOrderId,
    ) -> (r: Result<(), InvoiceProjectionError>)
        ensures
            (fault_view(r), final(self)@) == project(
                "invoicing.invoice"@,
                old(self)@,
                *envelope,
                invoice_rules(placeholder),
            ),
    {
        let tenant_id = envelope.tenant_id();
        let aggregate_id = envelope.aggregate_id();
        let seq = envelope.sequence_number();
        match intake(&self.cursors, envelope, "invoicing.invoice") {
            Intake::Ignore => {
                return Ok(());
            },
            Intake::Stale { last, found } => {
                return Err(InvoiceProjectionError::NonMonotonicSequence { last, found });
            },
            Intake::Proceed => {},
        }
        let ev = match envelope.payload() {
            Err(m) => {
                return Err(InvoiceProjectionError::Deserialize(m.clone()));
            },
            Ok(e) => e,
        };
        let (event_tenant, invoice_id) = ev.stream();
        if event_tenant != tenant_id {
            return Err(
                InvoiceProjectionError::TenantIsolation(
                    owned("event tenant_id does not match envelope tenant_id"),
                ),
            );
        }
        if invoice_id.0 != aggregate_id {
            return Err(
                InvoiceProjectionError::TenantIsolation(
                    owned("event invoice_id does not match envelope aggregate_id"),
                ),
            );
        }
        let current = self.store.get(tenant_id, &invoice_id);
        let row = row_after(current, ev, placeholder);
        self.store.upsert(tenant_id, invoice_id, row);
        self.cursors.upsert(tenant_id, aggregate_id, seq);
        Ok(())
    }

    /// Apply one published envelope; a fresh random sales order id stands
    /// in where the issue is missing.
    pub fn apply_envelope(&mut self, envelope: &EventEnvelope<Result<InvoiceEvent, String>>) -> (r:
        Result<(), InvoiceProjectionError>)
        ensures
            exists|p: SalesOrderId|
                (fault_view(r), final(self)@) == project(
                    "invoicing.invoice"@,
                    old(self)@,
                    *envelope,
                    #[trigger] invoice_rules(p),
                ),
    {
        let placeholder = SalesOrderId::new(AggregateId::new());
        let r = self.apply_envelope_with(envelope, placeholder);
        assert((fault_view(r), self@) == project(
            "invoicing.invoice"@,
            old(self)@,
            *envelope,
            invoice_rules(placeholder),
        ));
        r
    }

    /// Clear the tenants of `envelopes` and replay them in replay order,
    /// stopping at the first refusal; each step draws its own placeholder.
    pub fn rebuild_from_scratch(&mut self, envelopes: Vec<EventEnvelope<Result<InvoiceEvent, String>>>) -> (r:
        Result<(), InvoiceProjectionError>)
        ensures
            exists|drawn: Seq<SalesOrderId>|
                drawn.len() == envelopes@.len() && (fault_view(r), final(self)@)
                    == #[trigger] project_all_drawn(
                    "invoicing.invoice"@,
                    cleared(old(self)@, tenants_of(envelopes@)),
                    envelopes@,
                    replay_order(replay_keys(envelopes@), envelopes@.len() as nat),
                    invoice_rules_by_draw(),
                    drawn,
                ),
    {
        let tenants = envelope_tenants(&envelopes);
        self.store.clear_tenants(&tenants);
        self.cursors.clear_tenants(&tenants);
        let ghost s0 = self@;
        let order = replay_order_of(&envelopes);
        let mut drawn: Vec<SalesOrderId> = Vec::new();
        let mut d: usize = 0;
        while d < order.len()
            invariant
                d <= order@.len(),
                drawn@.len() == d,
            decreases order@.len() - d,
        {
            drawn.push(SalesOrderId::new(AggregateId::new()));
            d = d + 1;
        }
        let ghost ord = order@.map_values(|x: usize| x as int);
        let ghost ps = drawn@;
        proof {
            crate::projections::lemma_replay_order_shape(
                replay_keys(envelopes@),
                envelopes@.len() as nat,
            );
        }
        let mut i: usize = 0;
        proof {
            assert(ord.take(0) =~= Seq::<int>::empty());
        }
        while i < order.len()
            invariant
                i <= order@.len(),
                ord == order@.map_values(|x: usize| x as int),
                ord == replay_order(replay_keys(envelopes@), envelopes@.len() as nat),
                ord.len() == envelopes@.len(),
                ps == drawn@,
                ps.len() == order@.len(),
                forall|j: int| 0 <= j < order@.len() ==> order@[j] < envelopes@.len(),
                s0 == cleared(old(self)@, tenants_of(envelopes@)),
                project_all_drawn(
                    "invoicing.invoice"@,
                    s0,
                    envelopes@,
                    ord.take(i as int),
                    invoice_rules_by_draw(),
                    ps,
                ) == (Ok::<(), ProjectionFault>(()), self@),
            decreases order@.len() - i,
        {
            let k = order[i];
            proof {
                assert(ord.take(i + 1).drop_last() =~= ord.take(i as int));
                assert(ord.take(i + 1).last() == k as int);
                assert(invoice_rules_by_draw()(ps[i as int]) == invoice_rules(ps[i as int]));
            }
            let res = self.apply_envelope_with(&envelopes[k], drawn[i]);
            match res {
                Err(e) => {
                    proof {
                        lemma_project_all_drawn_stops(
                            "invoicing.invoice"@,
                            s0,
                            envelopes@,
                            ord,
                            invoice_rules_by_draw(),
                            ps,
                            i + 1,
                        );
                    }
                    return Err(e);
                },
                Ok(()) => {},
            }
            i = i + 1;
        }
        proof {
            assert(ord.take(ord.len() as int) =~= ord);
        }
        Ok(())
    }
}

} // verus!
