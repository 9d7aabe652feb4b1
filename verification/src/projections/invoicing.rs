//! Accounts-receivable aging: per invoice the original amount, what is still
//! outstanding, the due date and the status, enough to bucket by age at
//! query time.
use vstd::prelude::*;

use crate::common::{AggregateId, Replicate, TenantId, Timestamp};
use crate::events::EventEnvelope;
use crate::invoicing::{InvoiceEvent, InvoiceId, InvoiceStatus};
use crate::projections::{
    cleared, envelope_tenants, fault_view, intake, lemma_project_all_stops, project, project_all,
    replay_keys, replay_order, replay_order_of, tenants_of, CursorTable, Intake, ProjectionFault,
    ProjectionView, Rules,
};
use crate::read_model::{lookup, opt_view, tenant_rows, upserted, InMemoryTenantStore};
use crate::text::owned;

pub use crate::projections::InMemoryCursorStore;

verus! {

/// Aging entry of one invoice.
#[derive(Debug, Clone, Copy, PartialEq, Eq, Structural)]
pub struct InvoiceAgingReadModel {
    pub invoice_id: InvoiceId,
    pub total_amount: u64,
    pub outstanding_amount: u64,
    pub due_date: Option<Timestamp>,
    pub status: InvoiceStatus,
}

impl View for InvoiceAgingReadModel {
    type V = InvoiceAgingReadModel;

    open spec fn view(&self) -> InvoiceAgingReadModel {
        *self
    }
}

impl Replicate for InvoiceAgingReadModel {
    fn replicate(&self) -> (r: InvoiceAgingReadModel) {
        *self
    }
}

#[derive(Debug)]
pub enum InvoiceProjectionError {
    Deserialize(String),
    TenantIsolation(String),
    NonMonotonicSequence { last: u64, found: u64 },
}

impl View for InvoiceProjectionError {
    type V = ProjectionFault;

    open spec fn view(&self) -> ProjectionFault {
        match self {
            InvoiceProjectionError::Deserialize(m) => ProjectionFault::Deserialize(m@),
            InvoiceProjectionError::TenantIsolation(m) => ProjectionFault::TenantIsolation(m@),
            InvoiceProjectionError::NonMonotonicSequence { last, found } => {
                ProjectionFault::NonMonotonicSequence { last: *last, found: *found }
            },
        }
    }
}

/// Rows of the aging read model.
pub type AgingRows = Seq<(TenantId, InvoiceId, InvoiceAgingReadModel)>;

/// The entry a payment or void applies to when the invoice was never issued.
pub open spec fn blank_aging(id: InvoiceId) -> InvoiceAgingReadModel {
    InvoiceAgingReadModel {
        invoice_id: id,
        total_amount: 0,
        outstanding_amount: 0,
        due_date: None,
        status: InvoiceStatus::Open,
    }
}

/// The entry after an event, from the current one. A payment reduces the
/// outstanding amount by at most what is outstanding, and settles the
/// invoice when nothing remains.
pub open spec fn aging_row_after(cur: Option<InvoiceAgingReadModel>, e: InvoiceEvent) -> InvoiceAgingReadModel {
    match e {
        InvoiceEvent::InvoiceIssued(i) => InvoiceAgingReadModel {
            invoice_id: i.invoice_id,
            total_amount: i.total_amount,
            outstanding_amount: i.total_amount,
            due_date: Some(i.due_date),
            status: InvoiceStatus::Open,
        },
        InvoiceEvent::PaymentRegistered(p) => {
            let b = match cur {
                Some(b) => b,
                None => blank_aging(p.invoice_id),
            };
            let out = if p.amount < b.outstanding_amount {
                (b.outstanding_amount - p.amount) as u64
            } else {
                0u64
            };
            InvoiceAgingReadModel {
                outstanding_amount: out,
                status: if out == 0 {
                    InvoiceStatus::Paid
                } else {
                    b.status
                },
                ..b
            }
        },
        InvoiceEvent::InvoiceVoided(v) => {
            let b = match cur {
                Some(b) => b,
                None => blank_aging(v.invoice_id),
            };
            InvoiceAgingReadModel { status: InvoiceStatus::Void, ..b }
        },
    }
}

/// The aging rules: the event must belong to the envelope's tenant and
/// stream; its invoice's entry is then rewritten.
pub open spec fn aging_rules() -> Rules<InvoiceEvent, AgingRows> {
    |rows: AgingRows, t: TenantId, a: AggregateId, e: InvoiceEvent|
        {
            let (et, id) = e.spec_stream();
            if et != t {
                Err(
                    ProjectionFault::TenantIsolation(
                        "event tenant_id does not match envelope tenant_id"@,
                    ),
                )
            } else if id.0 != a {
                Err(
                    ProjectionFault::TenantIsolation(
                        "event invoice_id does not match envelope aggregate_id"@,
                    ),
                )
            } else {
                Ok(upserted(rows, t, id, aging_row_after(lookup(rows, t, id), e)))
            }
        }
}

/// Accounts-receivable aging projection.
#[derive(Debug)]
pub struct InvoiceAgingProjection {
    store: InMemoryTenantStore<InvoiceId, InvoiceAgingReadModel>,
    cursors: CursorTable,
}

impl View for InvoiceAgingProjection {
    type V = ProjectionView<AgingRows>;

    closed spec fn view(&self) -> ProjectionView<AgingRows> {
        ProjectionView { rows: self.store.entries(), cursors: self.cursors.entries() }
    }
}

fn row_after(cur: Option<InvoiceAgingReadModel>, e: &InvoiceEvent) -> (r: InvoiceAgingReadModel)
    ensures
        r == aging_row_after(cur, *e),
{
    match e {
        InvoiceEvent::InvoiceIssued(i) => InvoiceAgingReadModel {
            invoice_id: i.invoice_id,
            total_amount: i.total_amount,
            outstanding_amount: i.total_amount,
            due_date: Some(i.due_date),
            status: InvoiceStatus::Open,
        },
        InvoiceEvent::PaymentRegistered(p) => {
            let mut b = match cur {
                Some(b) => b,
                None => InvoiceAgingReadModel {
                    invoice_id: p.invoice_id,
                    total_amount: 0,
                    outstanding_amount: 0,
                    due_date: None,
                    status: InvoiceStatus::Open,
                },
            };
            let applied = if p.amount < b.outstanding_amount {
                p.amount
            } else {
                b.outstanding_amount
            };
            let out = b.outstanding_amount - applied;
            b.outstanding_amount = out;
            if out == 0 {
                b.status = InvoiceStatus::Paid;
            }
            b
        },
        InvoiceEvent::InvoiceVoided(v) => {
            let mut b = match cur {
                Some(b) => b,
                None => InvoiceAgingReadModel {
                    invoice_id: v.invoice_id,
                    total_amount: 0,
                    outstanding_amount: 0,
                    due_date: None,
                    status: InvoiceStatus::Open,
                },
            };
            b.status = InvoiceStatus::Void;
            b
        },
    }
}

impl InvoiceAgingProjection {
    /// Take up a stream's progress kept elsewhere (a cursor persisted across
    /// restarts): envelopes of the stream at or below `last` are then ignored.
    pub fn seed_cursor(&mut self, tenant_id: TenantId, aggregate_id: AggregateId, last: u64)
        ensures
            final(self)@.rows == old(self)@.rows,
            final(self)@.cursors == upserted(old(self)@.cursors, tenant_id, aggregate_id, last),
    {
        self.cursors.upsert(tenant_id, aggregate_id, last);
    }

    /// The last sequence number applied for a stream, 0 if none: the cursor
    /// to persist.
    pub fn stream_cursor(&self, tenant_id: TenantId, aggregate_id: AggregateId) -> (r: u64)
        ensures
            r == crate::projections::cursor_of(self@.cursors, tenant_id, aggregate_id),
    {
        crate::projections::read_cursor(&self.cursors, tenant_id, aggregate_id)
    }

    pub fn new() -> (r: Self)
        ensures
            r@.rows == Seq::<(TenantId, InvoiceId, InvoiceAgingReadModel)>::empty(),
            r@.cursors == Seq::<(TenantId, AggregateId, u64)>::empty(),
    {
        InvoiceAgingProjection { store: InMemoryTenantStore::new(), cursors: InMemoryTenantStore::new() }
    }

    /// The aging entry of one invoice.
    pub fn get(&self, tenant_id: TenantId, invoice_id: &InvoiceId) -> (r: Option<InvoiceAgingReadModel>)
        ensures
            r == lookup(self@.rows, tenant_id, *invoice_id),
    {
        let r = self.store.get(tenant_id, invoice_id);
        assert(opt_view(r) == r);
        r
    }

    /// Every aging entry of a tenant.
    pub fn list(&self, tenant_id: TenantId) -> (r: Vec<InvoiceAgingReadModel>)
        ensures
            r@ == tenant_rows(self@.rows, tenant_id),
    {
        let r = self.store.list(tenant_id);
        assert(r@.map_values(|m: InvoiceAgingReadModel| m@) =~= r@);
        r
    }

    /// Apply one published envelope.
    pub fn apply_envelope(&mut self, envelope: &EventEnvelope<Result<InvoiceEvent, String>>) -> (r:
        Result<(), InvoiceProjectionError>)
        ensures
            (fault_view(r), final(self)@) == project(
                "invoicing.invoice"@,
                old(self)@,
                *envelope,
                aging_rules(),
            ),
    {
        let tenant_id = envelope.tenant_id();
        let aggregate_id = envelope.aggregate_id();
        let seq = envelope.sequence_number();
        match intake(&self.cursors, envelope, "invoicing.invoice") {
            Intake::Ignore => {
                return Ok(());
            },
            Intake::Stale { last, found } => {
                return Err(InvoiceProjectionError::NonMonotonicSequence { last, found });
            },
            Intake::Proceed => {},
        }
        let ev = match envelope.payload() {
            Err(m) => {
                return Err(InvoiceProjectionError::Deserialize(m.clone()));
            },
            Ok(e) => e,
        };
        let (event_tenant, invoice_id) = ev.stream();
        if event_tenant != tenant_id {
            return Err(
                InvoiceProjectionError::TenantIsolation(
                    owned("event tenant_id does not match envelope tenant_id"),
                ),
            );
        }
        if invoice_id.0 != aggregate_id {
            return Err(
                InvoiceProjectionError::TenantIsolation(
                    owned("event invoice_id does not match envelope aggregate_id"),
                ),
            );
        }
        let current = self.store.get(tenant_id, &invoice_id);
        assert(opt_view(current) == current);
        let row = row_after(current, ev);
        self.store.upsert(tenant_id, invoice_id, row);
        self.cursors.upsert(tenant_id, aggregate_id, seq);
        Ok(())
    }

    /// Clear the tenants of `envelopes` and replay them in replay order,
    /// stopping at the first refusal.
    pub fn rebuild_from_scratch(&mut self, envelopes: Vec<EventEnvelope<Result<InvoiceEvent, String>>>) -> (r:
        Result<(), InvoiceProjectionError>)
        ensures
            (fault_view(r), final(self)@) == project_all(
                "invoicing.invoice"@,
                cleared(old(self)@, tenants_of(envelopes@)),
                envelopes@,
                replay_order(replay_keys(envelopes@), envelopes@.len() as nat),
                aging_rules(),
            ),
    {
        let tenants = envelope_tenants(&envelopes);
        self.store.clear_tenants(&tenants);
        self.cursors.clear_tenants(&tenants);
        let ghost s0 = self@;
        let order = replay_order_of(&envelopes);
        let ghost ord = order@.map_values(|x: usize| x as int);
        let mut i: usize = 0;
        proof {
            assert(ord.take(0) =~= Seq::<int>::empty());
        }
        while i < order.len()
            invariant
                i <= order@.len(),
                ord == order@.map_values(|x: usize| x as int),
                ord == replay_order(replay_keys(envelopes@), envelopes@.len() as nat),
                forall|j: int| 0 <= j < order@.len() ==> order@[j] < envelopes@.len(),
                s0 == cleared(old(self)@, tenants_of(envelopes@)),
                project_all("invoicing.invoice"@, s0, envelopes@, ord.take(i as int), aging_rules())
                    == (Ok::<(), ProjectionFault>(()), self@),
            decreases order@.len() - i,
        {
            let k = order[i];
            proof {
                assert(ord.take(i + 1).drop_last() =~= ord.take(i as int));
                assert(ord.take(i + 1).last() == k as int);
            }
            let res = self.apply_envelope(&envelopes[k]);
            match res {
                Err(e) => {
                    proof {
                        lemma_project_all_stops(
                            "invoicing.invoice"@,
                            s0,
                            envelopes@,
                            ord,
                            aging_rules(),
                            i + 1,
                        );
                    }
                    return Err(e);
                },
                Ok(()) => {},
            }
            i = i + 1;
        }
        proof {
            assert(ord.take(ord.len() as int) =~= ord);
        }
        Ok(())
    }
}

} // verus!
