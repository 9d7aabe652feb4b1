//! Customer balances: what each customer was invoiced, has paid and still
//! owes, derived from invoice events.
//!
//! Invoices do not name their customer. An invoice is attributed to the
//! customer registered for it with `register_invoice_customer`; an invoice
//! issued without one is attributed to a customer keyed by its sales order.
use vstd::prelude::*;

use crate::common::{AggregateId, Replicate, TenantId};
use crate::events::EventEnvelope;
use crate::invoicing::{InvoiceEvent, InvoiceStatus};
use crate::parties::PartyId;
use crate::projections::{
    envelope_tenants, fault_view, intake, lemma_project_all_stops, lemma_replay_defined_prefix,
    project, project_all, replay_defined, replay_keys, replay_order, replay_order_of, step_defined,
    tenants_of, CursorTable, Defined, Intake, ProjectionFault, ProjectionView, Rules,
};
use crate::read_model::{lookup, opt_view, tenant_rows, upserted, without_tenants, InMemoryTenantStore};
use crate::text::{copy_opt_string, opt_text, owned};

pub use crate::projections::InMemoryCursorStore;

verus! {

/// Balance of one customer.
#[derive(Debug, Clone, PartialEq, Eq)]
pub struct CustomerBalance {
    pub customer_id: PartyId,
    pub customer_name: Option<String>,
    pub total_invoiced: u64,
    pub total_paid: u64,
    pub outstanding_balance: u64,
    pub open_invoice_count: u32,
}

/// Balance of one customer, by view.
pub struct CustomerRow {
    pub customer_id: PartyId,
    pub customer_name: Option<Seq<char>>,
    pub total_invoiced: u64,
    pub total_paid: u64,
    pub outstanding_balance: u64,
    pub open_invoice_count: u32,
}

impl View for CustomerBalance {
    type V = CustomerRow;

    open spec fn view(&self) -> CustomerRow {
        CustomerRow {
            customer_id: self.customer_id,
            customer_name: opt_text(self.customer_name),
            total_invoiced: self.total_invoiced,
            total_paid: self.total_paid,
            outstanding_balance: self.outstanding_balance,
            open_invoice_count: self.open_invoice_count,
        }
    }
}

impl Replicate for CustomerBalance {
    fn replicate(&self) -> (r: CustomerBalance) {
        CustomerBalance {
            customer_id: self.customer_id,
            customer_name: copy_opt_string(&self.customer_name),
            total_invoiced: self.total_invoiced,
            total_paid: self.total_paid,
            outstanding_balance: self.outstanding_balance,
            open_invoice_count: self.open_invoice_count,
        }
    }
}

/// A customer with nothing invoiced yet.
pub open spec fn zero_balance(id: PartyId) -> CustomerRow {
    CustomerRow {
        customer_id: id,
        customer_name: None,
        total_invoiced: 0,
        total_paid: 0,
        outstanding_balance: 0,
        open_invoice_count: 0,
    }
}

impl CustomerBalance {
    pub fn new(customer_id: PartyId) -> (r: CustomerBalance)
        ensures
            r@ == zero_balance(customer_id),
    {
        CustomerBalance {
            customer_id,
            customer_name: None,
            total_invoiced: 0,
            total_paid: 0,
            outstanding_balance: 0,
            open_invoice_count: 0,
        }
    }
}

/// The customer an invoice is attributed to, with the amounts seen so far.
#[derive(Debug, Clone, Copy, PartialEq, Eq, Structural)]
pub struct InvoiceCustomerMapping {
    pub customer_id: PartyId,
    pub total_amount: u64,
    pub total_paid: u64,
    pub status: InvoiceStatus,
}

impl View for InvoiceCustomerMapping {
    type V = InvoiceCustomerMapping;

    open spec fn view(&self) -> InvoiceCustomerMapping {
        *self
    }
}

impl Replicate for InvoiceCustomerMapping {
    fn replicate(&self) -> (r: InvoiceCustomerMapping) {
        *self
    }
}

#[derive(Debug)]
pub enum CustomerBalanceProjectionError {
    Deserialize(String),
    TenantIsolation(String),
    NonMonotonicSequence { last: u64, found: u64 },
}

impl View for CustomerBalanceProjectionError {
    type V = ProjectionFault;

    open spec fn view(&self) -> ProjectionFault {
        match self {
            CustomerBalanceProjectionError::Deserialize(m) => ProjectionFault::Deserialize(m@),
            CustomerBalanceProjectionError::TenantIsolation(m) => ProjectionFault::TenantIsolation(m@),
            CustomerBalanceProjectionError::NonMonotonicSequence { last, found } => {
                ProjectionFault::NonMonotonicSequence { last: *last, found: *found }
            },
        }
    }
}

/// Balances per customer.
pub type CustomerRows = Seq<(TenantId, PartyId, CustomerRow)>;

/// Customer attribution per invoice stream.
pub type MappingRows = Seq<(TenantId, AggregateId, InvoiceCustomerMapping)>;

/// Balances and attributions together.
pub type BalanceState = (CustomerRows, MappingRows);

/// The customer an event is attributed to: the registered one, else the
/// sales order for an issue and the invoice itself otherwise.
pub open spec fn attributed_customer(mapping: Option<InvoiceCustomerMapping>, e: InvoiceEvent) -> PartyId {
    match mapping {
        Some(m) => m.customer_id,
        None => match e {
            InvoiceEvent::InvoiceIssued(i) => PartyId(i.sales_order_id.0),
            InvoiceEvent::PaymentRegistered(p) => PartyId(p.invoice_id.0),
            InvoiceEvent::InvoiceVoided(v) => PartyId(v.invoice_id.0),
        },
    }
}

/// `a - b`, or 0 when `b` is larger.
pub open spec fn sat_sub64(a: u64, b: u64) -> u64 {
    if b <= a {
        (a - b) as u64
    } else {
        0
    }
}

/// `a - 1`, or 0 at 0.
pub open spec fn sat_dec(a: u32) -> u32 {
    if a == 0 {
        0
    } else {
        (a - 1) as u32
    }
}

/// The balances rules. An issue records the attribution and adds the total
/// to what the customer was invoiced and owes; a payment on an attributed
/// invoice adds to what was paid and reduces what is owed, closing the
/// invoice once it is fully paid; a void on an attributed invoice removes
/// what was still outstanding on it.
pub open spec fn customer_rules() -> Rules<InvoiceEvent, BalanceState> {
    |s: BalanceState, t: TenantId, a: AggregateId, e: InvoiceEvent|
        {
            let (rows, maps) = s;
            let (et, _) = e.spec_stream();
            if et != t {
                Err(
                    ProjectionFault::TenantIsolation(
                        "event tenant_id does not match envelope tenant_id"@,
                    ),
                )
            } else {
                let mapping = lookup(maps, t, a);
                match e {
                    InvoiceEvent::InvoiceIssued(i) => {
                        let cid = attributed_customer(mapping, e);
                        let b = match lookup(rows, t, cid) {
                            Some(b) => b,
                            None => zero_balance(cid),
                        };
                        Ok(
                            (
                                upserted(
                                    rows,
                                    t,
                                    cid,
                                    CustomerRow {
                                        total_invoiced: (b.total_invoiced + i.total_amount) as u64,
                                        outstanding_balance: (b.outstanding_balance + i.total_amount) as u64,
                                        open_invoice_count: (b.open_invoice_count + 1) as u32,
                                        ..b
                                    },
                                ),
                                upserted(
                                    maps,
                                    t,
                                    a,
                                    InvoiceCustomerMapping {
                                        customer_id: cid,
                                        total_amount: i.total_amount,
                                        total_paid: 0,
                                        status: InvoiceStatus::Open,
                                    },
                                ),
                            ),
                        )
                    },
                    InvoiceEvent::PaymentRegistered(p) => match mapping {
                        None => Ok(s),
                        Some(m) => {
                            let settled = p.new_total_paid >= m.total_amount;
                            let maps2 = upserted(
                                maps,
                                t,
                                a,
                                InvoiceCustomerMapping {
                                    total_paid: p.new_total_paid,
                                    status: if settled {
                                        InvoiceStatus::Paid
                                    } else {
                                        m.status
                                    },
                                    ..m
                                },
                            );
                            match lookup(rows, t, m.customer_id) {
                                None => Ok((rows, maps2)),
                                Some(b) => Ok(
                                    (
                                        upserted(
                                            rows,
                                            t,
                                            m.customer_id,
                                            CustomerRow {
                                                total_paid: (b.total_paid + p.amount) as u64,
                                                outstanding_balance: sat_sub64(b.outstanding_balance, p.amount),
                                                open_invoice_count: if settled {
                                                    sat_dec(b.open_invoice_count)
                                                } else {
                                                    b.open_invoice_count
                                                },
                                                ..b
                                            },
                                        ),
                                        maps2,
                                    ),
                                ),
                            }
                        },
                    },
                    InvoiceEvent::InvoiceVoided(_) => match mapping {
                        None => Ok(s),
                        Some(m) => {
                            let maps2 = upserted(
                                maps,
                                t,
                                a,
                                InvoiceCustomerMapping { status: InvoiceStatus::Void, ..m },
                            );
                            match lookup(rows, t, m.customer_id) {
                                None => Ok((rows, maps2)),
                                Some(b) => Ok(
                                    (
                                        upserted(
                                            rows,
                                            t,
                                            m.customer_id,
                                            CustomerRow {
                                                outstanding_balance: sat_sub64(
                                                    b.outstanding_balance,
                                                    sat_sub64(m.total_amount, m.total_paid),
                                                ),
                                                open_invoice_count: sat_dec(b.open_invoice_count),
                                                ..b
                                            },
                                        ),
                                        maps2,
                                    ),
                                ),
                            }
                        },
                    },
                }
            }
        }
}

/// The running totals stay within their integer types.
pub open spec fn customer_defined() -> Defined<InvoiceEvent, BalanceState> {
    |s: BalanceState, t: TenantId, a: AggregateId, e: InvoiceEvent|
        {
            let (rows, maps) = s;
            let mapping = lookup(maps, t, a);
            e.spec_stream().0 == t ==> match e {
                InvoiceEvent::InvoiceIssued(i) => {
                    let cid = attributed_customer(mapping, e);
                    let b = match lookup(rows, t, cid) {
                        Some(b) => b,
                        None => zero_balance(cid),
                    };
                    &&& b.total_invoiced + i.total_amount <= u64::MAX
                    &&& b.outstanding_balance + i.total_amount <= u64::MAX
                    &&& b.open_invoice_count + 1 <= u32::MAX
                },
                InvoiceEvent::PaymentRegistered(p) => match mapping {
                    Some(m) => match lookup(rows, t, m.customer_id) {
                        Some(b) => b.total_paid + p.amount <= u64::MAX,
                        None => true,
                    },
                    None => true,
                },
                InvoiceEvent::InvoiceVoided(_) => true,
            }
        }
}

/// The state a rebuild starts from: the given tenants' balances and cursors
/// removed, and every attribution forgotten.
pub open spec fn cleared_balances(s: ProjectionView<BalanceState>, ts: Seq<TenantId>) -> ProjectionView<BalanceState> {
    ProjectionView {
        rows: (without_tenants(s.rows.0, ts), Seq::empty()),
        cursors: without_tenants(s.cursors, ts),
    }
}

/// Customer balances projection.
#[derive(Debug)]
pub struct CustomerBalancesProjection {
    store: InMemoryTenantStore<PartyId, CustomerBalance>,
    invoice_mappings: InMemoryTenantStore<AggregateId, InvoiceCustomerMapping>,
    cursors: CursorTable,
}

impl View for CustomerBalancesProjection {
    type V = ProjectionView<BalanceState>;

    closed spec fn view(&self) -> ProjectionView<BalanceState> {
        ProjectionView {
            rows: (self.store.entries(), self.invoice_mappings.entries()),
            cursors: self.cursors.entries(),
        }
    }
}

impl CustomerBalancesProjection {
    /// Take up a stream's progress kept elsewhere (a cursor persisted across
    /// restarts): envelopes of the stream at or below `last` are then ignored.
    pub fn seed_cursor(&mut self, tenant_id: TenantId, aggregate_id: AggregateId, last: u64)
        ensures
            final(self)@.rows == old(self)@.rows,
            final(self)@.cursors == upserted(old(self)@.cursors, tenant_id, aggregate_id, last),
    {
        self.cursors.upsert(tenant_id, aggregate_id, last);
    }

    /// The last sequence number applied for a stream, 0 if none: the cursor
    /// to persist.
    pub fn stream_cursor(&self, tenant_id: TenantId, aggregate_id: AggregateId) -> (r: u64)
        ensures
            r == crate::projections::cursor_of(self@.cursors, tenant_id, aggregate_id),
    {
        crate::projections::read_cursor(&self.cursors, tenant_id, aggregate_id)
    }

    pub fn new() -> (r: Self)
        ensures
            r@.rows == (Seq::<(TenantId, PartyId, CustomerRow)>::empty(), Seq::<(TenantId, AggregateId, InvoiceCustomerMapping)>::empty()),
            r@.cursors == Seq::<(TenantId, AggregateId, u64)>::empty(),
    {
        CustomerBalancesProjection {
            store: InMemoryTenantStore::new(),
            invoice_mappings: InMemoryTenantStore::new(),
            cursors: InMemoryTenantStore::new(),
        }
    }

    /// The balance of one customer.
    pub fn get(&self, tenant_id: TenantId, customer_id: &PartyId) -> (r: Option<CustomerBalance>)
        ensures
            opt_view(r) == lookup(self@.rows.0, tenant_id, *customer_id),
    {
        self.store.get(tenant_id, customer_id)
    }

    /// Every balance of a tenant.
    pub fn list(&self, tenant_id: TenantId) -> (r: Vec<CustomerBalance>)
        ensures
            r@.map_values(|m: CustomerBalance| m@) == tenant_rows(self@.rows.0, tenant_id),
    {
        self.store.list(tenant_id)
    }

    /// Balances of a tenant with something outstanding.
    pub fn list_with_outstanding(&self, tenant_id: TenantId) -> (r: Vec<CustomerBalance>)
        ensures
            r@.map_values(|m: CustomerBalance| m@) == tenant_rows(self@.rows.0, tenant_id).filter(
                |b: CustomerRow| b.outstanding_balance > 0,
            ),
    {
        let items = self.store.list(tenant_id);
        let ghost rows = items@.map_values(|m: CustomerBalance| m@);
        let mut out: Vec<CustomerBalance> = Vec::new();
        let mut i: usize = 0;
        while i < items.len()
            invariant
                i <= items@.len(),
                rows == items@.map_values(|m: CustomerBalance| m@),
                out@.map_values(|m: CustomerBalance| m@) == rows.take(i as int).filter(
                    |b: CustomerRow| b.outstanding_balance > 0,
                ),
            decreases items@.len() - i,
        {
            let ghost before = out@;
            proof {
                assert(rows.take(i + 1) =~= rows.take(i as int).push(rows[i as int]));
                rows.take(i as int).lemma_filter_push(
                    rows[i as int],
                    |b: CustomerRow| b.outstanding_balance > 0,
                );
            }
            if items[i].outstanding_balance > 0 {
                out.push(items[i].replicate());
                assert(out@.map_values(|m: CustomerBalance| m@) =~= before.map_values(
                    |m: CustomerBalance| m@,
                ).push(rows[i as int]));
            }
            i = i + 1;
        }
        assert(rows.take(rows.len() as int) =~= rows);
        out
    }

    /// Attribute an invoice to a customer, before its issue is applied.
    pub fn register_invoice_customer(
        &mut self,
        tenant_id: TenantId,
        invoice_aggregate_id: AggregateId,
        customer_id: PartyId,
    )
        ensures
            final(self)@.rows.0 == old(self)@.rows.0,
            final(self)@.rows.1 == upserted(
                old(self)@.rows.1,
                tenant_id,
                invoice_aggregate_id,
                InvoiceCustomerMapping {
                    customer_id,
                    total_amount: 0,
                    total_paid: 0,
                    status: InvoiceStatus::Open,
                },
            ),
            final(self)@.cursors == old(self)@.cursors,
    {
        self.invoice_mappings.upsert(
            tenant_id,
            invoice_aggregate_id,
            InvoiceCustomerMapping {
                customer_id,
                total_amount: 0,
                total_paid: 0,
                status: InvoiceStatus::Open,
            },
        );
    }

    /// Apply one published envelope.
    pub fn apply_envelope(&mut self, envelope: &EventEnvelope<Result<InvoiceEvent, String>>) -> (r:
        Result<(), CustomerBalanceProjectionError>)
        requires
            step_defined("invoicing.invoice"@, old(self)@, *envelope, customer_defined()),
        ensures
            (fault_view(r), final(self)@) == project(
                "invoicing.invoice"@,
                old(self)@,
                *envelope,
                customer_rules(),
            ),
    {
        let tenant_id = envelope.tenant_id();
        let aggregate_id = envelope.aggregate_id();
        let seq = envelope.sequence_number();
        match intake(&self.cursors, envelope, "invoicing.invoice") {
            Intake::Ignore => {
                return Ok(());
            },
            Intake::Stale { last, found } => {
                return Err(CustomerBalanceProjectionError::NonMonotonicSequence { last, found });
            },
            Intake::Proceed => {},
        }
        let ev = match envelope.payload() {
            Err(m) => {
                return Err(CustomerBalanceProjectionError::Deserialize(m.clone()));
            },
            Ok(e) => e,
        };
        let (event_tenant, _) = ev.stream();
        if event_tenant != tenant_id {
            return Err(
                CustomerBalanceProjectionError::TenantIsolation(
                    owned("event tenant_id does not match envelope tenant_id"),
                ),
            );
        }
        let mapping = self.invoice_mappings.get(tenant_id, &aggregate_id);
        assert(opt_view(mapping) == mapping);
        match ev {
            InvoiceEvent::InvoiceIssued(i) => {
                let customer_id = match mapping {
                    Some(m) => m.customer_id,
                    None => PartyId(i.sales_order_id.0),
                };
                self.invoice_mappings.upsert(
                    tenant_id,
                    aggregate_id,
                    InvoiceCustomerMapping {
                        customer_id,
                        total_amount: i.total_amount,
                        total_paid: 0,
                        status: InvoiceStatus::Open,
                    },
                );
                let mut balance = match self.store.get(tenant_id, &customer_id) {
                    Some(b) => b,
                    None => CustomerBalance::new(customer_id),
                };
                balance.total_invoiced = balance.total_invoiced + i.total_amount;
                balance.outstanding_balance = balance.outstanding_balance + i.total_amount;
                balance.open_invoice_count = balance.open_invoice_count + 1;
                self.store.upsert(tenant_id, customer_id, balance);
            },
            InvoiceEvent::PaymentRegistered(p) => {
                match mapping {
                    Some(m) => {
                        let settled = p.new_total_paid >= m.total_amount;
                        let mut updated = m;
                        updated.total_paid = p.new_total_paid;
                        if settled {
                            updated.status = InvoiceStatus::Paid;
                        }
                        self.invoice_mappings.upsert(tenant_id, aggregate_id, updated);
                        match self.store.get(tenant_id, &m.customer_id) {
                            Some(mut balance) => {
                                balance.total_paid = balance.total_paid + p.amount;
                                balance.outstanding_balance = if p.amount <= balance.outstanding_balance {
                                    balance.outstanding_balance - p.amount
                                } else {
                                    0
                                };
                                if settled {
                                    balance.open_invoice_count = if balance.open_invoice_count == 0 {
                                        0
                                    } else {
                                        balance.open_invoice_count - 1
                                    };
                                }
                                self.store.upsert(tenant_id, m.customer_id, balance);
                            },
                            None => {},
                        }
                    },
                    None => {},
                }
            },
            InvoiceEvent::InvoiceVoided(_) => {
                match mapping {
                    Some(m) => {
                        let mut updated = m;
                        updated.status = InvoiceStatus::Void;
                        self.invoice_mappings.upsert(tenant_id, aggregate_id, updated);
                        match self.store.get(tenant_id, &m.customer_id) {
                            Some(mut balance) => {
                                let outstanding = if m.total_paid <= m.total_amount {
                                    m.total_amount - m.total_paid
                                } else {
                                    0
                                };
                                balance.outstanding_balance = if outstanding <= balance.outstanding_balance {
                                    balance.outstanding_balance - outstanding
                                } else {
                                    0
                                };
                                balance.open_invoice_count = if balance.open_invoice_count == 0 {
                                    0
                                } else {
                                    balance.open_invoice_count - 1
                                };
                                self.store.upsert(tenant_id, m.customer_id, balance);
                            },
                            None => {},
                        }
                    },
                    None => {},
                }
            },
        }
        self.cursors.upsert(tenant_id, aggregate_id, seq);
        Ok(())
    }

    /// Clear the tenants of `envelopes` and replay them in replay order,
    /// stopping at the first refusal.
    pub fn rebuild_from_scratch(
        &mut self,
        envelopes: Vec<EventEnvelope<Result<InvoiceEvent, String>>>,
    ) -> (r: Result<(), CustomerBalanceProjectionError>)
        requires
            replay_defined(
                "invoicing.invoice"@,
                cleared_balances(old(self)@, tenants_of(envelopes@)),
                envelopes@,
                replay_order(replay_keys(envelopes@), envelopes@.len() as nat),
                customer_rules(),
                customer_defined(),
            ),
        ensures
            (fault_view(r), final(self)@) == project_all(
                "invoicing.invoice"@,
                cleared_balances(old(self)@, tenants_of(envelopes@)),
                envelopes@,
                replay_order(replay_keys(envelopes@), envelopes@.len() as nat),
                customer_rules(),
            ),
    {
        let tenants = envelope_tenants(&envelopes);
        self.store.clear_tenants(&tenants);
        self.cursors.clear_tenants(&tenants);
        self.invoice_mappings = InMemoryTenantStore::new();
        let ghost s0 = self@;
        let order = replay_order_of(&envelopes);
        let ghost ord = order@.map_values(|x: usize| x as int);
        let mut i: usize = 0;
        proof {
            assert(ord.take(0) =~= Seq::<int>::empty());
        }
        while i < order.len()
            invariant
                i <= order@.len(),
                ord == order@.map_values(|x: usize| x as int),
                ord == replay_order(replay_keys(envelopes@), envelopes@.len() as nat),
                forall|j: int| 0 <= j < order@.len() ==> order@[j] < envelopes@.len(),
                s0 == cleared_balances(old(self)@, tenants_of(envelopes@)),
                replay_defined("invoicing.invoice"@, s0, envelopes@, ord, customer_rules(), customer_defined()),
                project_all("invoicing.invoice"@, s0, envelopes@, ord.take(i as int), customer_rules()) == (
                    Ok::<(), ProjectionFault>(()),
                    self@,
                ),
            decreases order@.len() - i,
        {
            let k = order[i];
            proof {
                assert(ord.take(i + 1).drop_last() =~= ord.take(i as int));
                assert(ord.take(i + 1).last() == k as int);
                lemma_replay_defined_prefix(
                    "invoicing.invoice"@,
                    s0,
                    envelopes@,
                    ord,
                    customer_rules(),
                    customer_defined(),
                    i + 1,
                );
            }
            let res = self.apply_envelope(&envelopes[k]);
            match res {
                Err(e) => {
                    proof {
                        lemma_project_all_stops(
                            "invoicing.invoice"@,
                            s0,
                            envelopes@,
                            ord,
                            customer_rules(),
                            i + 1,
                        );
                    }
                    return Err(e);
                },
                Ok(()) => {},
            }
            i = i + 1;
        }
        proof {
            assert(ord.take(ord.len() as int) =~= ord);
        }
        Ok(())
    }
}

/// What a customer owes, as the balances hold it (0 when unknown).
pub open spec fn owed_by(rows: CustomerRows, t: TenantId, c: PartyId) -> int {
    match lookup(rows, t, c) {
        Some(b) => b.outstanding_balance as int,
        None => 0,
    }
}

/// Balance rows of other customers stay as they were.
pub open spec fn others_unchanged(before: CustomerRows, after: CustomerRows, t: TenantId, c: PartyId) -> bool {
    forall|t2: TenantId, c2: PartyId| (t2, c2) != (t, c) ==> #[trigger] lookup(after, t2, c2) == lookup(before, t2, c2)
}

/// Voiding an invoice attributed to a customer takes back what was still
/// owed on it: the customer's outstanding balance drops by the invoice's
/// total less what was paid on it (never below 0), one invoice fewer is open,
/// what was invoiced and paid stays, the invoice is recorded as void, and no
/// other customer's balance moves.
pub proof fn law_void_reverses_outstanding(
    s: ProjectionView<BalanceState>,
    env: EventEnvelope<Result<InvoiceEvent, String>>,
)
    requires
        crate::projections::spec_intake("invoicing.invoice"@, s.cursors, env) == Intake::Proceed,
        env.spec_payload() matches Ok(InvoiceEvent::InvoiceVoided(v)) && v.tenant_id == env.spec_tenant_id(),
        lookup(s.rows.1, env.spec_tenant_id(), env.spec_aggregate_id()) is Some,
        lookup(
            s.rows.0,
            env.spec_tenant_id(),
            lookup(s.rows.1, env.spec_tenant_id(), env.spec_aggregate_id())->0.customer_id,
        ) is Some,
    ensures
        ({
            let t = env.spec_tenant_id();
            let a = env.spec_aggregate_id();
            let m = lookup(s.rows.1, t, a)->0;
            let c = m.customer_id;
            let b = lookup(s.rows.0, t, c)->0;
            let r = project("invoicing.invoice"@, s, env, customer_rules());
            let nb = lookup(r.1.rows.0, t, c)->0;
            let still_owed: int = if m.total_paid <= m.total_amount {
                m.total_amount - m.total_paid
            } else {
                0
            };
            &&& r.0 is Ok
            &&& lookup(r.1.rows.0, t, c) is Some
            &&& nb.outstanding_balance == if still_owed <= b.outstanding_balance {
                b.outstanding_balance - still_owed
            } else {
                0
            }
            &&& nb.open_invoice_count == if b.open_invoice_count > 0 {
                b.open_invoice_count - 1
            } else {
                0
            }
            &&& nb.total_invoiced == b.total_invoiced
            &&& nb.total_paid == b.total_paid
            &&& lookup(r.1.rows.1, t, a) matches Some(m2) && m2.status == InvoiceStatus::Void
                && m2.total_amount == m.total_amount && m2.total_paid == m.total_paid
            &&& others_unchanged(s.rows.0, r.1.rows.0, t, c)
        }),
{
    let t = env.spec_tenant_id();
    let a = env.spec_aggregate_id();
    let m = lookup(s.rows.1, t, a)->0;
    let c = m.customer_id;
    let b = lookup(s.rows.0, t, c)->0;
    let nb = CustomerRow {
        outstanding_balance: sat_sub64(b.outstanding_balance, sat_sub64(m.total_amount, m.total_paid)),
        open_invoice_count: sat_dec(b.open_invoice_count),
        ..b
    };
    crate::read_model::lemma_lookup_upserted(s.rows.0, t, c, nb, t, c);
    crate::read_model::lemma_lookup_upserted(
        s.rows.1,
        t,
        a,
        InvoiceCustomerMapping { status: InvoiceStatus::Void, ..m },
        t,
        a,
    );
    assert forall|t2: TenantId, c2: PartyId| (t2, c2) != (t, c) implies #[trigger] lookup(
        upserted(s.rows.0, t, c, nb),
        t2,
        c2,
    ) == lookup(s.rows.0, t2, c2) by {
        crate::read_model::lemma_lookup_upserted(s.rows.0, t, c, nb, t2, c2);
    }
}

/// A payment on an invoice attributed to a customer lowers what the customer
/// owes by the amount paid (never below 0) and adds it to what was paid;
/// what was invoiced stays, the invoice records its new paid total, and no
/// other customer's balance moves.
pub proof fn law_payment_lowers_outstanding(
    s: ProjectionView<BalanceState>,
    env: EventEnvelope<Result<InvoiceEvent, String>>,
)
    requires
        crate::projections::spec_intake("invoicing.invoice"@, s.cursors, env) == Intake::Proceed,
        env.spec_payload() matches Ok(InvoiceEvent::PaymentRegistered(p)) && p.tenant_id == env.spec_tenant_id(),
        lookup(s.rows.1, env.spec_tenant_id(), env.spec_aggregate_id()) is Some,
        lookup(
            s.rows.0,
            env.spec_tenant_id(),
            lookup(s.rows.1, env.spec_tenant_id(), env.spec_aggregate_id())->0.customer_id,
        ) is Some,
        lookup(
            s.rows.0,
            env.spec_tenant_id(),
            lookup(s.rows.1, env.spec_tenant_id(), env.spec_aggregate_id())->0.customer_id,
        )->0.total_paid + env.spec_payload()->Ok_0->PaymentRegistered_0.amount <= u64::MAX,
    ensures
        ({
            let t = env.spec_tenant_id();
            let a = env.spec_aggregate_id();
            let p = env.spec_payload()->Ok_0->PaymentRegistered_0;
            let m = lookup(s.rows.1, t, a)->0;
            let c = m.customer_id;
            let b = lookup(s.rows.0, t, c)->0;
            let r = project("invoicing.invoice"@, s, env, customer_rules());
            let nb = lookup(r.1.rows.0, t, c)->0;
            &&& r.0 is Ok
            &&& lookup(r.1.rows.0, t, c) is Some
            &&& nb.outstanding_balance == if p.amount <= b.outstanding_balance {
                b.outstanding_balance - p.amount
            } else {
                0
            }
            &&& nb.total_paid == b.total_paid + p.amount
            &&& nb.total_invoiced == b.total_invoiced
            &&& lookup(r.1.rows.1, t, a) matches Some(m2) && m2.total_paid == p.new_total_paid
                && m2.total_amount == m.total_amount
            &&& others_unchanged(s.rows.0, r.1.rows.0, t, c)
        }),
{
    let t = env.spec_tenant_id();
    let a = env.spec_aggregate_id();
    let p = env.spec_payload()->Ok_0->PaymentRegistered_0;
    let m = lookup(s.rows.1, t, a)->0;
    let c = m.customer_id;
    let b = lookup(s.rows.0, t, c)->0;
    let settled = p.new_total_paid >= m.total_amount;
    let nb = CustomerRow {
        total_paid: (b.total_paid + p.amount) as u64,
        outstanding_balance: sat_sub64(b.outstanding_balance, p.amount),
        open_invoice_count: if settled {
            sat_dec(b.open_invoice_count)
        } else {
            b.open_invoice_count
        },
        ..b
    };
    let m2 = InvoiceCustomerMapping {
        total_paid: p.new_total_paid,
        status: if settled {
            InvoiceStatus::Paid
        } else {
            m.status
        },
        ..m
    };
    crate::read_model::lemma_lookup_upserted(s.rows.0, t, c, nb, t, c);
    crate::read_model::lemma_lookup_upserted(s.rows.1, t, a, m2, t, a);
    assert forall|t2: TenantId, c2: PartyId| (t2, c2) != (t, c) implies #[trigger] lookup(
        upserted(s.rows.0, t, c, nb),
        t2,
        c2,
    ) == lookup(s.rows.0, t2, c2) by {
        crate::read_model::lemma_lookup_upserted(s.rows.0, t, c, nb, t2, c2);
    }
}

/// Issuing an invoice adds its total to what its customer was invoiced and
/// owes and opens one more invoice for it; the invoice is attributed to that
/// customer with its total, nothing paid, and open; no other customer's
/// balance moves.
pub proof fn law_issue_adds_outstanding(
    s: ProjectionView<BalanceState>,
    env: EventEnvelope<Result<InvoiceEvent, String>>,
)
    requires
        crate::projections::spec_intake("invoicing.invoice"@, s.cursors, env) == Intake::Proceed,
        env.spec_payload() matches Ok(InvoiceEvent::InvoiceIssued(i)) && i.tenant_id == env.spec_tenant_id()
            && ({
            let c = attributed_customer(
                lookup(s.rows.1, env.spec_tenant_id(), env.spec_aggregate_id()),
                InvoiceEvent::InvoiceIssued(i),
            );
            match lookup(s.rows.0, env.spec_tenant_id(), c) {
                Some(b) => b.total_invoiced + i.total_amount <= u64::MAX && b.outstanding_balance + i.total_amount
                    <= u64::MAX && b.open_invoice_count + 1 <= u32::MAX,
                None => true,
            }
        }),
    ensures
        ({
            let t = env.spec_tenant_id();
            let a = env.spec_aggregate_id();
            let e = env.spec_payload()->Ok_0;
            let i = e->InvoiceIssued_0;
            let c = attributed_customer(lookup(s.rows.1, t, a), e);
            let r = project("invoicing.invoice"@, s, env, customer_rules());
            let nb = lookup(r.1.rows.0, t, c)->0;
            let (invoiced, owed, open) = match lookup(s.rows.0, t, c) {
                Some(b) => (b.total_invoiced as int, b.outstanding_balance as int, b.open_invoice_count as int),
                None => (0int, 0int, 0int),
            };
            &&& r.0 is Ok
            &&& lookup(r.1.rows.0, t, c) is Some
            &&& nb.outstanding_balance == owed + i.total_amount
            &&& nb.total_invoiced == invoiced + i.total_amount
            &&& nb.open_invoice_count == open + 1
            &&& lookup(r.1.rows.1, t, a) == Some(
                InvoiceCustomerMapping {
                    customer_id: c,
                    total_amount: i.total_amount,
                    total_paid: 0,
                    status: InvoiceStatus::Open,
                },
            )
            &&& others_unchanged(s.rows.0, r.1.rows.0, t, c)
        }),
{
    let t = env.spec_tenant_id();
    let a = env.spec_aggregate_id();
    let e = env.spec_payload()->Ok_0;
    let i = e->InvoiceIssued_0;
    let c = attributed_customer(lookup(s.rows.1, t, a), e);
    let b = match lookup(s.rows.0, t, c) {
        Some(b) => b,
        None => zero_balance(c),
    };
    let nb = CustomerRow {
        total_invoiced: (b.total_invoiced + i.total_amount) as u64,
        outstanding_balance: (b.outstanding_balance + i.total_amount) as u64,
        open_invoice_count: (b.open_invoice_count + 1) as u32,
        ..b
    };
    let m = InvoiceCustomerMapping { customer_id: c, total_amount: i.total_amount, total_paid: 0, status: InvoiceStatus::Open };
    crate::read_model::lemma_lookup_upserted(s.rows.0, t, c, nb, t, c);
    crate::read_model::lemma_lookup_upserted(s.rows.1, t, a, m, t, a);
    assert forall|t2: TenantId, c2: PartyId| (t2, c2) != (t, c) implies #[trigger] lookup(
        upserted(s.rows.0, t, c, nb),
        t2,
        c2,
    ) == lookup(s.rows.0, t2, c2) by {
        crate::read_model::lemma_lookup_upserted(s.rows.0, t, c, nb, t2, c2);
    }
}

} // verus!
