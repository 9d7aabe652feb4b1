//! Open invoices: what is issued and not yet settled, for collections and
//! cash-flow forecasting.
//!
//! Issued invoices enter; payments update what is paid and outstanding; a
//! full payment or a void leaves the entry with nothing outstanding. Age and
//! overdue status are computed against the time at which an event is
//! applied or a query is asked.
use vstd::prelude::*;

use crate::common::{copy_vec, AggregateId, Replicate, TenantId, Timestamp};
use crate::events::EventEnvelope;
use crate::invoicing::{InvoiceEvent, InvoiceId, InvoiceLine};
use crate::projections::{
    cleared, envelope_tenants, fault_view, intake, lemma_project_all_drawn_stops, project,
    project_all_drawn, replay_keys, replay_order, replay_order_of, tenants_of, CursorTable, Intake,
    ProjectionFault, ProjectionView, Rules,
};
use crate::read_model::{lookup, opt_view, tenant_rows, upserted, InMemoryTenantStore};
use crate::sales::SalesOrderId;
use crate::text::owned;

pub use crate::projections::InMemoryCursorStore;

verus! {

/// Milliseconds per day.
pub const MILLIS_PER_DAY: i128 = 86_400_000;

/// Whole days in a span of milliseconds, rounded toward zero.
pub open spec fn whole_days(ms: int) -> int {
    if ms >= 0 {
        ms / 86_400_000
    } else {
        -((-ms) / 86_400_000)
    }
}

/// Whole days from `from` to `to`, rounded toward zero.
pub fn days_between(from: Timestamp, to: Timestamp) -> (r: i64)
    ensures
        r == whole_days(to.0 - from.0),
{
    let d: i128 = to.0 as i128 - from.0 as i128;
    if d >= 0 {
        let q = d / MILLIS_PER_DAY;
        assert(0 <= q <= 0x1_0000_0000_0000_0000int) by (nonlinear_arith)
            requires
                q == d / 86_400_000,
                0 <= d <= 0x1_0000_0000_0000_0000int,
        ;
        assert(q <= 0x7fff_ffff_ffff_ffffint) by (nonlinear_arith)
            requires
                q == d / 86_400_000,
                0 <= d <= 0x1_0000_0000_0000_0000int,
        ;
        q as i64
    } else {
        let q = (-d) / MILLIS_PER_DAY;
        assert(0 <= q <= 0x7fff_ffff_ffff_ffffint) by (nonlinear_arith)
            requires
                q == (-d) / 86_400_000,
                0 < -d <= 0x1_0000_0000_0000_0000int,
        ;
        -(q as i64)
    }
}

/// An open invoice.
#[derive(Debug, Clone, PartialEq, Eq)]
pub struct OpenInvoice {
    pub invoice_id: InvoiceId,
    pub sales_order_id: SalesOrderId,
    pub due_date: Timestamp,
    pub total_amount: u64,
    pub amount_paid: u64,
    pub outstanding_amount: u64,
    pub lines: Vec<InvoiceLine>,
    pub days_outstanding: i64,
    pub is_overdue: bool,
}

/// An open invoice, by view.
pub struct OpenRow {
    pub invoice_id: InvoiceId,
    pub sales_order_id: SalesOrderId,
    pub due_date: Timestamp,
    pub total_amount: u64,
    pub amount_paid: u64,
    pub outstanding_amount: u64,
    pub lines: Seq<InvoiceLine>,
    pub days_outstanding: i64,
    pub is_overdue: bool,
}

impl View for OpenInvoice {
    type V = OpenRow;

    open spec fn view(&self) -> OpenRow {
        OpenRow {
            invoice_id: self.invoice_id,
            sales_order_id: self.sales_order_id,
            due_date: self.due_date,
            total_amount: self.total_amount,
            amount_paid: self.amount_paid,
            outstanding_amount: self.outstanding_amount,
            lines: self.lines@,
            days_outstanding: self.days_outstanding,
            is_overdue: self.is_overdue,
        }
    }
}

impl Replicate for OpenInvoice {
    fn replicate(&self) -> (r: OpenInvoice) {
        OpenInvoice {
            invoice_id: self.invoice_id,
            sales_order_id: self.sales_order_id,
            due_date: self.due_date,
            total_amount: self.total_amount,
            amount_paid: self.amount_paid,
            outstanding_amount: self.outstanding_amount,
            lines: copy_vec(&self.lines),
            days_outstanding: self.days_outstanding,
            is_overdue: self.is_overdue,
        }
    }
}

/// `a - b`, or 0 when `b` is larger.
pub open spec fn sat_sub(a: u64, b: u64) -> u64 {
    if b <= a {
        (a - b) as u64
    } else {
        0
    }
}

/// An entry with outstanding amount, age and overdue status recomputed at `now`.
pub open spec fn refreshed(row: OpenRow, now: Timestamp) -> OpenRow {
    let days = whole_days(now.0 - row.due_date.0) as i64;
    OpenRow {
        outstanding_amount: sat_sub(row.total_amount, row.amount_paid),
        days_outstanding: days,
        is_overdue: days > 0,
        ..row
    }
}

impl OpenInvoice {
    /// Recompute outstanding amount, age and overdue status at `now`.
    pub fn refresh_calculated_fields(&mut self, now: Timestamp)
        ensures
            final(self)@ == refreshed(old(self)@, now),
    {
        self.outstanding_amount = if self.amount_paid <= self.total_amount {
            self.total_amount - self.amount_paid
        } else {
            0
        };
        self.days_outstanding = days_between(self.due_date, now);
        self.is_overdue = self.days_outstanding > 0;
    }
}

/// Totals over the open invoices of a tenant.
#[derive(Debug, Clone, PartialEq, Eq)]
pub struct OpenInvoicesSummary {
    pub count: usize,
    pub total_outstanding: u64,
    pub overdue_count: usize,
    pub overdue_amount: u64,
}

#[derive(Debug)]
pub enum OpenInvoicesProjectionError {
    Deserialize(String),
    TenantIsolation(String),
    NonMonotonicSequence { last: u64, found: u64 },
}

impl View for OpenInvoicesProjectionError {
    type V = ProjectionFault;

    open spec fn view(&self) -> ProjectionFault {
        match self {
            OpenInvoicesProjectionError::Deserialize(m) => ProjectionFault::Deserialize(m@),
            OpenInvoicesProjectionError::TenantIsolation(m) => ProjectionFault::TenantIsolation(m@),
            OpenInvoicesProjectionError::NonMonotonicSequence { last, found } => {
                ProjectionFault::NonMonotonicSequence { last: *last, found: *found }
            },
        }
    }
}

/// Rows of the open invoices read model, by view.
pub type OpenRows = Seq<(TenantId, InvoiceId, OpenRow)>;

/// The open invoices rules at time `now`.
pub open spec fn open_rules(now: Timestamp) -> Rules<InvoiceEvent, OpenRows> {
    |rows: OpenRows, t: TenantId, a: AggregateId, e: InvoiceEvent|
        {
            let (et, id) = e.spec_stream();
            if et != t {
                Err(
                    ProjectionFault::TenantIsolation(
                        "event tenant_id does not match envelope tenant_id"@,
                    ),
                )
            } else if id.0 != a {
                Err(
                    ProjectionFault::TenantIsolation(
                        "event invoice_id does not match envelope aggregate_id"@,
                    ),
                )
            } else {
                match e {
                    InvoiceEvent::InvoiceIssued(i) => {
                        let days = whole_days(now.0 - i.due_date.0) as i64;
                        Ok(
                            upserted(
                                rows,
                                t,
                                id,
                                OpenRow {
                                    invoice_id: i.invoice_id,
                                    sales_order_id: i.sales_order_id,
                                    due_date: i.due_date,
                                    total_amount: i.total_amount,
                                    amount_paid: 0,
                                    outstanding_amount: i.total_amount,
                                    lines: i.lines@,
                                    days_outstanding: days,
                                    is_overdue: days > 0,
                                },
                            ),
                        )
                    },
                    InvoiceEvent::PaymentRegistered(p) => match lookup(rows, t, id) {
                        Some(b) => Ok(
                            upserted(
                                rows,
                                t,
                                id,
                                refreshed(OpenRow { amount_paid: p.new_total_paid, ..b }, now),
                            ),
                        ),
                        None => Ok(rows),
                    },
                    InvoiceEvent::InvoiceVoided(_) => match lookup(rows, t, id) {
                        Some(b) => Ok(upserted(rows, t, id, OpenRow { outstanding_amount: 0, ..b })),
                        None => Ok(rows),
                    },
                }
            }
        }
}

/// The open invoices rules for each clock reading.
pub open spec fn open_rules_by_clock() -> spec_fn(Timestamp) -> Rules<InvoiceEvent, OpenRows> {
    |now: Timestamp| open_rules(now)
}

/// The sum of the outstanding amounts.
pub open spec fn sum_outstanding(rows: Seq<OpenRow>) -> int
    decreases rows.len(),
{
    if rows.len() == 0 {
        0
    } else {
        sum_outstanding(rows.drop_last()) + rows.last().outstanding_amount
    }
}

/// Whether an invoice is past due at `now`.
pub open spec fn past_due(row: OpenRow, now: Timestamp) -> bool {
    row.due_date.0 < now.0
}

/// Whether an invoice falls due between `now` and `cutoff`, both included.
pub open spec fn due_between(row: OpenRow, now: Timestamp, cutoff: int) -> bool {
    now.0 <= row.due_date.0 && row.due_date.0 <= cutoff
}

/// Whether an invoice is still open: something is outstanding. A fully
/// paid or voided invoice keeps its entry, with nothing outstanding, but
/// is no longer listed.
pub open spec fn is_open(row: OpenRow) -> bool {
    row.outstanding_amount > 0
}

/// Selects the open invoices.
pub open spec fn open_filter() -> spec_fn(OpenRow) -> bool {
    |row: OpenRow| is_open(row)
}

/// Selects the open invoices past due at `now`.
pub open spec fn overdue_filter(now: Timestamp) -> spec_fn(OpenRow) -> bool {
    |row: OpenRow| is_open(row) && past_due(row, now)
}

/// Selects the open invoices due from `now` up to `cutoff`.
pub open spec fn due_filter(now: Timestamp, cutoff: int) -> spec_fn(OpenRow) -> bool {
    |row: OpenRow| is_open(row) && due_between(row, now, cutoff)
}

/// Past due at `now`, or, with a cutoff, due from `now` up to it.
pub open spec fn row_filter(now: Timestamp, cutoff: Option<i64>) -> spec_fn(OpenRow) -> bool {
    match cutoff {
        None => overdue_filter(now),
        Some(c) => due_filter(now, c as int),
    }
}

/// What `list_due_within_days` returns when the clock reads `now`.
pub open spec fn due_listing(r: Seq<OpenInvoice>, rows: Seq<OpenRow>, now: Timestamp, days: i64) -> bool {
    if i64::MIN <= now.0 + days * 86_400_000 <= i64::MAX {
        r.map_values(|m: OpenInvoice| m@) == rows.filter(due_filter(now, now.0 + days * 86_400_000))
    } else {
        r.len() == 0
    }
}

pub proof fn lemma_sum_outstanding_filter(rows: Seq<OpenRow>, p: spec_fn(OpenRow) -> bool)
    ensures
        0 <= sum_outstanding(rows.filter(p)) <= sum_outstanding(rows),
    decreases rows.len(),
{
    if rows.len() > 0 {
        lemma_sum_outstanding_filter(rows.drop_last(), p);
        assert(rows =~= rows.drop_last().push(rows.last()));
        rows.drop_last().lemma_filter_push(rows.last(), p);
        let f = rows.drop_last().filter(p);
        assert(f.push(rows.last()).drop_last() =~= f);
        assert(f.push(rows.last()).last() == rows.last());
    } else {
        assert(rows.filter(p) =~= rows) by {
            reveal(Seq::filter);
        }
    }
}

pub proof fn lemma_sum_outstanding_prefix(rows: Seq<OpenRow>, k: int)
    requires
        0 <= k <= rows.len(),
    ensures
        0 <= sum_outstanding(rows.take(k)) <= sum_outstanding(rows),
    decreases rows.len(),
{
    if k < rows.len() {
        assert(rows.drop_last().take(k) =~= rows.take(k));
        lemma_sum_outstanding_prefix(rows.drop_last(), k);
    } else {
        assert(rows.take(k) =~= rows);
    }
    if rows.len() > 0 {
        lemma_sum_outstanding_prefix(rows.drop_last(), rows.len() - 1);
        assert(rows.drop_last().take(rows.len() - 1) =~= rows.drop_last());
    }
}

/// Open invoices projection.
#[derive(Debug)]
pub struct OpenInvoicesProjection {
    store: InMemoryTenantStore<InvoiceId, OpenInvoice>,
    cursors: CursorTable,
}

impl View for OpenInvoicesProjection {
    type V = ProjectionView<OpenRows>;

    closed spec fn view(&self) -> ProjectionView<OpenRows> {
        ProjectionView { rows: self.store.entries(), cursors: self.cursors.entries() }
    }
}

/// The open invoices of `all` selected by `row_filter(now, cutoff)`, in order.
fn filter_rows(all: Vec<OpenInvoice>, now: Timestamp, cutoff: Option<i64>) -> (r: Vec<OpenInvoice>)
    ensures
        r@.map_values(|m: OpenInvoice| m@) == all@.map_values(|m: OpenInvoice| m@).filter(
            row_filter(now, cutoff),
        ),
{
    let ghost rows = all@.map_values(|m: OpenInvoice| m@);
    let ghost keep = row_filter(now, cutoff);
    let mut out: Vec<OpenInvoice> = Vec::new();
    let mut i: usize = 0;
    while i < all.len()
        invariant
            i <= all@.len(),
            rows == all@.map_values(|m: OpenInvoice| m@),
            keep == row_filter(now, cutoff),
            out@.map_values(|m: OpenInvoice| m@) == rows.take(i as int).filter(keep),
        decreases all@.len() - i,
    {
        let ghost before = out@;
        proof {
            assert(rows.take(i + 1) =~= rows.take(i as int).push(rows[i as int]));
            rows.take(i as int).lemma_filter_push(rows[i as int], keep);
        }
        let due = all[i].due_date.0;
        let selected = all[i].outstanding_amount > 0 && match cutoff {
            None => due < now.0,
            Some(c) => now.0 <= due && due <= c,
        };
        assert(selected == keep(rows[i as int]));
        if selected {
            out.push(all[i].replicate());
            assert(out@.map_values(|m: OpenInvoice| m@) =~= before.map_values(|m: OpenInvoice| m@).push(
                rows[i as int],
            ));
        }
        i = i + 1;
    }
    assert(rows.take(rows.len() as int) =~= rows);
    out
}

/// The open invoices of `all`, in order.
fn open_only(all: Vec<OpenInvoice>) -> (r: Vec<OpenInvoice>)
    ensures
        r@.map_values(|m: OpenInvoice| m@) == all@.map_values(|m: OpenInvoice| m@).filter(open_filter()),
{
    let ghost rows = all@.map_values(|m: OpenInvoice| m@);
    let ghost keep = open_filter();
    let mut out: Vec<OpenInvoice> = Vec::new();
    let mut i: usize = 0;
    while i < all.len()
        invariant
            i <= all@.len(),
            rows == all@.map_values(|m: OpenInvoice| m@),
            keep == open_filter(),
            out@.map_values(|m: OpenInvoice| m@) == rows.take(i as int).filter(keep),
        decreases all@.len() - i,
    {
        let ghost before = out@;
        proof {
            assert(rows.take(i + 1) =~= rows.take(i as int).push(rows[i as int]));
            rows.take(i as int).lemma_filter_push(rows[i as int], keep);
        }
        let selected = all[i].outstanding_amount > 0;
        assert(selected == keep(rows[i as int]));
        if selected {
            out.push(all[i].replicate());
            assert(out@.map_values(|m: OpenInvoice| m@) =~= before.map_values(|m: OpenInvoice| m@).push(
                rows[i as int],
            ));
        }
        i = i + 1;
    }
    assert(rows.take(rows.len() as int) =~= rows);
    out
}

impl OpenInvoicesProjection {
    /// Take up a stream's progress kept elsewhere (a cursor persisted across
    /// restarts): envelopes of the stream at or below `last` are then ignored.
    pub fn seed_cursor(&mut self, tenant_id: TenantId, aggregate_id: AggregateId, last: u64)
        ensures
            final(self)@.rows == old(self)@.rows,
            final(self)@.cursors == upserted(old(self)@.cursors, tenant_id, aggregate_id, last),
    {
        self.cursors.upsert(tenant_id, aggregate_id, last);
    }

    /// The last sequence number applied for a stream, 0 if none: the cursor
    /// to persist.
    pub fn stream_cursor(&self, tenant_id: TenantId, aggregate_id: AggregateId) -> (r: u64)
        ensures
            r == crate::projections::cursor_of(self@.cursors, tenant_id, aggregate_id),
    {
        crate::projections::read_cursor(&self.cursors, tenant_id, aggregate_id)
    }

    pub fn new() -> (r: Self)
        ensures
            r@.rows == Seq::<(TenantId, InvoiceId, OpenRow)>::empty(),
            r@.cursors == Seq::<(TenantId, AggregateId, u64)>::empty(),
    {
        OpenInvoicesProjection { store: InMemoryTenantStore::new(), cursors: InMemoryTenantStore::new() }
    }

    /// The entry of one invoice.
    pub fn get(&self, tenant_id: TenantId, invoice_id: &InvoiceId) -> (r: Option<OpenInvoice>)
        ensures
            opt_view(r) == lookup(self@.rows, tenant_id, *invoice_id),
    {
        self.store.get(tenant_id, invoice_id)
    }

    /// The open invoices of a tenant: fully paid and voided ones are left out.
    pub fn list(&self, tenant_id: TenantId) -> (r: Vec<OpenInvoice>)
        ensures
            r@.map_values(|m: OpenInvoice| m@) == tenant_rows(self@.rows, tenant_id).filter(open_filter()),
    {
        open_only(self.store.list(tenant_id))
    }

    /// Open invoices of a tenant past their due date at `now`.
    pub fn list_overdue_at(&self, tenant_id: TenantId, now: Timestamp) -> (r: Vec<OpenInvoice>)
        ensures
            r@.map_values(|m: OpenInvoice| m@) == tenant_rows(self@.rows, tenant_id).filter(overdue_filter(now)),
    {
        filter_rows(self.store.list(tenant_id), now, None)
    }

    /// Open invoices of a tenant past their due date now.
    pub fn list_overdue(&self, tenant_id: TenantId) -> (r: Vec<OpenInvoice>)
        ensures
            exists|now: Timestamp|
                r@.map_values(|m: OpenInvoice| m@) == #[trigger] tenant_rows(self@.rows, tenant_id).filter(overdue_filter(now)),
    {
        let now = Timestamp::now();
        self.list_overdue_at(tenant_id, now)
    }

    /// Entries of a tenant due from `now` up to `days` days later.
    pub fn list_due_within_days_at(&self, tenant_id: TenantId, days: i64, now: Timestamp) -> (r: Vec<OpenInvoice>)
        requires
            i64::MIN <= now.0 + days * 86_400_000 <= i64::MAX,
        ensures
            r@.map_values(|m: OpenInvoice| m@) == tenant_rows(self@.rows, tenant_id).filter(due_filter(now, now.0 + days * 86_400_000)),
    {
        let cutoff = (now.0 as i128 + days as i128 * MILLIS_PER_DAY) as i64;
        filter_rows(self.store.list(tenant_id), now, Some(cutoff))
    }

    /// Entries of a tenant due from now up to `days` days later; nothing is
    /// listed when the cutoff falls outside the range of timestamps.
    pub fn list_due_within_days(&self, tenant_id: TenantId, days: i64) -> (r: Vec<OpenInvoice>)
        ensures
            exists|now: Timestamp|
                #[trigger] due_listing(
                    r@,
                    tenant_rows(self@.rows, tenant_id),
                    now,
                    days,
                ),
    {
        let now = Timestamp::now();
        let cutoff: i128 = now.0 as i128 + days as i128 * MILLIS_PER_DAY;
        if cutoff < i64::MIN as i128 || cutoff > i64::MAX as i128 {
            let r: Vec<OpenInvoice> = Vec::new();
            assert(due_listing(
                r@,
                tenant_rows(self@.rows, tenant_id),
                now,
                days,
            ));
            return r;
        }
        let r = self.list_due_within_days_at(tenant_id, days, now);
        assert(due_listing(
            r@,
            tenant_rows(self@.rows, tenant_id),
            now,
            days,
        ));
        r
    }

    /// Totals over the open invoices of a tenant at `now`: how many, what
    /// is outstanding, and how many and how much is past due.
    pub fn get_summary_at(&self, tenant_id: TenantId, now: Timestamp) -> (r: OpenInvoicesSummary)
        requires
            sum_outstanding(tenant_rows(self@.rows, tenant_id)) <= u64::MAX,
        ensures
            r.count == tenant_rows(self@.rows, tenant_id).filter(open_filter()).len(),
            r.total_outstanding == sum_outstanding(tenant_rows(self@.rows, tenant_id).filter(open_filter())),
            r.overdue_count == tenant_rows(self@.rows, tenant_id).filter(overdue_filter(now)).len(),
            r.overdue_amount == sum_outstanding(
                tenant_rows(self@.rows, tenant_id).filter(overdue_filter(now)),
            ),
    {
        let ghost all_rows = tenant_rows(self@.rows, tenant_id);
        let invoices = self.list(tenant_id);
        proof {
            lemma_sum_outstanding_filter(all_rows, open_filter());
        }
        let total = sum_of(&invoices);
        let ghost rows = all_rows;
        let overdue = filter_rows(self.store.list(tenant_id), now, None);
        proof {
            lemma_sum_outstanding_filter(rows, overdue_filter(now));
        }
        let overdue_amount = sum_of(&overdue);
        OpenInvoicesSummary {
            count: invoices.len(),
            total_outstanding: total,
            overdue_count: overdue.len(),
            overdue_amount,
        }
    }

    /// Totals over the open invoices of a tenant now.
    pub fn get_summary(&self, tenant_id: TenantId) -> (r: OpenInvoicesSummary)
        requires
            sum_outstanding(tenant_rows(self@.rows, tenant_id)) <= u64::MAX,
        ensures
            r.count == tenant_rows(self@.rows, tenant_id).filter(open_filter()).len(),
            r.total_outstanding == sum_outstanding(tenant_rows(self@.rows, tenant_id).filter(open_filter())),
            exists|now: Timestamp|
                r.overdue_count == (#[trigger] tenant_rows(self@.rows, tenant_id).filter(
                    overdue_filter(now),
                )).len() && r.overdue_amount == sum_outstanding(
                    tenant_rows(self@.rows, tenant_id).filter(overdue_filter(now)),
                ),
    {
        let now = Timestamp::now();
        self.get_summary_at(tenant_id, now)
    }

    /// Apply one published envelope at time `now`.
    pub fn apply_envelope_at(
        &mut self,
        envelope: &EventEnvelope<Result<InvoiceEvent, String>>,
        now: Timestamp,
    ) -> (r: Result<(), OpenInvoicesProjectionError>)
        ensures
            (fault_view(r), final(self)@) == project(
                "invoicing.invoice"@,
                old(self)@,
                *envelope,
                open_rules(now),
            ),
    {
        let tenant_id = envelope.tenant_id();
        let aggregate_id = envelope.aggregate_id();
        let seq = envelope.sequence_number();
        match intake(&self.cursors, envelope, "invoicing.invoice") {
            Intake::Ignore => {
                return Ok(());
            },
            Intake::Stale { last, found } => {
                return Err(OpenInvoicesProjectionError::NonMonotonicSequence { last, found });
            },
            Intake::Proceed => {},
        }
        let ev = match envelope.payload() {
            Err(m) => {
                return Err(OpenInvoicesProjectionError::Deserialize(m.clone()));
            },
            Ok(e) => e,
        };
        let (event_tenant, invoice_id) = ev.stream();
        if event_tenant != tenant_id {
            return Err(
                OpenInvoicesProjectionError::TenantIsolation(
                    owned("event tenant_id does not match envelope tenant_id"),
                ),
            );
        }
        if invoice_id.0 != aggregate_id {
            return Err(
                OpenInvoicesProjectionError::TenantIsolation(
                    owned("event invoice_id does not match envelope aggregate_id"),
                ),
            );
        }
        match ev {
            InvoiceEvent::InvoiceIssued(i) => {
                let days = days_between(i.due_date, now);
                let open = OpenInvoice {
                    invoice_id: i.invoice_id,
                    sales_order_id: i.sales_order_id,
                    due_date: i.due_date,
                    total_amount: i.total_amount,
                    amount_paid: 0,
                    outstanding_amount: i.total_amount,
                    lines: copy_vec(&i.lines),
                    days_outstanding: days,
                    is_overdue: days > 0,
                };
                self.store.upsert(tenant_id, i.invoice_id, open);
            },
            InvoiceEvent::PaymentRegistered(p) => {
                match self.store.get(tenant_id, &p.invoice_id) {
                    Some(mut inv) => {
                        inv.amount_paid = p.new_total_paid;
                        inv.refresh_calculated_fields(now);
                        self.store.upsert(tenant_id, p.invoice_id, inv);
                    },
                    None => {},
                }
            },
            InvoiceEvent::InvoiceVoided(_) => {
                match self.store.get(tenant_id, &invoice_id) {
                    Some(mut inv) => {
                        inv.outstanding_amount = 0;
                        self.store.upsert(tenant_id, invoice_id, inv);
                    },
                    None => {},
                }
            },
        }
        self.cursors.upsert(tenant_id, aggregate_id, seq);
        Ok(())
    }

    /// Apply one published envelope at the current time.
    pub fn apply_envelope(&mut self, envelope: &EventEnvelope<Result<InvoiceEvent, String>>) -> (r:
        Result<(), OpenInvoicesProjectionError>)
        ensures
            exists|now: Timestamp|
                (fault_view(r), final(self)@) == project(
                    "invoicing.invoice"@,
                    old(self)@,
                    *envelope,
                    #[trigger] open_rules(now),
                ),
    {
        let now = Timestamp::now();
        self.apply_envelope_at(envelope, now)
    }

    /// Clear the tenants of `envelopes` and replay them in replay order,
    /// stopping at the first refusal; each step reads the clock.
    pub fn rebuild_from_scratch(&mut self, envelopes: Vec<EventEnvelope<Result<InvoiceEvent, String>>>) -> (r:
        Result<(), OpenInvoicesProjectionError>)
        ensures
            exists|clock: Seq<Timestamp>|
                clock.len() == envelopes@.len() && (fault_view(r), final(self)@)
                    == #[trigger] project_all_drawn(
                    "invoicing.invoice"@,
                    cleared(old(self)@, tenants_of(envelopes@)),
                    envelopes@,
                    replay_order(replay_keys(envelopes@), envelopes@.len() as nat),
                    open_rules_by_clock(),
                    clock,
                ),
    {
        let tenants = envelope_tenants(&envelopes);
        self.store.clear_tenants(&tenants);
        self.cursors.clear_tenants(&tenants);
        let ghost s0 = self@;
        let order = replay_order_of(&envelopes);
        let mut clock: Vec<Timestamp> = Vec::new();
        let mut d: usize = 0;
        while d < order.len()
            invariant
                d <= order@.len(),
                clock@.len() == d,
            decreases order@.len() - d,
        {
            clock.push(Timestamp::now());
            d = d + 1;
        }
        let ghost ord = order@.map_values(|x: usize| x as int);
        let ghost ps = clock@;
        let mut i: usize = 0;
        proof {
            crate::projections::lemma_replay_order_shape(
                replay_keys(envelopes@),
                envelopes@.len() as nat,
            );
            assert(ord.take(0) =~= Seq::<int>::empty());
        }
        while i < order.len()
            invariant
                i <= order@.len(),
                ord == order@.map_values(|x: usize| x as int),
                ord == replay_order(replay_keys(envelopes@), envelopes@.len() as nat),
                ord.len() == envelopes@.len(),
                ps == clock@,
                ps.len() == order@.len(),
                forall|j: int| 0 <= j < order@.len() ==> order@[j] < envelopes@.len(),
                s0 == cleared(old(self)@, tenants_of(envelopes@)),
                project_all_drawn(
                    "invoicing.invoice"@,
                    s0,
                    envelopes@,
                    ord.take(i as int),
                    open_rules_by_clock(),
                    ps,
                ) == (Ok::<(), ProjectionFault>(()), self@),
            decreases order@.len() - i,
        {
            let k = order[i];
            proof {
                assert(ord.take(i + 1).drop_last() =~= ord.take(i as int));
                assert(ord.take(i + 1).last() == k as int);
                assert(open_rules_by_clock()(ps[i as int]) == open_rules(ps[i as int]));
            }
            let res = self.apply_envelope_at(&envelopes[k], clock[i]);
            match res {
                Err(e) => {
                    proof {
                        lemma_project_all_drawn_stops(
                            "invoicing.invoice"@,
                            s0,
                            envelopes@,
                            ord,
                            open_rules_by_clock(),
                            ps,
                            i + 1,
                        );
                    }
                    return Err(e);
                },
                Ok(()) => {},
            }
            i = i + 1;
        }
        proof {
            assert(ord.take(ord.len() as int) =~= ord);
        }
        Ok(())
    }
}

/// The sum of the outstanding amounts of a list of open invoices.
fn sum_of(v: &Vec<OpenInvoice>) -> (r: u64)
    requires
        sum_outstanding(v@.map_values(|m: OpenInvoice| m@)) <= u64::MAX,
    ensures
        r == sum_outstanding(v@.map_values(|m: OpenInvoice| m@)),
{
    let ghost rows = v@.map_values(|m: OpenInvoice| m@);
    let mut total: u64 = 0;
    let mut i: usize = 0;
    while i < v.len()
        invariant
            i <= v@.len(),
            rows == v@.map_values(|m: OpenInvoice| m@),
            sum_outstanding(rows) <= u64::MAX,
            total == sum_outstanding(rows.take(i as int)),
        decreases v@.len() - i,
    {
        proof {
            assert(rows.take(i + 1).drop_last() =~= rows.take(i as int));
            lemma_sum_outstanding_prefix(rows, i + 1);
        }
        total = total + v[i].outstanding_amount;
        i = i + 1;
    }
    assert(rows.take(rows.len() as int) =~= rows);
    total
}

} // verus!
