//! Invoices: issued from sales orders, paid in parts, voided.
use vstd::prelude::*;

use crate::common::{
    Replicate,
    copy_vec, outcome, reject, Aggregate, AggregateId, AggregateRoot, DomainError,
    DomainErrorKind, Rejection, TenantId, Timestamp,
};
use crate::events::Event;
use crate::json::{uuid_chars, uuid_text};
use crate::products::ProductId;
use crate::sales::SalesOrderId;
use crate::text::copy_opt_string;
use crate::read_model::RecordKey;

verus! {

/// Invoice identifier.
#[derive(Debug, Clone, Copy, PartialEq, Eq, Hash, Structural)]
pub struct InvoiceId(pub AggregateId);

impl View for InvoiceId {
    type V = InvoiceId;

    open spec fn view(&self) -> InvoiceId {
        *self
    }
}

impl RecordKey for InvoiceId {
    fn same_key(&self, other: &Self) -> (r: bool) {
        self.0.0 == other.0.0
    }

    fn copy_key(&self) -> (r: Self) {
        *self
    }
}

impl InvoiceId {
    pub fn new(id: AggregateId) -> (r: InvoiceId)
        ensures
            r.0 == id,
    {
        InvoiceId(id)
    }

    /// The identifier in its hyphenated text form, as `Display` writes it.
    pub fn display_text(&self) -> (r: String)
        ensures
            r@ == uuid_chars(self.0.0),
    {
        uuid_text(self.0.0)
    }
}

/// Invoice lifecycle.
#[derive(Debug, Clone, Copy, PartialEq, Eq, Structural)]
pub enum InvoiceStatus {
    Open,
    Paid,
    Void,
}

/// An invoice line derived from a sales order line; price in the smallest
/// currency unit.
#[derive(Debug, Clone, Copy, PartialEq, Eq, Structural)]
pub struct InvoiceLine {
    pub line_no: u32,
    pub sales_order_id: SalesOrderId,
    pub product_id: ProductId,
    pub quantity: i64,
    pub unit_price: u64,
}

/// Command: issue an invoice.
#[derive(Debug, Clone, PartialEq, Eq)]
pub struct IssueInvoice {
    pub tenant_id: TenantId,
    pub invoice_id: InvoiceId,
    pub sales_order_id: SalesOrderId,
    pub lines: Vec<InvoiceLine>,
    pub due_date: Timestamp,
    pub occurred_at: Timestamp,
}

/// Command: register a payment (smallest currency unit).
#[derive(Debug, Clone, PartialEq, Eq)]
pub struct RegisterPayment {
    pub tenant_id: TenantId,
    pub invoice_id: InvoiceId,
    pub amount: u64,
    pub occurred_at: Timestamp,
}

/// Command: void an invoice.
#[derive(Debug, Clone, PartialEq, Eq)]
pub struct VoidInvoice {
    pub tenant_id: TenantId,
    pub invoice_id: InvoiceId,
    pub reason: Option<String>,
    pub occurred_at: Timestamp,
}

#[derive(Debug, Clone, PartialEq, Eq)]
pub enum InvoiceCommand {
    IssueInvoice(IssueInvoice),
    RegisterPayment(RegisterPayment),
    VoidInvoice(VoidInvoice),
}

/// Event: an invoice was issued.
#[derive(Debug, Clone, PartialEq, Eq)]
pub struct InvoiceIssued {
    pub tenant_id: TenantId,
    pub invoice_id: InvoiceId,
    pub sales_order_id: SalesOrderId,
    pub lines: Vec<InvoiceLine>,
    pub due_date: Timestamp,
    pub total_amount: u64,
    pub occurred_at: Timestamp,
}

/// Event: a payment was registered; `new_total_paid` is the running total.
#[derive(Debug, Clone, PartialEq, Eq)]
pub struct PaymentRegistered {
    pub tenant_id: TenantId,
    pub invoice_id: InvoiceId,
    pub amount: u64,
    pub new_total_paid: u64,
    pub occurred_at: Timestamp,
}

/// Event: the invoice was voided.
#[derive(Debug, Clone, PartialEq, Eq)]
pub struct InvoiceVoided {
    pub tenant_id: TenantId,
    pub invoice_id: InvoiceId,
    pub reason: Option<String>,
    pub occurred_at: Timestamp,
}

#[derive(Debug, Clone, PartialEq, Eq)]
pub enum InvoiceEvent {
    InvoiceIssued(InvoiceIssued),
    PaymentRegistered(PaymentRegistered),
    InvoiceVoided(InvoiceVoided),
}

/// The view of an issued-invoice event: lines as a sequence.
pub struct InvoiceIssuedView {
    pub tenant_id: TenantId,
    pub invoice_id: InvoiceId,
    pub sales_order_id: SalesOrderId,
    pub lines: Seq<InvoiceLine>,
    pub due_date: Timestamp,
    pub total_amount: u64,
    pub occurred_at: Timestamp,
}

pub enum InvoiceEventView {
    InvoiceIssued(InvoiceIssuedView),
    PaymentRegistered(PaymentRegistered),
    InvoiceVoided(InvoiceVoided),
}

impl View for InvoiceIssued {
    type V = InvoiceIssuedView;

    open spec fn view(&self) -> InvoiceIssuedView {
        InvoiceIssuedView {
            tenant_id: self.tenant_id,
            invoice_id: self.invoice_id,
            sales_order_id: self.sales_order_id,
            lines: self.lines@,
            due_date: self.due_date,
            total_amount: self.total_amount,
            occurred_at: self.occurred_at,
        }
    }
}

impl View for InvoiceEvent {
    type V = InvoiceEventView;

    open spec fn view(&self) -> InvoiceEventView {
        match self {
            InvoiceEvent::InvoiceIssued(e) => InvoiceEventView::InvoiceIssued(e@),
            InvoiceEvent::PaymentRegistered(e) => InvoiceEventView::PaymentRegistered(*e),
            InvoiceEvent::InvoiceVoided(e) => InvoiceEventView::InvoiceVoided(*e),
        }
    }
}

impl InvoiceEvent {
    /// Tenant and invoice the event belongs to.
    pub open spec fn spec_stream(self) -> (TenantId, InvoiceId) {
        match self {
            InvoiceEvent::InvoiceIssued(e) => (e.tenant_id, e.invoice_id),
            InvoiceEvent::PaymentRegistered(e) => (e.tenant_id, e.invoice_id),
            InvoiceEvent::InvoiceVoided(e) => (e.tenant_id, e.invoice_id),
        }
    }

    pub fn stream(&self) -> (r: (TenantId, InvoiceId))
        ensures
            r == self.spec_stream(),
    {
        match self {
            InvoiceEvent::InvoiceIssued(e) => (e.tenant_id, e.invoice_id),
            InvoiceEvent::PaymentRegistered(e) => (e.tenant_id, e.invoice_id),
            InvoiceEvent::InvoiceVoided(e) => (e.tenant_id, e.invoice_id),
        }
    }
}

impl Replicate for InvoiceEvent {
    fn replicate(&self) -> (r: InvoiceEvent) {
        match self {
            InvoiceEvent::InvoiceIssued(e) => InvoiceEvent::InvoiceIssued(
                InvoiceIssued {
                    tenant_id: e.tenant_id,
                    invoice_id: e.invoice_id,
                    sales_order_id: e.sales_order_id,
                    lines: copy_vec(&e.lines),
                    due_date: e.due_date,
                    total_amount: e.total_amount,
                    occurred_at: e.occurred_at,
                },
            ),
            InvoiceEvent::PaymentRegistered(e) => InvoiceEvent::PaymentRegistered(
                PaymentRegistered {
                    tenant_id: e.tenant_id,
                    invoice_id: e.invoice_id,
                    amount: e.amount,
                    new_total_paid: e.new_total_paid,
                    occurred_at: e.occurred_at,
                },
            ),
            InvoiceEvent::InvoiceVoided(e) => InvoiceEvent::InvoiceVoided(
                InvoiceVoided {
                    tenant_id: e.tenant_id,
                    invoice_id: e.invoice_id,
                    reason: copy_opt_string(&e.reason),
                    occurred_at: e.occurred_at,
                },
            ),
        }
    }
}

impl Event for InvoiceEvent {
    open spec fn spec_event_type(&self) -> Seq<char> {
        match self {
            InvoiceEvent::InvoiceIssued(_) => "invoicing.invoice.issued"@,
            InvoiceEvent::PaymentRegistered(_) => "invoicing.invoice.payment_registered"@,
            InvoiceEvent::InvoiceVoided(_) => "invoicing.invoice.voided"@,
        }
    }

    open spec fn spec_occurred_at(&self) -> Timestamp {
        match self {
            InvoiceEvent::InvoiceIssued(e) => e.occurred_at,
            InvoiceEvent::PaymentRegistered(e) => e.occurred_at,
            InvoiceEvent::InvoiceVoided(e) => e.occurred_at,
        }
    }

    fn event_type(&self) -> (r: &'static str) {
        match self {
            InvoiceEvent::InvoiceIssued(_) => "invoicing.invoice.issued",
            InvoiceEvent::PaymentRegistered(_) => "invoicing.invoice.payment_registered",
            InvoiceEvent::InvoiceVoided(_) => "invoicing.invoice.voided",
        }
    }

    fn version(&self) -> (r: u32)
        ensures
            r == 1,
    {
        1
    }

    fn occurred_at(&self) -> (r: Timestamp) {
        match self {
            InvoiceEvent::InvoiceIssued(e) => e.occurred_at,
            InvoiceEvent::PaymentRegistered(e) => e.occurred_at,
            InvoiceEvent::InvoiceVoided(e) => e.occurred_at,
        }
    }
}

/// Aggregate root: an invoice.
#[derive(Debug, Clone, PartialEq, Eq)]
pub struct Invoice {
    id: InvoiceId,
    tenant_id: Option<TenantId>,
    status: InvoiceStatus,
    lines: Vec<InvoiceLine>,
    due_date: Option<Timestamp>,
    total_amount: u64,
    total_paid: u64,
    version: u64,
    created: bool,
}

/// The state of an invoice.
pub struct InvoiceView {
    pub id: InvoiceId,
    pub tenant_id: Option<TenantId>,
    pub status: InvoiceStatus,
    pub lines: Seq<InvoiceLine>,
    pub due_date: Option<Timestamp>,
    pub total_amount: u64,
    pub total_paid: u64,
    pub version: u64,
    pub created: bool,
}

impl View for Invoice {
    type V = InvoiceView;

    closed spec fn view(&self) -> InvoiceView {
        InvoiceView {
            id: self.id,
            tenant_id: self.tenant_id,
            status: self.status,
            lines: self.lines@,
            due_date: self.due_date,
            total_amount: self.total_amount,
            total_paid: self.total_paid,
            version: self.version,
            created: self.created,
        }
    }
}

pub open spec fn invoice_is_initial(v: InvoiceView, id: InvoiceId) -> bool {
    &&& v.id == id
    &&& v.tenant_id is None
    &&& v.status == InvoiceStatus::Open
    &&& v.lines.len() == 0
    &&& v.due_date is None
    &&& v.total_amount == 0
    &&& v.total_paid == 0
    &&& v.version == 0
    &&& !v.created
}

/// `total_amount - total_paid`, or zero when more was paid.
pub open spec fn outstanding(v: InvoiceView) -> u64 {
    if v.total_amount >= v.total_paid {
        (v.total_amount - v.total_paid) as u64
    } else {
        0
    }
}

/// A payment is possible on an invoice that is not void and still owes.
pub open spec fn accepts_payment(v: InvoiceView) -> bool {
    v.status != InvoiceStatus::Void && outstanding(v) > 0
}

/// The amount a line adds to the total: the exact product of quantity and
/// price, reduced to 64 bits.
pub open spec fn line_amount(l: InvoiceLine) -> u64 {
    (l.quantity * l.unit_price) as u64
}

/// Validation and totalling of the lines from index `i` on, starting from
/// `total`: the first offending line decides the error.
pub open spec fn issue_scan(lines: Seq<InvoiceLine>, i: int, total: u64) -> Result<u64, Rejection>
    decreases lines.len() - i,
{
    if i < 0 || i >= lines.len() {
        Ok(total)
    } else if lines[i].quantity <= 0 {
        Err(reject(DomainErrorKind::Validation, "invoice line quantity must be positive"@))
    } else if lines[i].unit_price == 0 {
        Err(reject(DomainErrorKind::Validation, "invoice line unit_price must be positive"@))
    } else if total + line_amount(lines[i]) > u64::MAX {
        Err(reject(DomainErrorKind::InvariantViolation, "invoice total overflow"@))
    } else {
        issue_scan(lines, i + 1, (total + line_amount(lines[i])) as u64)
    }
}

pub open spec fn invoice_guard(s: InvoiceView, tenant_id: TenantId, invoice_id: InvoiceId) -> Option<
    Rejection,
> {
    if s.created && s.tenant_id != Some(tenant_id) {
        Some(reject(DomainErrorKind::InvariantViolation, "tenant mismatch"@))
    } else if s.id != invoice_id {
        Some(reject(DomainErrorKind::InvariantViolation, "invoice_id mismatch"@))
    } else {
        None
    }
}

/// What an invoice decides for a command.
pub open spec fn invoice_decide(s: InvoiceView, c: InvoiceCommand) -> Result<
    Seq<InvoiceEventView>,
    Rejection,
> {
    match c {
        InvoiceCommand::IssueInvoice(cmd) => {
            if s.created {
                Err(reject(DomainErrorKind::Conflict, "invoice already exists"@))
            } else if cmd.lines@.len() == 0 {
                Err(reject(DomainErrorKind::Validation, "cannot issue invoice without lines"@))
            } else {
                match issue_scan(cmd.lines@, 0, 0) {
                    Err(e) => Err(e),
                    Ok(total) => Ok(
                        seq![
                            InvoiceEventView::InvoiceIssued(
                                InvoiceIssuedView {
                                    tenant_id: cmd.tenant_id,
                                    invoice_id: cmd.invoice_id,
                                    sales_order_id: cmd.sales_order_id,
                                    lines: cmd.lines@,
                                    due_date: cmd.due_date,
                                    total_amount: total,
                                    occurred_at: cmd.occurred_at,
                                },
                            ),
                        ],
                    ),
                }
            }
        },
        InvoiceCommand::RegisterPayment(cmd) => {
            if !s.created {
                Err(reject(DomainErrorKind::NotFound, Seq::empty()))
            } else if invoice_guard(s, cmd.tenant_id, cmd.invoice_id) is Some {
                Err(invoice_guard(s, cmd.tenant_id, cmd.invoice_id)->0)
            } else if !accepts_payment(s) {
                Err(
                    reject(
                        DomainErrorKind::InvariantViolation,
                        "cannot register payment on void or fully paid invoice"@,
                    ),
                )
            } else if cmd.amount == 0 {
                Err(reject(DomainErrorKind::Validation, "payment amount must be positive"@))
            } else if s.total_paid + cmd.amount > u64::MAX {
                Err(reject(DomainErrorKind::InvariantViolation, "payment total overflow"@))
            } else if s.total_paid + cmd.amount > s.total_amount {
                Err(reject(DomainErrorKind::InvariantViolation, "cannot overpay invoice"@))
            } else {
                Ok(
                    seq![
                        InvoiceEventView::PaymentRegistered(
                            PaymentRegistered {
                                tenant_id: cmd.tenant_id,
                                invoice_id: cmd.invoice_id,
                                amount: cmd.amount,
                                new_total_paid: (s.total_paid + cmd.amount) as u64,
                                occurred_at: cmd.occurred_at,
                            },
                        ),
                    ],
                )
            }
        },
        InvoiceCommand::VoidInvoice(cmd) => {
            if !s.created {
                Err(reject(DomainErrorKind::NotFound, Seq::empty()))
            } else if invoice_guard(s, cmd.tenant_id, cmd.invoice_id) is Some {
                Err(invoice_guard(s, cmd.tenant_id, cmd.invoice_id)->0)
            } else if s.status == InvoiceStatus::Void {
                Err(reject(DomainErrorKind::Conflict, "invoice is already void"@))
            } else {
                Ok(
                    seq![
                        InvoiceEventView::InvoiceVoided(
                            InvoiceVoided {
                                tenant_id: cmd.tenant_id,
                                invoice_id: cmd.invoice_id,
                                reason: cmd.reason,
                                occurred_at: cmd.occurred_at,
                            },
                        ),
                    ],
                )
            }
        },
    }
}

/// The state after one event.
pub open spec fn invoice_evolve(s: InvoiceView, e: InvoiceEventView) -> InvoiceView {
    let t = match e {
        InvoiceEventView::InvoiceIssued(e) => InvoiceView {
            id: e.invoice_id,
            tenant_id: Some(e.tenant_id),
            lines: e.lines,
            due_date: Some(e.due_date),
            total_amount: e.total_amount,
            total_paid: 0,
            status: InvoiceStatus::Open,
            created: true,
            ..s
        },
        InvoiceEventView::PaymentRegistered(e) => InvoiceView {
            total_paid: e.new_total_paid,
            status: if e.new_total_paid >= s.total_amount {
                InvoiceStatus::Paid
            } else {
                s.status
            },
            ..s
        },
        InvoiceEventView::InvoiceVoided(_) => InvoiceView { status: InvoiceStatus::Void, ..s },
    };
    InvoiceView { version: (s.version + 1) as u64, ..t }
}

impl Invoice {
    /// An empty, not-yet-created invoice for rehydration.
    pub fn empty(id: InvoiceId) -> (r: Invoice)
        ensures
            invoice_is_initial(r@, id),
            r.spec_version() == 0,
    {
        Invoice {
            id,
            tenant_id: None,
            status: InvoiceStatus::Open,
            lines: Vec::new(),
            due_date: None,
            total_amount: 0,
            total_paid: 0,
            version: 0,
            created: false,
        }
    }

    pub fn id_typed(&self) -> (r: InvoiceId)
        ensures
            r == self@.id,
    {
        self.id
    }

    pub fn tenant_id(&self) -> (r: Option<TenantId>)
        ensures
            r == self@.tenant_id,
    {
        self.tenant_id
    }

    pub fn status(&self) -> (r: InvoiceStatus)
        ensures
            r == self@.status,
    {
        self.status
    }

    pub fn due_date(&self) -> (r: Option<Timestamp>)
        ensures
            r == self@.due_date,
    {
        self.due_date
    }

    pub fn total_amount(&self) -> (r: u64)
        ensures
            r == self@.total_amount,
    {
        self.total_amount
    }

    pub fn total_paid(&self) -> (r: u64)
        ensures
            r == self@.total_paid,
    {
        self.total_paid
    }

    pub fn outstanding_amount(&self) -> (r: u64)
        ensures
            r == outstanding(self@),
    {
        self.total_amount.saturating_sub(self.total_paid)
    }

    pub fn lines(&self) -> (r: &[InvoiceLine])
        ensures
            r@ == self@.lines,
    {
        self.lines.as_slice()
    }

    /// A void invoice, or one with nothing outstanding, takes no payment.
    pub fn can_accept_payment(&self) -> (r: bool)
        ensures
            r == accepts_payment(self@),
    {
        self.status != InvoiceStatus::Void && self.outstanding_amount() > 0
    }

    fn ensure_tenant(&self, tenant_id: TenantId) -> (r: Result<(), DomainError>)
        ensures
            r is Ok <==> !(self.created && self.tenant_id != Some(tenant_id)),
            r matches Err(e) ==> e@ == reject(DomainErrorKind::InvariantViolation, "tenant mismatch"@),
    {
        if !self.created {
            return Ok(());
        }
        if self.tenant_id != Some(tenant_id) {
            return Err(DomainError::invariant_violation("tenant mismatch"));
        }
        Ok(())
    }

    fn ensure_invoice_id(&self, invoice_id: InvoiceId) -> (r: Result<(), DomainError>)
        ensures
            r is Ok <==> self.id == invoice_id,
            r matches Err(e) ==> e@ == reject(
                DomainErrorKind::InvariantViolation,
                "invoice_id mismatch"@,
            ),
    {
        if self.id != invoice_id {
            return Err(DomainError::invariant_violation("invoice_id mismatch"));
        }
        Ok(())
    }

    fn handle_issue(&self, cmd: &IssueInvoice) -> (r: Result<Vec<InvoiceEvent>, DomainError>)
        ensures
            outcome(r) == invoice_decide(self@, InvoiceCommand::IssueInvoice(*cmd)),
    {
        if self.created {
            return Err(DomainError::conflict("invoice already exists"));
        }
        if cmd.lines.len() == 0 {
            return Err(DomainError::validation("cannot issue invoice without lines"));
        }
        let mut total: u64 = 0;
        let mut i: usize = 0;
        while i < cmd.lines.len()
            invariant
                !self.created,
                cmd.lines@.len() > 0,
                i <= cmd.lines@.len(),
                issue_scan(cmd.lines@, 0, 0) == issue_scan(cmd.lines@, i as int, total),
            decreases cmd.lines.len() - i,
        {
            let line = cmd.lines[i];
            assert(line == cmd.lines@[i as int]);
            if line.quantity <= 0 {
                assert(issue_scan(cmd.lines@, i as int, total) == Err::<u64, Rejection>(
                    reject(DomainErrorKind::Validation, "invoice line quantity must be positive"@),
                ));
                return Err(DomainError::validation("invoice line quantity must be positive"));
            }
            if line.unit_price == 0 {
                return Err(DomainError::validation("invoice line unit_price must be positive"));
            }
            let q = line.quantity as i128;
            let p = line.unit_price as i128;
            assert(0 < q * p <= i64::MAX * u64::MAX) by (nonlinear_arith)
                requires
                    0 < q <= i64::MAX,
                    0 < p <= u64::MAX,
            ;
            let line_total = match q.checked_mul(p) {
                Some(t) => t,
                None => {
                    return Err(DomainError::invariant_violation("invoice line amount overflow"));
                },
            };
            if line_total <= 0 {
                return Err(DomainError::invariant_violation("invoice line total must be positive"));
            }
            let amount = #[verifier::truncate] (line_total as u64);
            assert(amount == line_amount(line));
            total = match total.checked_add(amount) {
                Some(t) => t,
                None => {
                    assert(issue_scan(cmd.lines@, i as int, total) == Err::<u64, Rejection>(
                        reject(DomainErrorKind::InvariantViolation, "invoice total overflow"@),
                    ));
                    return Err(DomainError::invariant_violation("invoice total overflow"));
                },
            };
            i = i + 1;
        }
        let lines = copy_vec(&cmd.lines);
        let ev = InvoiceEvent::InvoiceIssued(
            InvoiceIssued {
                tenant_id: cmd.tenant_id,
                invoice_id: cmd.invoice_id,
                sales_order_id: cmd.sales_order_id,
                lines,
                due_date: cmd.due_date,
                total_amount: total,
                occurred_at: cmd.occurred_at,
            },
        );
        let v = vec![ev];
        assert(crate::common::views(v@) =~= seq![ev@]);
        Ok(v)
    }

    fn handle_register_payment(&self, cmd: &RegisterPayment) -> (r: Result<
        Vec<InvoiceEvent>,
        DomainError,
    >)
        ensures
            outcome(r) == invoice_decide(self@, InvoiceCommand::RegisterPayment(*cmd)),
    {
        if !self.created {
            return Err(DomainError::not_found());
        }
        match self.ensure_tenant(cmd.tenant_id) {
            Ok(()) => {},
            Err(e) => return Err(e),
        }
        match self.ensure_invoice_id(cmd.invoice_id) {
            Ok(()) => {},
            Err(e) => return Err(e),
        }
        if !self.can_accept_payment() {
            return Err(
                DomainError::invariant_violation(
                    "cannot register payment on void or fully paid invoice",
                ),
            );
        }
        if cmd.amount == 0 {
            return Err(DomainError::validation("payment amount must be positive"));
        }
        let new_total_paid = match self.total_paid.checked_add(cmd.amount) {
            Some(t) => t,
            None => {
                return Err(DomainError::invariant_violation("payment total overflow"));
            },
        };
        if new_total_paid > self.total_amount {
            return Err(DomainError::invariant_violation("cannot overpay invoice"));
        }
        let ev = InvoiceEvent::PaymentRegistered(
            PaymentRegistered {
                tenant_id: cmd.tenant_id,
                invoice_id: cmd.invoice_id,
                amount: cmd.amount,
                new_total_paid,
                occurred_at: cmd.occurred_at,
            },
        );
        let v = vec![ev];
        assert(crate::common::views(v@) =~= seq![ev@]);
        Ok(v)
    }

    fn handle_void(&self, cmd: &VoidInvoice) -> (r: Result<Vec<InvoiceEvent>, DomainError>)
        ensures
            outcome(r) == invoice_decide(self@, InvoiceCommand::VoidInvoice(*cmd)),
    {
        if !self.created {
            return Err(DomainError::not_found());
        }
        match self.ensure_tenant(cmd.tenant_id) {
            Ok(()) => {},
            Err(e) => return Err(e),
        }
        match self.ensure_invoice_id(cmd.invoice_id) {
            Ok(()) => {},
            Err(e) => return Err(e),
        }
        if self.status == InvoiceStatus::Void {
            return Err(DomainError::conflict("invoice is already void"));
        }
        let ev = InvoiceEvent::InvoiceVoided(
            InvoiceVoided {
                tenant_id: cmd.tenant_id,
                invoice_id: cmd.invoice_id,
                reason: copy_opt_string(&cmd.reason),
                occurred_at: cmd.occurred_at,
            },
        );
        let v = vec![ev];
        assert(crate::common::views(v@) =~= seq![ev@]);
        Ok(v)
    }
}

impl AggregateRoot for Invoice {
    type Id = InvoiceId;

    closed spec fn spec_version(&self) -> u64 {
        self.version
    }

    fn id(&self) -> &InvoiceId {
        &self.id
    }

    fn version(&self) -> (r: u64) {
        self.version
    }
}

impl Aggregate for Invoice {
    type Command = InvoiceCommand;
    type Event = InvoiceEvent;

    open spec fn spec_decide(state: InvoiceView, command: InvoiceCommand) -> Result<
        Seq<InvoiceEventView>,
        Rejection,
    > {
        invoice_decide(state, command)
    }

    open spec fn spec_evolve(state: InvoiceView, event: InvoiceEventView) -> InvoiceView {
        invoice_evolve(state, event)
    }

    open spec fn spec_handle_defined(state: InvoiceView, command: InvoiceCommand) -> bool {
        true
    }

    open spec fn spec_apply_defined(state: InvoiceView, event: InvoiceEventView) -> bool {
        true
    }

    fn handle(&self, command: &InvoiceCommand) -> (r: Result<Vec<InvoiceEvent>, DomainError>) {
        match command {
            InvoiceCommand::IssueInvoice(cmd) => self.handle_issue(cmd),
            InvoiceCommand::RegisterPayment(cmd) => self.handle_register_payment(cmd),
            InvoiceCommand::VoidInvoice(cmd) => self.handle_void(cmd),
        }
    }

    fn apply(&mut self, event: &InvoiceEvent) {
        match event {
            InvoiceEvent::InvoiceIssued(e) => {
                self.id = e.invoice_id;
                self.tenant_id = Some(e.tenant_id);
                self.lines = copy_vec(&e.lines);
                self.due_date = Some(e.due_date);
                self.total_amount = e.total_amount;
                self.total_paid = 0;
                self.status = InvoiceStatus::Open;
                self.created = true;
            },
            InvoiceEvent::PaymentRegistered(e) => {
                self.total_paid = e.new_total_paid;
                if self.total_paid >= self.total_amount {
                    self.status = InvoiceStatus::Paid;
                }
            },
            InvoiceEvent::InvoiceVoided(_) => {
                self.status = InvoiceStatus::Void;
            },
        }
        self.version = self.version + 1;
    }
}

/// Consistency of an invoice's amounts: never more paid than invoiced, and
/// paid in full exactly when its status says so (unless voided).
pub open spec fn invoice_consistent(s: InvoiceView) -> bool {
    &&& s.total_paid <= s.total_amount
    &&& s.status == InvoiceStatus::Paid ==> s.total_paid == s.total_amount
    &&& s.status == InvoiceStatus::Open && s.created && s.total_paid > 0 ==> s.total_paid
        < s.total_amount
}

/// Every accepted command keeps an invoice consistent: it can never be
/// overpaid, and it becomes Paid exactly when payments reach the total.
pub proof fn lemma_invoice_stays_consistent(s: InvoiceView, c: InvoiceCommand)
    requires
        invoice_consistent(s),
        invoice_decide(s, c) is Ok,
    ensures
        ({
            let evs = invoice_decide(s, c)->Ok_0;
            &&& evs.len() == 1
            &&& invoice_consistent(invoice_evolve(s, evs[0]))
        }),
{
}

/// A void invoice takes no payment.
pub proof fn lemma_void_invoice_takes_no_payment(s: InvoiceView, cmd: RegisterPayment)
    requires
        s.status == InvoiceStatus::Void,
    ensures
        invoice_decide(s, InvoiceCommand::RegisterPayment(cmd)) is Err,
{
}

/// The amounts of the lines from index `i` on, each its quantity times its
/// unit price as 64 bits hold it, added up.
pub open spec fn line_amounts_from(lines: Seq<InvoiceLine>, i: int) -> int
    decreases lines.len() - i,
{
    if i < 0 || i >= lines.len() {
        0
    } else {
        ((lines[i].quantity * lines[i].unit_price) as u64) as int + line_amounts_from(lines, i + 1)
    }
}

/// The exact sum of quantity times unit price over the lines from index `i`.
pub open spec fn line_products_from(lines: Seq<InvoiceLine>, i: int) -> int
    decreases lines.len() - i,
{
    if i < 0 || i >= lines.len() {
        0
    } else {
        lines[i].quantity * lines[i].unit_price + line_products_from(lines, i + 1)
    }
}

/// Totalling the lines from `i` on adds each line's amount to `total`.
proof fn lemma_issue_scan_sums(lines: Seq<InvoiceLine>, i: int, total: u64)
    requires
        0 <= i <= lines.len(),
        issue_scan(lines, i, total) is Ok,
    ensures
        issue_scan(lines, i, total)->Ok_0 == total + line_amounts_from(lines, i),
        (forall|k: int| i <= k < lines.len() ==> #[trigger] lines[k].quantity * lines[k].unit_price <= u64::MAX)
            ==> issue_scan(lines, i, total)->Ok_0 == total + line_products_from(lines, i),
    decreases lines.len() - i,
{
    if i < lines.len() {
        lemma_issue_scan_sums(lines, i + 1, (total + line_amount(lines[i])) as u64);
        if forall|k: int| i <= k < lines.len() ==> #[trigger] lines[k].quantity * lines[k].unit_price <= u64::MAX {
            assert(lines[i].quantity * lines[i].unit_price <= u64::MAX);
            assert(lines[i].quantity > 0 && lines[i].unit_price > 0);
            assert(lines[i].quantity * lines[i].unit_price > 0) by (nonlinear_arith)
                requires
                    lines[i].quantity > 0,
                    lines[i].unit_price > 0,
            ;
            assert(line_amount(lines[i]) == lines[i].quantity * lines[i].unit_price);
        }
    }
}

/// An issued invoice totals its lines: whenever issuing is accepted, the one
/// event decided is the issue of exactly the given lines, and its total is
/// the sum over all lines of quantity times unit price (each line's amount as
/// 64 bits hold it; the exact products whenever each fits in 64 bits).
pub proof fn law_issue_totals_lines(s: InvoiceView, cmd: IssueInvoice)
    requires
        invoice_decide(s, InvoiceCommand::IssueInvoice(cmd)) is Ok,
    ensures
        invoice_decide(s, InvoiceCommand::IssueInvoice(cmd))->Ok_0.len() == 1,
        invoice_decide(s, InvoiceCommand::IssueInvoice(cmd))->Ok_0[0] matches InvoiceEventView::InvoiceIssued(e)
            && e.lines == cmd.lines@ && e.total_amount == line_amounts_from(cmd.lines@, 0)
            && ((forall|k: int|
            0 <= k < cmd.lines@.len() ==> #[trigger] cmd.lines@[k].quantity * cmd.lines@[k].unit_price
                <= u64::MAX) ==> e.total_amount == line_products_from(cmd.lines@, 0)),
{
    lemma_issue_scan_sums(cmd.lines@, 0, 0);
}

/// What an accepted command does to an invoice once its event is applied:
/// issuing opens it with the lines' total owed and nothing paid; a payment
/// adds its amount to what was paid, never past the total, and the invoice
/// is paid exactly when nothing is left; voiding makes it void and leaves its
/// amounts.
pub proof fn law_invoice_lifecycle(s: InvoiceView, c: InvoiceCommand)
    requires
        invoice_decide(s, c) is Ok,
    ensures
        ({
            let after = invoice_evolve(s, invoice_decide(s, c)->Ok_0[0]);
            &&& invoice_decide(s, c)->Ok_0.len() == 1
            &&& c is IssueInvoice ==> after.created && after.status == InvoiceStatus::Open && after.total_paid == 0
                && after.total_amount == line_amounts_from(c->IssueInvoice_0.lines@, 0) && after.lines
                == c->IssueInvoice_0.lines@
            &&& c is RegisterPayment ==> after.total_paid == s.total_paid + c->RegisterPayment_0.amount
                && after.total_paid <= after.total_amount && after.total_amount == s.total_amount
                && c->RegisterPayment_0.amount > 0 && (after.total_paid == after.total_amount ==> after.status
                == InvoiceStatus::Paid) && (after.total_paid < after.total_amount ==> after.status == s.status)
            &&& c is VoidInvoice ==> after.status == InvoiceStatus::Void && after.total_amount == s.total_amount
                && after.total_paid == s.total_paid
        }),
{
    if c is IssueInvoice {
        law_issue_totals_lines(s, c->IssueInvoice_0);
    }
}

} // verus!
