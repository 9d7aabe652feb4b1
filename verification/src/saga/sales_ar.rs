//! The sales → invoice → ledger (accounts receivable) saga: a confirmed
//! sales order asks for an invoice; an issued invoice asks for a ledger
//! entry; a posted entry completes the saga.
use vstd::prelude::*;
use vstd::string::StringExecFns;

use crate::common::{fresh_v7, now_rfc3339, AggregateId, TenantId};
use crate::events::EventEnvelope;
use crate::json::{
    lemma_items_view_map, lemma_members_view_map, parse_uuid, parsed_uuid, spec_as_str, spec_first_key,
    spec_get, uuid_chars, uuid_text, Json, JsonView,
};
use crate::sales::SalesOrderId;
use crate::saga::{action_views, Saga, SagaAction, SagaActionView};
use crate::text::same_text;

verus! {

broadcast use vstd::string::group_string_axioms;

/// Where an instance of the saga stands.
#[derive(Debug, Clone)]
pub enum SalesArSagaState {
    WaitingForOrderConfirmed,
    WaitingForInvoiceIssued,
    WaitingForLedgerPosted { invoice_id: String },
    Completed,
    Failed,
}

pub enum SalesArStateView {
    WaitingForOrderConfirmed,
    WaitingForInvoiceIssued,
    WaitingForLedgerPosted(Seq<char>),
    Completed,
    Failed,
}

impl View for SalesArSagaState {
    type V = SalesArStateView;

    open spec fn view(&self) -> SalesArStateView {
        match self {
            SalesArSagaState::WaitingForOrderConfirmed => SalesArStateView::WaitingForOrderConfirmed,
            SalesArSagaState::WaitingForInvoiceIssued => SalesArStateView::WaitingForInvoiceIssued,
            SalesArSagaState::WaitingForLedgerPosted { invoice_id } => SalesArStateView::WaitingForLedgerPosted(
                invoice_id@,
            ),
            SalesArSagaState::Completed => SalesArStateView::Completed,
            SalesArSagaState::Failed => SalesArStateView::Failed,
        }
    }
}

impl Default for SalesArSagaState {
    fn default() -> (r: SalesArSagaState)
        ensures
            r@ == SalesArStateView::WaitingForOrderConfirmed,
    {
        SalesArSagaState::WaitingForOrderConfirmed
    }
}

/// The saga's own events.
#[derive(Debug, Clone)]
pub enum SalesArSagaEvent {
    OrderConfirmedReceived,
    InvoiceIssueRequested,
    InvoiceIssuedReceived { invoice_id: String },
    LedgerPostRequested,
    LedgerPostedReceived,
    SagaCompleted,
    SagaFailed { reason: String },
}

pub enum SalesArEventView {
    OrderConfirmedReceived,
    InvoiceIssueRequested,
    InvoiceIssuedReceived(Seq<char>),
    LedgerPostRequested,
    LedgerPostedReceived,
    SagaCompleted,
    SagaFailed(Seq<char>),
}

impl View for SalesArSagaEvent {
    type V = SalesArEventView;

    open spec fn view(&self) -> SalesArEventView {
        match self {
            SalesArSagaEvent::OrderConfirmedReceived => SalesArEventView::OrderConfirmedReceived,
            SalesArSagaEvent::InvoiceIssueRequested => SalesArEventView::InvoiceIssueRequested,
            SalesArSagaEvent::InvoiceIssuedReceived { invoice_id } => SalesArEventView::InvoiceIssuedReceived(
                invoice_id@,
            ),
            SalesArSagaEvent::LedgerPostRequested => SalesArEventView::LedgerPostRequested,
            SalesArSagaEvent::LedgerPostedReceived => SalesArEventView::LedgerPostedReceived,
            SalesArSagaEvent::SagaCompleted => SalesArEventView::SagaCompleted,
            SalesArSagaEvent::SagaFailed { reason } => SalesArEventView::SagaFailed(reason@),
        }
    }
}

/// The state machine: requests leave the state as it is; receipts move it on;
/// completion and failure end it.
pub open spec fn ar_step(state: SalesArStateView, event: SalesArEventView) -> SalesArStateView {
    match event {
        SalesArEventView::OrderConfirmedReceived => SalesArStateView::WaitingForInvoiceIssued,
        SalesArEventView::InvoiceIssueRequested => state,
        SalesArEventView::InvoiceIssuedReceived(id) => SalesArStateView::WaitingForLedgerPosted(id),
        SalesArEventView::LedgerPostRequested => state,
        SalesArEventView::LedgerPostedReceived => SalesArStateView::Completed,
        SalesArEventView::SagaCompleted => SalesArStateView::Completed,
        SalesArEventView::SagaFailed(_) => SalesArStateView::Failed,
    }
}

/// The payload member that names the sales order, by the incoming event's
/// aggregate type.
pub open spec fn order_key(aggregate_type: Seq<char>) -> Option<Seq<char>> {
    if aggregate_type == "sales.order"@ {
        Some("order_id"@)
    } else if aggregate_type == "invoicing.invoice"@ {
        Some("sales_order_id"@)
    } else {
        None
    }
}

/// The sales order an incoming event belongs to: the identifier in the text
/// member that `order_key` names.
pub open spec fn ar_correlation(envelope: EventEnvelope<Json>) -> Option<SalesOrderId> {
    match order_key(envelope.spec_aggregate_type()) {
        None => None,
        Some(key) => match spec_get(envelope.spec_payload(), key) {
            None => None,
            Some(v) => match spec_as_str(v) {
                None => None,
                Some(text) => match parsed_uuid(text) {
                    None => None,
                    Some(u) => Some(SalesOrderId(AggregateId(u))),
                },
            },
        },
    }
}

pub open spec fn empty_object() -> JsonView {
    JsonView::Object(Seq::empty())
}

/// The invoice command's payload: the order and the tenant, keys in order.
pub open spec fn issue_invoice_payload(tenant_id: TenantId, order: SalesOrderId) -> JsonView {
    JsonView::Object(
        seq![
            ("sales_order_id"@, JsonView::Str(uuid_chars(order.0.0))),
            ("tenant_id"@, JsonView::Str(uuid_chars(tenant_id.0))),
        ],
    )
}

/// One line of the receivable entry, with amount zero.
pub open spec fn ledger_line(code: Seq<char>, name: Seq<char>, kind: Seq<char>, debit: bool) -> JsonView {
    JsonView::Object(
        seq![
            ("account_code"@, JsonView::Str(code)),
            ("account_name"@, JsonView::Str(name)),
            ("amount"@, JsonView::Int(0)),
            ("is_debit"@, JsonView::Bool(debit)),
            ("kind"@, JsonView::Str(kind)),
        ],
    )
}

/// The ledger command's payload: a receivable debit and a revenue credit
/// for the invoice, keys in order.
pub open spec fn ledger_payload(tenant_id: TenantId, invoice_id: Seq<char>, entry_id: u128, occurred_at: Seq<char>) -> JsonView {
    JsonView::Object(
        seq![
            ("description"@, JsonView::Str("AR for invoice "@ + invoice_id)),
            ("entry_id"@, JsonView::Str(uuid_chars(entry_id))),
            (
                "lines"@,
                JsonView::Array(
                    seq![
                        ledger_line("1200"@, "Accounts Receivable"@, "Asset"@, true),
                        ledger_line("4000"@, "Sales Revenue"@, "Revenue"@, false),
                    ],
                ),
            ),
            ("occurred_at"@, JsonView::Str(occurred_at)),
            ("tenant_id"@, JsonView::Str(uuid_chars(tenant_id.0))),
        ],
    )
}

/// The invoice id in an `InvoiceIssued` payload.
pub open spec fn issued_invoice_id(payload: Json) -> Option<Seq<char>> {
    match spec_get(payload, "InvoiceIssued"@) {
        Some(evt) => match spec_get(evt, "invoice_id"@) {
            Some(v) => spec_as_str(v),
            None => None,
        },
        None => None,
    }
}

/// The saga's reaction. Waiting for the order: an `OrderConfirmed` sales
/// order event (its first member) records it and asks for an invoice.
/// Waiting for the invoice: an `InvoiceIssued` invoice event with an id
/// records it and asks for the ledger entry. Waiting for the ledger: a
/// `JournalEntryPosted` ledger event records it and completes the saga.
/// Anything else: nothing.
pub open spec fn ar_reaction(
    state: SalesArStateView,
    tenant_id: TenantId,
    order: SalesOrderId,
    incoming: EventEnvelope<Json>,
    entry_id: u128,
    occurred_at: Seq<char>,
) -> Seq<SagaActionView> {
    let source = incoming.spec_aggregate_type();
    let payload = incoming.spec_payload();
    match state {
        SalesArStateView::WaitingForOrderConfirmed => if source == "sales.order"@ && spec_first_key(payload)
            == Some("OrderConfirmed"@) {
            seq![
                SagaActionView::Emit("order_confirmed_received"@, empty_object()),
                SagaActionView::Emit("invoice_issue_requested"@, empty_object()),
                SagaActionView::Command("Invoice"@, "IssueInvoice"@, issue_invoice_payload(tenant_id, order)),
            ]
        } else {
            Seq::empty()
        },
        SalesArStateView::WaitingForInvoiceIssued => if source == "invoicing.invoice"@
            && issued_invoice_id(payload) is Some {
            let id = issued_invoice_id(payload)->0;
            seq![
                SagaActionView::Emit(
                    "invoice_issued_received"@,
                    JsonView::Object(seq![("invoice_id"@, JsonView::Str(id))]),
                ),
                SagaActionView::Emit("ledger_post_requested"@, empty_object()),
                SagaActionView::Command(
                    "Ledger"@,
                    "PostJournalEntry"@,
                    ledger_payload(tenant_id, id, entry_id, occurred_at),
                ),
            ]
        } else {
            Seq::empty()
        },
        SalesArStateView::WaitingForLedgerPosted(_) => if source == "accounting.ledger"@ && spec_get(
            payload,
            "JournalEntryPosted"@,
        ) is Some {
            seq![SagaActionView::Emit("ledger_posted_received"@, empty_object()), SagaActionView::Complete]
        } else {
            Seq::empty()
        },
        SalesArStateView::Completed | SalesArStateView::Failed => Seq::empty(),
    }
}

/// A JSON object of the members, in order.
fn object_of(members: Vec<(String, Json)>) -> (r: Json)
    ensures
        r@ == JsonView::Object(members@.map_values(|m: (String, Json)| (m.0@, m.1@))),
{
    proof {
        lemma_members_view_map(members@, members@.len());
        assert(members@.take(members@.len() as int) =~= members@);
        assert(members@.map_values(|m: (String, Json)| (m.0@, m.1@)) =~= members@.map_values(
            |m: (String, Json)| (m.0@, crate::json::json_view(m.1)),
        ));
    }
    Json::Object(members)
}

/// A JSON array of the items, in order.
fn array_of(items: Vec<Json>) -> (r: Json)
    ensures
        r@ == JsonView::Array(items@.map_values(|j: Json| j@)),
{
    proof {
        lemma_items_view_map(items@, items@.len());
        assert(items@.take(items@.len() as int) =~= items@);
        assert(items@.map_values(|j: Json| j@) =~= items@.map_values(|j: Json| crate::json::json_view(j)));
    }
    Json::Array(items)
}

fn text(s: &str) -> (r: Json)
    ensures
        r@ == JsonView::Str(s@),
{
    Json::Str(String::from_str(s))
}

fn empty_json() -> (r: Json)
    ensures
        r@ == empty_object(),
{
    let v: Vec<(String, Json)> = Vec::new();
    let r = object_of(v);
    assert(v@.map_values(|m: (String, Json)| (m.0@, m.1@)) =~= Seq::empty());
    r
}

fn issue_invoice_json(tenant_id: TenantId, order: SalesOrderId) -> (r: Json)
    ensures
        r@ == issue_invoice_payload(tenant_id, order),
{
    let members = vec![
        (String::from_str("sales_order_id"), Json::Str(uuid_text(order.0.0))),
        (String::from_str("tenant_id"), Json::Str(uuid_text(tenant_id.0))),
    ];
    let ghost m = members@;
    let r = object_of(members);
    assert(m.map_values(|x: (String, Json)| (x.0@, x.1@)) =~= seq![
        ("sales_order_id"@, JsonView::Str(uuid_chars(order.0.0))),
        ("tenant_id"@, JsonView::Str(uuid_chars(tenant_id.0))),
    ]);
    r
}

fn ledger_line_json(code: &str, name: &str, kind: &str, debit: bool) -> (r: Json)
    ensures
        r@ == ledger_line(code@, name@, kind@, debit),
{
    let members = vec![
        (String::from_str("account_code"), text(code)),
        (String::from_str("account_name"), text(name)),
        (String::from_str("amount"), Json::Int(0)),
        (String::from_str("is_debit"), Json::Bool(debit)),
        (String::from_str("kind"), text(kind)),
    ];
    let ghost m = members@;
    let r = object_of(members);
    assert(m.map_values(|x: (String, Json)| (x.0@, x.1@)) =~= seq![
        ("account_code"@, JsonView::Str(code@)),
        ("account_name"@, JsonView::Str(name@)),
        ("amount"@, JsonView::Int(0)),
        ("is_debit"@, JsonView::Bool(debit)),
        ("kind"@, JsonView::Str(kind@)),
    ]);
    r
}

fn ledger_json(tenant_id: TenantId, invoice_id: &str, entry_id: u128, occurred_at: &str) -> (r: Json)
    ensures
        r@ == ledger_payload(tenant_id, invoice_id@, entry_id, occurred_at@),
{
    let lines = vec![
        ledger_line_json("1200", "Accounts Receivable", "Asset", true),
        ledger_line_json("4000", "Sales Revenue", "Revenue", false),
    ];
    let ghost l = lines@;
    let lines_json = array_of(lines);
    assert(l.map_values(|j: Json| j@) =~= seq![
        ledger_line("1200"@, "Accounts Receivable"@, "Asset"@, true),
        ledger_line("4000"@, "Sales Revenue"@, "Revenue"@, false),
    ]);
    let members = vec![
        (String::from_str("description"), Json::Str(String::from_str("AR for invoice ").concat(invoice_id))),
        (String::from_str("entry_id"), Json::Str(uuid_text(entry_id))),
        (String::from_str("lines"), lines_json),
        (String::from_str("occurred_at"), text(occurred_at)),
        (String::from_str("tenant_id"), Json::Str(uuid_text(tenant_id.0))),
    ];
    let ghost m = members@;
    let r = object_of(members);
    assert(m.map_values(|x: (String, Json)| (x.0@, x.1@)) =~= ledger_payload(tenant_id, invoice_id@, entry_id, occurred_at@)->Object_0);
    r
}

/// The sales → invoice → ledger saga.
pub struct SalesArSaga;

impl SalesArSaga {
    /// The sales order an incoming event belongs to.
    pub fn correlation(envelope: &EventEnvelope<Json>) -> (r: Option<SalesOrderId>)
        ensures
            r == ar_correlation(*envelope),
    {
        let source = envelope.aggregate_type();
        let key = if same_text(source, "sales.order") {
            "order_id"
        } else if same_text(source, "invoicing.invoice") {
            "sales_order_id"
        } else {
            return None;
        };
        match envelope.payload().get(key) {
            None => None,
            Some(v) => match v.as_str() {
                None => None,
                Some(t) => match parse_uuid(t) {
                    Err(_) => None,
                    Ok(u) => Some(SalesOrderId(AggregateId(u))),
                },
            },
        }
    }

    /// Apply a saga event.
    pub fn step(state: &mut SalesArSagaState, event: &SalesArSagaEvent)
        ensures
            final(state)@ == ar_step(old(state)@, event@),
    {
        match event {
            SalesArSagaEvent::OrderConfirmedReceived => {
                *state = SalesArSagaState::WaitingForInvoiceIssued;
            },
            SalesArSagaEvent::InvoiceIssueRequested => {},
            SalesArSagaEvent::InvoiceIssuedReceived { invoice_id } => {
                *state = SalesArSagaState::WaitingForLedgerPosted { invoice_id: invoice_id.clone() };
            },
            SalesArSagaEvent::LedgerPostRequested => {},
            SalesArSagaEvent::LedgerPostedReceived => {
                *state = SalesArSagaState::Completed;
            },
            SalesArSagaEvent::SagaCompleted => {
                *state = SalesArSagaState::Completed;
            },
            SalesArSagaEvent::SagaFailed { .. } => {
                *state = SalesArSagaState::Failed;
            },
        }
    }

    /// The reaction to an incoming event, with the ledger entry's id and time
    /// given.
    pub fn reaction(
        state: &SalesArSagaState,
        tenant_id: TenantId,
        order: SalesOrderId,
        incoming: &EventEnvelope<Json>,
        entry_id: u128,
        occurred_at: &str,
    ) -> (r: Vec<SagaAction>)
        ensures
            action_views(r@) == ar_reaction(state@, tenant_id, order, *incoming, entry_id, occurred_at@),
    {
        let source = incoming.aggregate_type();
        let payload = incoming.payload();
        match state {
            SalesArSagaState::WaitingForOrderConfirmed => {
                if same_text(source, "sales.order") {
                    match payload.first_key() {
                        Some(k) => {
                            if same_text(k, "OrderConfirmed") {
                                let r = vec![
                                    SagaAction::Emit {
                                        event_type: String::from_str("order_confirmed_received"),
                                        payload: empty_json(),
                                    },
                                    SagaAction::Emit {
                                        event_type: String::from_str("invoice_issue_requested"),
                                        payload: empty_json(),
                                    },
                                    SagaAction::Command {
                                        aggregate_type: String::from_str("Invoice"),
                                        command_type: String::from_str("IssueInvoice"),
                                        payload: issue_invoice_json(tenant_id, order),
                                    },
                                ];
                                assert(action_views(r@) =~= ar_reaction(
                                    state@,
                                    tenant_id,
                                    order,
                                    *incoming,
                                    entry_id,
                                    occurred_at@,
                                ));
                                return r;
                            }
                        },
                        None => {},
                    }
                }
                let r: Vec<SagaAction> = Vec::new();
                assert(action_views(r@) =~= Seq::<SagaActionView>::empty());
                r
            },
            SalesArSagaState::WaitingForInvoiceIssued => {
                if same_text(source, "invoicing.invoice") {
                    match payload.get("InvoiceIssued") {
                        Some(evt) => match evt.get("invoice_id") {
                            Some(v) => match v.as_str() {
                                Some(id) => {
                                    let members = vec![(String::from_str("invoice_id"), text(id))];
                                    let ghost m = members@;
                                    let received = object_of(members);
                                    assert(m.map_values(|x: (String, Json)| (x.0@, x.1@)) =~= seq![
                                        ("invoice_id"@, JsonView::Str(id@)),
                                    ]);
                                    let r = vec![
                                        SagaAction::Emit {
                                            event_type: String::from_str("invoice_issued_received"),
                                            payload: received,
                                        },
                                        SagaAction::Emit {
                                            event_type: String::from_str("ledger_post_requested"),
                                            payload: empty_json(),
                                        },
                                        SagaAction::Command {
                                            aggregate_type: String::from_str("Ledger"),
                                            command_type: String::from_str("PostJournalEntry"),
                                            payload: ledger_json(tenant_id, id, entry_id, occurred_at),
                                        },
                                    ];
                                    assert(action_views(r@) =~= ar_reaction(
                                        state@,
                                        tenant_id,
                                        order,
                                        *incoming,
                                        entry_id,
                                        occurred_at@,
                                    ));
                                    return r;
                                },
                                None => {},
                            },
                            None => {},
                        },
                        None => {},
                    }
                }
                let r: Vec<SagaAction> = Vec::new();
                assert(action_views(r@) =~= Seq::<SagaActionView>::empty());
                r
            },
            SalesArSagaState::WaitingForLedgerPosted { .. } => {
                if same_text(source, "accounting.ledger") && payload.contains_key("JournalEntryPosted") {
                    let r = vec![
                        SagaAction::Emit {
                            event_type: String::from_str("ledger_posted_received"),
                            payload: empty_json(),
                        },
                        SagaAction::Complete,
                    ];
                    assert(action_views(r@) =~= ar_reaction(
                        state@,
                        tenant_id,
                        order,
                        *incoming,
                        entry_id,
                        occurred_at@,
                    ));
                    return r;
                }
                let r: Vec<SagaAction> = Vec::new();
                assert(action_views(r@) =~= Seq::<SagaActionView>::empty());
                r
            },
            _ => {
                let r: Vec<SagaAction> = Vec::new();
                assert(action_views(r@) =~= Seq::<SagaActionView>::empty());
                r
            },
        }
    }
}

impl Saga for SalesArSaga {
    type State = SalesArSagaState;

    type SagaEvent = SalesArSagaEvent;

    type CorrelationId = SalesOrderId;

    open spec fn spec_saga_type() -> Seq<char> {
        "saga.sales_ar"@
    }

    fn saga_type() -> (r: &'static str) {
        "saga.sales_ar"
    }

    fn correlate(envelope: &EventEnvelope<Json>) -> (r: Option<SalesOrderId>)
        ensures
            r == ar_correlation(*envelope),
    {
        SalesArSaga::correlation(envelope)
    }

    /// The order's own id.
    fn saga_id(tenant_id: TenantId, correlation: &SalesOrderId) -> (r: AggregateId)
        ensures
            r == correlation.0,
    {
        correlation.0
    }

    fn initial_state(tenant_id: TenantId, correlation: &SalesOrderId) -> (r: SalesArSagaState)
        ensures
            r@ == SalesArStateView::WaitingForOrderConfirmed,
    {
        SalesArSagaState::WaitingForOrderConfirmed
    }

    fn apply(state: &mut SalesArSagaState, event: &SalesArSagaEvent)
        ensures
            final(state)@ == ar_step(old(state)@, event@),
    {
        SalesArSaga::step(state, event)
    }

    /// The reaction, with a fresh entry id and the current time for the
    /// ledger entry.
    fn react(
        state: &SalesArSagaState,
        tenant_id: TenantId,
        correlation: &SalesOrderId,
        incoming: &EventEnvelope<Json>,
    ) -> (r: Vec<SagaAction>)
        ensures
            exists|entry_id: u128, occurred_at: Seq<char>|
                action_views(r@) == #[trigger] ar_reaction(state@, tenant_id, *correlation, *incoming, entry_id, occurred_at),
    {
        let entry_id = fresh_v7();
        let occurred_at = now_rfc3339();
        SalesArSaga::reaction(state, tenant_id, *correlation, incoming, entry_id, occurred_at.as_str())
    }
}

/// The happy path: from a fresh instance, the saga events that the
/// reactions emit along a confirmed order, an issued invoice and a posted
/// ledger entry lead to a completed saga.
pub proof fn law_ar_happy_path(invoice_id: Seq<char>)
    ensures
        ar_step(
            ar_step(
                ar_step(
                    ar_step(
                        ar_step(SalesArStateView::WaitingForOrderConfirmed, SalesArEventView::OrderConfirmedReceived),
                        SalesArEventView::InvoiceIssueRequested,
                    ),
                    SalesArEventView::InvoiceIssuedReceived(invoice_id),
                ),
                SalesArEventView::LedgerPostRequested,
            ),
            SalesArEventView::LedgerPostedReceived,
        ) == SalesArStateView::Completed,
{
}

/// Finished sagas stay quiet: a completed or failed instance reacts to no
/// event.
pub proof fn law_finished_saga_reacts_to_nothing(
    state: SalesArStateView,
    tenant_id: TenantId,
    order: SalesOrderId,
    incoming: EventEnvelope<Json>,
    entry_id: u128,
    occurred_at: Seq<char>,
)
    requires
        state is Completed || state is Failed,
    ensures
        ar_reaction(state, tenant_id, order, incoming, entry_id, occurred_at).len() == 0,
{
}

/// Requests never change the state, and a failure event fails the saga
/// whatever its state.
pub proof fn law_requests_keep_state(state: SalesArStateView)
    ensures
        ar_step(state, SalesArEventView::InvoiceIssueRequested) == state,
        ar_step(state, SalesArEventView::LedgerPostRequested) == state,
        forall|r: Seq<char>| #[trigger] ar_step(state, SalesArEventView::SagaFailed(r)) == SalesArStateView::Failed,
{
}

} // verus!
