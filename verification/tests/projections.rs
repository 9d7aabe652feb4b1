use forgeerp::auth::{Role, RoleAssigned, UserCreated, UserEvent, UserId, UserSuspended};
use forgeerp::common::{AggregateId, TenantId, Timestamp};
use forgeerp::events::EventEnvelope;
use forgeerp::inventory::{InventoryEvent, InventoryItemId, ItemCreated, StockAdjusted};
use forgeerp::invoicing::{
    InvoiceEvent, InvoiceId, InvoiceIssued, InvoiceLine, InvoiceVoided, PaymentRegistered,
};
use forgeerp::parties::{ContactInfo, PartyEvent, PartyId, PartyKind, PartyRegistered};
use forgeerp::projections::parties::PartyDirectoryProjection;
use forgeerp::products::ProductId;
use forgeerp::projections::customer_balances::CustomerBalancesProjection;
use forgeerp::projections::inventory_valuation::InventoryValuationProjection;
use forgeerp::projections::open_invoices::OpenInvoicesProjection;
use forgeerp::projections::users::{default_role_permissions, UsersProjection};
use forgeerp::sales::SalesOrderId;

const DAY_MS: i64 = 86_400_000;

fn event_id() -> u128 {
    uuid::Uuid::now_v7().as_u128()
}

fn days_from_now(days: i64) -> Timestamp {
    Timestamp::from_millis(Timestamp::now().0 + days * DAY_MS)
}

fn invoice_envelope(
    tenant_id: TenantId,
    aggregate_id: AggregateId,
    seq: u64,
    event: InvoiceEvent,
) -> EventEnvelope<Result<InvoiceEvent, String>> {
    EventEnvelope::new(event_id(), tenant_id, aggregate_id, "invoicing.invoice".to_string(), seq, Ok(event))
}

fn inventory_envelope(
    tenant_id: TenantId,
    aggregate_id: AggregateId,
    seq: u64,
    event: InventoryEvent,
) -> EventEnvelope<Result<InventoryEvent, String>> {
    EventEnvelope::new(event_id(), tenant_id, aggregate_id, "inventory.item".to_string(), seq, Ok(event))
}

fn user_envelope(tenant_id: TenantId, user_id: UserId, event: UserEvent) -> EventEnvelope<Result<UserEvent, String>> {
    EventEnvelope::new(event_id(), tenant_id, AggregateId::from_u128(user_id.0), "auth.user".to_string(), 1, Ok(event))
}

fn issued(
    tenant_id: TenantId,
    invoice_id: InvoiceId,
    sales_order_id: SalesOrderId,
    quantity: i64,
    total: u64,
    due_date: Timestamp,
) -> InvoiceEvent {
    InvoiceEvent::InvoiceIssued(InvoiceIssued {
        tenant_id,
        invoice_id,
        sales_order_id,
        lines: vec![InvoiceLine {
            line_no: 1,
            sales_order_id,
            product_id: ProductId::new(AggregateId::new()),
            quantity,
            unit_price: 100,
        }],
        due_date,
        total_amount: total,
        occurred_at: Timestamp::now(),
    })
}

// ---- customer balances ------------------------------------------------------

#[test]
fn tracks_customer_balance_from_invoice() {
    let mut proj = CustomerBalancesProjection::new();

    let tenant_id = TenantId::new();
    let invoice_id = InvoiceId::new(AggregateId::new());
    let sales_order_id = SalesOrderId::new(AggregateId::new());
    let customer_id = PartyId::new(AggregateId::new());

    // Register customer mapping
    proj.register_invoice_customer(tenant_id, invoice_id.0, customer_id);

    let event = issued(tenant_id, invoice_id, sales_order_id, 2, 200, Timestamp::now());
    let env = invoice_envelope(tenant_id, invoice_id.0, 1, event);
    proj.apply_envelope(&env).unwrap();

    let balance = proj.get(tenant_id, &customer_id).unwrap();
    assert_eq!(balance.total_invoiced, 200);
    assert_eq!(balance.outstanding_balance, 200);
    assert_eq!(balance.open_invoice_count, 1);
}

#[test]
fn payment_reduces_outstanding_balance() {
    let mut proj = CustomerBalancesProjection::new();

    let tenant_id = TenantId::new();
    let invoice_id = InvoiceId::new(AggregateId::new());
    let sales_order_id = SalesOrderId::new(AggregateId::new());
    let customer_id = PartyId::new(AggregateId::new());

    proj.register_invoice_customer(tenant_id, invoice_id.0, customer_id);

    let event = issued(tenant_id, invoice_id, sales_order_id, 2, 200, Timestamp::now());
    proj.apply_envelope(&invoice_envelope(tenant_id, invoice_id.0, 1, event)).unwrap();

    let payment = InvoiceEvent::PaymentRegistered(PaymentRegistered {
        tenant_id,
        invoice_id,
        amount: 50,
        new_total_paid: 50,
        occurred_at: Timestamp::now(),
    });

    proj.apply_envelope(&invoice_envelope(tenant_id, invoice_id.0, 2, payment)).unwrap();

    let balance = proj.get(tenant_id, &customer_id).unwrap();
    assert_eq!(balance.total_paid, 50);
    assert_eq!(balance.outstanding_balance, 150);
    assert_eq!(balance.open_invoice_count, 1);
}

// ---- inventory valuation ----------------------------------------------------

#[test]
fn tracks_quantity_from_events() {
    let mut proj = InventoryValuationProjection::new();

    let tenant_id = TenantId::new();
    let item_id = InventoryItemId::new(AggregateId::new());

    let created = InventoryEvent::ItemCreated(ItemCreated {
        tenant_id,
        item_id,
        name: "Widget".to_string(),
        occurred_at: Timestamp::now(),
    });

    proj.apply_envelope(&inventory_envelope(tenant_id, item_id.0, 1, created)).unwrap();

    let adjusted = InventoryEvent::StockAdjusted(StockAdjusted {
        tenant_id,
        item_id,
        delta: 100,
        occurred_at: Timestamp::now(),
    });

    proj.apply_envelope(&inventory_envelope(tenant_id, item_id.0, 2, adjusted)).unwrap();

    let val = proj.get(tenant_id, &item_id).unwrap();
    assert_eq!(val.quantity, 100);
    assert_eq!(val.unit_cost, None);
    assert_eq!(val.total_value, None);
}

#[test]
fn calculates_value_when_cost_set() {
    let mut proj = InventoryValuationProjection::new();

    let tenant_id = TenantId::new();
    let item_id = InventoryItemId::new(AggregateId::new());

    let created = InventoryEvent::ItemCreated(ItemCreated {
        tenant_id,
        item_id,
        name: "Widget".to_string(),
        occurred_at: Timestamp::now(),
    });
    proj.apply_envelope(&inventory_envelope(tenant_id, item_id.0, 1, created)).unwrap();

    let adjusted = InventoryEvent::StockAdjusted(StockAdjusted {
        tenant_id,
        item_id,
        delta: 50,
        occurred_at: Timestamp::now(),
    });
    proj.apply_envelope(&inventory_envelope(tenant_id, item_id.0, 2, adjusted)).unwrap();

    // Set unit cost to 25 cents
    proj.set_unit_cost(tenant_id, item_id, 25);

    let val = proj.get(tenant_id, &item_id).unwrap();
    assert_eq!(val.quantity, 50);
    assert_eq!(val.unit_cost, Some(25));
    assert_eq!(val.total_value, Some(50 * 25));
}

#[test]
fn summary_aggregates_values() {
    let mut proj = InventoryValuationProjection::new();

    let tenant_id = TenantId::new();

    // Create and stock two items
    for i in 0..2 {
        let item_id = InventoryItemId::new(AggregateId::new());
        let created = InventoryEvent::ItemCreated(ItemCreated {
            tenant_id,
            item_id,
            name: format!("Item {}", i),
            occurred_at: Timestamp::now(),
        });
        proj.apply_envelope(&inventory_envelope(tenant_id, item_id.0, 1, created)).unwrap();

        let adjusted = InventoryEvent::StockAdjusted(StockAdjusted {
            tenant_id,
            item_id,
            delta: 100,
            occurred_at: Timestamp::now(),
        });
        proj.apply_envelope(&inventory_envelope(tenant_id, item_id.0, 2, adjusted)).unwrap();

        // Set cost for first item only
        if i == 0 {
            proj.set_unit_cost(tenant_id, item_id, 10);
        }
    }

    let summary = proj.get_summary(tenant_id);
    assert_eq!(summary.total_items, 2);
    assert_eq!(summary.valued_items, 1);
    assert_eq!(summary.unvalued_items, 1);
    assert_eq!(summary.total_value, 100 * 10);
    assert_eq!(summary.total_quantity, 200);
}

// ---- open invoices ----------------------------------------------------------

#[test]
fn tracks_issued_invoice() {
    let mut proj = OpenInvoicesProjection::new();

    let tenant_id = TenantId::new();
    let invoice_id = InvoiceId::new(AggregateId::new());
    let sales_order_id = SalesOrderId::new(AggregateId::new());

    let event = issued(tenant_id, invoice_id, sales_order_id, 2, 200, days_from_now(30));
    proj.apply_envelope(&invoice_envelope(tenant_id, invoice_id.0, 1, event)).unwrap();

    let inv = proj.get(tenant_id, &invoice_id).unwrap();
    assert_eq!(inv.total_amount, 200);
    assert_eq!(inv.outstanding_amount, 200);
    assert!(!inv.is_overdue);
}

#[test]
fn payment_reduces_outstanding() {
    let mut proj = OpenInvoicesProjection::new();

    let tenant_id = TenantId::new();
    let invoice_id = InvoiceId::new(AggregateId::new());
    let sales_order_id = SalesOrderId::new(AggregateId::new());

    let event = issued(tenant_id, invoice_id, sales_order_id, 2, 200, days_from_now(30));
    proj.apply_envelope(&invoice_envelope(tenant_id, invoice_id.0, 1, event)).unwrap();

    let payment = InvoiceEvent::PaymentRegistered(PaymentRegistered {
        tenant_id,
        invoice_id,
        amount: 50,
        new_total_paid: 50,
        occurred_at: Timestamp::now(),
    });
    proj.apply_envelope(&invoice_envelope(tenant_id, invoice_id.0, 2, payment)).unwrap();

    let inv = proj.get(tenant_id, &invoice_id).unwrap();
    assert_eq!(inv.amount_paid, 50);
    assert_eq!(inv.outstanding_amount, 150);
}

#[test]
fn full_payment_zeroes_outstanding() {
    let mut proj = OpenInvoicesProjection::new();

    let tenant_id = TenantId::new();
    let invoice_id = InvoiceId::new(AggregateId::new());
    let sales_order_id = SalesOrderId::new(AggregateId::new());

    let event = issued(tenant_id, invoice_id, sales_order_id, 2, 200, days_from_now(30));
    proj.apply_envelope(&invoice_envelope(tenant_id, invoice_id.0, 1, event)).unwrap();

    let payment = InvoiceEvent::PaymentRegistered(PaymentRegistered {
        tenant_id,
        invoice_id,
        amount: 200,
        new_total_paid: 200,
        occurred_at: Timestamp::now(),
    });
    proj.apply_envelope(&invoice_envelope(tenant_id, invoice_id.0, 2, payment)).unwrap();

    let inv = proj.get(tenant_id, &invoice_id).unwrap();
    assert_eq!(inv.outstanding_amount, 0);
}

#[test]
fn void_zeroes_outstanding() {
    let mut proj = OpenInvoicesProjection::new();

    let tenant_id = TenantId::new();
    let invoice_id = InvoiceId::new(AggregateId::new());
    let sales_order_id = SalesOrderId::new(AggregateId::new());

    let event = issued(tenant_id, invoice_id, sales_order_id, 2, 200, days_from_now(30));
    proj.apply_envelope(&invoice_envelope(tenant_id, invoice_id.0, 1, event)).unwrap();

    let voided = InvoiceEvent::InvoiceVoided(InvoiceVoided {
        tenant_id,
        invoice_id,
        reason: Some("Customer dispute".to_string()),
        occurred_at: Timestamp::now(),
    });
    proj.apply_envelope(&invoice_envelope(tenant_id, invoice_id.0, 2, voided)).unwrap();

    let inv = proj.get(tenant_id, &invoice_id).unwrap();
    assert_eq!(inv.outstanding_amount, 0);
}

#[test]
fn summary_calculates_totals() {
    let mut proj = OpenInvoicesProjection::new();

    let tenant_id = TenantId::new();

    // Create two invoices
    for i in 0..2 {
        let invoice_id = InvoiceId::new(AggregateId::new());
        let sales_order_id = SalesOrderId::new(AggregateId::new());

        // First invoice is overdue, second is not
        let due_date = if i == 0 { days_from_now(-10) } else { days_from_now(30) };

        let event = issued(tenant_id, invoice_id, sales_order_id, 1, 100, due_date);
        proj.apply_envelope(&invoice_envelope(tenant_id, invoice_id.0, 1, event)).unwrap();
    }

    let summary = proj.get_summary(tenant_id);
    assert_eq!(summary.count, 2);
    assert_eq!(summary.total_outstanding, 200);
    assert_eq!(summary.overdue_count, 1);
    assert_eq!(summary.overdue_amount, 100);
}

// ---- users ------------------------------------------------------------------

#[test]
fn user_created_projection() {
    let mut projection = UsersProjection::new();

    let tenant_id = TenantId::new();
    let user_id = UserId::new();

    let event = UserEvent::Created(UserCreated {
        tenant_id,
        user_id,
        email: "alice@example.com".to_string(),
        display_name: "Alice Smith".to_string(),
        initial_roles: vec![Role::new("user")],
        occurred_at: Timestamp::now(),
    });

    let envelope = user_envelope(tenant_id, user_id, event);
    projection.apply_envelope(&envelope).unwrap();

    let user = projection.get(tenant_id, &user_id).unwrap();
    assert_eq!(user.email, "alice@example.com");
    assert_eq!(user.display_name, "Alice Smith");
    assert_eq!(user.roles, vec!["user"]);
    assert_eq!(user.status, "Active");
}

#[test]
fn role_assignment_updates_projection() {
    let mut projection = UsersProjection::new();

    let tenant_id = TenantId::new();
    let user_id = UserId::new();
    let now = Timestamp::now();

    // Create user
    let create_event = UserEvent::Created(UserCreated {
        tenant_id,
        user_id,
        email: "bob@example.com".to_string(),
        display_name: "Bob".to_string(),
        initial_roles: vec![Role::new("user")],
        occurred_at: now,
    });
    projection.apply_envelope(&user_envelope(tenant_id, user_id, create_event)).unwrap();

    // Assign role
    let assign_event = UserEvent::RoleAssigned(RoleAssigned {
        tenant_id,
        user_id,
        role: Role::new("manager"),
        occurred_at: now,
    });
    projection.apply_envelope(&user_envelope(tenant_id, user_id, assign_event)).unwrap();

    let user = projection.get(tenant_id, &user_id).unwrap();
    assert!(user.roles.contains(&"user".to_string()));
    assert!(user.roles.contains(&"manager".to_string()));
}

#[test]
fn suspension_updates_status() {
    let mut projection = UsersProjection::new();

    let tenant_id = TenantId::new();
    let user_id = UserId::new();
    let now = Timestamp::now();

    // Create user
    let create_event = UserEvent::Created(UserCreated {
        tenant_id,
        user_id,
        email: "carol@example.com".to_string(),
        display_name: "Carol".to_string(),
        initial_roles: vec![],
        occurred_at: now,
    });
    projection.apply_envelope(&user_envelope(tenant_id, user_id, create_event)).unwrap();

    // Suspend user
    let suspend_event = UserEvent::Suspended(UserSuspended {
        tenant_id,
        user_id,
        reason: "Policy violation".to_string(),
        occurred_at: now,
    });
    projection.apply_envelope(&user_envelope(tenant_id, user_id, suspend_event)).unwrap();

    let user = projection.get(tenant_id, &user_id).unwrap();
    assert_eq!(user.status, "Suspended");
}

#[test]
fn effective_permissions_computed_correctly() {
    let mut projection = UsersProjection::new();

    let tenant_id = TenantId::new();
    let user_id = UserId::new();

    let event = UserEvent::Created(UserCreated {
        tenant_id,
        user_id,
        email: "dave@example.com".to_string(),
        display_name: "Dave".to_string(),
        initial_roles: vec![Role::new("manager"), Role::new("accountant")],
        occurred_at: Timestamp::now(),
    });

    projection.apply_envelope(&user_envelope(tenant_id, user_id, event)).unwrap();

    let effective = projection.effective_permissions(tenant_id, &user_id, default_role_permissions).unwrap();

    // Manager has ledger.read, accountant has ledger.write
    assert!(effective.permissions.contains(&"ledger.read".to_string()));
    assert!(effective.permissions.contains(&"ledger.write".to_string()));
    // Both should be present
    assert!(effective.roles.contains(&"manager".to_string()));
    assert!(effective.roles.contains(&"accountant".to_string()));
}

#[test]
fn tenant_isolation_enforced() {
    let mut projection = UsersProjection::new();

    let tenant_a = TenantId::new();
    let tenant_b = TenantId::new();
    let user_id = UserId::new();

    let event = UserEvent::Created(UserCreated {
        tenant_id: tenant_a,
        user_id,
        email: "eve@example.com".to_string(),
        display_name: "Eve".to_string(),
        initial_roles: vec![],
        occurred_at: Timestamp::now(),
    });

    projection.apply_envelope(&user_envelope(tenant_a, user_id, event)).unwrap();

    // User exists in tenant A
    assert!(projection.get(tenant_a, &user_id).is_some());

    // User does NOT exist in tenant B
    assert!(projection.get(tenant_b, &user_id).is_none());

    // List for tenant B is empty
    assert!(projection.list(tenant_b).is_empty());
}

#[test]
fn user_lookup_by_email_ignores_case_and_surrounding_spaces() {
    let mut projection = UsersProjection::new();
    let tenant_id = TenantId::new();
    let user_id = UserId::new();
    let event = UserEvent::Created(UserCreated {
        tenant_id,
        user_id,
        email: "alice@example.com".to_string(),
        display_name: "Alice".to_string(),
        initial_roles: vec![Role::new("user")],
        occurred_at: Timestamp::now(),
    });
    projection.apply_envelope(&user_envelope(tenant_id, user_id, event)).unwrap();

    let found = projection.get_by_email(tenant_id, "  ALICE@Example.COM ").unwrap();
    assert_eq!(found.user_id, user_id);
    assert!(projection.get_by_email(tenant_id, "bob@example.com").is_none());
    assert!(projection.get_by_email(TenantId::new(), "alice@example.com").is_none());
}

#[test]
fn party_search_matches_names_ignoring_case() {
    let mut projection = PartyDirectoryProjection::new();
    let tenant_id = TenantId::new();
    let mut register = |name: &str| {
        let party_id = PartyId::new(AggregateId::new());
        let event = PartyEvent::PartyRegistered(PartyRegistered {
            tenant_id,
            party_id,
            kind: PartyKind::Customer,
            name: name.to_string(),
            contact: ContactInfo::default(),
            occurred_at: Timestamp::now(),
        });
        let envelope = EventEnvelope::new(event_id(), tenant_id, party_id.0, "parties.party".to_string(), 1, Ok(event));
        projection.apply_envelope(&envelope).unwrap();
    };
    register("ACME Corporation");
    register("Globex");
    drop(register);

    let hits = projection.search_by_name(tenant_id, "acme");
    assert_eq!(hits.len(), 1);
    assert_eq!(hits[0].name, "ACME Corporation");
    assert_eq!(projection.search_by_name(tenant_id, "O").len(), 2);
    assert!(projection.search_by_name(tenant_id, "initech").is_empty());
    assert!(projection.search_by_name(TenantId::new(), "acme").is_empty());
}

#[test]
fn paid_and_voided_invoices_leave_the_open_listing() {
    let mut proj = OpenInvoicesProjection::new();
    let tenant_id = TenantId::new();
    let paid = InvoiceId::new(AggregateId::new());
    let voided = InvoiceId::new(AggregateId::new());
    let partly = InvoiceId::new(AggregateId::new());
    let order = SalesOrderId::new(AggregateId::new());
    for id in [paid, voided, partly] {
        let event = issued(tenant_id, id, order, 2, 200, days_from_now(30));
        proj.apply_envelope(&invoice_envelope(tenant_id, id.0, 1, event)).unwrap();
    }
    assert_eq!(proj.list(tenant_id).len(), 3);

    let full = InvoiceEvent::PaymentRegistered(PaymentRegistered {
        tenant_id,
        invoice_id: paid,
        amount: 200,
        new_total_paid: 200,
        occurred_at: Timestamp::now(),
    });
    proj.apply_envelope(&invoice_envelope(tenant_id, paid.0, 2, full)).unwrap();
    let void = InvoiceEvent::InvoiceVoided(InvoiceVoided {
        tenant_id,
        invoice_id: voided,
        reason: None,
        occurred_at: Timestamp::now(),
    });
    proj.apply_envelope(&invoice_envelope(tenant_id, voided.0, 2, void)).unwrap();
    let part = InvoiceEvent::PaymentRegistered(PaymentRegistered {
        tenant_id,
        invoice_id: partly,
        amount: 50,
        new_total_paid: 50,
        occurred_at: Timestamp::now(),
    });
    proj.apply_envelope(&invoice_envelope(tenant_id, partly.0, 2, part)).unwrap();

    let open = proj.list(tenant_id);
    assert_eq!(open.len(), 1);
    assert_eq!(open[0].invoice_id, partly);
    assert_eq!(open[0].outstanding_amount, 150);
    let summary = proj.get_summary(tenant_id);
    assert_eq!(summary.count, 1);
    assert_eq!(summary.total_outstanding, 150);
    assert_eq!(proj.get(tenant_id, &paid).unwrap().outstanding_amount, 0);
}
