use forgeerp::common::{Aggregate, AggregateId, AggregateRoot, DomainError, TenantId, Timestamp};
use forgeerp::invoicing::{
    Invoice, InvoiceCommand, InvoiceEvent, InvoiceId, InvoiceLine, InvoiceStatus, IssueInvoice,
    RegisterPayment, VoidInvoice,
};
use forgeerp::products::ProductId;
use forgeerp::sales::SalesOrderId;

fn test_tenant_id() -> TenantId {
    TenantId::new()
}

fn test_invoice_id() -> InvoiceId {
    InvoiceId::new(AggregateId::new())
}

fn test_sales_order_id() -> SalesOrderId {
    SalesOrderId::new(AggregateId::new())
}

fn test_product_id() -> ProductId {
    ProductId::new(AggregateId::new())
}

fn test_time() -> Timestamp {
    Timestamp::now()
}

fn single_line(order_id: SalesOrderId) -> InvoiceLine {
    InvoiceLine {
        line_no: 1,
        sales_order_id: order_id,
        product_id: test_product_id(),
        quantity: 2,
        unit_price: 100,
    }
}

#[test]
fn issue_invoice_emits_invoice_issued_event() {
    let invoice = Invoice::empty(test_invoice_id());
    let tenant_id = test_tenant_id();
    let invoice_id = test_invoice_id();
    let order_id = test_sales_order_id();

    let line = single_line(order_id);
    let due = test_time();
    let cmd = IssueInvoice {
        tenant_id,
        invoice_id,
        sales_order_id: order_id,
        lines: vec![line.clone()],
        due_date: due,
        occurred_at: test_time(),
    };

    let events = invoice
        .handle(&InvoiceCommand::IssueInvoice(cmd.clone()))
        .unwrap();
    assert_eq!(events.len(), 1);

    match &events[0] {
        InvoiceEvent::InvoiceIssued(e) => {
            assert_eq!(e.tenant_id, tenant_id);
            assert_eq!(e.invoice_id, invoice_id);
            assert_eq!(e.sales_order_id, order_id);
            assert_eq!(e.lines.len(), 1);
            assert_eq!(e.due_date, due);
            assert_eq!(e.total_amount, 2 * 100);
        }
        _ => panic!("Expected InvoiceIssued event"),
    }
}

#[test]
fn cannot_pay_void_invoice() {
    let mut invoice = Invoice::empty(test_invoice_id());
    let tenant_id = test_tenant_id();
    let invoice_id = test_invoice_id();
    let order_id = test_sales_order_id();

    let line = single_line(order_id);
    let cmd_issue = IssueInvoice {
        tenant_id,
        invoice_id,
        sales_order_id: order_id,
        lines: vec![line],
        due_date: test_time(),
        occurred_at: test_time(),
    };
    let events = invoice
        .handle(&InvoiceCommand::IssueInvoice(cmd_issue))
        .unwrap();
    invoice.apply(&events[0]);
    assert_eq!(invoice.status(), InvoiceStatus::Open);

    // Void invoice
    let cmd_void = VoidInvoice {
        tenant_id,
        invoice_id,
        reason: Some("Customer dispute".to_string()),
        occurred_at: test_time(),
    };
    let events = invoice
        .handle(&InvoiceCommand::VoidInvoice(cmd_void))
        .unwrap();
    invoice.apply(&events[0]);
    assert_eq!(invoice.status(), InvoiceStatus::Void);

    // Try to pay void invoice
    let cmd_pay = RegisterPayment {
        tenant_id,
        invoice_id,
        amount: 50,
        occurred_at: test_time(),
    };
    let err = invoice
        .handle(&InvoiceCommand::RegisterPayment(cmd_pay))
        .unwrap_err();
    match err {
        DomainError::InvariantViolation(msg)
            if msg.contains("cannot register payment on void or fully paid invoice") => {}
        _ => panic!("Expected InvariantViolation for paying void invoice"),
    }
}

#[test]
fn cannot_overpay_invoice() {
    let mut invoice = Invoice::empty(test_invoice_id());
    let tenant_id = test_tenant_id();
    let invoice_id = test_invoice_id();
    let order_id = test_sales_order_id();

    let line = single_line(order_id);
    let cmd_issue = IssueInvoice {
        tenant_id,
        invoice_id,
        sales_order_id: order_id,
        lines: vec![line],
        due_date: test_time(),
        occurred_at: test_time(),
    };
    let events = invoice
        .handle(&InvoiceCommand::IssueInvoice(cmd_issue))
        .unwrap();
    invoice.apply(&events[0]);
    assert_eq!(invoice.total_amount(), 200);

    // Try to overpay
    let cmd_pay = RegisterPayment {
        tenant_id,
        invoice_id,
        amount: 201,
        occurred_at: test_time(),
    };
    let err = invoice
        .handle(&InvoiceCommand::RegisterPayment(cmd_pay))
        .unwrap_err();
    match err {
        DomainError::InvariantViolation(msg) if msg.contains("cannot overpay invoice") => {}
        _ => panic!("Expected InvariantViolation for overpaying invoice"),
    }
}

#[test]
fn paying_to_total_marks_invoice_paid() {
    let mut invoice = Invoice::empty(test_invoice_id());
    let tenant_id = test_tenant_id();
    let invoice_id = test_invoice_id();
    let order_id = test_sales_order_id();

    let line = single_line(order_id);
    let cmd_issue = IssueInvoice {
        tenant_id,
        invoice_id,
        sales_order_id: order_id,
        lines: vec![line],
        due_date: test_time(),
        occurred_at: test_time(),
    };
    let events = invoice
        .handle(&InvoiceCommand::IssueInvoice(cmd_issue))
        .unwrap();
    invoice.apply(&events[0]);
    assert_eq!(invoice.status(), InvoiceStatus::Open);
    assert_eq!(invoice.total_amount(), 200);
    assert_eq!(invoice.total_paid(), 0);

    // First partial payment
    let cmd_pay1 = RegisterPayment {
        tenant_id,
        invoice_id,
        amount: 50,
        occurred_at: test_time(),
    };
    let events = invoice
        .handle(&InvoiceCommand::RegisterPayment(cmd_pay1))
        .unwrap();
    invoice.apply(&events[0]);
    assert_eq!(invoice.total_paid(), 50);
    assert_eq!(invoice.status(), InvoiceStatus::Open);

    // Second payment to reach full amount
    let cmd_pay2 = RegisterPayment {
        tenant_id,
        invoice_id,
        amount: 150,
        occurred_at: test_time(),
    };
    let events = invoice
        .handle(&InvoiceCommand::RegisterPayment(cmd_pay2))
        .unwrap();
    invoice.apply(&events[0]);
    assert_eq!(invoice.total_paid(), 200);
    assert_eq!(invoice.status(), InvoiceStatus::Paid);
}
