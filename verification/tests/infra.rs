use forgeerp::ai::{after_failure, backoff, next_tick, AiInsightSink, AnomalySchedule, InMemoryAiInsightSink};
use forgeerp::event_store::EventQuery;
use forgeerp::common::{AggregateId, ExpectedVersion, TenantId, Timestamp};
use forgeerp::event_store::{EventStore, EventStoreError, InMemoryEventStore, StoredEvent, UncommittedEvent};
use forgeerp::events::EventEnvelope;
use forgeerp::json::{parse_uuid, uuid_text, Json};
use forgeerp::postgres::{
    check_snapshot, check_stream_batch, decide_stream_append, is_unique_violation, map_sql_failure,
    more_pages, number_from, stored_from_row, EventRow, Snapshot, SqlFailure,
};
use forgeerp::redis::{
    parse_decimal_u32, parse_stream_entry, take_acks, RedisBusError, RedisPubSubEventBus, RedisStreamsError,
    RedisStreamsEventBus, RespValue,
};
use forgeerp::replay::{replay_step, ReplayAction, ReplayEvent, ReplayMachine, ReplayStage};
use forgeerp::replay::{completion, next_page_offset, relevant_events, replay_sequence, ReplayError, ReplayPhase, ReplayProgress, ReplayRun};
use forgeerp::runner::{Projection, ProjectionError, ProjectionRunner};
use forgeerp::saga::sales_ar::{SalesArSaga, SalesArSagaEvent, SalesArSagaState};
use forgeerp::saga::{Saga, SagaAction};
use forgeerp::sales::SalesOrderId;
use forgeerp::workers::ProjectionWorker;
use forgeerp::inventory::InventoryItemId;
use forgeerp::invoicing::InvoiceId;
use forgeerp::jobs::types::JobId;
use forgeerp::parties::PartyId;
use forgeerp::products::ProductId;

fn obj(members: Vec<(&str, Json)>) -> Json {
    Json::Object(members.into_iter().map(|(k, v)| (k.to_string(), v)).collect())
}

fn json_envelope(tenant: TenantId, aggregate: AggregateId, ty: &str, seq: u64, payload: Json) -> EventEnvelope<Json> {
    EventEnvelope::new(1, tenant, aggregate, ty.to_string(), seq, payload)
}

// ---- identifiers ------------------------------------------------------------

#[test]
fn uuid_text_round_trips() {
    let v: u128 = 0x0123_4567_89ab_cdef_0011_2233_4455_6677;
    let text = uuid_text(v);
    assert_eq!(text, "01234567-89ab-cdef-0011-223344556677");
    assert_eq!(text, uuid::Uuid::from_u128(v).to_string());
    assert_eq!(parse_uuid(&text), Ok(v));
    assert!(parse_uuid("not-a-uuid").is_err());
}

// ---- saga -------------------------------------------------------------------

#[test]
fn saga_correlates_orders_and_invoices() {
    let tenant = TenantId::new();
    let order = AggregateId::from_u128(77);
    let text = uuid_text(77);
    let from_order = json_envelope(tenant, order, "sales.order", 1, obj(vec![("order_id", Json::Str(text.clone()))]));
    assert_eq!(SalesArSaga::correlate(&from_order), Some(SalesOrderId(order)));
    let from_invoice = json_envelope(tenant, order, "invoicing.invoice", 1, obj(vec![("sales_order_id", Json::Str(text.clone()))]));
    assert_eq!(SalesArSaga::correlate(&from_invoice), Some(SalesOrderId(order)));
    let ledger = json_envelope(tenant, order, "accounting.ledger", 1, obj(vec![("order_id", Json::Str(text))]));
    assert_eq!(SalesArSaga::correlate(&ledger), None);
    let bad = json_envelope(tenant, order, "sales.order", 1, obj(vec![("order_id", Json::Int(5))]));
    assert_eq!(SalesArSaga::correlate(&bad), None);
    assert_eq!(SalesArSaga::saga_id(tenant, &SalesOrderId(order)), order);
    assert_eq!(SalesArSaga::saga_type(), "saga.sales_ar");
}

#[test]
fn saga_reacts_along_the_happy_path() {
    let tenant = TenantId::from_u128(1);
    let order = SalesOrderId(AggregateId::from_u128(2));
    let mut state = SalesArSaga::initial_state(tenant, &order);

    let confirmed = json_envelope(tenant, order.0, "sales.order", 1, obj(vec![("OrderConfirmed", Json::empty_object())]));
    let actions = SalesArSaga::react(&state, tenant, &order, &confirmed);
    assert_eq!(actions.len(), 3);
    match &actions[2] {
        SagaAction::Command { aggregate_type, command_type, payload } => {
            assert_eq!(aggregate_type, "Invoice");
            assert_eq!(command_type, "IssueInvoice");
            assert_eq!(
                payload.get("sales_order_id").and_then(|v| v.as_str()),
                Some("00000000-0000-0000-0000-000000000002")
            );
            assert_eq!(payload.get("tenant_id").and_then(|v| v.as_str()), Some("00000000-0000-0000-0000-000000000001"));
        },
        other => panic!("unexpected action {:?}", other),
    }
    SalesArSaga::apply(&mut state, &SalesArSagaEvent::OrderConfirmedReceived);
    SalesArSaga::apply(&mut state, &SalesArSagaEvent::InvoiceIssueRequested);
    assert!(matches!(state, SalesArSagaState::WaitingForInvoiceIssued));

    let issued = json_envelope(
        tenant,
        order.0,
        "invoicing.invoice",
        1,
        obj(vec![("InvoiceIssued", obj(vec![("invoice_id", Json::Str("inv-9".to_string()))]))]),
    );
    let actions = SalesArSaga::reaction(&state, tenant, order, &issued, 3, "2024-01-01T00:00:00Z");
    assert_eq!(actions.len(), 3);
    match &actions[2] {
        SagaAction::Command { aggregate_type, command_type, payload } => {
            assert_eq!(aggregate_type, "Ledger");
            assert_eq!(command_type, "PostJournalEntry");
            assert_eq!(payload.get("description").and_then(|v| v.as_str()), Some("AR for invoice inv-9"));
            assert_eq!(payload.get("entry_id").and_then(|v| v.as_str()), Some("00000000-0000-0000-0000-000000000003"));
            assert_eq!(payload.get("occurred_at").and_then(|v| v.as_str()), Some("2024-01-01T00:00:00Z"));
            assert_eq!(payload.first_key(), Some("description"));
        },
        other => panic!("unexpected action {:?}", other),
    }
    SalesArSaga::apply(&mut state, &SalesArSagaEvent::InvoiceIssuedReceived { invoice_id: "inv-9".to_string() });
    SalesArSaga::apply(&mut state, &SalesArSagaEvent::LedgerPostRequested);

    let posted = json_envelope(tenant, order.0, "accounting.ledger", 1, obj(vec![("JournalEntryPosted", Json::Null)]));
    let actions = SalesArSaga::react(&state, tenant, &order, &posted);
    assert_eq!(actions.len(), 2);
    assert!(matches!(actions[1], SagaAction::Complete));
    SalesArSaga::apply(&mut state, &SalesArSagaEvent::LedgerPostedReceived);
    assert!(matches!(state, SalesArSagaState::Completed));
    assert!(SalesArSaga::react(&state, tenant, &order, &posted).is_empty());
}

#[test]
fn saga_ignores_unrelated_events() {
    let tenant = TenantId::new();
    let order = SalesOrderId(AggregateId::new());
    let state = SalesArSagaState::default();
    let other = json_envelope(tenant, order.0, "sales.order", 1, obj(vec![("OrderCancelled", Json::Null)]));
    assert!(SalesArSaga::react(&state, tenant, &order, &other).is_empty());
    let mut failed = SalesArSagaState::WaitingForInvoiceIssued;
    SalesArSaga::apply(&mut failed, &SalesArSagaEvent::SagaFailed { reason: "x".to_string() });
    assert!(matches!(failed, SalesArSagaState::Failed));
}

// ---- projection runner ------------------------------------------------------

#[derive(Debug, PartialEq)]
struct Counter(u64);

impl Projection for Counter {
    type Ev = u64;

    fn after(self, envelope: EventEnvelope<u64>) -> Self {
        Counter(self.0 + *envelope.payload())
    }

    fn apply(&mut self, envelope: &EventEnvelope<u64>) {
        self.0 += *envelope.payload();
    }
}

fn counted(tenant: TenantId, seq: u64, amount: u64) -> EventEnvelope<u64> {
    EventEnvelope::new(seq as u128, tenant, AggregateId::from_u128(1), "t".to_string(), seq, amount)
}

#[test]
fn runner_applies_in_order_and_refuses_duplicates() {
    let tenant = TenantId::new();
    let mut runner = ProjectionRunner::new(Counter(0));
    assert!(runner.cursor().is_none());
    runner.apply(&counted(tenant, 3, 5)).unwrap();
    assert_eq!(runner.cursor().unwrap().last_sequence_number(), 3);
    assert_eq!(
        runner.apply(&counted(tenant, 3, 5)),
        Err(ProjectionError::NonMonotonicSequence { last: 3, found: 3 })
    );
    let other = TenantId::new();
    assert_eq!(
        runner.apply(&counted(other, 4, 1)),
        Err(ProjectionError::TenantMismatch { expected: tenant, found: other })
    );
    runner.apply(&counted(tenant, 9, 2)).unwrap();
    assert_eq!(runner.projection(), &Counter(7));
}

#[test]
fn runner_rebuilds_and_stops_at_first_refusal() {
    let tenant = TenantId::new();
    let envs = vec![counted(tenant, 1, 1), counted(tenant, 2, 2), counted(tenant, 2, 4), counted(tenant, 5, 8)];
    let r = ProjectionRunner::rebuild_from_scratch(|| Counter(0), &envs);
    assert_eq!(r.unwrap_err(), ProjectionError::NonMonotonicSequence { last: 2, found: 2 });
    let ok = ProjectionRunner::rebuild_from_scratch(|| Counter(10), &envs[..2].to_vec()).unwrap();
    assert_eq!(ok.0, Counter(13));
    assert_eq!(ok.1.unwrap().last_sequence_number(), 2);
    let pinned = ProjectionRunner::new_for_tenant(tenant, Counter(0));
    assert_eq!(pinned.cursor().unwrap().tenant_id(), tenant);
    assert_eq!(pinned.cursor().unwrap().last_sequence_number(), 0);
}

// ---- event store --------------------------------------------------------------

fn pending(tenant: TenantId, agg: AggregateId, id: u128) -> UncommittedEvent<u64> {
    UncommittedEvent {
        event_id: id,
        tenant_id: tenant,
        aggregate_id: agg,
        aggregate_type: "t".to_string(),
        event_type: "e".to_string(),
        event_version: 1,
        occurred_at: Timestamp::from_millis(0),
        payload: id as u64,
    }
}

#[test]
fn append_then_load_reads_back_what_was_written() {
    let mut store: InMemoryEventStore<u64> = InMemoryEventStore::new();
    let tenant = TenantId::new();
    let agg = AggregateId::new();
    let first = store.append(vec![pending(tenant, agg, 1), pending(tenant, agg, 2)], ExpectedVersion::Exact(0)).unwrap();
    assert_eq!(first.iter().map(|e| e.sequence_number).collect::<Vec<_>>(), vec![1, 2]);
    let second = store.append(vec![pending(tenant, agg, 3)], ExpectedVersion::Any).unwrap();
    assert_eq!(second[0].sequence_number, 3);
    let loaded = store.load_stream(tenant, agg).unwrap();
    assert_eq!(loaded.iter().map(|e| e.payload).collect::<Vec<_>>(), vec![1, 2, 3]);
    // A stale expectation is a conflict and changes nothing.
    let stale = store.append(vec![pending(tenant, agg, 4)], ExpectedVersion::Exact(1));
    assert!(matches!(stale, Err(EventStoreError::Concurrency(_))));
    assert_eq!(store.load_stream(tenant, agg).unwrap().len(), 3);
    // Another tenant sees nothing of it.
    assert!(store.load_stream(TenantId::new(), agg).unwrap().is_empty());
}

#[test]
fn identifiers_display_as_hyphenated_uuids() {
    let raw: u128 = 0xa1a2a3a4_b1b2_c1c2_d1d2_d3d4d5d6d7d8;
    let text = "a1a2a3a4-b1b2-c1c2-d1d2-d3d4d5d6d7d8";
    let agg = AggregateId::from_u128(raw);
    assert_eq!(JobId::from_uuid(raw).display_text(), text);
    assert_eq!(PartyId::new(agg).display_text(), text);
    assert_eq!(InvoiceId::new(agg).display_text(), text);
    assert_eq!(ProductId::new(agg).display_text(), text);
    assert_eq!(InventoryItemId::new(agg).display_text(), text);
}

#[test]
fn refusal_messages_name_what_was_wrong() {
    let mut store: InMemoryEventStore<u64> = InMemoryEventStore::new();
    let tenant = TenantId::new();
    let agg = AggregateId::new();
    match store.append(vec![pending(tenant, agg, 1)], ExpectedVersion::Exact(12)) {
        Err(EventStoreError::Concurrency(m)) => assert_eq!(m, "expected Exact(12), found 0"),
        other => panic!("{:?}", other),
    }
    let mixed = vec![pending(tenant, agg, 1), pending(tenant, AggregateId::new(), 2)];
    match store.append(mixed, ExpectedVersion::Any) {
        Err(EventStoreError::InvalidAppend(m)) => assert_eq!(m, "batch contains multiple aggregate_ids (index 1)"),
        other => panic!("{:?}", other),
    }
    match decide_stream_append(1234567, Some("t"), "t", ExpectedVersion::Any) {
        Ok(first) => assert_eq!(first, 1234568),
        other => panic!("{:?}", other),
    }
    match decide_stream_append(40, Some("a"), "b", ExpectedVersion::Any) {
        Err(EventStoreError::AggregateTypeMismatch(m)) => {
            assert_eq!(m, "stream aggregate_type is 'a', attempted append with 'b'")
        }
        other => panic!("{:?}", other),
    }
    match decide_stream_append(40, None, "b", ExpectedVersion::Exact(7)) {
        Err(EventStoreError::Concurrency(m)) => {
            assert_eq!(m, "optimistic concurrency check failed: expected Exact(7), found 40")
        }
        other => panic!("{:?}", other),
    }
}

// ---- replay -------------------------------------------------------------------

fn stored(tenant: u128, agg: u128, seq: u64, ty: &str) -> StoredEvent<Json> {
    StoredEvent {
        event_id: seq as u128,
        tenant_id: TenantId::from_u128(tenant),
        aggregate_id: AggregateId::from_u128(agg),
        aggregate_type: ty.to_string(),
        sequence_number: seq,
        event_type: "e".to_string(),
        event_version: 1,
        occurred_at: Timestamp::from_millis(0),
        payload: Json::Null,
    }
}

#[test]
fn replay_filters_orders_and_reports_progress() {
    let page = vec![stored(1, 9, 2, "a"), stored(1, 3, 1, "b"), stored(1, 9, 1, "a"), stored(1, 3, 2, "a")];
    let kept = relevant_events(&page, &vec!["a".to_string()]);
    assert_eq!(kept.len(), 3);
    let order = replay_sequence(&kept);
    let keys: Vec<(u128, u64)> = order.iter().map(|&i| (kept[i].aggregate_id.0, kept[i].sequence_number)).collect();
    assert_eq!(keys, vec![(3, 2), (9, 1), (9, 2)]);

    let mut run = ReplayRun::new();
    run.loaded(kept.len());
    run.enter(ReplayPhase::Replaying);
    for &i in &order {
        run.event_replayed(kept[i].aggregate_id);
    }
    assert_eq!(run.progress.processed_events, 3);
    assert_eq!(run.progress.processed_aggregates, 2);
    assert_eq!(run.progress.total_events, 3);
    assert!(completion(&run.progress).is_none());
    run.finish(&Ok(()));
    assert!(matches!(completion(&run.progress), Some(Ok(p)) if p.phase == ReplayPhase::Complete));

    let mut cancelled = ReplayRun::new();
    cancelled.finish(&Err(ReplayError::Cancelled));
    assert_eq!(cancelled.progress.error.as_deref(), Some("Replay cancelled"));
    assert!(matches!(completion(&cancelled.progress), Some(Err(ReplayError::Projection(m))) if m == "Replay cancelled"));

    let mut failed = ReplayProgress::new();
    failed.phase = ReplayPhase::Failed;
    assert!(matches!(completion(&failed), Some(Err(ReplayError::Cancelled))));

    assert_eq!(ReplayError::Projection("boom".to_string()).message(), "projection error: boom");
    assert_eq!(
        ReplayError::EventStore(EventStoreError::Concurrency("x".to_string())).message(),
        "event store error: optimistic concurrency check failed: x"
    );
    assert_eq!(next_page_offset(0, true), Some(1000));
    assert_eq!(next_page_offset(1000, false), None);
}

// ---- postgres decisions -------------------------------------------------------

#[test]
fn sql_failures_are_classified() {
    let unique = SqlFailure::Database { message: "dup".to_string(), code: Some("23505".to_string()) };
    assert!(is_unique_violation(&unique));
    match map_sql_failure("insert_event", &unique) {
        EventStoreError::Concurrency(m) => assert_eq!(m, "database error in insert_event: dup"),
        e => panic!("{:?}", e),
    }
    let check = SqlFailure::Database { message: "bad".to_string(), code: Some("23514".to_string()) };
    assert!(!is_unique_violation(&check));
    assert!(matches!(map_sql_failure("x", &check), EventStoreError::InvalidAppend(_)));
    match map_sql_failure("load_stream", &SqlFailure::PoolClosed) {
        EventStoreError::InvalidAppend(m) => assert_eq!(m, "connection pool closed in load_stream"),
        e => panic!("{:?}", e),
    }
    match map_sql_failure("q", &SqlFailure::Other("net".to_string())) {
        EventStoreError::InvalidAppend(m) => assert_eq!(m, "sqlx error in q: net"),
        e => panic!("{:?}", e),
    }
    match map_sql_failure("q", &SqlFailure::RowNotFound) {
        EventStoreError::InvalidAppend(m) => assert_eq!(m, "unexpected row not found in q"),
        e => panic!("{:?}", e),
    }
}

#[test]
fn postgres_append_is_checked_and_numbered() {
    let tenant = TenantId::from_u128(1);
    let agg = AggregateId::from_u128(2);
    let batch = vec![
        UncommittedEvent { payload: Json::Int(1), ..pending_json(tenant, agg) },
        UncommittedEvent { payload: Json::Int(2), ..pending_json(tenant, agg) },
    ];
    assert!(check_stream_batch(tenant, agg, &batch).is_ok());
    match check_stream_batch(TenantId::from_u128(5), agg, &batch) {
        Err(EventStoreError::TenantIsolation(m)) => assert_eq!(
            m,
            "event tenant_id mismatch: expected 00000000-0000-0000-0000-000000000005, got 00000000-0000-0000-0000-000000000001"
        ),
        other => panic!("{:?}", other),
    }
    let mixed = vec![pending_json(tenant, agg), pending_json(tenant, AggregateId::from_u128(3))];
    assert!(matches!(check_stream_batch(tenant, agg, &mixed), Err(EventStoreError::InvalidAppend(_))));

    assert_eq!(decide_stream_append(4, Some("t"), "t", ExpectedVersion::Exact(4)).unwrap(), 5);
    assert!(matches!(
        decide_stream_append(4, Some("t"), "t", ExpectedVersion::Exact(3)),
        Err(EventStoreError::Concurrency(_))
    ));
    assert!(matches!(
        decide_stream_append(4, Some("other"), "t", ExpectedVersion::Exact(3)),
        Err(EventStoreError::AggregateTypeMismatch(_))
    ));
    let numbered = number_from(batch, 5);
    assert_eq!(numbered.iter().map(|e| e.sequence_number).collect::<Vec<_>>(), vec![5, 6]);
    assert!(matches!(numbered[1].payload, Json::Int(2)));
    assert!(more_pages(25, 10, 10));
    assert!(!more_pages(20, 10, 10));

    let row = stored_from_row(EventRow {
        event_id: 9,
        tenant_id: 1,
        aggregate_id: 2,
        aggregate_type: "t".to_string(),
        sequence_number: 7,
        event_type: "e".to_string(),
        event_version: 2,
        occurred_at: Timestamp::from_millis(5),
        payload: Json::Null,
    });
    assert_eq!(row.sequence_number, 7);
    assert_eq!(row.event_version, 2);

    let snap = Snapshot {
        tenant_id: tenant,
        aggregate_id: agg,
        aggregate_type: "t".to_string(),
        version: 3,
        state: Json::Null,
        created_at: Timestamp::from_millis(0),
    };
    assert!(check_snapshot(tenant, agg, &snap).is_ok());
    assert!(matches!(check_snapshot(tenant, AggregateId::from_u128(8), &snap), Err(EventStoreError::InvalidAppend(_))));
}

fn pending_json(tenant: TenantId, agg: AggregateId) -> UncommittedEvent<Json> {
    UncommittedEvent {
        event_id: 1,
        tenant_id: tenant,
        aggregate_id: agg,
        aggregate_type: "t".to_string(),
        event_type: "e".to_string(),
        event_version: 1,
        occurred_at: Timestamp::from_millis(0),
        payload: Json::Null,
    }
}

// ---- redis ----------------------------------------------------------------------

fn data(s: &str) -> RespValue {
    RespValue::Data(s.to_string())
}

#[test]
fn stream_entries_are_read() {
    let tenant = TenantId::from_u128(7);
    let entry = RespValue::Bulk(vec![
        data("1-0"),
        RespValue::Bulk(vec![
            data("tenant_id"),
            data(&uuid_text(7)),
            data("payload"),
            data("{}"),
            data("retry_count"),
            data("3"),
            data("payload"),
            data("{\"x\":1}"),
            data("dangling"),
        ]),
    ]);
    let parsed = parse_stream_entry(&entry, Some(tenant)).unwrap();
    assert_eq!(parsed.message_id, "1-0");
    assert_eq!(parsed.payload, "{\"x\":1}");
    assert_eq!(parsed.retry_count, 3);
    match parse_stream_entry(&entry, Some(TenantId::from_u128(8))) {
        Err(RedisStreamsError::Deserialization(m)) => assert_eq!(m, "Tenant mismatch (skipping)"),
        other => panic!("{:?}", other),
    }
    match parse_stream_entry(&RespValue::Bulk(vec![data("1-0")]), None) {
        Err(RedisStreamsError::Deserialization(m)) => assert_eq!(m, "Entry too short"),
        other => panic!("{:?}", other),
    }
    let no_tenant = RespValue::Bulk(vec![RespValue::Bulk(vec![data("2-0")]), RespValue::Bulk(vec![])]);
    match parse_stream_entry(&no_tenant, None) {
        Err(RedisStreamsError::Deserialization(m)) => assert_eq!(m, "Missing tenant_id field"),
        other => panic!("{:?}", other),
    }
    assert_eq!(RedisStreamsError::Command("x".to_string()).message(), "Redis command error: x");
}

#[test]
fn decimal_counts_parse_like_std() {
    for t in ["0", "+7", "4294967295", "", "+", "-1", "12a", "4294967296", " 1"] {
        assert_eq!(parse_decimal_u32(t), t.parse::<u32>().ok(), "{t}");
    }
}

#[test]
fn acknowledgements_are_taken_in_order() {
    let mut unacked = vec!["a".to_string(), "b".to_string(), "c".to_string()];
    assert_eq!(take_acks(&mut unacked, 2), vec!["a".to_string(), "b".to_string()]);
    assert_eq!(unacked, vec!["c".to_string()]);
    assert!(take_acks(&mut unacked, 2).is_empty());
    assert_eq!(unacked.len(), 1);
}

// ---- ai runner and workers -----------------------------------------------------------

#[test]
fn anomaly_backoff_and_retries() {
    assert_eq!(backoff(250, 1), 250);
    assert_eq!(backoff(250, 3), 1000);
    assert_eq!(backoff(250, 20), 10_000);
    assert_eq!(backoff(1, 50), 1024);
    assert_eq!(backoff(250, 0), 250);
    assert_eq!(after_failure(0, 5, 250), (1, Some(250)));
    assert_eq!(after_failure(5, 5, 250), (0, None));
    assert_eq!(next_tick(100, 50, 60), 100);
    assert_eq!(next_tick(100, 100, 60), 160);
    assert_eq!(next_tick(100, 290, 60), 340);
    assert_eq!(AnomalySchedule::default().interval_ms, 60_000);
}

#[test]
fn pinned_workers_take_only_their_tenant() {
    let t = TenantId::from_u128(1);
    assert!(ProjectionWorker::admits(Some(t), t));
    assert!(!ProjectionWorker::admits(Some(t), TenantId::from_u128(2)));
    assert!(ProjectionWorker::admits(None, t));
}

#[test]
fn redis_buses_accept_only_valid_urls() {
    let bus = RedisPubSubEventBus::new("redis://127.0.0.1:6379", "forgeerp.events").unwrap();
    assert_eq!(bus.channel, "forgeerp.events");
    assert!(matches!(RedisPubSubEventBus::new("not a url", "x"), Err(RedisBusError::Redis(_))));

    let streams = RedisStreamsEventBus::new("redis://127.0.0.1:6379", None, None).unwrap();
    assert_eq!(streams.stream_key, "forgeerp:events");
    assert_eq!(streams.dlq_key, "forgeerp:events:dlq");
    assert_eq!(streams.max_retries, 5);
    assert_eq!(streams.pending_timeout_ms, 60_000);
    assert!(streams.dead_letters(5));
    assert!(!streams.dead_letters(4));
    let named = RedisStreamsEventBus::new("redis://localhost", Some("s".to_string()), Some("d".to_string())).unwrap();
    assert_eq!((named.stream_key.as_str(), named.dlq_key.as_str()), ("s", "d"));
    assert!(matches!(
        RedisStreamsEventBus::new("not a url", None, None),
        Err(RedisStreamsError::Connection(_))
    ));
}

#[test]
fn replay_machine_clears_then_applies_in_order() {
    let mut m = ReplayMachine::new(vec!["a".to_string()], false);
    assert!(matches!(replay_step(&mut m, ReplayEvent::Applied), ReplayAction::Idle));
    assert!(matches!(replay_step(&mut m, ReplayEvent::Start), ReplayAction::LoadPage(0)));
    let page = vec![stored(1, 9, 2, "a"), stored(1, 3, 1, "b"), stored(1, 9, 1, "a")];
    match replay_step(&mut m, ReplayEvent::PageLoaded { events: page, has_more: true }) {
        ReplayAction::LoadPage(o) => assert_eq!(o, 1000),
        other => panic!("{:?}", other),
    }
    let page2 = vec![stored(1, 3, 2, "a")];
    assert!(matches!(replay_step(&mut m, ReplayEvent::PageLoaded { events: page2, has_more: false }), ReplayAction::Clear));
    assert_eq!(m.progress().total_events, 3);
    let mut applied: Vec<(u128, u64)> = Vec::new();
    let mut action = replay_step(&mut m, ReplayEvent::Cleared);
    loop {
        match action {
            ReplayAction::Apply(i) => {
                let e = m.event(i);
                applied.push((e.aggregate_id.0, e.sequence_number));
                action = replay_step(&mut m, ReplayEvent::Applied);
            }
            ReplayAction::Finish(r) => {
                assert!(r.is_ok());
                break;
            }
            other => panic!("{:?}", other),
        }
    }
    assert_eq!(applied, vec![(3, 2), (9, 1), (9, 2)]);
    let p = m.progress();
    assert_eq!((p.processed_events, p.processed_aggregates, p.is_complete), (3, 2, true));
    assert_eq!(p.phase, ReplayPhase::Complete);
    assert!(matches!(replay_step(&mut m, ReplayEvent::Start), ReplayAction::Idle));
}

#[test]
fn replay_machine_dry_run_counts_without_touching() {
    let mut m = ReplayMachine::new(vec!["a".to_string()], true);
    replay_step(&mut m, ReplayEvent::Start);
    let page = vec![stored(1, 9, 2, "a"), stored(1, 3, 1, "a")];
    assert!(matches!(replay_step(&mut m, ReplayEvent::PageLoaded { events: page, has_more: false }), ReplayAction::Finish(Ok(()))));
    let p = m.progress();
    assert_eq!((p.total_events, p.processed_events, p.processed_aggregates), (2, 2, 2));
    assert_eq!(p.phase, ReplayPhase::Complete);
}

#[test]
fn replay_machine_stops_at_the_first_failure_and_on_cancel() {
    let mut m = ReplayMachine::new(vec!["a".to_string()], false);
    replay_step(&mut m, ReplayEvent::Start);
    replay_step(&mut m, ReplayEvent::PageLoaded { events: vec![stored(1, 2, 1, "a"), stored(1, 2, 2, "a")], has_more: false });
    assert!(matches!(replay_step(&mut m, ReplayEvent::Cleared), ReplayAction::Apply(_)));
    match replay_step(&mut m, ReplayEvent::ApplyFailed("bad".to_string())) {
        ReplayAction::Finish(Err(ReplayError::Projection(msg))) => assert_eq!(msg, "bad"),
        other => panic!("{:?}", other),
    }
    assert_eq!(m.progress().error.as_deref(), Some("projection error: bad"));
    assert_eq!(m.progress().phase, ReplayPhase::Failed);

    let mut c = ReplayMachine::new(vec!["a".to_string()], false);
    replay_step(&mut c, ReplayEvent::Start);
    assert!(matches!(replay_step(&mut c, ReplayEvent::Cancelled), ReplayAction::Finish(Err(ReplayError::Cancelled))));
    assert_eq!(c.progress().error.as_deref(), Some("Replay cancelled"));
    let _ = ReplayStage::Done;
}

#[test]
fn insights_are_kept_in_order() {
    let mut sink: InMemoryAiInsightSink<u64> = InMemoryAiInsightSink::new();
    let t1 = TenantId::from_u128(1);
    let t2 = TenantId::from_u128(2);
    sink.emit(t1, 7);
    sink.emit(t2, 9);
    assert_eq!(sink.all(), vec![(t1, 7), (t2, 9)]);
}

#[test]
fn event_query_reads_through_the_trait() {
    fn by_id<Q: EventQuery<u64>>(q: &Q, t: TenantId, id: u128) -> Option<u64> {
        q.get_event_by_id(t, id).unwrap().map(|e| e.payload)
    }
    let mut store: InMemoryEventStore<u64> = InMemoryEventStore::new();
    let tenant = TenantId::new();
    let agg = AggregateId::new();
    store.append(vec![pending(tenant, agg, 11)], ExpectedVersion::Exact(0)).unwrap();
    let id = store.load_stream(tenant, agg).unwrap()[0].event_id;
    assert_eq!(by_id(&store, tenant, id), Some(11));
    assert_eq!(by_id(&store, TenantId::new(), id), None);
    let page = EventQuery::get_aggregate_events(&store, tenant, agg, None).unwrap();
    assert_eq!(page.total, 1);
    assert!(!page.has_more);
}
