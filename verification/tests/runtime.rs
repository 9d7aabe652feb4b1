use forgeerp::ai::{runner_start, runner_step, AnomalySchedule, RunnerAction, RunnerEvent, RunnerState};
use forgeerp::bus::{EventBus, InMemoryEventBus};
use forgeerp::common::{AggregateId, ExpectedVersion, TenantId, Timestamp};
use forgeerp::event_store::{EventStore, EventStoreError, InMemoryEventStore, PublishingEventStore, UncommittedEvent};
use forgeerp::events::EventEnvelope;
use forgeerp::inventory::{InventoryEvent, InventoryItemId, ItemCreated, StockAdjusted};
use forgeerp::jobs::store::{InMemoryJobStore, JobStore};
use forgeerp::projections::inventory_stock::InventoryStockProjection;

fn schedule() -> AnomalySchedule {
    AnomalySchedule { interval_ms: 1000, max_retries: 2, base_backoff_ms: 100, window: 10 }
}

#[test]
fn runner_starts_with_a_run_owed() {
    let s = runner_start(&schedule());
    assert_eq!(s, RunnerState { tick: 1000, pending: true, failures: 0, backoff_until: None });
    let (s, a) = runner_step(s, &schedule(), RunnerEvent::Poll { now: 0, triggered: false });
    assert_eq!(a, RunnerAction::Run);
    assert!(!s.pending);
    let (s, a) = runner_step(s, &schedule(), RunnerEvent::RunSucceeded);
    assert_eq!(a, RunnerAction::Poll);
    assert_eq!(s.failures, 0);
}

#[test]
fn idle_runner_sleeps_until_its_tick_at_most_a_quarter_second() {
    let idle = RunnerState { tick: 1000, pending: false, failures: 0, backoff_until: None };
    assert_eq!(runner_step(idle, &schedule(), RunnerEvent::Poll { now: 10, triggered: false }).1, RunnerAction::Sleep(250));
    assert_eq!(runner_step(idle, &schedule(), RunnerEvent::Poll { now: 900, triggered: false }).1, RunnerAction::Sleep(100));
}

#[test]
fn due_tick_runs_and_keeps_the_cadence() {
    let idle = RunnerState { tick: 1000, pending: false, failures: 0, backoff_until: None };
    let (s, a) = runner_step(idle, &schedule(), RunnerEvent::Poll { now: 2500, triggered: false });
    assert_eq!(a, RunnerAction::Run);
    assert_eq!(s.tick, 3000);
}

#[test]
fn triggers_coalesce_into_one_run() {
    let idle = RunnerState { tick: 1000, pending: false, failures: 0, backoff_until: None };
    let (s, a) = runner_step(idle, &schedule(), RunnerEvent::Poll { now: 10, triggered: true });
    assert_eq!(a, RunnerAction::Run);
    let (_, a) = runner_step(s, &schedule(), RunnerEvent::Poll { now: 20, triggered: false });
    assert_eq!(a, RunnerAction::Sleep(250));
}

#[test]
fn failure_backs_off_then_retries_until_the_retries_are_spent() {
    let idle = RunnerState { tick: 1000, pending: false, failures: 0, backoff_until: None };
    let (s, a) = runner_step(idle, &schedule(), RunnerEvent::RunFailed { now: 100 });
    assert_eq!(a, RunnerAction::Poll);
    assert_eq!(s, RunnerState { tick: 1000, pending: true, failures: 1, backoff_until: Some(200) });
    let (s, a) = runner_step(s, &schedule(), RunnerEvent::Poll { now: 150, triggered: false });
    assert_eq!(a, RunnerAction::Sleep(50));
    assert_eq!(s.backoff_until, Some(200));
    let (s, a) = runner_step(s, &schedule(), RunnerEvent::Poll { now: 200, triggered: false });
    assert_eq!(a, RunnerAction::Run);
    assert_eq!(s.backoff_until, None);
    let (s, _) = runner_step(s, &schedule(), RunnerEvent::RunFailed { now: 210 });
    assert_eq!(s, RunnerState { tick: 1000, pending: true, failures: 2, backoff_until: Some(410) });
    let (s, _) = runner_step(s, &schedule(), RunnerEvent::Poll { now: 410, triggered: false });
    let (s, a) = runner_step(s, &schedule(), RunnerEvent::RunFailed { now: 420 });
    assert_eq!(a, RunnerAction::Poll);
    assert_eq!(s, RunnerState { tick: 1000, pending: false, failures: 0, backoff_until: None });
}

#[test]
fn later_subscriber_misses_earlier_messages() {
    let mut bus: InMemoryEventBus<u32> = InMemoryEventBus::new();
    let first = bus.subscribe();
    bus.publish(1).unwrap();
    let second = bus.subscribe();
    bus.publish(2).unwrap();
    assert_eq!(first.try_recv().unwrap(), 1);
    assert_eq!(first.try_recv().unwrap(), 2);
    assert_eq!(second.try_recv().unwrap(), 2);
    assert!(second.try_recv().is_err());
}

fn pending(tenant: TenantId, agg: AggregateId, id: u128) -> UncommittedEvent<u64> {
    UncommittedEvent {
        event_id: id,
        tenant_id: tenant,
        aggregate_id: agg,
        aggregate_type: "t".to_string(),
        event_type: "e".to_string(),
        event_version: 1,
        occurred_at: Timestamp::from_millis(0),
        payload: id as u64,
    }
}

#[test]
fn publishing_store_passes_on_the_inner_refusal_and_publishes_nothing() {
    let tenant = TenantId::from_u128(1);
    let agg = AggregateId::from_u128(2);
    let mut alone: InMemoryEventStore<u64> = InMemoryEventStore::new();
    alone.append(vec![pending(tenant, agg, 1)], ExpectedVersion::Any).unwrap();
    let mut inner: InMemoryEventStore<u64> = InMemoryEventStore::new();
    inner.append(vec![pending(tenant, agg, 1)], ExpectedVersion::Any).unwrap();
    let mut bus: InMemoryEventBus<EventEnvelope<u64>> = InMemoryEventBus::new();
    let sub = bus.subscribe();
    let mut store = PublishingEventStore::new(inner, bus);
    let direct = alone.append(vec![pending(tenant, agg, 2)], ExpectedVersion::Exact(5)).unwrap_err();
    let wrapped = store.append(vec![pending(tenant, agg, 2)], ExpectedVersion::Exact(5)).unwrap_err();
    assert_eq!(format!("{:?}", wrapped), format!("{:?}", direct));
    assert!(matches!(&wrapped, EventStoreError::Concurrency(m) if m == "expected Exact(5), found 1"));
    assert!(sub.try_recv().is_err());
}

#[test]
fn shared_job_store_starts_empty() {
    let store = InMemoryJobStore::arc();
    let tenant = TenantId::from_u128(3);
    assert!(store.list_dead_letters(tenant, 10).unwrap().is_empty());
    assert!(store.list_by_status(tenant, None, 10).unwrap().is_empty());
}

fn stock_envelope(tenant: TenantId, item: InventoryItemId, seq: u64, ev: InventoryEvent) -> EventEnvelope<Result<InventoryEvent, String>> {
    EventEnvelope::new(seq as u128, tenant, item.0, "inventory.item".to_string(), seq, Ok(ev))
}

#[test]
fn seeded_cursor_resumes_where_the_stream_stopped() {
    let tenant = TenantId::from_u128(4);
    let item = InventoryItemId(AggregateId::from_u128(5));
    let mut proj = InventoryStockProjection::new();
    let created = InventoryEvent::ItemCreated(ItemCreated { tenant_id: tenant, item_id: item, name: "W".to_string(), occurred_at: Timestamp::from_millis(0) });
    proj.apply_envelope(&stock_envelope(tenant, item, 1, created)).unwrap();
    assert_eq!(proj.stream_cursor(tenant, item.0), 1);
    proj.seed_cursor(tenant, item.0, 2);
    assert_eq!(proj.stream_cursor(tenant, item.0), 2);
    let replayed = InventoryEvent::StockAdjusted(StockAdjusted { tenant_id: tenant, item_id: item, delta: 7, occurred_at: Timestamp::from_millis(0) });
    proj.apply_envelope(&stock_envelope(tenant, item, 2, replayed)).unwrap();
    assert_eq!(proj.get(tenant, &item).unwrap().quantity, 0);
    let next = InventoryEvent::StockAdjusted(StockAdjusted { tenant_id: tenant, item_id: item, delta: 5, occurred_at: Timestamp::from_millis(0) });
    proj.apply_envelope(&stock_envelope(tenant, item, 3, next)).unwrap();
    assert_eq!(proj.stream_cursor(tenant, item.0), 3);
    assert_eq!(proj.get(tenant, &item).unwrap().quantity, 5);
    assert_eq!(proj.stream_cursor(TenantId::from_u128(9), item.0), 0);
}
