//! Command → event store → event bus → projection → read model.
use forgeerp::bus::{EventBus, InMemoryEventBus, Subscription};
use forgeerp::common::{AggregateId, TenantId, Timestamp};
use forgeerp::dispatcher::{CommandDispatcher, DispatchError};
use forgeerp::event_store::InMemoryEventStore;
use forgeerp::events::EventEnvelope;
use forgeerp::inventory::{AdjustStock, CreateItem, InventoryCommand, InventoryEvent, InventoryItem, InventoryItemId};
use forgeerp::projections::inventory_stock::InventoryStockProjection;

type Dispatcher = CommandDispatcher<InMemoryEventStore<InventoryEvent>, InMemoryEventBus<EventEnvelope<InventoryEvent>>>;

fn test_tenant_id() -> TenantId {
    TenantId::new()
}

fn test_item_id() -> InventoryItemId {
    InventoryItemId::new(AggregateId::new())
}

struct Pipeline {
    dispatcher: Dispatcher,
    subscription: Subscription<EventEnvelope<InventoryEvent>>,
    projection: InventoryStockProjection,
}

fn setup() -> Pipeline {
    let store = InMemoryEventStore::new();
    let mut bus: InMemoryEventBus<EventEnvelope<InventoryEvent>> = InMemoryEventBus::new();
    // Subscribe to the bus BEFORE any events are published.
    let subscription = bus.subscribe();
    let dispatcher = CommandDispatcher::new(store, bus);
    Pipeline { dispatcher, subscription, projection: InventoryStockProjection::new() }
}

impl Pipeline {
    fn dispatch(
        &mut self,
        tenant_id: TenantId,
        item_id: InventoryItemId,
        command: InventoryCommand,
    ) -> Result<usize, DispatchError> {
        self.dispatcher
            .dispatch(tenant_id, item_id.0, "inventory.item".to_string(), command, InventoryItem::empty(item_id))
            .map(|stored| stored.len())
    }

    /// Deliver what was published to the projection.
    fn wait_for_processing(&mut self) {
        while let Ok(env) = self.subscription.try_recv() {
            let typed = EventEnvelope::new(
                env.event_id(),
                env.tenant_id(),
                env.aggregate_id(),
                env.aggregate_type().to_string(),
                env.sequence_number(),
                Ok(env.payload().clone()),
            );
            if let Err(e) = self.projection.apply_envelope(&typed) {
                println!("Failed to apply envelope: {:?}", e);
            }
        }
    }
}

fn create(tenant_id: TenantId, item_id: InventoryItemId, name: &str) -> InventoryCommand {
    InventoryCommand::CreateItem(CreateItem { tenant_id, item_id, name: name.to_string(), occurred_at: Timestamp::now() })
}

fn adjust(tenant_id: TenantId, item_id: InventoryItemId, delta: i64) -> InventoryCommand {
    InventoryCommand::AdjustStock(AdjustStock { tenant_id, item_id, delta, occurred_at: Timestamp::now() })
}

#[test]
fn command_creates_item_and_updates_read_model() {
    let mut p = setup();
    let tenant_id = test_tenant_id();
    let item_id = test_item_id();

    let result = p.dispatch(tenant_id, item_id, create(tenant_id, item_id, "Test Item"));
    assert!(result.is_ok());
    assert_eq!(result.unwrap(), 1);

    p.wait_for_processing();

    let read_model = p.projection.get(tenant_id, &item_id);
    assert!(read_model.is_some());
    let rm = read_model.unwrap();
    assert_eq!(rm.item_id, item_id);
    assert_eq!(rm.name, "Test Item");
    assert_eq!(rm.quantity, 0);
}

#[test]
fn command_adjusts_stock_and_updates_read_model() {
    let mut p = setup();
    let tenant_id = test_tenant_id();
    let item_id = test_item_id();

    p.dispatch(tenant_id, item_id, create(tenant_id, item_id, "Test Item")).unwrap();
    p.wait_for_processing();

    p.dispatch(tenant_id, item_id, adjust(tenant_id, item_id, 10)).unwrap();
    p.wait_for_processing();

    let read_model = p.projection.get(tenant_id, &item_id).unwrap();
    assert_eq!(read_model.quantity, 10);
}

#[test]
fn multiple_commands_accumulate_in_read_model() {
    let mut p = setup();
    let tenant_id = test_tenant_id();
    let item_id = test_item_id();

    p.dispatch(tenant_id, item_id, create(tenant_id, item_id, "Test Item")).unwrap();
    p.wait_for_processing();

    for delta in [5, 10, -3, 7] {
        p.dispatch(tenant_id, item_id, adjust(tenant_id, item_id, delta)).unwrap();
        p.wait_for_processing();
    }

    // Final stock should be 5 + 10 - 3 + 7 = 19
    let read_model = p.projection.get(tenant_id, &item_id).unwrap();
    assert_eq!(read_model.quantity, 19);
}

#[test]
fn tenant_isolation_preserved() {
    let mut p = setup();
    let tenant1 = test_tenant_id();
    let tenant2 = test_tenant_id();
    let item1_id = test_item_id();
    let item2_id = test_item_id();

    p.dispatch(tenant1, item1_id, create(tenant1, item1_id, "Tenant 1 Item")).unwrap();
    p.dispatch(tenant2, item2_id, create(tenant2, item2_id, "Tenant 2 Item")).unwrap();
    p.wait_for_processing();

    let tenant1_items = p.projection.list(tenant1);
    assert_eq!(tenant1_items.len(), 1);
    assert_eq!(tenant1_items[0].item_id, item1_id);
    assert_eq!(tenant1_items[0].name, "Tenant 1 Item");

    let tenant2_items = p.projection.list(tenant2);
    assert_eq!(tenant2_items.len(), 1);
    assert_eq!(tenant2_items[0].item_id, item2_id);
    assert_eq!(tenant2_items[0].name, "Tenant 2 Item");

    assert!(p.projection.get(tenant1, &item2_id).is_none());
    assert!(p.projection.get(tenant2, &item1_id).is_none());
}

#[test]
fn optimistic_concurrency_conflict_detected() {
    let mut p = setup();
    let tenant_id = test_tenant_id();
    let item_id = test_item_id();

    p.dispatch(tenant_id, item_id, create(tenant_id, item_id, "Test Item")).unwrap();
    p.wait_for_processing();

    // First adjustment (succeeds)
    p.dispatch(tenant_id, item_id, adjust(tenant_id, item_id, 10)).unwrap();
    p.wait_for_processing();

    // Another command, based on the updated version, also succeeds.
    p.dispatch(tenant_id, item_id, adjust(tenant_id, item_id, 5)).unwrap();
    p.wait_for_processing();

    let read_model = p.projection.get(tenant_id, &item_id).unwrap();
    assert_eq!(read_model.quantity, 15);
}

#[test]
fn command_rejecting_negative_stock_does_not_update_read_model() {
    let mut p = setup();
    let tenant_id = test_tenant_id();
    let item_id = test_item_id();

    p.dispatch(tenant_id, item_id, create(tenant_id, item_id, "Test Item")).unwrap();
    p.wait_for_processing();

    let result = p.dispatch(tenant_id, item_id, adjust(tenant_id, item_id, -1));
    assert!(result.is_err());
    match result.unwrap_err() {
        DispatchError::InvariantViolation(_) => {},
        e => panic!("Expected InvariantViolation, got: {:?}", e),
    }

    p.wait_for_processing();

    let read_model = p.projection.get(tenant_id, &item_id).unwrap();
    assert_eq!(read_model.quantity, 0);
}

#[test]
fn multiple_items_per_tenant() {
    let mut p = setup();
    let tenant_id = test_tenant_id();
    let item1_id = test_item_id();
    let item2_id = test_item_id();

    p.dispatch(tenant_id, item1_id, create(tenant_id, item1_id, "Item 1")).unwrap();
    p.dispatch(tenant_id, item2_id, create(tenant_id, item2_id, "Item 2")).unwrap();
    p.wait_for_processing();

    p.dispatch(tenant_id, item1_id, adjust(tenant_id, item1_id, 20)).unwrap();
    p.dispatch(tenant_id, item2_id, adjust(tenant_id, item2_id, 30)).unwrap();
    p.wait_for_processing();

    let items = p.projection.list(tenant_id);
    assert_eq!(items.len(), 2);

    let item1 = p.projection.get(tenant_id, &item1_id).unwrap();
    assert_eq!(item1.quantity, 20);
    assert_eq!(item1.name, "Item 1");

    let item2 = p.projection.get(tenant_id, &item2_id).unwrap();
    assert_eq!(item2.quantity, 30);
    assert_eq!(item2.name, "Item 2");
}

#[test]
fn stock_snapshot_lists_each_item_with_its_quantity() {
    let mut p = setup();
    let tenant_id = test_tenant_id();
    let item_id = InventoryItemId::new(AggregateId::from_u128(0x0123_4567_89ab_cdef_0011_2233_4455_6677));
    p.dispatch(tenant_id, item_id, create(tenant_id, item_id, "Widget")).unwrap();
    p.dispatch(tenant_id, item_id, adjust(tenant_id, item_id, 42)).unwrap();
    p.wait_for_processing();

    let snapshot = p.projection.get_snapshot(tenant_id);
    assert_eq!(snapshot.tenant_id, tenant_id);
    assert_eq!(snapshot.items.len(), 1);
    assert_eq!(snapshot.items[0].item_id, "01234567-89ab-cdef-0011-223344556677");
    assert_eq!(snapshot.items[0].quantity, 42);
    assert_eq!(snapshot.items[0].historical_trend, vec![42]);
    assert!(p.projection.get_snapshot(TenantId::new()).items.is_empty());
}
