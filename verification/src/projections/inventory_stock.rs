//! Inventory stock: current quantity per item and tenant.
use vstd::prelude::*;

use crate::common::{AggregateId, Replicate, TenantId};
use crate::events::EventEnvelope;
use crate::inventory::{in_i64, InventoryEvent, InventoryItemId};
use crate::projections::{
    cleared, envelope_tenants, fault_view, intake, lemma_project_all_stops,
    lemma_replay_defined_prefix, project, project_all, replay_defined, replay_keys, replay_order,
    replay_order_of, step_defined, tenants_of, CursorTable, Defined, Intake, ProjectionFault,
    ProjectionView, Rules,
};
use crate::read_model::{lookup, opt_view, tenant_rows, upserted, InMemoryTenantStore};
use crate::json::{uuid_chars, uuid_text};
use crate::text::owned;

pub use crate::projections::InMemoryCursorStore;

verus! {

/// Stock of one item.
#[derive(Debug, Clone, PartialEq, Eq)]
pub struct InventoryReadModel {
    pub item_id: InventoryItemId,
    pub name: String,
    pub quantity: i64,
}

/// Stock of one item, by view.
pub struct StockRow {
    pub item_id: InventoryItemId,
    pub name: Seq<char>,
    pub quantity: i64,
}

impl View for InventoryReadModel {
    type V = StockRow;

    open spec fn view(&self) -> StockRow {
        StockRow { item_id: self.item_id, name: self.name@, quantity: self.quantity }
    }
}

impl Replicate for InventoryReadModel {
    fn replicate(&self) -> (r: InventoryReadModel) {
        InventoryReadModel { item_id: self.item_id, name: self.name.clone(), quantity: self.quantity }
    }
}

#[derive(Debug)]
pub enum InventoryProjectionError {
    Deserialize(String),
    TenantIsolation(String),
    NonMonotonicSequence { last: u64, found: u64 },
}

impl View for InventoryProjectionError {
    type V = ProjectionFault;

    open spec fn view(&self) -> ProjectionFault {
        match self {
            InventoryProjectionError::Deserialize(m) => ProjectionFault::Deserialize(m@),
            InventoryProjectionError::TenantIsolation(m) => ProjectionFault::TenantIsolation(m@),
            InventoryProjectionError::NonMonotonicSequence { last, found } => {
                ProjectionFault::NonMonotonicSequence { last: *last, found: *found }
            },
        }
    }
}

/// Rows of the stock read model, by view.
pub type StockRows = Seq<(TenantId, InventoryItemId, StockRow)>;

/// The stock an adjustment applies to: the current entry, or an unnamed
/// entry at zero.
pub open spec fn stock_base(cur: Option<StockRow>, id: InventoryItemId) -> StockRow {
    match cur {
        Some(b) => b,
        None => StockRow { item_id: id, name: Seq::empty(), quantity: 0 },
    }
}

/// Whether the event belongs to the envelope's tenant and stream.
pub open spec fn stock_checks(t: TenantId, a: AggregateId, e: InventoryEvent) -> Result<(), ProjectionFault> {
    let (et, id) = e.spec_stream();
    if et != t {
        Err(ProjectionFault::TenantIsolation("event tenant_id does not match envelope tenant_id"@))
    } else if id.0 != a {
        Err(ProjectionFault::TenantIsolation("event item_id does not match envelope aggregate_id"@))
    } else {
        Ok(())
    }
}

/// The stock rules: creation starts an item at zero, an adjustment adds its
/// delta to the current quantity.
pub open spec fn stock_rules() -> Rules<InventoryEvent, StockRows> {
    |rows: StockRows, t: TenantId, a: AggregateId, e: InventoryEvent|
        match stock_checks(t, a, e) {
            Err(f) => Err(f),
            Ok(()) => match e {
                InventoryEvent::ItemCreated(c) => Ok(
                    upserted(rows, t, c.item_id, StockRow { item_id: c.item_id, name: c.name@, quantity: 0 }),
                ),
                InventoryEvent::StockAdjusted(s) => {
                    let b = stock_base(lookup(rows, t, s.item_id), s.item_id);
                    Ok(
                        upserted(
                            rows,
                            t,
                            s.item_id,
                            StockRow { quantity: (b.quantity + s.delta) as i64, ..b },
                        ),
                    )
                },
            },
        }
}

/// Adjustments keep the quantity within `i64`.
pub open spec fn stock_defined() -> Defined<InventoryEvent, StockRows> {
    |rows: StockRows, t: TenantId, a: AggregateId, e: InventoryEvent|
        match e {
            InventoryEvent::StockAdjusted(s) => stock_checks(t, a, e) is Ok ==> in_i64(
                stock_base(lookup(rows, t, s.item_id), s.item_id).quantity + s.delta,
            ),
            InventoryEvent::ItemCreated(_) => true,
        }
}

/// An item's stock as the anomaly detector reads it.
#[derive(Debug, Clone, PartialEq, Eq)]
pub struct InventoryItemSnapshot {
    /// The item's identifier, in its hyphenated text form.
    pub item_id: String,
    pub quantity: i64,
    /// Quantities over time, oldest first; for now the current one alone.
    pub historical_trend: Vec<i64>,
}

/// A tenant's stock as the anomaly detector reads it.
#[derive(Debug, Clone, PartialEq, Eq)]
pub struct InventorySnapshot {
    pub tenant_id: TenantId,
    pub items: Vec<InventoryItemSnapshot>,
}

/// What the detector sees of one stock row: its identifier's text, its
/// quantity, and that quantity as its trend.
pub open spec fn item_snapshot(row: StockRow) -> (Seq<char>, i64, Seq<i64>) {
    (uuid_chars(row.item_id.0.0), row.quantity, seq![row.quantity])
}

/// Inventory stock projection.
#[derive(Debug)]
pub struct InventoryStockProjection {
    store: InMemoryTenantStore<InventoryItemId, InventoryReadModel>,
    cursors: CursorTable,
}

impl View for InventoryStockProjection {
    type V = ProjectionView<StockRows>;

    closed spec fn view(&self) -> ProjectionView<StockRows> {
        ProjectionView { rows: self.store.entries(), cursors: self.cursors.entries() }
    }
}

impl InventoryStockProjection {
    /// Take up a stream's progress kept elsewhere (a cursor persisted across
    /// restarts): envelopes of the stream at or below `last` are then ignored.
    pub fn seed_cursor(&mut self, tenant_id: TenantId, aggregate_id: AggregateId, last: u64)
        ensures
            final(self)@.rows == old(self)@.rows,
            final(self)@.cursors == upserted(old(self)@.cursors, tenant_id, aggregate_id, last),
    {
        self.cursors.upsert(tenant_id, aggregate_id, last);
    }

    /// The last sequence number applied for a stream, 0 if none: the cursor
    /// to persist.
    pub fn stream_cursor(&self, tenant_id: TenantId, aggregate_id: AggregateId) -> (r: u64)
        ensures
            r == crate::projections::cursor_of(self@.cursors, tenant_id, aggregate_id),
    {
        crate::projections::read_cursor(&self.cursors, tenant_id, aggregate_id)
    }

    pub fn new() -> (r: Self)
        ensures
            r@.rows == Seq::<(TenantId, InventoryItemId, StockRow)>::empty(),
            r@.cursors == Seq::<(TenantId, AggregateId, u64)>::empty(),
    {
        InventoryStockProjection { store: InMemoryTenantStore::new(), cursors: InMemoryTenantStore::new() }
    }

    /// The stock of one item.
    pub fn get(&self, tenant_id: TenantId, item_id: &InventoryItemId) -> (r: Option<InventoryReadModel>)
        ensures
            opt_view(r) == lookup(self@.rows, tenant_id, *item_id),
    {
        self.store.get(tenant_id, item_id)
    }

    /// The stock of every item of a tenant.
    pub fn list(&self, tenant_id: TenantId) -> (r: Vec<InventoryReadModel>)
        ensures
            r@.map_values(|m: InventoryReadModel| m@) == tenant_rows(self@.rows, tenant_id),
    {
        self.store.list(tenant_id)
    }

    /// The tenant's stock for the anomaly detector: every item of `list`, in
    /// the same order.
    pub fn get_snapshot(&self, tenant_id: TenantId) -> (r: InventorySnapshot)
        ensures
            r.tenant_id == tenant_id,
            r.items@.len() == tenant_rows(self@.rows, tenant_id).len(),
            forall|i: int|
                0 <= i < r.items@.len() ==> (
                    #[trigger] r.items@[i].item_id@,
                    r.items@[i].quantity,
                    r.items@[i].historical_trend@,
                ) == item_snapshot(tenant_rows(self@.rows, tenant_id)[i]),
    {
        let models = self.list(tenant_id);
        let ghost rows = tenant_rows(self@.rows, tenant_id);
        let mut items: Vec<InventoryItemSnapshot> = Vec::new();
        let mut i: usize = 0;
        while i < models.len()
            invariant
                i <= models@.len(),
                models@.map_values(|m: InventoryReadModel| m@) == rows,
                items@.len() == i,
                forall|j: int|
                    0 <= j < i ==> (
                        #[trigger] items@[j].item_id@,
                        items@[j].quantity,
                        items@[j].historical_trend@,
                    ) == item_snapshot(rows[j]),
            decreases models@.len() - i,
        {
            let m = &models[i];
            assert(rows[i as int] == models@[i as int]@);
            let trend: Vec<i64> = vec![m.quantity];
            assert(trend@ =~= seq![m.quantity]);
            items.push(
                InventoryItemSnapshot { item_id: uuid_text(m.item_id.0.0), quantity: m.quantity, historical_trend: trend },
            );
            i = i + 1;
        }
        InventorySnapshot { tenant_id, items }
    }

    /// Apply one published envelope.
    pub fn apply_envelope(&mut self, envelope: &EventEnvelope<Result<InventoryEvent, String>>) -> (r:
        Result<(), InventoryProjectionError>)
        requires
            step_defined("inventory.item"@, old(self)@, *envelope, stock_defined()),
        ensures
            (fault_view(r), final(self)@) == project(
                "inventory.item"@,
                old(self)@,
                *envelope,
                stock_rules(),
            ),
    {
        let tenant_id = envelope.tenant_id();
        let aggregate_id = envelope.aggregate_id();
        let seq = envelope.sequence_number();
        match intake(&self.cursors, envelope, "inventory.item") {
            Intake::Ignore => {
                return Ok(());
            },
            Intake::Stale { last, found } => {
                return Err(InventoryProjectionError::NonMonotonicSequence { last, found });
            },
            Intake::Proceed => {},
        }
        let ev = match envelope.payload() {
            Err(m) => {
                return Err(InventoryProjectionError::Deserialize(m.clone()));
            },
            Ok(e) => e,
        };
        let (event_tenant, item_id) = ev.stream();
        if event_tenant != tenant_id {
            return Err(
                InventoryProjectionError::TenantIsolation(
                    owned("event tenant_id does not match envelope tenant_id"),
                ),
            );
        }
        if item_id.0 != aggregate_id {
            return Err(
                InventoryProjectionError::TenantIsolation(
                    owned("event item_id does not match envelope aggregate_id"),
                ),
            );
        }
        match ev {
            InventoryEvent::ItemCreated(c) => {
                self.store.upsert(
                    tenant_id,
                    c.item_id,
                    InventoryReadModel { item_id: c.item_id, name: c.name.clone(), quantity: 0 },
                );
            },
            InventoryEvent::StockAdjusted(s) => {
                let mut rm = match self.store.get(tenant_id, &s.item_id) {
                    Some(b) => b,
                    None => InventoryReadModel { item_id: s.item_id, name: String::new(), quantity: 0 },
                };
                rm.quantity = rm.quantity + s.delta;
                self.store.upsert(tenant_id, s.item_id, rm);
            },
        }
        self.cursors.upsert(tenant_id, aggregate_id, seq);
        Ok(())
    }

    /// Clear the tenants of `envelopes` and replay them in replay order,
    /// stopping at the first refusal.
    pub fn rebuild_from_scratch(
        &mut self,
        envelopes: Vec<EventEnvelope<Result<InventoryEvent, String>>>,
    ) -> (r: Result<(), InventoryProjectionError>)
        requires
            replay_defined(
                "inventory.item"@,
                cleared(old(self)@, tenants_of(envelopes@)),
                envelopes@,
                replay_order(replay_keys(envelopes@), envelopes@.len() as nat),
                stock_rules(),
                stock_defined(),
            ),
        ensures
            (fault_view(r), final(self)@) == project_all(
                "inventory.item"@,
                cleared(old(self)@, tenants_of(envelopes@)),
                envelopes@,
                replay_order(replay_keys(envelopes@), envelopes@.len() as nat),
                stock_rules(),
            ),
    {
        let tenants = envelope_tenants(&envelopes);
        self.store.clear_tenants(&tenants);
        self.cursors.clear_tenants(&tenants);
        let ghost s0 = self@;
        let order = replay_order_of(&envelopes);
        let ghost ord = order@.map_values(|x: usize| x as int);
        let mut i: usize = 0;
        proof {
            assert(ord.take(0) =~= Seq::<int>::empty());
        }
        while i < order.len()
            invariant
                i <= order@.len(),
                ord == order@.map_values(|x: usize| x as int),
                ord == replay_order(replay_keys(envelopes@), envelopes@.len() as nat),
                forall|j: int| 0 <= j < order@.len() ==> order@[j] < envelopes@.len(),
                s0 == cleared(old(self)@, tenants_of(envelopes@)),
                replay_defined("inventory.item"@, s0, envelopes@, ord, stock_rules(), stock_defined()),
                project_all("inventory.item"@, s0, envelopes@, ord.take(i as int), stock_rules()) == (
                    Ok::<(), ProjectionFault>(()),
                    self@,
                ),
            decreases order@.len() - i,
        {
            let k = order[i];
            proof {
                assert(ord.take(i + 1).drop_last() =~= ord.take(i as int));
                assert(ord.take(i + 1).last() == k as int);
                lemma_replay_defined_prefix(
                    "inventory.item"@,
                    s0,
                    envelopes@,
                    ord,
                    stock_rules(),
                    stock_defined(),
                    i + 1,
                );
            }
            let res = self.apply_envelope(&envelopes[k]);
            match res {
                Err(e) => {
                    proof {
                        lemma_project_all_stops(
                            "inventory.item"@,
                            s0,
                            envelopes@,
                            ord,
                            stock_rules(),
                            i + 1,
                        );
                    }
                    return Err(e);
                },
                Ok(()) => {},
            }
            i = i + 1;
        }
        proof {
            assert(ord.take(ord.len() as int) =~= ord);
        }
        Ok(())
    }
}

/// What an item's stock reads after an event of its stream is applied: a
/// creation starts it at 0 under its name; an adjustment moves its quantity
/// by the delta (from 0 for an item not seen before) and keeps its name. No
/// other item's stock changes.
pub proof fn law_stock_follows_adjustments(
    s: ProjectionView<StockRows>,
    env: EventEnvelope<Result<InventoryEvent, String>>,
)
    requires
        crate::projections::spec_intake("inventory.item"@, s.cursors, env) == Intake::Proceed,
        env.spec_payload() is Ok,
        env.spec_payload()->Ok_0.spec_stream().0 == env.spec_tenant_id(),
        env.spec_payload()->Ok_0.spec_stream().1.0 == env.spec_aggregate_id(),
        stock_defined()(s.rows, env.spec_tenant_id(), env.spec_aggregate_id(), env.spec_payload()->Ok_0),
    ensures
        ({
            let t = env.spec_tenant_id();
            let e = env.spec_payload()->Ok_0;
            let id = e.spec_stream().1;
            let (q0, name0) = match lookup(s.rows, t, id) {
                Some(b) => (b.quantity as int, b.name),
                None => (0int, Seq::<char>::empty()),
            };
            let r = project("inventory.item"@, s, env, stock_rules());
            let row = lookup(r.1.rows, t, id)->0;
            &&& r.0 is Ok
            &&& lookup(r.1.rows, t, id) is Some
            &&& e is ItemCreated ==> row.quantity == 0 && row.name == e->ItemCreated_0.name@
            &&& e is StockAdjusted ==> row.quantity == q0 + e->StockAdjusted_0.delta && row.name == name0
            &&& forall|t2: TenantId, id2: InventoryItemId|
                (t2, id2) != (t, id) ==> #[trigger] lookup(r.1.rows, t2, id2) == lookup(s.rows, t2, id2)
        }),
{
    let t = env.spec_tenant_id();
    let e = env.spec_payload()->Ok_0;
    let id = e.spec_stream().1;
    let nr = match e {
        InventoryEvent::ItemCreated(c) => StockRow { item_id: c.item_id, name: c.name@, quantity: 0 },
        InventoryEvent::StockAdjusted(sa) => {
            let b = stock_base(lookup(s.rows, t, sa.item_id), sa.item_id);
            StockRow { quantity: (b.quantity + sa.delta) as i64, ..b }
        },
    };
    crate::read_model::lemma_lookup_upserted(s.rows, t, id, nr, t, id);
    assert forall|t2: TenantId, id2: InventoryItemId| (t2, id2) != (t, id) implies #[trigger] lookup(
        upserted(s.rows, t, id, nr),
        t2,
        id2,
    ) == lookup(s.rows, t2, id2) by {
        crate::read_model::lemma_lookup_upserted(s.rows, t, id, nr, t2, id2);
    }
}

} // verus!
