//! Inventory valuation: quantity, unit cost and total value per item.
//!
//! The value of an item is its unit cost times its quantity, saturating at
//! `u64::MAX`, and 0 while the quantity is not positive; without a unit cost
//! an item has no value.
use vstd::prelude::*;

use crate::common::{AggregateId, Replicate, TenantId};
use crate::events::EventEnvelope;
use crate::inventory::{in_i64, InventoryEvent, InventoryItemId};
use crate::projections::{
    cleared, envelope_tenants, fault_view, intake, lemma_project_all_stops,
    lemma_replay_defined_prefix, project, project_all, replay_defined, replay_keys, replay_order,
    replay_order_of, step_defined, tenants_of, CursorTable, Defined, Intake, ProjectionFault,
    ProjectionView, Rules,
};
use crate::read_model::{lookup, opt_view, tenant_rows, upserted, InMemoryTenantStore};
use crate::text::owned;

pub use crate::projections::InMemoryCursorStore;

verus! {

/// Valuation of one item.
#[derive(Debug, Clone, PartialEq, Eq)]
pub struct InventoryValuation {
    pub item_id: InventoryItemId,
    pub name: String,
    pub quantity: i64,
    pub unit_cost: Option<u64>,
    pub total_value: Option<u64>,
}

/// Valuation of one item, by view.
pub struct ValuationRow {
    pub item_id: InventoryItemId,
    pub name: Seq<char>,
    pub quantity: i64,
    pub unit_cost: Option<u64>,
    pub total_value: Option<u64>,
}

impl View for InventoryValuation {
    type V = ValuationRow;

    open spec fn view(&self) -> ValuationRow {
        ValuationRow {
            item_id: self.item_id,
            name: self.name@,
            quantity: self.quantity,
            unit_cost: self.unit_cost,
            total_value: self.total_value,
        }
    }
}

impl Replicate for InventoryValuation {
    fn replicate(&self) -> (r: InventoryValuation) {
        InventoryValuation {
            item_id: self.item_id,
            name: self.name.clone(),
            quantity: self.quantity,
            unit_cost: self.unit_cost,
            total_value: self.total_value,
        }
    }
}

/// Quantity times cost, saturating at `u64::MAX`; 0 for a quantity that is
/// not positive.
pub open spec fn stock_value(quantity: i64, cost: u64) -> u64 {
    if quantity <= 0 {
        0
    } else if quantity * cost > u64::MAX {
        u64::MAX
    } else {
        (quantity * cost) as u64
    }
}

/// The value of an item from its quantity and unit cost.
pub open spec fn value_of(quantity: i64, cost: Option<u64>) -> Option<u64> {
    match cost {
        Some(c) => Some(stock_value(quantity, c)),
        None => None,
    }
}

/// A fresh valuation: no stock, no cost.
pub open spec fn fresh_valuation(id: InventoryItemId, name: Seq<char>) -> ValuationRow {
    ValuationRow { item_id: id, name, quantity: 0, unit_cost: None, total_value: None }
}

impl InventoryValuation {
    pub fn new(item_id: InventoryItemId, name: String) -> (r: InventoryValuation)
        ensures
            r@ == fresh_valuation(item_id, name@),
    {
        InventoryValuation { item_id, name, quantity: 0, unit_cost: None, total_value: None }
    }

    fn recalculate_value(&mut self)
        ensures
            final(self)@ == (ValuationRow {
                total_value: value_of(old(self).quantity, old(self).unit_cost),
                ..old(self)@
            }),
    {
        self.total_value = match self.unit_cost {
            Some(cost) => {
                if self.quantity > 0 {
                    match (self.quantity as u64).checked_mul(cost) {
                        Some(v) => Some(v),
                        None => Some(u64::MAX),
                    }
                } else {
                    Some(0)
                }
            },
            None => None,
        };
    }
}

/// The valuations once an item known to them is given a unit cost: the
/// item is revalued at that cost; an unknown item changes nothing.
pub open spec fn costed(rows: ValuationRows, t: TenantId, id: InventoryItemId, cost: u64) -> ValuationRows {
    match lookup(rows, t, id) {
        Some(v) => upserted(
            rows,
            t,
            id,
            ValuationRow { unit_cost: Some(cost), total_value: value_of(v.quantity, Some(cost)), ..v },
        ),
        None => rows,
    }
}

/// Totals over the valuations of a tenant.
#[derive(Debug, Clone, PartialEq, Eq)]
pub struct InventoryValuationSummary {
    pub total_items: usize,
    pub valued_items: usize,
    pub unvalued_items: usize,
    pub total_value: u64,
    pub total_quantity: i64,
}

#[derive(Debug)]
pub enum InventoryValuationError {
    Deserialize(String),
    TenantIsolation(String),
    NonMonotonicSequence { last: u64, found: u64 },
}

impl View for InventoryValuationError {
    type V = ProjectionFault;

    open spec fn view(&self) -> ProjectionFault {
        match self {
            InventoryValuationError::Deserialize(m) => ProjectionFault::Deserialize(m@),
            InventoryValuationError::TenantIsolation(m) => ProjectionFault::TenantIsolation(m@),
            InventoryValuationError::NonMonotonicSequence { last, found } => {
                ProjectionFault::NonMonotonicSequence { last: *last, found: *found }
            },
        }
    }
}

/// Rows of the valuation read model, by view.
pub type ValuationRows = Seq<(TenantId, InventoryItemId, ValuationRow)>;

/// The valuation an adjustment applies to.
pub open spec fn valuation_base(cur: Option<ValuationRow>, id: InventoryItemId) -> ValuationRow {
    match cur {
        Some(b) => b,
        None => fresh_valuation(id, Seq::empty()),
    }
}

/// Whether the event belongs to the envelope's tenant and stream.
pub open spec fn valuation_checks(t: TenantId, a: AggregateId, e: InventoryEvent) -> Result<(), ProjectionFault> {
    let (et, id) = e.spec_stream();
    if et != t {
        Err(ProjectionFault::TenantIsolation("event tenant_id does not match envelope tenant_id"@))
    } else if id.0 != a {
        Err(ProjectionFault::TenantIsolation("event item_id does not match envelope aggregate_id"@))
    } else {
        Ok(())
    }
}

/// The valuation rules: creation starts a fresh valuation; an adjustment
/// moves the quantity and revalues the item at its unit cost.
pub open spec fn valuation_rules() -> Rules<InventoryEvent, ValuationRows> {
    |rows: ValuationRows, t: TenantId, a: AggregateId, e: InventoryEvent|
        match valuation_checks(t, a, e) {
            Err(f) => Err(f),
            Ok(()) => match e {
                InventoryEvent::ItemCreated(c) => Ok(
                    upserted(rows, t, c.item_id, fresh_valuation(c.item_id, c.name@)),
                ),
                InventoryEvent::StockAdjusted(s) => {
                    let b = valuation_base(lookup(rows, t, s.item_id), s.item_id);
                    let q = (b.quantity + s.delta) as i64;
                    Ok(
                        upserted(
                            rows,
                            t,
                            s.item_id,
                            ValuationRow { quantity: q, total_value: value_of(q, b.unit_cost), ..b },
                        ),
                    )
                },
            },
        }
}

/// Adjustments keep the quantity within `i64`.
pub open spec fn valuation_defined() -> Defined<InventoryEvent, ValuationRows> {
    |rows: ValuationRows, t: TenantId, a: AggregateId, e: InventoryEvent|
        match e {
            InventoryEvent::StockAdjusted(s) => valuation_checks(t, a, e) is Ok ==> in_i64(
                valuation_base(lookup(rows, t, s.item_id), s.item_id).quantity + s.delta,
            ),
            InventoryEvent::ItemCreated(_) => true,
        }
}

/// How many valuations have a unit cost.
pub open spec fn count_valued(rows: Seq<ValuationRow>) -> nat
    decreases rows.len(),
{
    if rows.len() == 0 {
        0
    } else {
        count_valued(rows.drop_last()) + if rows.last().unit_cost is Some {
            1nat
        } else {
            0nat
        }
    }
}

/// The sum of the values that are known.
pub open spec fn sum_values(rows: Seq<ValuationRow>) -> int
    decreases rows.len(),
{
    if rows.len() == 0 {
        0
    } else {
        sum_values(rows.drop_last()) + match rows.last().total_value {
            Some(v) => v as int,
            None => 0int,
        }
    }
}

/// The sum of the quantities.
pub open spec fn sum_quantities(rows: Seq<ValuationRow>) -> int
    decreases rows.len(),
{
    if rows.len() == 0 {
        0
    } else {
        sum_quantities(rows.drop_last()) + rows.last().quantity
    }
}

/// Every running sum of quantities stays within `i64`.
pub open spec fn quantity_sums_fit(rows: Seq<ValuationRow>) -> bool {
    forall|k: int| 0 <= k <= rows.len() ==> in_i64(#[trigger] sum_quantities(rows.take(k)))
}

pub proof fn lemma_count_valued_bound(rows: Seq<ValuationRow>)
    ensures
        count_valued(rows) <= rows.len(),
    decreases rows.len(),
{
    if rows.len() > 0 {
        lemma_count_valued_bound(rows.drop_last());
    }
}

pub proof fn lemma_sum_values_monotone(rows: Seq<ValuationRow>, k: int)
    requires
        0 <= k <= rows.len(),
    ensures
        0 <= sum_values(rows.take(k)) <= sum_values(rows),
    decreases rows.len(),
{
    if k < rows.len() {
        assert(rows.drop_last().take(k) =~= rows.take(k));
        lemma_sum_values_monotone(rows.drop_last(), k);
    } else {
        assert(rows.take(k) =~= rows);
    }
    if rows.len() > 0 {
        lemma_sum_values_monotone(rows.drop_last(), rows.len() - 1);
        assert(rows.drop_last().take(rows.len() - 1) =~= rows.drop_last());
    }
}

/// Inventory valuation projection.
#[derive(Debug)]
pub struct InventoryValuationProjection {
    store: InMemoryTenantStore<InventoryItemId, InventoryValuation>,
    cursors: CursorTable,
}

impl View for InventoryValuationProjection {
    type V = ProjectionView<ValuationRows>;

    closed spec fn view(&self) -> ProjectionView<ValuationRows> {
        ProjectionView { rows: self.store.entries(), cursors: self.cursors.entries() }
    }
}

impl InventoryValuationProjection {
    /// Take up a stream's progress kept elsewhere (a cursor persisted across
    /// restarts): envelopes of the stream at or below `last` are then ignored.
    pub fn seed_cursor(&mut self, tenant_id: TenantId, aggregate_id: AggregateId, last: u64)
        ensures
            final(self)@.rows == old(self)@.rows,
            final(self)@.cursors == upserted(old(self)@.cursors, tenant_id, aggregate_id, last),
    {
        self.cursors.upsert(tenant_id, aggregate_id, last);
    }

    /// The last sequence number applied for a stream, 0 if none: the cursor
    /// to persist.
    pub fn stream_cursor(&self, tenant_id: TenantId, aggregate_id: AggregateId) -> (r: u64)
        ensures
            r == crate::projections::cursor_of(self@.cursors, tenant_id, aggregate_id),
    {
        crate::projections::read_cursor(&self.cursors, tenant_id, aggregate_id)
    }

    pub fn new() -> (r: Self)
        ensures
            r@.rows == Seq::<(TenantId, InventoryItemId, ValuationRow)>::empty(),
            r@.cursors == Seq::<(TenantId, AggregateId, u64)>::empty(),
    {
        InventoryValuationProjection {
            store: InMemoryTenantStore::new(),
            cursors: InMemoryTenantStore::new(),
        }
    }

    /// The valuation of one item.
    pub fn get(&self, tenant_id: TenantId, item_id: &InventoryItemId) -> (r: Option<InventoryValuation>)
        ensures
            opt_view(r) == lookup(self@.rows, tenant_id, *item_id),
    {
        self.store.get(tenant_id, item_id)
    }

    /// Every valuation of a tenant.
    pub fn list(&self, tenant_id: TenantId) -> (r: Vec<InventoryValuation>)
        ensures
            r@.map_values(|m: InventoryValuation| m@) == tenant_rows(self@.rows, tenant_id),
    {
        self.store.list(tenant_id)
    }

    /// Totals over the valuations of a tenant.
    pub fn get_summary(&self, tenant_id: TenantId) -> (r: InventoryValuationSummary)
        requires
            sum_values(tenant_rows(self@.rows, tenant_id)) <= u64::MAX,
            quantity_sums_fit(tenant_rows(self@.rows, tenant_id)),
        ensures
            r.total_items == tenant_rows(self@.rows, tenant_id).len(),
            r.valued_items == count_valued(tenant_rows(self@.rows, tenant_id)),
            r.unvalued_items == r.total_items - r.valued_items,
            r.total_value == sum_values(tenant_rows(self@.rows, tenant_id)),
            r.total_quantity == sum_quantities(tenant_rows(self@.rows, tenant_id)),
    {
        let items = self.store.list(tenant_id);
        let ghost rows = items@.map_values(|m: InventoryValuation| m@);
        let mut valued: usize = 0;
        let mut value: u64 = 0;
        let mut quantity: i64 = 0;
        let mut i: usize = 0;
        proof {
            lemma_sum_values_monotone(rows, rows.len() as int);
        }
        while i < items.len()
            invariant
                i <= items@.len(),
                rows == items@.map_values(|m: InventoryValuation| m@),
                sum_values(rows) <= u64::MAX,
                quantity_sums_fit(rows),
                valued == count_valued(rows.take(i as int)),
                value == sum_values(rows.take(i as int)),
                quantity == sum_quantities(rows.take(i as int)),
                valued <= i,
            decreases items@.len() - i,
        {
            proof {
                assert(rows.take(i + 1).drop_last() =~= rows.take(i as int));
                lemma_sum_values_monotone(rows, i + 1);
                assert(in_i64(sum_quantities(rows.take(i + 1))));
            }
            if items[i].unit_cost.is_some() {
                valued = valued + 1;
            }
            match items[i].total_value {
                Some(v) => {
                    value = value + v;
                },
                None => {},
            }
            quantity = quantity + items[i].quantity;
            i = i + 1;
        }
        proof {
            assert(rows.take(rows.len() as int) =~= rows);
        }
        InventoryValuationSummary {
            total_items: items.len(),
            valued_items: valued,
            unvalued_items: items.len() - valued,
            total_value: value,
            total_quantity: quantity,
        }
    }

    /// Valuations of a tenant without a unit cost.
    pub fn list_unvalued(&self, tenant_id: TenantId) -> (r: Vec<InventoryValuation>)
        ensures
            r@.map_values(|m: InventoryValuation| m@) == tenant_rows(self@.rows, tenant_id).filter(
                |v: ValuationRow| v.unit_cost is None,
            ),
    {
        let items = self.store.list(tenant_id);
        let ghost rows = items@.map_values(|m: InventoryValuation| m@);
        let mut out: Vec<InventoryValuation> = Vec::new();
        let mut i: usize = 0;
        while i < items.len()
            invariant
                i <= items@.len(),
                rows == items@.map_values(|m: InventoryValuation| m@),
                out@.map_values(|m: InventoryValuation| m@) == rows.take(i as int).filter(
                    |v: ValuationRow| v.unit_cost is None,
                ),
            decreases items@.len() - i,
        {
            let ghost before = out@;
            proof {
                assert(rows.take(i + 1) =~= rows.take(i as int).push(rows[i as int]));
                rows.take(i as int).lemma_filter_push(
                    rows[i as int],
                    |v: ValuationRow| v.unit_cost is None,
                );
            }
            if items[i].unit_cost.is_none() {
                out.push(items[i].replicate());
                assert(out@.map_values(|m: InventoryValuation| m@) =~= before.map_values(
                    |m: InventoryValuation| m@,
                ).push(rows[i as int]));
            }
            i = i + 1;
        }
        assert(rows.take(rows.len() as int) =~= rows);
        out
    }

    /// Valuations of a tenant with a positive value.
    pub fn list_valued(&self, tenant_id: TenantId) -> (r: Vec<InventoryValuation>)
        ensures
            r@.map_values(|m: InventoryValuation| m@) == tenant_rows(self@.rows, tenant_id).filter(
                |v: ValuationRow| v.total_value matches Some(x) && x > 0,
            ),
    {
        let items = self.store.list(tenant_id);
        let ghost rows = items@.map_values(|m: InventoryValuation| m@);
        let mut out: Vec<InventoryValuation> = Vec::new();
        let mut i: usize = 0;
        while i < items.len()
            invariant
                i <= items@.len(),
                rows == items@.map_values(|m: InventoryValuation| m@),
                out@.map_values(|m: InventoryValuation| m@) == rows.take(i as int).filter(
                    |v: ValuationRow| v.total_value matches Some(x) && x > 0,
                ),
            decreases items@.len() - i,
        {
            let ghost before = out@;
            proof {
                assert(rows.take(i + 1) =~= rows.take(i as int).push(rows[i as int]));
                rows.take(i as int).lemma_filter_push(
                    rows[i as int],
                    |v: ValuationRow| v.total_value matches Some(x) && x > 0,
                );
            }
            let positive = match items[i].total_value {
                Some(x) => x > 0,
                None => false,
            };
            if positive {
                out.push(items[i].replicate());
                assert(out@.map_values(|m: InventoryValuation| m@) =~= before.map_values(
                    |m: InventoryValuation| m@,
                ).push(rows[i as int]));
            }
            i = i + 1;
        }
        assert(rows.take(rows.len() as int) =~= rows);
        out
    }

    /// Set the unit cost of a known item and revalue it; unknown items are
    /// left alone.
    pub fn set_unit_cost(&mut self, tenant_id: TenantId, item_id: InventoryItemId, unit_cost: u64)
        ensures
            final(self)@.cursors == old(self)@.cursors,
            final(self)@.rows == costed(old(self)@.rows, tenant_id, item_id, unit_cost),
    {
        match self.store.get(tenant_id, &item_id) {
            Some(mut val) => {
                val.unit_cost = Some(unit_cost);
                val.recalculate_value();
                self.store.upsert(tenant_id, item_id, val);
            },
            None => {},
        }
    }

    /// Apply one published envelope.
    pub fn apply_envelope(&mut self, envelope: &EventEnvelope<Result<InventoryEvent, String>>) -> (r:
        Result<(), InventoryValuationError>)
        requires
            step_defined("inventory.item"@, old(self)@, *envelope, valuation_defined()),
        ensures
            (fault_view(r), final(self)@) == project(
                "inventory.item"@,
                old(self)@,
                *envelope,
                valuation_rules(),
            ),
    {
        let tenant_id = envelope.tenant_id();
        let aggregate_id = envelope.aggregate_id();
        let seq = envelope.sequence_number();
        match intake(&self.cursors, envelope, "inventory.item") {
            Intake::Ignore => {
                return Ok(());
            },
            Intake::Stale { last, found } => {
                return Err(InventoryValuationError::NonMonotonicSequence { last, found });
            },
            Intake::Proceed => {},
        }
        let ev = match envelope.payload() {
            Err(m) => {
                return Err(InventoryValuationError::Deserialize(m.clone()));
            },
            Ok(e) => e,
        };
        let (event_tenant, item_id) = ev.stream();
        if event_tenant != tenant_id {
            return Err(
                InventoryValuationError::TenantIsolation(
                    owned("event tenant_id does not match envelope tenant_id"),
                ),
            );
        }
        if item_id.0 != aggregate_id {
            return Err(
                InventoryValuationError::TenantIsolation(
                    owned("event item_id does not match envelope aggregate_id"),
                ),
            );
        }
        match ev {
            InventoryEvent::ItemCreated(c) => {
                let val = InventoryValuation::new(c.item_id, c.name.clone());
                self.store.upsert(tenant_id, c.item_id, val);
            },
            InventoryEvent::StockAdjusted(s) => {
                let mut val = match self.store.get(tenant_id, &s.item_id) {
                    Some(b) => b,
                    None => InventoryValuation::new(s.item_id, String::new()),
                };
                val.quantity = val.quantity + s.delta;
                val.recalculate_value();
                self.store.upsert(tenant_id, s.item_id, val);
            },
        }
        self.cursors.upsert(tenant_id, aggregate_id, seq);
        Ok(())
    }

    /// Clear the tenants of `envelopes` and replay them in replay order,
    /// stopping at the first refusal.
    pub fn rebuild_from_scratch(
        &mut self,
        envelopes: Vec<EventEnvelope<Result<InventoryEvent, String>>>,
    ) -> (r: Result<(), InventoryValuationError>)
        requires
            replay_defined(
                "inventory.item"@,
                cleared(old(self)@, tenants_of(envelopes@)),
                envelopes@,
                replay_order(replay_keys(envelopes@), envelopes@.len() as nat),
                valuation_rules(),
                valuation_defined(),
            ),
        ensures
            (fault_view(r), final(self)@) == project_all(
                "inventory.item"@,
                cleared(old(self)@, tenants_of(envelopes@)),
                envelopes@,
                replay_order(replay_keys(envelopes@), envelopes@.len() as nat),
                valuation_rules(),
            ),
    {
        let tenants = envelope_tenants(&envelopes);
        self.store.clear_tenants(&tenants);
        self.cursors.clear_tenants(&tenants);
        let ghost s0 = self@;
        let order = replay_order_of(&envelopes);
        let ghost ord = order@.map_values(|x: usize| x as int);
        let mut i: usize = 0;
        proof {
            assert(ord.take(0) =~= Seq::<int>::empty());
        }
        while i < order.len()
            invariant
                i <= order@.len(),
                ord == order@.map_values(|x: usize| x as int),
                ord == replay_order(replay_keys(envelopes@), envelopes@.len() as nat),
                forall|j: int| 0 <= j < order@.len() ==> order@[j] < envelopes@.len(),
                s0 == cleared(old(self)@, tenants_of(envelopes@)),
                replay_defined(
                    "inventory.item"@,
                    s0,
                    envelopes@,
                    ord,
                    valuation_rules(),
                    valuation_defined(),
                ),
                project_all("inventory.item"@, s0, envelopes@, ord.take(i as int), valuation_rules())
                    == (Ok::<(), ProjectionFault>(()), self@),
            decreases order@.len() - i,
        {
            let k = order[i];
            proof {
                assert(ord.take(i + 1).drop_last() =~= ord.take(i as int));
                assert(ord.take(i + 1).last() == k as int);
                lemma_replay_defined_prefix(
                    "inventory.item"@,
                    s0,
                    envelopes@,
                    ord,
                    valuation_rules(),
                    valuation_defined(),
                    i + 1,
                );
            }
            let res = self.apply_envelope(&envelopes[k]);
            match res {
                Err(e) => {
                    proof {
                        lemma_project_all_stops(
                            "inventory.item"@,
                            s0,
                            envelopes@,
                            ord,
                            valuation_rules(),
                            i + 1,
                        );
                    }
                    return Err(e);
                },
                Ok(()) => {},
            }
            i = i + 1;
        }
        proof {
            assert(ord.take(ord.len() as int) =~= ord);
        }
        Ok(())
    }
}

/// A valuation whose value agrees with its quantity and unit cost: no value
/// without a cost; with a cost `c`, the value is `quantity * c` (0 while the
/// quantity is not positive, `u64::MAX` when the product is larger).
pub open spec fn value_agrees(v: ValuationRow) -> bool {
    match v.unit_cost {
        None => v.total_value is None,
        Some(c) => v.total_value == Some(
            if v.quantity <= 0 {
                0u64
            } else if v.quantity * c > u64::MAX {
                u64::MAX
            } else {
                (v.quantity * c) as u64
            },
        ),
    }
}

/// Every valuation held agrees with its quantity and unit cost.
pub open spec fn values_agree(rows: ValuationRows) -> bool {
    forall|k: int| 0 <= k < rows.len() ==> value_agrees(#[trigger] rows[k].2)
}

/// Storing a valuation that agrees keeps every valuation agreeing.
proof fn lemma_upserted_agrees(rows: ValuationRows, t: TenantId, id: InventoryItemId, v: ValuationRow)
    requires
        values_agree(rows),
        value_agrees(v),
    ensures
        values_agree(upserted(rows, t, id, v)),
{
    if crate::read_model::has_slot(rows, t, id) {
        crate::read_model::lemma_first_slot_exists(rows, t, id);
    }
    let r = upserted(rows, t, id, v);
    assert forall|k: int| 0 <= k < r.len() implies value_agrees(#[trigger] r[k].2) by {
        if k < rows.len() && r[k] != (t, id, v) {
            assert(r[k] == rows[k]);
        }
    }
}

/// The valuation of every item stays consistent with its stock: if every
/// valuation's value agrees with its quantity and unit cost before an
/// envelope is projected, it still does after, whatever the envelope (in
/// particular an adjustment revalues the item at its new quantity).
pub proof fn law_valuation_stays_consistent(
    s: ProjectionView<ValuationRows>,
    env: EventEnvelope<Result<InventoryEvent, String>>,
)
    requires
        values_agree(s.rows),
    ensures
        values_agree(project("inventory.item"@, s, env, valuation_rules()).1.rows),
{
    let t = env.spec_tenant_id();
    let a = env.spec_aggregate_id();
    if crate::projections::spec_intake("inventory.item"@, s.cursors, env) is Proceed {
        if env.spec_payload() is Ok {
            let e = env.spec_payload()->Ok_0;
            if valuation_checks(t, a, e) is Ok {
                match e {
                    InventoryEvent::ItemCreated(c) => {
                        lemma_upserted_agrees(s.rows, t, c.item_id, fresh_valuation(c.item_id, c.name@));
                    },
                    InventoryEvent::StockAdjusted(sa) => {
                        let b = valuation_base(lookup(s.rows, t, sa.item_id), sa.item_id);
                        let q = (b.quantity + sa.delta) as i64;
                        let moved = ValuationRow { quantity: q, total_value: value_of(q, b.unit_cost), ..b };
                        lemma_upserted_agrees(s.rows, t, sa.item_id, moved);
                    },
                }
            }
        }
    }
}

/// An applied adjustment moves the item's quantity by its delta (from 0 for
/// an item not seen before), keeps its unit cost, and values it at the new
/// quantity.
pub proof fn law_adjustment_moves_quantity(
    s: ProjectionView<ValuationRows>,
    env: EventEnvelope<Result<InventoryEvent, String>>,
)
    requires
        crate::projections::spec_intake("inventory.item"@, s.cursors, env) == Intake::Proceed,
        env.spec_payload() matches Ok(InventoryEvent::StockAdjusted(sa)) && sa.tenant_id == env.spec_tenant_id()
            && sa.item_id.0 == env.spec_aggregate_id(),
        valuation_defined()(s.rows, env.spec_tenant_id(), env.spec_aggregate_id(), env.spec_payload()->Ok_0),
    ensures
        ({
            let t = env.spec_tenant_id();
            let sa = env.spec_payload()->Ok_0->StockAdjusted_0;
            let (q0, c0) = match lookup(s.rows, t, sa.item_id) {
                Some(b) => (b.quantity as int, b.unit_cost),
                None => (0int, None),
            };
            let r = project("inventory.item"@, s, env, valuation_rules());
            &&& r.0 is Ok
            &&& lookup(r.1.rows, t, sa.item_id) matches Some(v) && v.quantity == q0 + sa.delta && v.unit_cost == c0
                && value_agrees(v)
        }),
{
    let t = env.spec_tenant_id();
    let sa = env.spec_payload()->Ok_0->StockAdjusted_0;
    let b = valuation_base(lookup(s.rows, t, sa.item_id), sa.item_id);
    let q = (b.quantity + sa.delta) as i64;
    crate::read_model::lemma_lookup_upserted(
        s.rows,
        t,
        sa.item_id,
        ValuationRow { quantity: q, total_value: value_of(q, b.unit_cost), ..b },
        t,
        sa.item_id,
    );
}

/// Setting a unit cost on a known item records the cost and values the item
/// at its current quantity, keeps its quantity, and keeps every valuation
/// consistent with its stock; an unknown item changes nothing.
pub proof fn law_unit_cost_revalues(rows: ValuationRows, t: TenantId, id: InventoryItemId, cost: u64)
    requires
        values_agree(rows),
    ensures
        values_agree(costed(rows, t, id, cost)),
        lookup(rows, t, id) matches Some(v) ==> (lookup(costed(rows, t, id, cost), t, id) matches Some(w)
            && w.unit_cost == Some(cost) && w.quantity == v.quantity && value_agrees(w)),
        lookup(rows, t, id) is None ==> costed(rows, t, id, cost) == rows,
{
    if lookup(rows, t, id) is Some {
        let v = lookup(rows, t, id)->0;
        let w = ValuationRow { unit_cost: Some(cost), total_value: value_of(v.quantity, Some(cost)), ..v };
        lemma_upserted_agrees(rows, t, id, w);
        crate::read_model::lemma_lookup_upserted(rows, t, id, w, t, id);
    }
}

/// The summary's totals add up item by item: with no items they are 0;
/// one more item adds its known value to the total value, its quantity to
/// the total quantity, and counts as valued exactly when it has a unit cost.
pub proof fn law_summary_adds_up(rows: Seq<ValuationRow>, v: ValuationRow)
    ensures
        sum_values(Seq::<ValuationRow>::empty()) == 0,
        sum_quantities(Seq::<ValuationRow>::empty()) == 0,
        count_valued(Seq::<ValuationRow>::empty()) == 0,
        sum_values(rows.push(v)) == sum_values(rows) + match v.total_value {
            Some(x) => x as int,
            None => 0int,
        },
        sum_quantities(rows.push(v)) == sum_quantities(rows) + v.quantity,
        count_valued(rows.push(v)) == count_valued(rows) + if v.unit_cost is Some {
            1int
        } else {
            0int
        },
{
    assert(rows.push(v).drop_last() =~= rows);
}

} // verus!
