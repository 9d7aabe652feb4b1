//! Product catalog: products by tenant with status and pricing.
use vstd::prelude::*;

use crate::common::{AggregateId, Replicate, TenantId};
use crate::events::EventEnvelope;
use crate::products::{empty_pricing, PricingMetadata, ProductEvent, ProductId, ProductStatus};
use crate::projections::{
    cleared, envelope_tenants, fault_view, intake, lemma_project_all_stops, project, project_all,
    replay_keys, replay_order, replay_order_of, tenants_of, CursorTable, Intake, ProjectionFault,
    ProjectionView, Rules,
};
use crate::read_model::{lookup, opt_view, tenant_rows, upserted, InMemoryTenantStore};
use crate::text::owned;

pub use crate::projections::InMemoryCursorStore;

verus! {

/// Catalog entry of a product.
#[derive(Debug, Clone, PartialEq, Eq)]
pub struct ProductReadModel {
    pub product_id: ProductId,
    pub sku: String,
    pub name: String,
    pub status: ProductStatus,
    pub pricing: PricingMetadata,
}

/// A catalog entry, by view.
pub struct ProductRow {
    pub product_id: ProductId,
    pub sku: Seq<char>,
    pub name: Seq<char>,
    pub status: ProductStatus,
    pub pricing: PricingMetadata,
}

impl View for ProductReadModel {
    type V = ProductRow;

    open spec fn view(&self) -> ProductRow {
        ProductRow {
            product_id: self.product_id,
            sku: self.sku@,
            name: self.name@,
            status: self.status,
            pricing: self.pricing,
        }
    }
}

impl Replicate for ProductReadModel {
    fn replicate(&self) -> (r: ProductReadModel) {
        ProductReadModel {
            product_id: self.product_id,
            sku: self.sku.clone(),
            name: self.name.clone(),
            status: self.status,
            pricing: self.pricing.duplicate(),
        }
    }
}

#[derive(Debug)]
pub enum ProductProjectionError {
    Deserialize(String),
    TenantIsolation(String),
    NonMonotonicSequence { last: u64, found: u64 },
}

impl View for ProductProjectionError {
    type V = ProjectionFault;

    open spec fn view(&self) -> ProjectionFault {
        match self {
            ProductProjectionError::Deserialize(m) => ProjectionFault::Deserialize(m@),
            ProductProjectionError::TenantIsolation(m) => ProjectionFault::TenantIsolation(m@),
            ProductProjectionError::NonMonotonicSequence { last, found } => {
                ProjectionFault::NonMonotonicSequence { last: *last, found: *found }
            },
        }
    }
}

/// Rows of the catalog, by view.
pub type ProductRows = Seq<(TenantId, ProductId, ProductRow)>;

/// The entry a change applies to when the product was never created.
pub open spec fn blank_product(id: ProductId) -> ProductRow {
    ProductRow {
        product_id: id,
        sku: Seq::empty(),
        name: Seq::empty(),
        status: ProductStatus::Draft,
        pricing: empty_pricing(),
    }
}

/// The entry after an event, from the current one.
pub open spec fn product_row_after(cur: Option<ProductRow>, e: ProductEvent) -> ProductRow {
    match e {
        ProductEvent::ProductCreated(c) => ProductRow {
            product_id: c.product_id,
            sku: c.sku@,
            name: c.name@,
            status: ProductStatus::Draft,
            pricing: c.pricing,
        },
        ProductEvent::ProductActivated(a) => {
            let base = match cur {
                Some(b) => b,
                None => blank_product(a.product_id),
            };
            ProductRow { status: ProductStatus::Active, ..base }
        },
        ProductEvent::ProductArchived(a) => {
            let base = match cur {
                Some(b) => b,
                None => blank_product(a.product_id),
            };
            ProductRow { status: ProductStatus::Archived, ..base }
        },
    }
}

/// The catalog's rules: the event must belong to the envelope's tenant and
/// stream; its product's entry is then rewritten.
pub open spec fn product_rules() -> Rules<ProductEvent, ProductRows> {
    |rows: ProductRows, t: TenantId, a: AggregateId, e: ProductEvent|
        {
            let (et, pid) = e.spec_stream();
            if et != t {
                Err(
                    ProjectionFault::TenantIsolation(
                        "event tenant_id does not match envelope tenant_id"@,
                    ),
                )
            } else if pid.0 != a {
                Err(
                    ProjectionFault::TenantIsolation(
                        "event product_id does not match envelope aggregate_id"@,
                    ),
                )
            } else {
                Ok(upserted(rows, t, pid, product_row_after(lookup(rows, t, pid), e)))
            }
        }
}

/// Product catalog projection.
#[derive(Debug)]
pub struct ProductCatalogProjection {
    store: InMemoryTenantStore<ProductId, ProductReadModel>,
    cursors: CursorTable,
}

impl View for ProductCatalogProjection {
    type V = ProjectionView<ProductRows>;

    closed spec fn view(&self) -> ProjectionView<ProductRows> {
        ProjectionView { rows: self.store.entries(), cursors: self.cursors.entries() }
    }
}

fn row_after(cur: Option<ProductReadModel>, e: &ProductEvent) -> (r: ProductReadModel)
    ensures
        r@ == product_row_after(opt_view(cur), *e),
{
    match e {
        ProductEvent::ProductCreated(c) => ProductReadModel {
            product_id: c.product_id,
            sku: c.sku.clone(),
            name: c.name.clone(),
            status: ProductStatus::Draft,
            pricing: c.pricing.duplicate(),
        },
        ProductEvent::ProductActivated(a) => {
            let mut base = match cur {
                Some(b) => b,
                None => ProductReadModel {
                    product_id: a.product_id,
                    sku: String::new(),
                    name: String::new(),
                    status: ProductStatus::Draft,
                    pricing: PricingMetadata::default(),
                },
            };
            base.status = ProductStatus::Active;
            base
        },
        ProductEvent::ProductArchived(a) => {
            let mut base = match cur {
                Some(b) => b,
                None => ProductReadModel {
                    product_id: a.product_id,
                    sku: String::new(),
                    name: String::new(),
                    status: ProductStatus::Draft,
                    pricing: PricingMetadata::default(),
                },
            };
            base.status = ProductStatus::Archived;
            base
        },
    }
}

impl ProductCatalogProjection {
    /// Take up a stream's progress kept elsewhere (a cursor persisted across
    /// restarts): envelopes of the stream at or below `last` are then ignored.
    pub fn seed_cursor(&mut self, tenant_id: TenantId, aggregate_id: AggregateId, last: u64)
        ensures
            final(self)@.rows == old(self)@.rows,
            final(self)@.cursors == upserted(old(self)@.cursors, tenant_id, aggregate_id, last),
    {
        self.cursors.upsert(tenant_id, aggregate_id, last);
    }

    /// The last sequence number applied for a stream, 0 if none: the cursor
    /// to persist.
    pub fn stream_cursor(&self, tenant_id: TenantId, aggregate_id: AggregateId) -> (r: u64)
        ensures
            r == crate::projections::cursor_of(self@.cursors, tenant_id, aggregate_id),
    {
        crate::projections::read_cursor(&self.cursors, tenant_id, aggregate_id)
    }

    pub fn new() -> (r: Self)
        ensures
            r@.rows == Seq::<(TenantId, ProductId, ProductRow)>::empty(),
            r@.cursors == Seq::<(TenantId, AggregateId, u64)>::empty(),
    {
        ProductCatalogProjection { store: InMemoryTenantStore::new(), cursors: InMemoryTenantStore::new() }
    }

    /// The entry of one product.
    pub fn get(&self, tenant_id: TenantId, product_id: &ProductId) -> (r: Option<ProductReadModel>)
        ensures
            opt_view(r) == lookup(self@.rows, tenant_id, *product_id),
    {
        self.store.get(tenant_id, product_id)
    }

    /// Every entry of a tenant.
    pub fn list(&self, tenant_id: TenantId) -> (r: Vec<ProductReadModel>)
        ensures
            r@.map_values(|m: ProductReadModel| m@) == tenant_rows(self@.rows, tenant_id),
    {
        self.store.list(tenant_id)
    }

    /// Apply one published envelope.
    pub fn apply_envelope(&mut self, envelope: &EventEnvelope<Result<ProductEvent, String>>) -> (r:
        Result<(), ProductProjectionError>)
        ensures
            (fault_view(r), final(self)@) == project(
                "products.product"@,
                old(self)@,
                *envelope,
                product_rules(),
            ),
    {
        let tenant_id = envelope.tenant_id();
        let aggregate_id = envelope.aggregate_id();
        let seq = envelope.sequence_number();
        match intake(&self.cursors, envelope, "products.product") {
            Intake::Ignore => {
                return Ok(());
            },
            Intake::Stale { last, found } => {
                return Err(ProductProjectionError::NonMonotonicSequence { last, found });
            },
            Intake::Proceed => {},
        }
        let ev = match envelope.payload() {
            Err(m) => {
                return Err(ProductProjectionError::Deserialize(m.clone()));
            },
            Ok(e) => e,
        };
        let (event_tenant, product_id) = ev.stream();
        if event_tenant != tenant_id {
            return Err(
                ProductProjectionError::TenantIsolation(
                    owned("event tenant_id does not match envelope tenant_id"),
                ),
            );
        }
        if product_id.0 != aggregate_id {
            return Err(
                ProductProjectionError::TenantIsolation(
                    owned("event product_id does not match envelope aggregate_id"),
                ),
            );
        }
        let current = self.store.get(tenant_id, &product_id);
        let row = row_after(current, ev);
        self.store.upsert(tenant_id, product_id, row);
        self.cursors.upsert(tenant_id, aggregate_id, seq);
        Ok(())
    }

    /// Clear the tenants of `envelopes` and replay them in replay order,
    /// stopping at the first refusal.
    pub fn rebuild_from_scratch(&mut self, envelopes: Vec<EventEnvelope<Result<ProductEvent, String>>>) -> (r:
        Result<(), ProductProjectionError>)
        ensures
            (fault_view(r), final(self)@) == project_all(
                "products.product"@,
                cleared(old(self)@, tenants_of(envelopes@)),
                envelopes@,
                replay_order(replay_keys(envelopes@), envelopes@.len() as nat),
                product_rules(),
            ),
    {
        let tenants = envelope_tenants(&envelopes);
        self.store.clear_tenants(&tenants);
        self.cursors.clear_tenants(&tenants);
        let ghost s0 = self@;
        let order = replay_order_of(&envelopes);
        let ghost ord = order@.map_values(|x: usize| x as int);
        let mut i: usize = 0;
        proof {
            assert(ord.take(0) =~= Seq::<int>::empty());
        }
        while i < order.len()
            invariant
                i <= order@.len(),
                ord == order@.map_values(|x: usize| x as int),
                ord == replay_order(replay_keys(envelopes@), envelopes@.len() as nat),
                forall|j: int| 0 <= j < order@.len() ==> order@[j] < envelopes@.len(),
                s0 == cleared(old(self)@, tenants_of(envelopes@)),
                project_all("products.product"@, s0, envelopes@, ord.take(i as int), product_rules())
                    == (Ok::<(), ProjectionFault>(()), self@),
            decreases order@.len() - i,
        {
            let k = order[i];
            proof {
                assert(ord.take(i + 1).drop_last() =~= ord.take(i as int));
                assert(ord.take(i + 1).last() == k as int);
            }
            let res = self.apply_envelope(&envelopes[k]);
            match res {
                Err(e) => {
                    proof {
                        lemma_project_all_stops(
                            "products.product"@,
                            s0,
                            envelopes@,
                            ord,
                            product_rules(),
                            i + 1,
                        );
                    }
                    return Err(e);
                },
                Ok(()) => {},
            }
            i = i + 1;
        }
        proof {
            assert(ord.take(ord.len() as int) =~= ord);
        }
        Ok(())
    }
}

} // verus!
