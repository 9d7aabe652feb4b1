//! Products: catalog entries with a draft, active, archived lifecycle.
use vstd::prelude::*;

use crate::common::{
    Replicate,
    outcome, reject, Aggregate, AggregateId, AggregateRoot, DomainError, DomainErrorKind,
    Rejection, TenantId, Timestamp,
};
use crate::events::Event;
use crate::json::{uuid_chars, uuid_text};
use crate::text::{copy_opt_string, is_blank, is_blank_str};
use crate::read_model::RecordKey;

verus! {

/// Product identifier.
#[derive(Debug, Clone, Copy, PartialEq, Eq, Hash, Structural)]
pub struct ProductId(pub AggregateId);

impl View for ProductId {
    type V = ProductId;

    open spec fn view(&self) -> ProductId {
        *self
    }
}

impl RecordKey for ProductId {
    fn same_key(&self, other: &Self) -> (r: bool) {
        self.0.0 == other.0.0
    }

    fn copy_key(&self) -> (r: Self) {
        *self
    }
}

impl ProductId {
    pub fn new(id: AggregateId) -> (r: ProductId)
        ensures
            r.0 == id,
    {
        ProductId(id)
    }

    /// The identifier in its hyphenated text form, as `Display` writes it.
    pub fn display_text(&self) -> (r: String)
        ensures
            r@ == uuid_chars(self.0.0),
    {
        uuid_text(self.0.0)
    }
}

/// Product lifecycle.
#[derive(Debug, Clone, Copy, PartialEq, Eq, Structural)]
pub enum ProductStatus {
    Draft,
    Active,
    Archived,
}

/// Optional pricing metadata: price in the smallest currency unit and an
/// ISO currency code.
#[derive(Debug, Clone, PartialEq, Eq)]
pub struct PricingMetadata {
    pub base_price: Option<u64>,
    pub currency: Option<String>,
}

pub open spec fn empty_pricing() -> PricingMetadata {
    PricingMetadata { base_price: None, currency: None }
}

impl Default for PricingMetadata {
    fn default() -> (r: PricingMetadata)
        ensures
            r == empty_pricing(),
    {
        PricingMetadata { base_price: None, currency: None }
    }
}

impl PricingMetadata {
    /// A copy of this pricing.
    pub fn duplicate(&self) -> (r: PricingMetadata)
        ensures
            r == *self,
    {
        PricingMetadata { base_price: self.base_price, currency: copy_opt_string(&self.currency) }
    }
}

/// Command: create a product (starts as draft).
#[derive(Debug, Clone, PartialEq, Eq)]
pub struct CreateProduct {
    pub tenant_id: TenantId,
    pub product_id: ProductId,
    pub sku: String,
    pub name: String,
    pub pricing: Option<PricingMetadata>,
    pub occurred_at: Timestamp,
}

/// Command: activate a product.
#[derive(Debug, Clone, PartialEq, Eq)]
pub struct ActivateProduct {
    pub tenant_id: TenantId,
    pub product_id: ProductId,
    pub occurred_at: Timestamp,
}

/// Command: archive a product.
#[derive(Debug, Clone, PartialEq, Eq)]
pub struct ArchiveProduct {
    pub tenant_id: TenantId,
    pub product_id: ProductId,
    pub occurred_at: Timestamp,
}

#[derive(Debug, Clone, PartialEq, Eq)]
pub enum ProductCommand {
    CreateProduct(CreateProduct),
    ActivateProduct(ActivateProduct),
    ArchiveProduct(ArchiveProduct),
}

/// Event: a product was created.
#[derive(Debug, Clone, PartialEq, Eq)]
pub struct ProductCreated {
    pub tenant_id: TenantId,
    pub product_id: ProductId,
    pub sku: String,
    pub name: String,
    pub pricing: PricingMetadata,
    pub occurred_at: Timestamp,
}

/// Event: a product was activated.
#[derive(Debug, Clone, PartialEq, Eq)]
pub struct ProductActivated {
    pub tenant_id: TenantId,
    pub product_id: ProductId,
    pub occurred_at: Timestamp,
}

/// Event: a product was archived.
#[derive(Debug, Clone, PartialEq, Eq)]
pub struct ProductArchived {
    pub tenant_id: TenantId,
    pub product_id: ProductId,
    pub occurred_at: Timestamp,
}

#[derive(Debug, Clone, PartialEq, Eq)]
pub enum ProductEvent {
    ProductCreated(ProductCreated),
    ProductActivated(ProductActivated),
    ProductArchived(ProductArchived),
}

impl ProductEvent {
    /// Tenant and product the event belongs to.
    pub open spec fn spec_stream(self) -> (TenantId, ProductId) {
        match self {
            ProductEvent::ProductCreated(e) => (e.tenant_id, e.product_id),
            ProductEvent::ProductActivated(e) => (e.tenant_id, e.product_id),
            ProductEvent::ProductArchived(e) => (e.tenant_id, e.product_id),
        }
    }

    pub fn stream(&self) -> (r: (TenantId, ProductId))
        ensures
            r == self.spec_stream(),
    {
        match self {
            ProductEvent::ProductCreated(e) => (e.tenant_id, e.product_id),
            ProductEvent::ProductActivated(e) => (e.tenant_id, e.product_id),
            ProductEvent::ProductArchived(e) => (e.tenant_id, e.product_id),
        }
    }
}

impl View for ProductEvent {
    type V = ProductEvent;

    open spec fn view(&self) -> ProductEvent {
        *self
    }
}

impl Replicate for ProductEvent {
    fn replicate(&self) -> (r: ProductEvent) {
        match self {
            ProductEvent::ProductCreated(e) => ProductEvent::ProductCreated(
                ProductCreated {
                    tenant_id: e.tenant_id,
                    product_id: e.product_id,
                    sku: e.sku.clone(),
                    name: e.name.clone(),
                    pricing: e.pricing.duplicate(),
                    occurred_at: e.occurred_at,
                },
            ),
            ProductEvent::ProductActivated(e) => ProductEvent::ProductActivated(
                ProductActivated {
                    tenant_id: e.tenant_id,
                    product_id: e.product_id,
                    occurred_at: e.occurred_at,
                },
            ),
            ProductEvent::ProductArchived(e) => ProductEvent::ProductArchived(
                ProductArchived {
                    tenant_id: e.tenant_id,
                    product_id: e.product_id,
                    occurred_at: e.occurred_at,
                },
            ),
        }
    }
}

impl Event for ProductEvent {
    open spec fn spec_event_type(&self) -> Seq<char> {
        match self {
            ProductEvent::ProductCreated(_) => "products.product.created"@,
            ProductEvent::ProductActivated(_) => "products.product.activated"@,
            ProductEvent::ProductArchived(_) => "products.product.archived"@,
        }
    }

    open spec fn spec_occurred_at(&self) -> Timestamp {
        match self {
            ProductEvent::ProductCreated(e) => e.occurred_at,
            ProductEvent::ProductActivated(e) => e.occurred_at,
            ProductEvent::ProductArchived(e) => e.occurred_at,
        }
    }

    fn event_type(&self) -> (r: &'static str) {
        match self {
            ProductEvent::ProductCreated(_) => "products.product.created",
            ProductEvent::ProductActivated(_) => "products.product.activated",
            ProductEvent::ProductArchived(_) => "products.product.archived",
        }
    }

    fn version(&self) -> (r: u32)
        ensures
            r == 1,
    {
        1
    }

    fn occurred_at(&self) -> (r: Timestamp) {
        match self {
            ProductEvent::ProductCreated(e) => e.occurred_at,
            ProductEvent::ProductActivated(e) => e.occurred_at,
            ProductEvent::ProductArchived(e) => e.occurred_at,
        }
    }
}

/// Aggregate root: a product.
#[derive(Debug, Clone, PartialEq, Eq)]
pub struct Product {
    id: ProductId,
    tenant_id: Option<TenantId>,
    sku: String,
    name: String,
    status: ProductStatus,
    pricing: PricingMetadata,
    version: u64,
    created: bool,
}

/// The state of a product.
pub struct ProductView {
    pub id: ProductId,
    pub tenant_id: Option<TenantId>,
    pub sku: String,
    pub name: String,
    pub status: ProductStatus,
    pub pricing: PricingMetadata,
    pub version: u64,
    pub created: bool,
}

impl View for Product {
    type V = ProductView;

    closed spec fn view(&self) -> ProductView {
        ProductView {
            id: self.id,
            tenant_id: self.tenant_id,
            sku: self.sku,
            name: self.name,
            status: self.status,
            pricing: self.pricing,
            version: self.version,
            created: self.created,
        }
    }
}

pub open spec fn product_is_initial(v: ProductView, id: ProductId) -> bool {
    &&& v.id == id
    &&& v.tenant_id is None
    &&& v.sku@ == Seq::<char>::empty()
    &&& v.name@ == Seq::<char>::empty()
    &&& v.status == ProductStatus::Draft
    &&& v.pricing == empty_pricing()
    &&& v.version == 0
    &&& !v.created
}

pub open spec fn product_guard(s: ProductView, tenant_id: TenantId, product_id: ProductId) -> Option<
    Rejection,
> {
    if s.created && s.tenant_id != Some(tenant_id) {
        Some(reject(DomainErrorKind::InvariantViolation, "tenant mismatch"@))
    } else if s.id != product_id {
        Some(reject(DomainErrorKind::InvariantViolation, "product_id mismatch"@))
    } else {
        None
    }
}

/// What a product decides for a command.
pub open spec fn product_decide(s: ProductView, c: ProductCommand) -> Result<
    Seq<ProductEvent>,
    Rejection,
> {
    match c {
        ProductCommand::CreateProduct(cmd) => {
            if s.created {
                Err(reject(DomainErrorKind::Conflict, "product already exists"@))
            } else if is_blank(cmd.name@) {
                Err(reject(DomainErrorKind::Validation, "name cannot be empty"@))
            } else if is_blank(cmd.sku@) {
                Err(reject(DomainErrorKind::Validation, "SKU cannot be empty"@))
            } else {
                Ok(
                    seq![
                        ProductEvent::ProductCreated(
                            ProductCreated {
                                tenant_id: cmd.tenant_id,
                                product_id: cmd.product_id,
                                sku: cmd.sku,
                                name: cmd.name,
                                pricing: match cmd.pricing {
                                    Some(p) => p,
                                    None => empty_pricing(),
                                },
                                occurred_at: cmd.occurred_at,
                            },
                        ),
                    ],
                )
            }
        },
        ProductCommand::ActivateProduct(cmd) => {
            if !s.created {
                Err(reject(DomainErrorKind::NotFound, Seq::empty()))
            } else if product_guard(s, cmd.tenant_id, cmd.product_id) is Some {
                Err(product_guard(s, cmd.tenant_id, cmd.product_id)->0)
            } else if s.status == ProductStatus::Active {
                Err(reject(DomainErrorKind::Conflict, "product is already active"@))
            } else if s.status == ProductStatus::Archived {
                Err(
                    reject(
                        DomainErrorKind::InvariantViolation,
                        "archived products cannot be activated"@,
                    ),
                )
            } else {
                Ok(
                    seq![
                        ProductEvent::ProductActivated(
                            ProductActivated {
                                tenant_id: cmd.tenant_id,
                                product_id: cmd.product_id,
                                occurred_at: cmd.occurred_at,
                            },
                        ),
                    ],
                )
            }
        },
        ProductCommand::ArchiveProduct(cmd) => {
            if !s.created {
                Err(reject(DomainErrorKind::NotFound, Seq::empty()))
            } else if product_guard(s, cmd.tenant_id, cmd.product_id) is Some {
                Err(product_guard(s, cmd.tenant_id, cmd.product_id)->0)
            } else if s.status == ProductStatus::Archived {
                Err(reject(DomainErrorKind::Conflict, "product is already archived"@))
            } else {
                Ok(
                    seq![
                        ProductEvent::ProductArchived(
                            ProductArchived {
                                tenant_id: cmd.tenant_id,
                                product_id: cmd.product_id,
                                occurred_at: cmd.occurred_at,
                            },
                        ),
                    ],
                )
            }
        },
    }
}

/// The state after one event.
pub open spec fn product_evolve(s: ProductView, e: ProductEvent) -> ProductView {
    let t = match e {
        ProductEvent::ProductCreated(e) => ProductView {
            id: e.product_id,
            tenant_id: Some(e.tenant_id),
            sku: e.sku,
            name: e.name,
            status: ProductStatus::Draft,
            pricing: e.pricing,
            created: true,
            ..s
        },
        ProductEvent::ProductActivated(_) => ProductView { status: ProductStatus::Active, ..s },
        ProductEvent::ProductArchived(_) => ProductView { status: ProductStatus::Archived, ..s },
    };
    ProductView { version: (s.version + 1) as u64, ..t }
}

impl Product {
    /// An empty, not-yet-created product for rehydration.
    pub fn empty(id: ProductId) -> (r: Product)
        ensures
            product_is_initial(r@, id),
            r.spec_version() == 0,
    {
        Product {
            id,
            tenant_id: None,
            sku: String::new(),
            name: String::new(),
            status: ProductStatus::Draft,
            pricing: PricingMetadata::default(),
            version: 0,
            created: false,
        }
    }

    pub fn id_typed(&self) -> (r: ProductId)
        ensures
            r == self@.id,
    {
        self.id
    }

    pub fn tenant_id(&self) -> (r: Option<TenantId>)
        ensures
            r == self@.tenant_id,
    {
        self.tenant_id
    }

    pub fn sku(&self) -> (r: &str)
        ensures
            r@ == self@.sku@,
    {
        self.sku.as_str()
    }

    pub fn name(&self) -> (r: &str)
        ensures
            r@ == self@.name@,
    {
        self.name.as_str()
    }

    pub fn status(&self) -> (r: ProductStatus)
        ensures
            r == self@.status,
    {
        self.status
    }

    pub fn pricing(&self) -> (r: &PricingMetadata)
        ensures
            *r == self@.pricing,
    {
        &self.pricing
    }

    /// Only active products can be sold.
    pub fn can_be_sold(&self) -> (r: bool)
        ensures
            r == (self@.status == ProductStatus::Active),
    {
        self.status == ProductStatus::Active
    }

    fn ensure_tenant(&self, tenant_id: TenantId) -> (r: Result<(), DomainError>)
        ensures
            r is Ok <==> !(self.created && self.tenant_id != Some(tenant_id)),
            r matches Err(e) ==> e@ == reject(DomainErrorKind::InvariantViolation, "tenant mismatch"@),
    {
        if !self.created {
            return Ok(());
        }
        if self.tenant_id != Some(tenant_id) {
            return Err(DomainError::invariant_violation("tenant mismatch"));
        }
        Ok(())
    }

    fn ensure_product_id(&self, product_id: ProductId) -> (r: Result<(), DomainError>)
        ensures
            r is Ok <==> self.id == product_id,
            r matches Err(e) ==> e@ == reject(
                DomainErrorKind::InvariantViolation,
                "product_id mismatch"@,
            ),
    {
        if self.id != product_id {
            return Err(DomainError::invariant_violation("product_id mismatch"));
        }
        Ok(())
    }

    fn handle_create(&self, cmd: &CreateProduct) -> (r: Result<Vec<ProductEvent>, DomainError>)
        ensures
            outcome(r) == product_decide(self@, ProductCommand::CreateProduct(*cmd)),
    {
        if self.created {
            return Err(DomainError::conflict("product already exists"));
        }
        if is_blank_str(cmd.name.as_str()) {
            return Err(DomainError::validation("name cannot be empty"));
        }
        if is_blank_str(cmd.sku.as_str()) {
            return Err(DomainError::validation("SKU cannot be empty"));
        }
        let pricing = match &cmd.pricing {
            Some(p) => p.duplicate(),
            None => PricingMetadata::default(),
        };
        let ev = ProductEvent::ProductCreated(
            ProductCreated {
                tenant_id: cmd.tenant_id,
                product_id: cmd.product_id,
                sku: cmd.sku.clone(),
                name: cmd.name.clone(),
                pricing,
                occurred_at: cmd.occurred_at,
            },
        );
        let v = vec![ev];
        assert(crate::common::views(v@) =~= seq![ev@]);
        Ok(v)
    }

    fn handle_activate(&self, cmd: &ActivateProduct) -> (r: Result<Vec<ProductEvent>, DomainError>)
        ensures
            outcome(r) == product_decide(self@, ProductCommand::ActivateProduct(*cmd)),
    {
        if !self.created {
            return Err(DomainError::not_found());
        }
        match self.ensure_tenant(cmd.tenant_id) {
            Ok(()) => {},
            Err(e) => return Err(e),
        }
        match self.ensure_product_id(cmd.product_id) {
            Ok(()) => {},
            Err(e) => return Err(e),
        }
        if self.status == ProductStatus::Active {
            return Err(DomainError::conflict("product is already active"));
        }
        if self.status == ProductStatus::Archived {
            return Err(DomainError::invariant_violation("archived products cannot be activated"));
        }
        let ev = ProductEvent::ProductActivated(
            ProductActivated {
                tenant_id: cmd.tenant_id,
                product_id: cmd.product_id,
                occurred_at: cmd.occurred_at,
            },
        );
        let v = vec![ev];
        assert(crate::common::views(v@) =~= seq![ev@]);
        Ok(v)
    }

    fn handle_archive(&self, cmd: &ArchiveProduct) -> (r: Result<Vec<ProductEvent>, DomainError>)
        ensures
            outcome(r) == product_decide(self@, ProductCommand::ArchiveProduct(*cmd)),
    {
        if !self.created {
            return Err(DomainError::not_found());
        }
        match self.ensure_tenant(cmd.tenant_id) {
            Ok(()) => {},
            Err(e) => return Err(e),
        }
        match self.ensure_product_id(cmd.product_id) {
            Ok(()) => {},
            Err(e) => return Err(e),
        }
        if self.status == ProductStatus::Archived {
            return Err(DomainError::conflict("product is already archived"));
        }
        let ev = ProductEvent::ProductArchived(
            ProductArchived {
                tenant_id: cmd.tenant_id,
                product_id: cmd.product_id,
                occurred_at: cmd.occurred_at,
            },
        );
        let v = vec![ev];
        assert(crate::common::views(v@) =~= seq![ev@]);
        Ok(v)
    }
}

impl AggregateRoot for Product {
    type Id = ProductId;

    closed spec fn spec_version(&self) -> u64 {
        self.version
    }

    fn id(&self) -> &ProductId {
        &self.id
    }

    fn version(&self) -> (r: u64) {
        self.version
    }
}

impl Aggregate for Product {
    type Command = ProductCommand;
    type Event = ProductEvent;

    open spec fn spec_decide(state: ProductView, command: ProductCommand) -> Result<
        Seq<ProductEvent>,
        Rejection,
    > {
        product_decide(state, command)
    }

    open spec fn spec_evolve(state: ProductView, event: ProductEvent) -> ProductView {
        product_evolve(state, event)
    }

    open spec fn spec_handle_defined(state: ProductView, command: ProductCommand) -> bool {
        true
    }

    open spec fn spec_apply_defined(state: ProductView, event: ProductEvent) -> bool {
        true
    }

    fn handle(&self, command: &ProductCommand) -> (r: Result<Vec<ProductEvent>, DomainError>) {
        match command {
            ProductCommand::CreateProduct(cmd) => self.handle_create(cmd),
            ProductCommand::ActivateProduct(cmd) => self.handle_activate(cmd),
            ProductCommand::ArchiveProduct(cmd) => self.handle_archive(cmd),
        }
    }

    fn apply(&mut self, event: &ProductEvent) {
        match event {
            ProductEvent::ProductCreated(e) => {
                self.id = e.product_id;
                self.tenant_id = Some(e.tenant_id);
                self.sku = e.sku.clone();
                self.name = e.name.clone();
                self.status = ProductStatus::Draft;
                self.pricing = e.pricing.duplicate();
                self.created = true;
            },
            ProductEvent::ProductActivated(_) => {
                self.status = ProductStatus::Active;
            },
            ProductEvent::ProductArchived(_) => {
                self.status = ProductStatus::Archived;
            },
        }
        self.version = self.version + 1;
    }
}

/// Archived is terminal: an archived product accepts no command.
pub proof fn lemma_archived_is_terminal(s: ProductView, c: ProductCommand)
    requires
        s.created,
        s.status == ProductStatus::Archived,
    ensures
        product_decide(s, c) is Err,
{
}

/// The lifecycle only moves forward: Draft to Active, Draft or Active to
/// Archived; every accepted command on an existing product moves it.
pub proof fn lemma_product_lifecycle(s: ProductView, c: ProductCommand)
    requires
        s.created,
        product_decide(s, c) is Ok,
    ensures
        ({
            let t = product_evolve(s, product_decide(s, c)->Ok_0[0]);
            match c {
                ProductCommand::CreateProduct(_) => false,
                ProductCommand::ActivateProduct(cmd) => s.status == ProductStatus::Draft && t.status
                    == ProductStatus::Active && Some(cmd.tenant_id) == s.tenant_id,
                ProductCommand::ArchiveProduct(cmd) => s.status != ProductStatus::Archived
                    && t.status == ProductStatus::Archived && Some(cmd.tenant_id) == s.tenant_id,
            }
        }),
{
}

} // verus!
