//! Inventory items: stock levels, event-sourced.
use vstd::prelude::*;

use crate::common::{
    Replicate,
    outcome, reject, Aggregate, AggregateId, AggregateRoot, DomainError, DomainErrorKind,
    Rejection, TenantId, Timestamp,
};
use crate::events::Event;
use crate::json::{uuid_chars, uuid_text};
use crate::text::{is_blank, is_blank_str};
use crate::read_model::RecordKey;

verus! {

/// Inventory item identifier.
#[derive(Debug, Clone, Copy, PartialEq, Eq, Hash, Structural)]
pub struct InventoryItemId(pub AggregateId);

impl View for InventoryItemId {
    type V = InventoryItemId;

    open spec fn view(&self) -> InventoryItemId {
        *self
    }
}

impl RecordKey for InventoryItemId {
    fn same_key(&self, other: &Self) -> (r: bool) {
        self.0.0 == other.0.0
    }

    fn copy_key(&self) -> (r: Self) {
        *self
    }
}

impl InventoryItemId {
    pub fn new(id: AggregateId) -> (r: InventoryItemId)
        ensures
            r.0 == id,
    {
        InventoryItemId(id)
    }

    /// The identifier in its hyphenated text form, as `Display` writes it.
    pub fn display_text(&self) -> (r: String)
        ensures
            r@ == uuid_chars(self.0.0),
    {
        uuid_text(self.0.0)
    }
}

/// Command: create an item.
#[derive(Debug, Clone, PartialEq, Eq)]
pub struct CreateItem {
    pub tenant_id: TenantId,
    pub item_id: InventoryItemId,
    pub name: String,
    pub occurred_at: Timestamp,
}

/// Command: adjust stock by a signed delta.
#[derive(Debug, Clone, PartialEq, Eq)]
pub struct AdjustStock {
    pub tenant_id: TenantId,
    pub item_id: InventoryItemId,
    pub delta: i64,
    pub occurred_at: Timestamp,
}

#[derive(Debug, Clone, PartialEq, Eq)]
pub enum InventoryCommand {
    CreateItem(CreateItem),
    AdjustStock(AdjustStock),
}

/// Event: an item was created (stock starts at zero).
#[derive(Debug, Clone, PartialEq, Eq)]
pub struct ItemCreated {
    pub tenant_id: TenantId,
    pub item_id: InventoryItemId,
    pub name: String,
    pub occurred_at: Timestamp,
}

/// Event: stock changed by `delta`.
#[derive(Debug, Clone, PartialEq, Eq)]
pub struct StockAdjusted {
    pub tenant_id: TenantId,
    pub item_id: InventoryItemId,
    pub delta: i64,
    pub occurred_at: Timestamp,
}

#[derive(Debug, Clone, PartialEq, Eq)]
pub enum InventoryEvent {
    ItemCreated(ItemCreated),
    StockAdjusted(StockAdjusted),
}

impl InventoryEvent {
    /// Tenant and item the event belongs to.
    pub open spec fn spec_stream(self) -> (TenantId, InventoryItemId) {
        match self {
            InventoryEvent::ItemCreated(e) => (e.tenant_id, e.item_id),
            InventoryEvent::StockAdjusted(e) => (e.tenant_id, e.item_id),
        }
    }

    pub fn stream(&self) -> (r: (TenantId, InventoryItemId))
        ensures
            r == self.spec_stream(),
    {
        match self {
            InventoryEvent::ItemCreated(e) => (e.tenant_id, e.item_id),
            InventoryEvent::StockAdjusted(e) => (e.tenant_id, e.item_id),
        }
    }
}

impl View for InventoryEvent {
    type V = InventoryEvent;

    open spec fn view(&self) -> InventoryEvent {
        *self
    }
}

impl Replicate for InventoryEvent {
    fn replicate(&self) -> (r: InventoryEvent) {
        match self {
            InventoryEvent::ItemCreated(e) => InventoryEvent::ItemCreated(
                ItemCreated {
                    tenant_id: e.tenant_id,
                    item_id: e.item_id,
                    name: e.name.clone(),
                    occurred_at: e.occurred_at,
                },
            ),
            InventoryEvent::StockAdjusted(e) => InventoryEvent::StockAdjusted(
                StockAdjusted {
                    tenant_id: e.tenant_id,
                    item_id: e.item_id,
                    delta: e.delta,
                    occurred_at: e.occurred_at,
                },
            ),
        }
    }
}

impl Event for InventoryEvent {
    open spec fn spec_event_type(&self) -> Seq<char> {
        match self {
            InventoryEvent::ItemCreated(_) => "inventory.item.created"@,
            InventoryEvent::StockAdjusted(_) => "inventory.item.stock_adjusted"@,
        }
    }

    open spec fn spec_occurred_at(&self) -> Timestamp {
        match self {
            InventoryEvent::ItemCreated(e) => e.occurred_at,
            InventoryEvent::StockAdjusted(e) => e.occurred_at,
        }
    }

    fn event_type(&self) -> (r: &'static str) {
        match self {
            InventoryEvent::ItemCreated(_) => "inventory.item.created",
            InventoryEvent::StockAdjusted(_) => "inventory.item.stock_adjusted",
        }
    }

    fn version(&self) -> (r: u32)
        ensures
            r == 1,
    {
        1
    }

    fn occurred_at(&self) -> (r: Timestamp) {
        match self {
            InventoryEvent::ItemCreated(e) => e.occurred_at,
            InventoryEvent::StockAdjusted(e) => e.occurred_at,
        }
    }
}

/// Aggregate root: an inventory item.
#[derive(Debug, Clone, PartialEq, Eq)]
pub struct InventoryItem {
    id: InventoryItemId,
    tenant_id: Option<TenantId>,
    name: String,
    stock: i64,
    version: u64,
    created: bool,
}

/// The state of an inventory item.
/// An adjustment reaches the new stock only past the guards: the item
/// exists, is the command's own, and the delta is not zero.
pub open spec fn adjust_passes_guards(state: InventoryItemView, c: AdjustStock) -> bool {
    &&& state.created
    &&& state.tenant_id == Some(c.tenant_id)
    &&& state.id == c.item_id
    &&& c.delta != 0
}

pub struct InventoryItemView {
    pub id: InventoryItemId,
    pub tenant_id: Option<TenantId>,
    pub name: String,
    pub stock: i64,
    pub version: u64,
    pub created: bool,
}

impl View for InventoryItem {
    type V = InventoryItemView;

    closed spec fn view(&self) -> InventoryItemView {
        InventoryItemView {
            id: self.id,
            tenant_id: self.tenant_id,
            name: self.name,
            stock: self.stock,
            version: self.version,
            created: self.created,
        }
    }
}

pub open spec fn item_is_initial(v: InventoryItemView, id: InventoryItemId) -> bool {
    &&& v.id == id
    &&& v.tenant_id is None
    &&& v.name@ == Seq::<char>::empty()
    &&& v.stock == 0
    &&& v.version == 0
    &&& !v.created
}

pub open spec fn item_guard(s: InventoryItemView, tenant_id: TenantId, item_id: InventoryItemId) -> Option<
    Rejection,
> {
    if s.created && s.tenant_id != Some(tenant_id) {
        Some(reject(DomainErrorKind::InvariantViolation, "tenant mismatch"@))
    } else if s.id != item_id {
        Some(reject(DomainErrorKind::InvariantViolation, "item_id mismatch"@))
    } else {
        None
    }
}

/// What an inventory item decides for a command.
pub open spec fn item_decide(s: InventoryItemView, c: InventoryCommand) -> Result<
    Seq<InventoryEvent>,
    Rejection,
> {
    match c {
        InventoryCommand::CreateItem(cmd) => {
            if s.created {
                Err(reject(DomainErrorKind::Conflict, "item already exists"@))
            } else if is_blank(cmd.name@) {
                Err(reject(DomainErrorKind::Validation, "name cannot be empty"@))
            } else {
                Ok(
                    seq![
                        InventoryEvent::ItemCreated(
                            ItemCreated {
                                tenant_id: cmd.tenant_id,
                                item_id: cmd.item_id,
                                name: cmd.name,
                                occurred_at: cmd.occurred_at,
                            },
                        ),
                    ],
                )
            }
        },
        InventoryCommand::AdjustStock(cmd) => {
            if !s.created {
                Err(reject(DomainErrorKind::NotFound, Seq::empty()))
            } else if item_guard(s, cmd.tenant_id, cmd.item_id) is Some {
                Err(item_guard(s, cmd.tenant_id, cmd.item_id)->0)
            } else if cmd.delta == 0 {
                Err(reject(DomainErrorKind::Validation, "delta cannot be zero"@))
            } else if s.stock + cmd.delta < 0 {
                Err(reject(DomainErrorKind::InvariantViolation, "stock cannot go negative"@))
            } else {
                Ok(
                    seq![
                        InventoryEvent::StockAdjusted(
                            StockAdjusted {
                                tenant_id: cmd.tenant_id,
                                item_id: cmd.item_id,
                                delta: cmd.delta,
                                occurred_at: cmd.occurred_at,
                            },
                        ),
                    ],
                )
            }
        },
    }
}

/// The state after one event.
pub open spec fn item_evolve(s: InventoryItemView, e: InventoryEvent) -> InventoryItemView {
    let t = match e {
        InventoryEvent::ItemCreated(e) => InventoryItemView {
            id: e.item_id,
            tenant_id: Some(e.tenant_id),
            name: e.name,
            stock: 0,
            created: true,
            ..s
        },
        InventoryEvent::StockAdjusted(e) => InventoryItemView {
            stock: (s.stock + e.delta) as i64,
            ..s
        },
    };
    InventoryItemView { version: (s.version + 1) as u64, ..t }
}

pub open spec fn in_i64(x: int) -> bool {
    i64::MIN <= x <= i64::MAX
}

impl InventoryItem {
    /// An empty, not-yet-created item for rehydration.
    pub fn empty(id: InventoryItemId) -> (r: InventoryItem)
        ensures
            item_is_initial(r@, id),
            r.spec_version() == 0,
    {
        InventoryItem { id, tenant_id: None, name: String::new(), stock: 0, version: 0, created: false }
    }

    pub fn id_typed(&self) -> (r: InventoryItemId)
        ensures
            r == self@.id,
    {
        self.id
    }

    pub fn tenant_id(&self) -> (r: Option<TenantId>)
        ensures
            r == self@.tenant_id,
    {
        self.tenant_id
    }

    pub fn stock(&self) -> (r: i64)
        ensures
            r == self@.stock,
    {
        self.stock
    }

    fn ensure_tenant(&self, tenant_id: TenantId) -> (r: Result<(), DomainError>)
        ensures
            r is Ok <==> !(self.created && self.tenant_id != Some(tenant_id)),
            r matches Err(e) ==> e@ == reject(DomainErrorKind::InvariantViolation, "tenant mismatch"@),
    {
        if !self.created {
            return Ok(());
        }
        if self.tenant_id != Some(tenant_id) {
            return Err(DomainError::invariant_violation("tenant mismatch"));
        }
        Ok(())
    }

    fn ensure_item_id(&self, item_id: InventoryItemId) -> (r: Result<(), DomainError>)
        ensures
            r is Ok <==> self.id == item_id,
            r matches Err(e) ==> e@ == reject(DomainErrorKind::InvariantViolation, "item_id mismatch"@),
    {
        if self.id != item_id {
            return Err(DomainError::invariant_violation("item_id mismatch"));
        }
        Ok(())
    }

    fn handle_create(&self, cmd: &CreateItem) -> (r: Result<Vec<InventoryEvent>, DomainError>)
        ensures
            outcome(r) == item_decide(self@, InventoryCommand::CreateItem(*cmd)),
    {
        if self.created {
            return Err(DomainError::conflict("item already exists"));
        }
        if is_blank_str(cmd.name.as_str()) {
            return Err(DomainError::validation("name cannot be empty"));
        }
        let ev = InventoryEvent::ItemCreated(
            ItemCreated {
                tenant_id: cmd.tenant_id,
                item_id: cmd.item_id,
                name: cmd.name.clone(),
                occurred_at: cmd.occurred_at,
            },
        );
        let v = vec![ev];
        assert(crate::common::views(v@) =~= seq![ev@]);
        Ok(v)
    }

    fn handle_adjust(&self, cmd: &AdjustStock) -> (r: Result<Vec<InventoryEvent>, DomainError>)
        requires
            adjust_passes_guards(self@, *cmd) ==> in_i64(self.stock + cmd.delta),
        ensures
            outcome(r) == item_decide(self@, InventoryCommand::AdjustStock(*cmd)),
    {
        if !self.created {
            return Err(DomainError::not_found());
        }
        match self.ensure_tenant(cmd.tenant_id) {
            Ok(()) => {},
            Err(e) => return Err(e),
        }
        match self.ensure_item_id(cmd.item_id) {
            Ok(()) => {},
            Err(e) => return Err(e),
        }
        if cmd.delta == 0 {
            return Err(DomainError::validation("delta cannot be zero"));
        }
        let new_stock = self.stock + cmd.delta;
        if new_stock < 0 {
            return Err(DomainError::invariant_violation("stock cannot go negative"));
        }
        let ev = InventoryEvent::StockAdjusted(
            StockAdjusted {
                tenant_id: cmd.tenant_id,
                item_id: cmd.item_id,
                delta: cmd.delta,
                occurred_at: cmd.occurred_at,
            },
        );
        let v = vec![ev];
        assert(crate::common::views(v@) =~= seq![ev@]);
        Ok(v)
    }
}

impl AggregateRoot for InventoryItem {
    type Id = InventoryItemId;

    closed spec fn spec_version(&self) -> u64 {
        self.version
    }

    fn id(&self) -> &InventoryItemId {
        &self.id
    }

    fn version(&self) -> (r: u64) {
        self.version
    }
}

impl Aggregate for InventoryItem {
    type Command = InventoryCommand;
    type Event = InventoryEvent;

    open spec fn spec_decide(state: InventoryItemView, command: InventoryCommand) -> Result<
        Seq<InventoryEvent>,
        Rejection,
    > {
        item_decide(state, command)
    }

    open spec fn spec_evolve(state: InventoryItemView, event: InventoryEvent) -> InventoryItemView {
        item_evolve(state, event)
    }

    /// Adding the delta to the current stock must fit an `i64`.
    open spec fn spec_handle_defined(state: InventoryItemView, command: InventoryCommand) -> bool {
        command matches InventoryCommand::AdjustStock(c) ==> (adjust_passes_guards(state, c) ==> in_i64(
            state.stock + c.delta,
        ))
    }

    /// Adding the delta to the current stock must fit an `i64`.
    open spec fn spec_apply_defined(state: InventoryItemView, event: InventoryEvent) -> bool {
        event matches InventoryEvent::StockAdjusted(e) ==> in_i64(state.stock + e.delta)
    }

    fn handle(&self, command: &InventoryCommand) -> (r: Result<Vec<InventoryEvent>, DomainError>) {
        match command {
            InventoryCommand::CreateItem(cmd) => self.handle_create(cmd),
            InventoryCommand::AdjustStock(cmd) => self.handle_adjust(cmd),
        }
    }

    fn apply(&mut self, event: &InventoryEvent) {
        match event {
            InventoryEvent::ItemCreated(e) => {
                self.id = e.item_id;
                self.tenant_id = Some(e.tenant_id);
                self.name = e.name.clone();
                self.stock = 0;
                self.created = true;
            },
            InventoryEvent::StockAdjusted(e) => {
                self.stock = self.stock + e.delta;
            },
        }
        self.version = self.version + 1;
    }
}

/// Stock never goes negative: from a state with non-negative stock, every
/// accepted command leads (after applying its events) to non-negative stock.
pub proof fn lemma_stock_never_negative(s: InventoryItemView, c: InventoryCommand)
    requires
        s.stock >= 0,
        c matches InventoryCommand::AdjustStock(cmd) ==> in_i64(s.stock + cmd.delta),
        item_decide(s, c) is Ok,
    ensures
        ({
            let evs = item_decide(s, c)->Ok_0;
            &&& evs.len() == 1
            &&& item_evolve(s, evs[0]).stock >= 0
        }),
{
}

/// An existing item accepts a command only for its own tenant and id.
pub proof fn lemma_item_accepts_only_own_stream(s: InventoryItemView, c: InventoryCommand)
    requires
        s.created,
        item_decide(s, c) is Ok,
    ensures
        c matches InventoryCommand::AdjustStock(cmd) && Some(cmd.tenant_id) == s.tenant_id
            && cmd.item_id == s.id,
{
}

} // verus!
