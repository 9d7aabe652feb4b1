//! Parties: customers and suppliers, event-sourced.
use vstd::prelude::*;

use crate::common::{
    Replicate,
    outcome, reject, Aggregate, AggregateId, AggregateRoot, DomainError, DomainErrorKind,
    Rejection, TenantId, Timestamp,
};
use crate::events::Event;
use crate::json::{uuid_chars, uuid_text};
use crate::read_model::RecordKey;
use crate::text::{copy_opt_string, is_blank, is_blank_str};

verus! {

/// Party identifier.
#[derive(Debug, Clone, Copy, PartialEq, Eq, Hash, Structural)]
pub struct PartyId(pub AggregateId);

impl View for PartyId {
    type V = PartyId;

    open spec fn view(&self) -> PartyId {
        *self
    }
}

impl RecordKey for PartyId {
    fn same_key(&self, other: &Self) -> (r: bool) {
        self.0.0 == other.0.0
    }

    fn copy_key(&self) -> (r: Self) {
        *self
    }
}

impl PartyId {
    pub fn new(id: AggregateId) -> (r: PartyId)
        ensures
            r.0 == id,
    {
        PartyId(id)
    }

    /// The identifier in its hyphenated text form, as `Display` writes it.
    pub fn display_text(&self) -> (r: String)
        ensures
            r@ == uuid_chars(self.0.0),
    {
        uuid_text(self.0.0)
    }
}

/// Customer or supplier.
#[derive(Debug, Clone, Copy, PartialEq, Eq, Structural)]
pub enum PartyKind {
    Customer,
    Supplier,
}

/// Party lifecycle.
#[derive(Debug, Clone, Copy, PartialEq, Eq, Structural)]
pub enum PartyStatus {
    Active,
    Suspended,
}

/// Contact information.
#[derive(Debug, Clone, PartialEq, Eq)]
pub struct ContactInfo {
    pub email: Option<String>,
    pub phone: Option<String>,
    pub address: Option<String>,
}

pub open spec fn empty_contact() -> ContactInfo {
    ContactInfo { email: None, phone: None, address: None }
}

impl Default for ContactInfo {
    fn default() -> (r: ContactInfo)
        ensures
            r == empty_contact(),
    {
        ContactInfo { email: None, phone: None, address: None }
    }
}

impl ContactInfo {
    /// A copy of this contact.
    pub fn duplicate(&self) -> (r: ContactInfo)
        ensures
            r == *self,
    {
        ContactInfo {
            email: copy_opt_string(&self.email),
            phone: copy_opt_string(&self.phone),
            address: copy_opt_string(&self.address),
        }
    }
}

/// Command: register a party.
#[derive(Debug, Clone, PartialEq, Eq)]
pub struct RegisterParty {
    pub tenant_id: TenantId,
    pub party_id: PartyId,
    pub kind: PartyKind,
    pub name: String,
    pub contact: Option<ContactInfo>,
    pub occurred_at: Timestamp,
}

/// Command: update name and/or contact (None keeps the current value).
#[derive(Debug, Clone, PartialEq, Eq)]
pub struct UpdateDetails {
    pub tenant_id: TenantId,
    pub party_id: PartyId,
    pub name: Option<String>,
    pub contact: Option<ContactInfo>,
    pub occurred_at: Timestamp,
}

/// Command: suspend a party.
#[derive(Debug, Clone, PartialEq, Eq)]
pub struct SuspendParty {
    pub tenant_id: TenantId,
    pub party_id: PartyId,
    pub reason: Option<String>,
    pub occurred_at: Timestamp,
}

#[derive(Debug, Clone, PartialEq, Eq)]
pub enum PartyCommand {
    RegisterParty(RegisterParty),
    UpdateDetails(UpdateDetails),
    SuspendParty(SuspendParty),
}

/// Event: a party was registered.
#[derive(Debug, Clone, PartialEq, Eq)]
pub struct PartyRegistered {
    pub tenant_id: TenantId,
    pub party_id: PartyId,
    pub kind: PartyKind,
    pub name: String,
    pub contact: ContactInfo,
    pub occurred_at: Timestamp,
}

/// Event: name and contact were replaced.
#[derive(Debug, Clone, PartialEq, Eq)]
pub struct PartyUpdated {
    pub tenant_id: TenantId,
    pub party_id: PartyId,
    pub name: String,
    pub contact: ContactInfo,
    pub occurred_at: Timestamp,
}

/// Event: the party was suspended.
#[derive(Debug, Clone, PartialEq, Eq)]
pub struct PartySuspended {
    pub tenant_id: TenantId,
    pub party_id: PartyId,
    pub reason: Option<String>,
    pub occurred_at: Timestamp,
}

#[derive(Debug, Clone, PartialEq, Eq)]
pub enum PartyEvent {
    PartyRegistered(PartyRegistered),
    PartyUpdated(PartyUpdated),
    PartySuspended(PartySuspended),
}

impl View for PartyEvent {
    type V = PartyEvent;

    open spec fn view(&self) -> PartyEvent {
        *self
    }
}

impl Replicate for PartyEvent {
    fn replicate(&self) -> (r: PartyEvent) {
        match self {
            PartyEvent::PartyRegistered(e) => PartyEvent::PartyRegistered(
                PartyRegistered {
                    tenant_id: e.tenant_id,
                    party_id: e.party_id,
                    kind: e.kind,
                    name: e.name.clone(),
                    contact: e.contact.duplicate(),
                    occurred_at: e.occurred_at,
                },
            ),
            PartyEvent::PartyUpdated(e) => PartyEvent::PartyUpdated(
                PartyUpdated {
                    tenant_id: e.tenant_id,
                    party_id: e.party_id,
                    name: e.name.clone(),
                    contact: e.contact.duplicate(),
                    occurred_at: e.occurred_at,
                },
            ),
            PartyEvent::PartySuspended(e) => PartyEvent::PartySuspended(
                PartySuspended {
                    tenant_id: e.tenant_id,
                    party_id: e.party_id,
                    reason: copy_opt_string(&e.reason),
                    occurred_at: e.occurred_at,
                },
            ),
        }
    }
}

impl Event for PartyEvent {
    open spec fn spec_event_type(&self) -> Seq<char> {
        match self {
            PartyEvent::PartyRegistered(_) => "parties.party.registered"@,
            PartyEvent::PartyUpdated(_) => "parties.party.updated"@,
            PartyEvent::PartySuspended(_) => "parties.party.suspended"@,
        }
    }

    open spec fn spec_occurred_at(&self) -> Timestamp {
        match self {
            PartyEvent::PartyRegistered(e) => e.occurred_at,
            PartyEvent::PartyUpdated(e) => e.occurred_at,
            PartyEvent::PartySuspended(e) => e.occurred_at,
        }
    }

    fn event_type(&self) -> (r: &'static str) {
        match self {
            PartyEvent::PartyRegistered(_) => "parties.party.registered",
            PartyEvent::PartyUpdated(_) => "parties.party.updated",
            PartyEvent::PartySuspended(_) => "parties.party.suspended",
        }
    }

    fn version(&self) -> (r: u32)
        ensures
            r == 1,
    {
        1
    }

    fn occurred_at(&self) -> (r: Timestamp) {
        match self {
            PartyEvent::PartyRegistered(e) => e.occurred_at,
            PartyEvent::PartyUpdated(e) => e.occurred_at,
            PartyEvent::PartySuspended(e) => e.occurred_at,
        }
    }
}

/// Aggregate root: a party.
#[derive(Debug, Clone, PartialEq, Eq)]
pub struct Party {
    id: PartyId,
    tenant_id: Option<TenantId>,
    kind: PartyKind,
    name: String,
    contact: ContactInfo,
    status: PartyStatus,
    version: u64,
    created: bool,
}

/// The state of a party.
pub struct PartyView {
    pub id: PartyId,
    pub tenant_id: Option<TenantId>,
    pub kind: PartyKind,
    pub name: String,
    pub contact: ContactInfo,
    pub status: PartyStatus,
    pub version: u64,
    pub created: bool,
}

impl View for Party {
    type V = PartyView;

    closed spec fn view(&self) -> PartyView {
        PartyView {
            id: self.id,
            tenant_id: self.tenant_id,
            kind: self.kind,
            name: self.name,
            contact: self.contact,
            status: self.status,
            version: self.version,
            created: self.created,
        }
    }
}

/// The state before any event.
pub open spec fn party_is_initial(v: PartyView, id: PartyId) -> bool {
    &&& v.id == id
    &&& v.tenant_id is None
    &&& v.kind == PartyKind::Customer
    &&& v.name@ == Seq::<char>::empty()
    &&& v.contact == empty_contact()
    &&& v.status == PartyStatus::Active
    &&& v.version == 0
    &&& !v.created
}

/// Tenant and identity guard for commands on an existing party.
pub open spec fn party_guard(s: PartyView, tenant_id: TenantId, party_id: PartyId) -> Option<
    Rejection,
> {
    if s.created && s.tenant_id != Some(tenant_id) {
        Some(reject(DomainErrorKind::InvariantViolation, "tenant mismatch"@))
    } else if s.id != party_id {
        Some(reject(DomainErrorKind::InvariantViolation, "party_id mismatch"@))
    } else {
        None
    }
}

pub open spec fn contact_or_empty(c: Option<ContactInfo>) -> ContactInfo {
    match c {
        Some(c) => c,
        None => empty_contact(),
    }
}

/// What a party decides for a command.
pub open spec fn party_decide(s: PartyView, c: PartyCommand) -> Result<Seq<PartyEvent>, Rejection> {
    match c {
        PartyCommand::RegisterParty(cmd) => {
            if s.created {
                Err(reject(DomainErrorKind::Conflict, "party already exists"@))
            } else if is_blank(cmd.name@) {
                Err(reject(DomainErrorKind::Validation, "name cannot be empty"@))
            } else {
                Ok(
                    seq![
                        PartyEvent::PartyRegistered(
                            PartyRegistered {
                                tenant_id: cmd.tenant_id,
                                party_id: cmd.party_id,
                                kind: cmd.kind,
                                name: cmd.name,
                                contact: contact_or_empty(cmd.contact),
                                occurred_at: cmd.occurred_at,
                            },
                        ),
                    ],
                )
            }
        },
        PartyCommand::UpdateDetails(cmd) => {
            let new_name = match cmd.name {
                Some(n) => n,
                None => s.name,
            };
            let new_contact = match cmd.contact {
                Some(c) => c,
                None => s.contact,
            };
            if !s.created {
                Err(reject(DomainErrorKind::NotFound, Seq::empty()))
            } else if party_guard(s, cmd.tenant_id, cmd.party_id) is Some {
                Err(party_guard(s, cmd.tenant_id, cmd.party_id)->0)
            } else if is_blank(new_name@) {
                Err(reject(DomainErrorKind::Validation, "name cannot be empty"@))
            } else {
                Ok(
                    seq![
                        PartyEvent::PartyUpdated(
                            PartyUpdated {
                                tenant_id: cmd.tenant_id,
                                party_id: cmd.party_id,
                                name: new_name,
                                contact: new_contact,
                                occurred_at: cmd.occurred_at,
                            },
                        ),
                    ],
                )
            }
        },
        PartyCommand::SuspendParty(cmd) => {
            if !s.created {
                Err(reject(DomainErrorKind::NotFound, Seq::empty()))
            } else if party_guard(s, cmd.tenant_id, cmd.party_id) is Some {
                Err(party_guard(s, cmd.tenant_id, cmd.party_id)->0)
            } else if s.status == PartyStatus::Suspended {
                Err(reject(DomainErrorKind::Conflict, "party is already suspended"@))
            } else {
                Ok(
                    seq![
                        PartyEvent::PartySuspended(
                            PartySuspended {
                                tenant_id: cmd.tenant_id,
                                party_id: cmd.party_id,
                                reason: cmd.reason,
                                occurred_at: cmd.occurred_at,
                            },
                        ),
                    ],
                )
            }
        },
    }
}

/// The state after one event (version advances by one).
pub open spec fn party_evolve(s: PartyView, e: PartyEvent) -> PartyView {
    let t = match e {
        PartyEvent::PartyRegistered(e) => PartyView {
            id: e.party_id,
            tenant_id: Some(e.tenant_id),
            kind: e.kind,
            name: e.name,
            contact: e.contact,
            status: PartyStatus::Active,
            created: true,
            ..s
        },
        PartyEvent::PartyUpdated(e) => PartyView { name: e.name, contact: e.contact, ..s },
        PartyEvent::PartySuspended(_) => PartyView { status: PartyStatus::Suspended, ..s },
    };
    PartyView { version: (s.version + 1) as u64, ..t }
}

impl Party {
    /// An empty, not-yet-created party for rehydration.
    pub fn empty(id: PartyId) -> (r: Party)
        ensures
            party_is_initial(r@, id),
    {
        Party {
            id,
            tenant_id: None,
            kind: PartyKind::Customer,
            name: String::new(),
            contact: ContactInfo::default(),
            status: PartyStatus::Active,
            version: 0,
            created: false,
        }
    }

    pub fn id_typed(&self) -> (r: PartyId)
        ensures
            r == self@.id,
    {
        self.id
    }

    pub fn tenant_id(&self) -> (r: Option<TenantId>)
        ensures
            r == self@.tenant_id,
    {
        self.tenant_id
    }

    pub fn kind(&self) -> (r: PartyKind)
        ensures
            r == self@.kind,
    {
        self.kind
    }

    pub fn name(&self) -> (r: &str)
        ensures
            r@ == self@.name@,
    {
        self.name.as_str()
    }

    pub fn contact(&self) -> (r: &ContactInfo)
        ensures
            *r == self@.contact,
    {
        &self.contact
    }

    pub fn status(&self) -> (r: PartyStatus)
        ensures
            r == self@.status,
    {
        self.status
    }

    /// Suspended parties cannot transact.
    pub fn can_transact(&self) -> (r: bool)
        ensures
            r == (self@.status == PartyStatus::Active),
    {
        self.status == PartyStatus::Active
    }

    fn ensure_tenant(&self, tenant_id: TenantId) -> (r: Result<(), DomainError>)
        ensures
            r is Ok <==> !(self.created && self.tenant_id != Some(tenant_id)),
            r matches Err(e) ==> e@ == reject(DomainErrorKind::InvariantViolation, "tenant mismatch"@),
    {
        if !self.created {
            return Ok(());
        }
        if self.tenant_id != Some(tenant_id) {
            return Err(DomainError::invariant_violation("tenant mismatch"));
        }
        Ok(())
    }

    fn ensure_party_id(&self, party_id: PartyId) -> (r: Result<(), DomainError>)
        ensures
            r is Ok <==> self.id == party_id,
            r matches Err(e) ==> e@ == reject(DomainErrorKind::InvariantViolation, "party_id mismatch"@),
    {
        if self.id != party_id {
            return Err(DomainError::invariant_violation("party_id mismatch"));
        }
        Ok(())
    }

    fn handle_register(&self, cmd: &RegisterParty) -> (r: Result<Vec<PartyEvent>, DomainError>)
        ensures
            outcome(r) == party_decide(self@, PartyCommand::RegisterParty(*cmd)),
    {
        if self.created {
            return Err(DomainError::conflict("party already exists"));
        }
        if is_blank_str(cmd.name.as_str()) {
            return Err(DomainError::validation("name cannot be empty"));
        }
        let contact = match &cmd.contact {
            Some(c) => c.duplicate(),
            None => ContactInfo::default(),
        };
        let ev = PartyEvent::PartyRegistered(
            PartyRegistered {
                tenant_id: cmd.tenant_id,
                party_id: cmd.party_id,
                kind: cmd.kind,
                name: cmd.name.clone(),
                contact,
                occurred_at: cmd.occurred_at,
            },
        );
        let v = vec![ev];
        assert(crate::common::views(v@) =~= seq![ev@]);
        Ok(v)
    }

    fn handle_update(&self, cmd: &UpdateDetails) -> (r: Result<Vec<PartyEvent>, DomainError>)
        ensures
            outcome(r) == party_decide(self@, PartyCommand::UpdateDetails(*cmd)),
    {
        if !self.created {
            return Err(DomainError::not_found());
        }
        match self.ensure_tenant(cmd.tenant_id) {
            Ok(()) => {},
            Err(e) => return Err(e),
        }
        match self.ensure_party_id(cmd.party_id) {
            Ok(()) => {},
            Err(e) => return Err(e),
        }
        let new_name = match &cmd.name {
            Some(n) => n.clone(),
            None => self.name.clone(),
        };
        if is_blank_str(new_name.as_str()) {
            return Err(DomainError::validation("name cannot be empty"));
        }
        let new_contact = match &cmd.contact {
            Some(c) => c.duplicate(),
            None => self.contact.duplicate(),
        };
        let ev = PartyEvent::PartyUpdated(
            PartyUpdated {
                tenant_id: cmd.tenant_id,
                party_id: cmd.party_id,
                name: new_name,
                contact: new_contact,
                occurred_at: cmd.occurred_at,
            },
        );
        let v = vec![ev];
        assert(crate::common::views(v@) =~= seq![ev@]);
        Ok(v)
    }

    fn handle_suspend(&self, cmd: &SuspendParty) -> (r: Result<Vec<PartyEvent>, DomainError>)
        ensures
            outcome(r) == party_decide(self@, PartyCommand::SuspendParty(*cmd)),
    {
        if !self.created {
            return Err(DomainError::not_found());
        }
        match self.ensure_tenant(cmd.tenant_id) {
            Ok(()) => {},
            Err(e) => return Err(e),
        }
        match self.ensure_party_id(cmd.party_id) {
            Ok(()) => {},
            Err(e) => return Err(e),
        }
        if self.status == PartyStatus::Suspended {
            return Err(DomainError::conflict("party is already suspended"));
        }
        let ev = PartyEvent::PartySuspended(
            PartySuspended {
                tenant_id: cmd.tenant_id,
                party_id: cmd.party_id,
                reason: copy_opt_string(&cmd.reason),
                occurred_at: cmd.occurred_at,
            },
        );
        let v = vec![ev];
        assert(crate::common::views(v@) =~= seq![ev@]);
        Ok(v)
    }
}

impl AggregateRoot for Party {
    type Id = PartyId;

    closed spec fn spec_version(&self) -> u64 {
        self.version
    }

    fn id(&self) -> &PartyId {
        &self.id
    }

    fn version(&self) -> (r: u64) {
        self.version
    }
}

impl Aggregate for Party {
    type Command = PartyCommand;
    type Event = PartyEvent;

    open spec fn spec_decide(state: PartyView, command: PartyCommand) -> Result<
        Seq<PartyEvent>,
        Rejection,
    > {
        party_decide(state, command)
    }

    open spec fn spec_evolve(state: PartyView, event: PartyEvent) -> PartyView {
        party_evolve(state, event)
    }

    open spec fn spec_handle_defined(state: PartyView, command: PartyCommand) -> bool {
        true
    }

    open spec fn spec_apply_defined(state: PartyView, event: PartyEvent) -> bool {
        true
    }

    fn handle(&self, command: &PartyCommand) -> (r: Result<Vec<PartyEvent>, DomainError>) {
        match command {
            PartyCommand::RegisterParty(cmd) => self.handle_register(cmd),
            PartyCommand::UpdateDetails(cmd) => self.handle_update(cmd),
            PartyCommand::SuspendParty(cmd) => self.handle_suspend(cmd),
        }
    }

    fn apply(&mut self, event: &PartyEvent) {
        match event {
            PartyEvent::PartyRegistered(e) => {
                self.id = e.party_id;
                self.tenant_id = Some(e.tenant_id);
                self.kind = e.kind;
                self.name = e.name.clone();
                self.contact = e.contact.duplicate();
                self.status = PartyStatus::Active;
                self.created = true;
            },
            PartyEvent::PartyUpdated(e) => {
                self.name = e.name.clone();
                self.contact = e.contact.duplicate();
            },
            PartyEvent::PartySuspended(_) => {
                self.status = PartyStatus::Suspended;
            },
        }
        self.version = self.version + 1;
    }
}

/// The version of a party view equals the version its root reports.
pub proof fn lemma_party_version(p: Party)
    ensures
        p.spec_version() == p@.version,
{
}

/// An existing party accepts a command only when the command names the
/// party's own tenant and id; every event it decides carries them.
pub proof fn lemma_party_accepts_only_own_stream(s: PartyView, c: PartyCommand)
    requires
        s.created,
        party_decide(s, c) is Ok,
    ensures
        match c {
            PartyCommand::RegisterParty(_) => false,
            PartyCommand::UpdateDetails(cmd) => Some(cmd.tenant_id) == s.tenant_id && cmd.party_id
                == s.id,
            PartyCommand::SuspendParty(cmd) => Some(cmd.tenant_id) == s.tenant_id && cmd.party_id
                == s.id,
        },
{
}

/// Registering a new party and applying the decided event leaves an active,
/// created party of the command's tenant, id, kind and name, one version on.
pub proof fn lemma_party_register_then_apply(s: PartyView, cmd: RegisterParty)
    requires
        party_decide(s, PartyCommand::RegisterParty(cmd)) is Ok,
        s.version < u64::MAX,
    ensures
        ({
            let evs = party_decide(s, PartyCommand::RegisterParty(cmd))->Ok_0;
            let t = party_evolve(s, evs[0]);
            &&& evs.len() == 1
            &&& t.created
            &&& t.status == PartyStatus::Active
            &&& t.tenant_id == Some(cmd.tenant_id)
            &&& t.id == cmd.party_id
            &&& t.kind == cmd.kind
            &&& t.name == cmd.name
            &&& t.version == s.version + 1
        }),
{
}

/// A suspended party never decides events for suspension again, and after an
/// accepted suspension the party can no longer transact.
pub proof fn lemma_party_suspension(s: PartyView, cmd: SuspendParty)
    ensures
        s.status == PartyStatus::Suspended && s.created ==> party_decide(
            s,
            PartyCommand::SuspendParty(cmd),
        ) is Err,
        party_decide(s, PartyCommand::SuspendParty(cmd)) is Ok ==> party_evolve(
            s,
            party_decide(s, PartyCommand::SuspendParty(cmd))->Ok_0[0],
        ).status == PartyStatus::Suspended,
{
}

/// A party that was never registered refuses updates and suspensions with
/// `NotFound`.
pub proof fn lemma_party_not_found(s: PartyView, c: PartyCommand)
    requires
        !s.created,
        !(c is RegisterParty),
    ensures
        party_decide(s, c) == Err::<Seq<PartyEvent>, Rejection>(
            reject(DomainErrorKind::NotFound, Seq::empty()),
        ),
{
}

} // verus!
