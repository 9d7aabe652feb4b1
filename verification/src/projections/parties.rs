//! Party directory: customers and suppliers by tenant, for lookup and search.
use vstd::prelude::*;

use crate::common::{AggregateId, Replicate, TenantId};
use crate::events::EventEnvelope;
use crate::parties::{PartyEvent, PartyId, PartyKind, PartyStatus};
use crate::projections::{
    intake, cleared, envelope_tenants, fault_view, lemma_project_all_stops,
    project, project_all, replay_keys, replay_order, replay_order_of, tenants_of, Intake, CursorTable,
    ProjectionFault, ProjectionView, Rules,
};
use crate::read_model::{lookup, opt_view, tenant_rows, upserted, InMemoryTenantStore};
use crate::text::{copy_opt_string, lowercase, contains_text, opt_text, owned, text_contains, to_lower};

pub use crate::projections::InMemoryCursorStore;

verus! {

/// Directory entry of a party.
#[derive(Debug, Clone, PartialEq, Eq)]
pub struct PartyReadModel {
    pub party_id: PartyId,
    pub kind: PartyKind,
    pub name: String,
    pub email: Option<String>,
    pub phone: Option<String>,
    pub status: PartyStatus,
}

/// A directory entry, by view.
pub struct PartyRow {
    pub party_id: PartyId,
    pub kind: PartyKind,
    pub name: Seq<char>,
    pub email: Option<Seq<char>>,
    pub phone: Option<Seq<char>>,
    pub status: PartyStatus,
}

impl View for PartyReadModel {
    type V = PartyRow;

    open spec fn view(&self) -> PartyRow {
        PartyRow {
            party_id: self.party_id,
            kind: self.kind,
            name: self.name@,
            email: opt_text(self.email),
            phone: opt_text(self.phone),
            status: self.status,
        }
    }
}

impl Replicate for PartyReadModel {
    fn replicate(&self) -> (r: PartyReadModel) {
        PartyReadModel {
            party_id: self.party_id,
            kind: self.kind,
            name: self.name.clone(),
            email: copy_opt_string(&self.email),
            phone: copy_opt_string(&self.phone),
            status: self.status,
        }
    }
}

#[derive(Debug)]
pub enum PartyProjectionError {
    Deserialize(String),
    TenantIsolation(String),
    NonMonotonicSequence { last: u64, found: u64 },
}

impl View for PartyProjectionError {
    type V = ProjectionFault;

    open spec fn view(&self) -> ProjectionFault {
        match self {
            PartyProjectionError::Deserialize(m) => ProjectionFault::Deserialize(m@),
            PartyProjectionError::TenantIsolation(m) => ProjectionFault::TenantIsolation(m@),
            PartyProjectionError::NonMonotonicSequence { last, found } => {
                ProjectionFault::NonMonotonicSequence { last: *last, found: *found }
            },
        }
    }
}

/// Rows of the directory, by view.
pub type PartyRows = Seq<(TenantId, PartyId, PartyRow)>;

/// Tenant and party an event belongs to.
pub open spec fn party_stream(e: PartyEvent) -> (TenantId, PartyId) {
    match e {
        PartyEvent::PartyRegistered(e) => (e.tenant_id, e.party_id),
        PartyEvent::PartyUpdated(e) => (e.tenant_id, e.party_id),
        PartyEvent::PartySuspended(e) => (e.tenant_id, e.party_id),
    }
}

/// The entry a change applies to when the party was never registered.
pub open spec fn blank_party(id: PartyId) -> PartyRow {
    PartyRow {
        party_id: id,
        kind: PartyKind::Customer,
        name: Seq::empty(),
        email: None,
        phone: None,
        status: PartyStatus::Active,
    }
}

/// The entry after an event, from the current one.
pub open spec fn party_row_after(cur: Option<PartyRow>, e: PartyEvent) -> PartyRow {
    match e {
        PartyEvent::PartyRegistered(r) => PartyRow {
            party_id: r.party_id,
            kind: r.kind,
            name: r.name@,
            email: opt_text(r.contact.email),
            phone: opt_text(r.contact.phone),
            status: PartyStatus::Active,
        },
        PartyEvent::PartyUpdated(u) => {
            let base = match cur {
                Some(b) => b,
                None => blank_party(u.party_id),
            };
            PartyRow {
                party_id: base.party_id,
                kind: base.kind,
                name: u.name@,
                email: opt_text(u.contact.email),
                phone: opt_text(u.contact.phone),
                status: base.status,
            }
        },
        PartyEvent::PartySuspended(s) => {
            let base = match cur {
                Some(b) => b,
                None => blank_party(s.party_id),
            };
            PartyRow {
                party_id: base.party_id,
                kind: base.kind,
                name: base.name,
                email: base.email,
                phone: base.phone,
                status: PartyStatus::Suspended,
            }
        },
    }
}

/// The directory's rules: the event must belong to the envelope's tenant
/// and stream; its party's entry is then rewritten.
pub open spec fn party_rules() -> Rules<PartyEvent, PartyRows> {
    |rows: PartyRows, t: TenantId, a: AggregateId, e: PartyEvent|
        {
            let (et, pid) = party_stream(e);
            if et != t {
                Err(
                    ProjectionFault::TenantIsolation(
                        "event tenant_id does not match envelope tenant_id"@,
                    ),
                )
            } else if pid.0 != a {
                Err(
                    ProjectionFault::TenantIsolation(
                        "event party_id does not match envelope aggregate_id"@,
                    ),
                )
            } else {
                Ok(upserted(rows, t, pid, party_row_after(lookup(rows, t, pid), e)))
            }
        }
}

/// Whether an entry's name contains the query, ignoring case.
pub open spec fn name_matches(row: PartyRow, query: Seq<char>) -> bool {
    contains_text(lowercase(row.name), lowercase(query))
}

/// Party directory projection.
#[derive(Debug)]
pub struct PartyDirectoryProjection {
    store: InMemoryTenantStore<PartyId, PartyReadModel>,
    cursors: CursorTable,
}

impl View for PartyDirectoryProjection {
    type V = ProjectionView<PartyRows>;

    closed spec fn view(&self) -> ProjectionView<PartyRows> {
        ProjectionView { rows: self.store.entries(), cursors: self.cursors.entries() }
    }
}

fn stream_of(e: &PartyEvent) -> (r: (TenantId, PartyId))
    ensures
        r == party_stream(*e),
{
    match e {
        PartyEvent::PartyRegistered(e) => (e.tenant_id, e.party_id),
        PartyEvent::PartyUpdated(e) => (e.tenant_id, e.party_id),
        PartyEvent::PartySuspended(e) => (e.tenant_id, e.party_id),
    }
}

fn row_after(cur: Option<PartyReadModel>, e: &PartyEvent) -> (r: PartyReadModel)
    ensures
        r@ == party_row_after(opt_view(cur), *e),
{
    match e {
        PartyEvent::PartyRegistered(r) => PartyReadModel {
            party_id: r.party_id,
            kind: r.kind,
            name: r.name.clone(),
            email: copy_opt_string(&r.contact.email),
            phone: copy_opt_string(&r.contact.phone),
            status: PartyStatus::Active,
        },
        PartyEvent::PartyUpdated(u) => {
            let base = match cur {
                Some(b) => b,
                None => PartyReadModel {
                    party_id: u.party_id,
                    kind: PartyKind::Customer,
                    name: String::new(),
                    email: None,
                    phone: None,
                    status: PartyStatus::Active,
                },
            };
            PartyReadModel {
                party_id: base.party_id,
                kind: base.kind,
                name: u.name.clone(),
                email: copy_opt_string(&u.contact.email),
                phone: copy_opt_string(&u.contact.phone),
                status: base.status,
            }
        },
        PartyEvent::PartySuspended(s) => {
            let base = match cur {
                Some(b) => b,
                None => PartyReadModel {
                    party_id: s.party_id,
                    kind: PartyKind::Customer,
                    name: String::new(),
                    email: None,
                    phone: None,
                    status: PartyStatus::Active,
                },
            };
            PartyReadModel {
                party_id: base.party_id,
                kind: base.kind,
                name: base.name,
                email: base.email,
                phone: base.phone,
                status: PartyStatus::Suspended,
            }
        },
    }
}

impl PartyDirectoryProjection {
    /// Take up a stream's progress kept elsewhere (a cursor persisted across
    /// restarts): envelopes of the stream at or below `last` are then ignored.
    pub fn seed_cursor(&mut self, tenant_id: TenantId, aggregate_id: AggregateId, last: u64)
        ensures
            final(self)@.rows == old(self)@.rows,
            final(self)@.cursors == upserted(old(self)@.cursors, tenant_id, aggregate_id, last),
    {
        self.cursors.upsert(tenant_id, aggregate_id, last);
    }

    /// The last sequence number applied for a stream, 0 if none: the cursor
    /// to persist.
    pub fn stream_cursor(&self, tenant_id: TenantId, aggregate_id: AggregateId) -> (r: u64)
        ensures
            r == crate::projections::cursor_of(self@.cursors, tenant_id, aggregate_id),
    {
        crate::projections::read_cursor(&self.cursors, tenant_id, aggregate_id)
    }

    pub fn new() -> (r: Self)
        ensures
            r@.rows == Seq::<(TenantId, PartyId, PartyRow)>::empty(),
            r@.cursors == Seq::<(TenantId, AggregateId, u64)>::empty(),
    {
        PartyDirectoryProjection { store: InMemoryTenantStore::new(), cursors: InMemoryTenantStore::new() }
    }

    /// The entry of one party.
    pub fn get(&self, tenant_id: TenantId, party_id: &PartyId) -> (r: Option<PartyReadModel>)
        ensures
            opt_view(r) == lookup(self@.rows, tenant_id, *party_id),
    {
        self.store.get(tenant_id, party_id)
    }

    /// Every entry of a tenant.
    pub fn list(&self, tenant_id: TenantId) -> (r: Vec<PartyReadModel>)
        ensures
            r@.map_values(|m: PartyReadModel| m@) == tenant_rows(self@.rows, tenant_id),
    {
        self.store.list(tenant_id)
    }

    /// Entries of a tenant whose name contains `query`, ignoring case.
    pub fn search_by_name(&self, tenant_id: TenantId, query: &str) -> (r: Vec<PartyReadModel>)
        ensures
            r@.map_values(|m: PartyReadModel| m@) == tenant_rows(self@.rows, tenant_id).filter(
                |row: PartyRow| name_matches(row, query@),
            ),
    {
        let q = to_lower(query);
        let all = self.list(tenant_id);
        let ghost rows = all@.map_values(|m: PartyReadModel| m@);
        let mut out: Vec<PartyReadModel> = Vec::new();
        let mut i: usize = 0;
        while i < all.len()
            invariant
                i <= all@.len(),
                rows == all@.map_values(|m: PartyReadModel| m@),
                q@ == lowercase(query@),
                out@.map_values(|m: PartyReadModel| m@) == rows.take(i as int).filter(
                    |row: PartyRow| name_matches(row, query@),
                ),
            decreases all@.len() - i,
        {
            let ghost before = out@;
            proof {
                assert(rows.take(i + 1) =~= rows.take(i as int).push(rows[i as int]));
                rows.take(i as int).lemma_filter_push(
                    rows[i as int],
                    |row: PartyRow| name_matches(row, query@),
                );
            }
            let name = to_lower(all[i].name.as_str());
            if text_contains(name.as_str(), q.as_str()) {
                out.push(all[i].replicate());
                assert(out@.map_values(|m: PartyReadModel| m@) =~= before.map_values(
                    |m: PartyReadModel| m@,
                ).push(rows[i as int]));
            }
            i = i + 1;
        }
        assert(rows.take(rows.len() as int) =~= rows);
        out
    }

    /// Apply one published envelope.
    pub fn apply_envelope(&mut self, envelope: &EventEnvelope<Result<PartyEvent, String>>) -> (r:
        Result<(), PartyProjectionError>)
        ensures
            (fault_view(r), final(self)@) == project(
                "parties.party"@,
                old(self)@,
                *envelope,
                party_rules(),
            ),
    {
        let tenant_id = envelope.tenant_id();
        let aggregate_id = envelope.aggregate_id();
        let seq = envelope.sequence_number();
        match intake(&self.cursors, envelope, "parties.party") {
            Intake::Ignore => {
                return Ok(());
            },
            Intake::Stale { last, found } => {
                return Err(PartyProjectionError::NonMonotonicSequence { last, found });
            },
            Intake::Proceed => {},
        }
        let ev = match envelope.payload() {
            Err(m) => {
                return Err(PartyProjectionError::Deserialize(m.clone()));
            },
            Ok(e) => e,
        };
        let (event_tenant, party_id) = stream_of(ev);
        if event_tenant != tenant_id {
            return Err(
                PartyProjectionError::TenantIsolation(
                    owned("event tenant_id does not match envelope tenant_id"),
                ),
            );
        }
        if party_id.0 != aggregate_id {
            return Err(
                PartyProjectionError::TenantIsolation(
                    owned("event party_id does not match envelope aggregate_id"),
                ),
            );
        }
        let current = self.store.get(tenant_id, &party_id);
        let row = row_after(current, ev);
        self.store.upsert(tenant_id, party_id, row);
        self.cursors.upsert(tenant_id, aggregate_id, seq);
        Ok(())
    }

    /// Clear the tenants of `envelopes` and replay them in replay order,
    /// stopping at the first refusal.
    pub fn rebuild_from_scratch(&mut self, envelopes: Vec<EventEnvelope<Result<PartyEvent, String>>>) -> (r:
        Result<(), PartyProjectionError>)
        ensures
            (fault_view(r), final(self)@) == project_all(
                "parties.party"@,
                cleared(old(self)@, tenants_of(envelopes@)),
                envelopes@,
                replay_order(replay_keys(envelopes@), envelopes@.len() as nat),
                party_rules(),
            ),
    {
        let tenants = envelope_tenants(&envelopes);
        self.store.clear_tenants(&tenants);
        self.cursors.clear_tenants(&tenants);
        let ghost s0 = self@;
        let order = replay_order_of(&envelopes);
        let ghost ord = order@.map_values(|x: usize| x as int);
        let mut i: usize = 0;
        proof {
            assert(ord.take(0) =~= Seq::<int>::empty());
        }
        while i < order.len()
            invariant
                i <= order@.len(),
                ord == order@.map_values(|x: usize| x as int),
                ord == replay_order(replay_keys(envelopes@), envelopes@.len() as nat),
                forall|j: int| 0 <= j < order@.len() ==> order@[j] < envelopes@.len(),
                s0 == cleared(old(self)@, tenants_of(envelopes@)),
                project_all("parties.party"@, s0, envelopes@, ord.take(i as int), party_rules()) == (
                    Ok::<(), ProjectionFault>(()),
                    self@,
                ),
            decreases order@.len() - i,
        {
            let k = order[i];
            proof {
                assert(ord.take(i + 1).drop_last() =~= ord.take(i as int));
                assert(ord.take(i + 1).last() == k as int);
            }
            let res = self.apply_envelope(&envelopes[k]);
            match res {
                Err(e) => {
                    proof {
                        lemma_project_all_stops(
                            "parties.party"@,
                            s0,
                            envelopes@,
                            ord,
                            party_rules(),
                            i + 1,
                        );
                    }
                    return Err(e);
                },
                Ok(()) => {},
            }
            i = i + 1;
        }
        proof {
            assert(ord.take(ord.len() as int) =~= ord);
        }
        Ok(())
    }
}

} // verus!
