//! User directory per tenant, built from identity events, and the default
//! mapping from roles to permissions.
use vstd::prelude::*;

use crate::auth::{Role, UserEvent, UserId, UserStatus};
use crate::common::{Replicate, TenantId, Timestamp};
use crate::events::EventEnvelope;
use crate::read_model::{lookup, opt_view, tenant_rows, upserted, InMemoryTenantStore};
use crate::text::{copy_strings, lowercase, owned, to_lower, trim_text, trimmed};

verus! {

/// A user as the directory shows it.
#[derive(Debug, Clone, PartialEq, Eq)]
pub struct UserReadModel {
    pub user_id: UserId,
    pub tenant_id: TenantId,
    pub email: String,
    pub display_name: String,
    pub roles: Vec<String>,
    pub status: String,
    pub created_at: Timestamp,
    pub updated_at: Timestamp,
}

/// A user, by view.
pub struct UserRow {
    pub user_id: UserId,
    pub tenant_id: TenantId,
    pub email: Seq<char>,
    pub display_name: Seq<char>,
    pub roles: Seq<Seq<char>>,
    pub status: Seq<char>,
    pub created_at: Timestamp,
    pub updated_at: Timestamp,
}

/// The texts of a list of strings.
pub open spec fn texts(v: Seq<String>) -> Seq<Seq<char>> {
    v.map_values(|s: String| s@)
}

impl View for UserReadModel {
    type V = UserRow;

    open spec fn view(&self) -> UserRow {
        UserRow {
            user_id: self.user_id,
            tenant_id: self.tenant_id,
            email: self.email@,
            display_name: self.display_name@,
            roles: texts(self.roles@),
            status: self.status@,
            created_at: self.created_at,
            updated_at: self.updated_at,
        }
    }
}

impl Replicate for UserReadModel {
    fn replicate(&self) -> (r: UserReadModel) {
        UserReadModel {
            user_id: self.user_id,
            tenant_id: self.tenant_id,
            email: self.email.clone(),
            display_name: self.display_name.clone(),
            roles: copy_strings(&self.roles),
            status: self.status.clone(),
            created_at: self.created_at,
            updated_at: self.updated_at,
        }
    }
}

/// A user's roles and the permissions they grant.
#[derive(Debug, Clone, PartialEq, Eq)]
pub struct EffectivePermissions {
    pub user_id: UserId,
    pub tenant_id: TenantId,
    pub roles: Vec<String>,
    pub permissions: Vec<String>,
}

/// Why the directory refused an envelope.
#[derive(Debug)]
pub enum UsersProjectionError {
    /// The payload was not a user event; the decoder's message.
    Deserialize(String),
}

/// Rows of the directory, by view.
pub type UserRows = Seq<(TenantId, UserId, UserRow)>;

/// Whether `s` starts with `prefix`.
pub open spec fn has_prefix(s: Seq<char>, prefix: Seq<char>) -> bool {
    prefix.len() <= s.len() && s.subrange(0, prefix.len() as int) == prefix
}

/// The role names of a list of roles.
pub open spec fn role_names(v: Seq<Role>) -> Seq<Seq<char>> {
    v.map_values(|r: Role| r.0@)
}

/// The directory after one user event for tenant `t`. Changes to a user the
/// directory does not know are ignored; assigning a role the user has, or
/// revoking one the user lacks, only touches the update time.
pub open spec fn user_rows_after(rows: UserRows, t: TenantId, e: UserEvent) -> UserRows {
    match e {
        UserEvent::Created(c) => upserted(
            rows,
            t,
            c.user_id,
            UserRow {
                user_id: c.user_id,
                tenant_id: c.tenant_id,
                email: c.email@,
                display_name: c.display_name@,
                roles: role_names(c.initial_roles@),
                status: UserStatus::Active.spec_name(),
                created_at: c.occurred_at,
                updated_at: c.occurred_at,
            },
        ),
        UserEvent::RoleAssigned(a) => match lookup(rows, t, a.user_id) {
            Some(m) => upserted(
                rows,
                t,
                a.user_id,
                UserRow {
                    roles: if m.roles.contains(a.role.0@) {
                        m.roles
                    } else {
                        m.roles.push(a.role.0@)
                    },
                    updated_at: a.occurred_at,
                    ..m
                },
            ),
            None => rows,
        },
        UserEvent::RoleRevoked(v) => match lookup(rows, t, v.user_id) {
            Some(m) => upserted(
                rows,
                t,
                v.user_id,
                UserRow {
                    roles: m.roles.filter(|r: Seq<char>| r != v.role.0@),
                    updated_at: v.occurred_at,
                    ..m
                },
            ),
            None => rows,
        },
        UserEvent::Suspended(s) => match lookup(rows, t, s.user_id) {
            Some(m) => upserted(
                rows,
                t,
                s.user_id,
                UserRow { status: UserStatus::Suspended.spec_name(), updated_at: s.occurred_at, ..m },
            ),
            None => rows,
        },
        UserEvent::Activated(a) => match lookup(rows, t, a.user_id) {
            Some(m) => upserted(
                rows,
                t,
                a.user_id,
                UserRow { status: UserStatus::Active.spec_name(), updated_at: a.occurred_at, ..m },
            ),
            None => rows,
        },
    }
}

/// One envelope through the directory: envelopes whose aggregate type does
/// not start with `auth.user` are ignored; an undecodable payload is refused;
/// a user event is applied under the envelope's tenant.
pub open spec fn users_step(rows: UserRows, env: EventEnvelope<Result<UserEvent, String>>) -> (
    Result<(), Seq<char>>,
    UserRows,
) {
    if !has_prefix(env.spec_aggregate_type(), "auth.user"@) {
        (Ok(()), rows)
    } else {
        match env.spec_payload() {
            Err(m) => (Err(m@), rows),
            Ok(e) => (Ok(()), user_rows_after(rows, env.spec_tenant_id(), e)),
        }
    }
}

/// The permissions each built-in role grants; unknown roles grant none.
pub open spec fn role_grants(role: Seq<char>) -> Seq<Seq<char>> {
    if role == "admin"@ {
        seq!["*"@]
    } else if role == "manager"@ {
        seq![
            "inventory.read"@,
            "inventory.write"@,
            "products.read"@,
            "products.write"@,
            "sales.read"@,
            "sales.write"@,
            "invoices.read"@,
            "invoices.write"@,
            "purchases.read"@,
            "purchases.write"@,
            "parties.read"@,
            "parties.write"@,
            "ledger.read"@,
            "admin.users.list"@,
            "admin.users.read"@,
        ]
    } else if role == "accountant"@ {
        seq![
            "inventory.read"@,
            "products.read"@,
            "sales.read"@,
            "purchases.read"@,
            "parties.read"@,
            "ledger.read"@,
            "ledger.write"@,
            "invoices.read"@,
            "invoices.write"@,
        ]
    } else if role == "salesperson"@ {
        seq![
            "parties.read"@,
            "parties.write"@,
            "products.read"@,
            "sales.read"@,
            "sales.write"@,
            "invoices.read"@,
        ]
    } else if role == "warehouse"@ {
        seq![
            "inventory.read"@,
            "inventory.write"@,
            "products.read"@,
            "purchases.read"@,
            "purchases.write"@,
        ]
    } else if role == "user"@ {
        seq!["inventory.read"@, "products.read"@]
    } else {
        Seq::empty()
    }
}

fn texts_of(names: &[&str]) -> (r: Vec<String>)
    ensures
        texts(r@) == names@.map_values(|s: &str| s@),
{
    let mut out: Vec<String> = Vec::new();
    let mut i: usize = 0;
    while i < names.len()
        invariant
            i <= names@.len(),
            texts(out@) == names@.take(i as int).map_values(|s: &str| s@),
        decreases names@.len() - i,
    {
        let ghost before = out@;
        let t = owned(names[i]);
        out.push(t);
        proof {
            assert(texts(out@) =~= texts(before).push(names@[i as int]@));
            assert(names@.take(i + 1) =~= names@.take(i as int).push(names@[i as int]));
            assert(names@.take(i + 1).map_values(|s: &str| s@) =~= names@.take(i as int).map_values(
                |s: &str| s@,
            ).push(names@[i as int]@));
        }
        i = i + 1;
    }
    assert(names@.take(names@.len() as int) =~= names@);
    out
}

/// The permissions a role grants by default.
pub fn default_role_permissions(role: &str) -> (r: Vec<String>)
    ensures
        texts(r@) == role_grants(role@),
{
    let names: &[&str] = if crate::text::same_text(role, "admin") {
        &["*"]
    } else if crate::text::same_text(role, "manager") {
        &[
            "inventory.read",
            "inventory.write",
            "products.read",
            "products.write",
            "sales.read",
            "sales.write",
            "invoices.read",
            "invoices.write",
            "purchases.read",
            "purchases.write",
            "parties.read",
            "parties.write",
            "ledger.read",
            "admin.users.list",
            "admin.users.read",
        ]
    } else if crate::text::same_text(role, "accountant") {
        &[
            "inventory.read",
            "products.read",
            "sales.read",
            "purchases.read",
            "parties.read",
            "ledger.read",
            "ledger.write",
            "invoices.read",
            "invoices.write",
        ]
    } else if crate::text::same_text(role, "salesperson") {
        &[
            "parties.read",
            "parties.write",
            "products.read",
            "sales.read",
            "sales.write",
            "invoices.read",
        ]
    } else if crate::text::same_text(role, "warehouse") {
        &["inventory.read", "inventory.write", "products.read", "purchases.read", "purchases.write"]
    } else if crate::text::same_text(role, "user") {
        &["inventory.read", "products.read"]
    } else {
        &[]
    };
    let r = texts_of(names);
    assert(texts(r@) =~= role_grants(role@));
    r
}

/// The distinct texts of a list of lists, in order of first occurrence.
pub open spec fn union_in_order(lists: Seq<Seq<Seq<char>>>) -> Seq<Seq<char>>
    decreases lists.len(),
{
    if lists.len() == 0 {
        Seq::empty()
    } else {
        add_new(union_in_order(lists.drop_last()), lists.last())
    }
}

/// `acc` followed by the texts of `items` not seen before, in order.
pub open spec fn add_new(acc: Seq<Seq<char>>, items: Seq<Seq<char>>) -> Seq<Seq<char>>
    decreases items.len(),
{
    if items.len() == 0 {
        acc
    } else {
        let prev = add_new(acc, items.drop_last());
        if prev.contains(items.last()) {
            prev
        } else {
            prev.push(items.last())
        }
    }
}

/// Whether `s` contains `x`, by text.
fn contains_text_in(v: &Vec<String>, x: &String) -> (r: bool)
    ensures
        r == texts(v@).contains(x@),
{
    let mut i: usize = 0;
    while i < v.len()
        invariant
            i <= v@.len(),
            forall|j: int| 0 <= j < i ==> texts(v@)[j] != x@,
        decreases v@.len() - i,
    {
        if v[i] == *x {
            assert(texts(v@)[i as int] == x@);
            return true;
        }
        i = i + 1;
    }
    false
}

/// The permissions granted by a list of roles: every text of `grants`, once,
/// in order of first occurrence.
pub fn permissions_of(grants: &Vec<Vec<String>>) -> (r: Vec<String>)
    ensures
        texts(r@) == union_in_order(grants@.map_values(|g: Vec<String>| texts(g@))),
{
    let ghost lists = grants@.map_values(|g: Vec<String>| texts(g@));
    let mut out: Vec<String> = Vec::new();
    let mut i: usize = 0;
    while i < grants.len()
        invariant
            i <= grants@.len(),
            lists == grants@.map_values(|g: Vec<String>| texts(g@)),
            texts(out@) == union_in_order(lists.take(i as int)),
        decreases grants@.len() - i,
    {
        let g = &grants[i];
        let ghost acc = texts(out@);
        proof {
            assert(lists.take(i + 1).drop_last() =~= lists.take(i as int));
            assert(lists.take(i + 1).last() == texts(g@));
        }
        let mut j: usize = 0;
        while j < g.len()
            invariant
                j <= g@.len(),
                texts(out@) == add_new(acc, texts(g@).take(j as int)),
            decreases g@.len() - j,
        {
            proof {
                assert(texts(g@).take(j + 1).drop_last() =~= texts(g@).take(j as int));
                assert(texts(g@).take(j + 1).last() == g@[j as int]@);
            }
            if !contains_text_in(&out, &g[j]) {
                let ghost before = out@;
                out.push(g[j].clone());
                assert(texts(out@) =~= texts(before).push(g@[j as int]@));
            }
            j = j + 1;
        }
        assert(texts(g@).take(g@.len() as int) =~= texts(g@));
        i = i + 1;
    }
    assert(lists.take(lists.len() as int) =~= lists);
    out
}

/// Selects the users whose email is `e`.
pub open spec fn email_is(e: Seq<char>) -> spec_fn(UserRow) -> bool {
    |u: UserRow| u.email == e
}

/// Whether `f` can grant `out` for the role named `role`.
pub open spec fn granted<F: Fn(&str) -> Vec<String>>(f: F, role: Seq<char>, out: Seq<Seq<char>>) -> bool {
    exists|r: &str, o: Vec<String>| r@ == role && f.ensures((r,), o) && texts(o@) == out
}

fn has_prefix_exec(s: &str, prefix: &str) -> (r: bool)
    ensures
        r == has_prefix(s@, prefix@),
{
    let n = s.unicode_len();
    let m = prefix.unicode_len();
    if m > n {
        return false;
    }
    let head = s.substring_char(0, m);
    crate::text::same_text(head, prefix)
}

/// User directory projection.
#[derive(Debug)]
pub struct UsersProjection {
    store: InMemoryTenantStore<UserId, UserReadModel>,
}

impl View for UsersProjection {
    type V = UserRows;

    closed spec fn view(&self) -> UserRows {
        self.store.entries()
    }
}

impl UsersProjection {
    pub fn new() -> (r: Self)
        ensures
            r@ == Seq::<(TenantId, UserId, UserRow)>::empty(),
    {
        UsersProjection { store: InMemoryTenantStore::new() }
    }

    /// Apply one published envelope.
    pub fn apply_envelope(&mut self, envelope: &EventEnvelope<Result<UserEvent, String>>) -> (r:
        Result<(), UsersProjectionError>)
        ensures
            (match r {
                Ok(()) => Ok(()),
                Err(UsersProjectionError::Deserialize(m)) => Err(m@),
            }, final(self)@) == users_step(old(self)@, *envelope),
    {
        if !has_prefix_exec(envelope.aggregate_type(), "auth.user") {
            return Ok(());
        }
        let tenant_id = envelope.tenant_id();
        let event = match envelope.payload() {
            Err(m) => {
                return Err(UsersProjectionError::Deserialize(m.clone()));
            },
            Ok(e) => e,
        };
        match event {
            UserEvent::Created(c) => {
                let mut roles: Vec<String> = Vec::new();
                let mut i: usize = 0;
                while i < c.initial_roles.len()
                    invariant
                        i <= c.initial_roles@.len(),
                        texts(roles@) == role_names(c.initial_roles@).take(i as int),
                    decreases c.initial_roles@.len() - i,
                {
                    let ghost before = roles@;
                    roles.push(owned(c.initial_roles[i].as_str()));
                    proof {
                        assert(texts(roles@) =~= texts(before).push(c.initial_roles@[i as int].0@));
                        assert(role_names(c.initial_roles@).take(i + 1) =~= role_names(
                            c.initial_roles@,
                        ).take(i as int).push(c.initial_roles@[i as int].0@));
                    }
                    i = i + 1;
                }
                assert(role_names(c.initial_roles@).take(i as int) =~= role_names(c.initial_roles@));
                let model = UserReadModel {
                    user_id: c.user_id,
                    tenant_id: c.tenant_id,
                    email: c.email.clone(),
                    display_name: c.display_name.clone(),
                    roles,
                    status: owned(UserStatus::Active.as_str()),
                    created_at: c.occurred_at,
                    updated_at: c.occurred_at,
                };
                self.store.upsert(tenant_id, c.user_id, model);
            },
            UserEvent::RoleAssigned(a) => {
                match self.store.get(tenant_id, &a.user_id) {
                    Some(mut model) => {
                        let role = owned(a.role.as_str());
                        if !contains_text_in(&model.roles, &role) {
                            let ghost before = model.roles@;
                            model.roles.push(role);
                            assert(texts(model.roles@) =~= texts(before).push(a.role.0@));
                        }
                        model.updated_at = a.occurred_at;
                        self.store.upsert(tenant_id, a.user_id, model);
                    },
                    None => {},
                }
            },
            UserEvent::RoleRevoked(v) => {
                match self.store.get(tenant_id, &v.user_id) {
                    Some(mut model) => {
                        let role = owned(v.role.as_str());
                        let ghost names = texts(model.roles@);
                        let mut kept: Vec<String> = Vec::new();
                        let mut i: usize = 0;
                        while i < model.roles.len()
                            invariant
                                i <= model.roles@.len(),
                                names == texts(model.roles@),
                                role@ == v.role.0@,
                                texts(kept@) == names.take(i as int).filter(
                                    |r: Seq<char>| r != v.role.0@,
                                ),
                            decreases model.roles@.len() - i,
                        {
                            let ghost before = kept@;
                            proof {
                                assert(names.take(i + 1) =~= names.take(i as int).push(names[i as int]));
                                names.take(i as int).lemma_filter_push(
                                    names[i as int],
                                    |r: Seq<char>| r != v.role.0@,
                                );
                            }
                            if model.roles[i] != role {
                                kept.push(model.roles[i].clone());
                                assert(texts(kept@) =~= texts(before).push(names[i as int]));
                            }
                            i = i + 1;
                        }
                        assert(names.take(names.len() as int) =~= names);
                        model.roles = kept;
                        model.updated_at = v.occurred_at;
                        self.store.upsert(tenant_id, v.user_id, model);
                    },
                    None => {},
                }
            },
            UserEvent::Suspended(s) => {
                match self.store.get(tenant_id, &s.user_id) {
                    Some(mut model) => {
                        model.status = owned(UserStatus::Suspended.as_str());
                        model.updated_at = s.occurred_at;
                        self.store.upsert(tenant_id, s.user_id, model);
                    },
                    None => {},
                }
            },
            UserEvent::Activated(a) => {
                match self.store.get(tenant_id, &a.user_id) {
                    Some(mut model) => {
                        model.status = owned(UserStatus::Active.as_str());
                        model.updated_at = a.occurred_at;
                        self.store.upsert(tenant_id, a.user_id, model);
                    },
                    None => {},
                }
            },
        }
        Ok(())
    }

    /// One user.
    pub fn get(&self, tenant_id: TenantId, user_id: &UserId) -> (r: Option<UserReadModel>)
        ensures
            opt_view(r) == lookup(self@, tenant_id, *user_id),
    {
        self.store.get(tenant_id, user_id)
    }

    /// Every user of a tenant.
    pub fn list(&self, tenant_id: TenantId) -> (r: Vec<UserReadModel>)
        ensures
            r@.map_values(|m: UserReadModel| m@) == tenant_rows(self@, tenant_id),
    {
        self.store.list(tenant_id)
    }

    /// The first user of a tenant whose email is `email` trimmed and in
    /// lowercase.
    pub fn get_by_email(&self, tenant_id: TenantId, email: &str) -> (r: Option<UserReadModel>)
        ensures
            ({
                let hits = tenant_rows(self@, tenant_id).filter(email_is(lowercase(trimmed(email@))));
                opt_view(r) == if hits.len() > 0 {
                    Some(hits[0])
                } else {
                    None::<UserRow>
                }
            }),
    {
        let normalized = to_lower(trim_text(email));
        let users = self.store.list(tenant_id);
        let ghost rows = users@.map_values(|m: UserReadModel| m@);
        let ghost p = email_is(lowercase(trimmed(email@)));
        let mut i: usize = 0;
        while i < users.len()
            invariant
                i <= users@.len(),
                rows == users@.map_values(|m: UserReadModel| m@),
                rows == tenant_rows(self@, tenant_id),
                normalized@ == lowercase(trimmed(email@)),
                p == email_is(lowercase(trimmed(email@))),
                rows.take(i as int).filter(p).len() == 0,
            decreases users@.len() - i,
        {
            proof {
                assert(rows.take(i + 1) =~= rows.take(i as int).push(rows[i as int]));
                rows.take(i as int).lemma_filter_push(rows[i as int], p);
            }
            if users[i].email == normalized {
                proof {
                    assert(rows[i as int].email == users@[i as int].email@);
                    assert(p(rows[i as int]));
                    assert(rows =~= rows.take(i + 1) + rows.skip(i + 1));
                    Seq::filter_distributes_over_add(rows.take(i + 1), rows.skip(i + 1), p);
                    assert(rows.take(i + 1).filter(p) =~= seq![rows[i as int]]);
                    assert(rows.filter(p) == seq![rows[i as int]] + rows.skip(i + 1).filter(p));
                    assert(rows.filter(p)[0] == rows[i as int]);
                }
                return Some(users[i].replicate());
            }
            i = i + 1;
        }
        assert(rows.take(rows.len() as int) =~= rows);
        None
    }

    /// A user's roles and the permissions `role_permissions` grants them,
    /// each permission once; `None` for an unknown user.
    pub fn effective_permissions<F: Fn(&str) -> Vec<String>>(
        &self,
        tenant_id: TenantId,
        user_id: &UserId,
        role_permissions: F,
    ) -> (r: Option<EffectivePermissions>)
        requires
            forall|role: &str| role_permissions.requires((role,)),
        ensures
            match (r, lookup(self@, tenant_id, *user_id)) {
                (None, None) => true,
                (Some(p), Some(m)) => {
                    &&& p.user_id == m.user_id
                    &&& p.tenant_id == m.tenant_id
                    &&& texts(p.roles@) == m.roles
                    &&& exists|grants: Seq<Seq<Seq<char>>>|
                        #![trigger union_in_order(grants)]
                        grants.len() == m.roles.len() && (forall|i: int|
                            0 <= i < grants.len() ==> #[trigger] granted(
                                role_permissions,
                                m.roles[i],
                                grants[i],
                            )) && texts(p.permissions@) == union_in_order(grants)
                },
                _ => false,
            },
    {
        let model = match self.store.get(tenant_id, user_id) {
            Some(m) => m,
            None => {
                return None;
            },
        };
        let mut grants: Vec<Vec<String>> = Vec::new();
        let mut i: usize = 0;
        while i < model.roles.len()
            invariant
                i <= model.roles@.len(),
                grants@.len() == i,
                forall|role: &str| role_permissions.requires((role,)),
                forall|k: int|
                    0 <= k < i ==> #[trigger] granted(
                        role_permissions,
                        model.roles@[k]@,
                        texts(grants@[k]@),
                    ),
            decreases model.roles@.len() - i,
        {
            let role = model.roles[i].as_str();
            let out = role_permissions(role);
            proof {
                assert(granted(role_permissions, model.roles@[i as int]@, texts(out@)));
            }
            let ghost before = grants@;
            grants.push(out);
            proof {
                assert forall|k: int| 0 <= k < i + 1 implies #[trigger] granted(
                    role_permissions,
                    model.roles@[k]@,
                    texts(grants@[k]@),
                ) by {
                    if k < i {
                        assert(grants@[k] == before[k]);
                    }
                }
            }
            i = i + 1;
        }
        let permissions = permissions_of(&grants);
        let ghost gs = grants@.map_values(|g: Vec<String>| texts(g@));
        proof {
            assert forall|k: int| 0 <= k < gs.len() implies #[trigger] granted(
                role_permissions,
                model@.roles[k],
                gs[k],
            ) by {
                assert(texts(grants@[k]@) == gs[k]);
                assert(model@.roles[k] == model.roles@[k]@);
                assert(granted(role_permissions, model.roles@[k]@, texts(grants@[k]@)));
            }
            assert(union_in_order(gs) == texts(permissions@));
        }
        Some(
            EffectivePermissions {
                user_id: model.user_id,
                tenant_id: model.tenant_id,
                roles: model.roles,
                permissions,
            },
        )
    }
}

} // verus!
