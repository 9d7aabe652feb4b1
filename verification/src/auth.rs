//! Identity: users, roles and the user events that the read side consumes.
use vstd::prelude::*;

use crate::common::{fresh_u128, TenantId, Timestamp};
use crate::read_model::RecordKey;
use crate::text::owned;

verus! {

/// User identifier.
#[derive(Debug, Clone, Copy, PartialEq, Eq, Hash, Structural)]
pub struct UserId(pub u128);

impl View for UserId {
    type V = UserId;

    open spec fn view(&self) -> UserId {
        *self
    }
}

impl RecordKey for UserId {
    fn same_key(&self, other: &Self) -> (r: bool) {
        self.0 == other.0
    }

    fn copy_key(&self) -> (r: Self) {
        *self
    }
}

impl UserId {
    /// A fresh random user id.
    pub fn new() -> (r: UserId) {
        UserId(fresh_u128())
    }

    pub fn from_u128(v: u128) -> (r: UserId)
        ensures
            r.0 == v,
    {
        UserId(v)
    }
}

/// A named role.
#[derive(Debug, Clone, PartialEq, Eq)]
pub struct Role(pub String);

impl Role {
    pub fn new(name: &str) -> (r: Role)
        ensures
            r.0@ == name@,
    {
        Role(owned(name))
    }

    pub fn as_str(&self) -> (r: &str)
        ensures
            r@ == self.0@,
    {
        self.0.as_str()
    }
}

/// Whether a user may sign in.
#[derive(Debug, Clone, Copy, PartialEq, Eq, Structural)]
pub enum UserStatus {
    Active,
    Suspended,
}

impl UserStatus {
    pub open spec fn spec_name(self) -> Seq<char> {
        match self {
            UserStatus::Active => "Active"@,
            UserStatus::Suspended => "Suspended"@,
        }
    }

    /// The status name.
    pub fn as_str(&self) -> (r: &'static str)
        ensures
            r@ == self.spec_name(),
    {
        match self {
            UserStatus::Active => "Active",
            UserStatus::Suspended => "Suspended",
        }
    }
}

/// Event: a user was created.
#[derive(Debug, Clone, PartialEq, Eq)]
pub struct UserCreated {
    pub tenant_id: TenantId,
    pub user_id: UserId,
    pub email: String,
    pub display_name: String,
    pub initial_roles: Vec<Role>,
    pub occurred_at: Timestamp,
}

/// Event: a role was assigned to a user.
#[derive(Debug, Clone, PartialEq, Eq)]
pub struct RoleAssigned {
    pub tenant_id: TenantId,
    pub user_id: UserId,
    pub role: Role,
    pub occurred_at: Timestamp,
}

/// Event: a role was revoked from a user.
#[derive(Debug, Clone, PartialEq, Eq)]
pub struct RoleRevoked {
    pub tenant_id: TenantId,
    pub user_id: UserId,
    pub role: Role,
    pub occurred_at: Timestamp,
}

/// Event: a user was suspended.
#[derive(Debug, Clone, PartialEq, Eq)]
pub struct UserSuspended {
    pub tenant_id: TenantId,
    pub user_id: UserId,
    pub reason: String,
    pub occurred_at: Timestamp,
}

/// Event: a user was activated.
#[derive(Debug, Clone, PartialEq, Eq)]
pub struct UserActivated {
    pub tenant_id: TenantId,
    pub user_id: UserId,
    pub occurred_at: Timestamp,
}

#[derive(Debug, Clone, PartialEq, Eq)]
pub enum UserEvent {
    Created(UserCreated),
    RoleAssigned(RoleAssigned),
    RoleRevoked(RoleRevoked),
    Suspended(UserSuspended),
    Activated(UserActivated),
}

} // verus!
