//! Background workers: which messages a projection worker hands to its
//! handler.
use vstd::prelude::*;

use crate::common::TenantId;

verus! {

/// A worker that feeds bus messages to an idempotent projection handler.
#[derive(Debug)]
pub struct ProjectionWorker;

/// A worker pinned to a tenant handles that tenant's messages only; an
/// unpinned one handles all.
pub open spec fn worker_admits(pinned: Option<TenantId>, tenant: TenantId) -> bool {
    match pinned {
        Some(t) => t == tenant,
        None => true,
    }
}

impl ProjectionWorker {
    /// Whether a message of `tenant` goes to the handler.
    pub fn admits(pinned: Option<TenantId>, tenant: TenantId) -> (r: bool)
        ensures
            r == worker_admits(pinned, tenant),
    {
        match pinned {
            Some(t) => t == tenant,
            None => true,
        }
    }
}

} // verus!
