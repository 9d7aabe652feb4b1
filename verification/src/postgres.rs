//! The decisions of the Postgres-backed event store: validating a batch,
//! checking a stream's type and version before inserting, numbering what is
//! inserted, classifying driver failures, and paging query results. The SQL
//! itself runs in the application.
use vstd::prelude::*;
use vstd::string::StringExecFns;

use crate::common::{AggregateId, ExpectedVersion, TenantId, Timestamp};
use crate::event_store::{
    batch_message, committed_at, concurrency_message, expected_version_text, numbered, pending, records, type_message,
    EventStoreError, StoreErrorKind, StoredEvent, UncommittedEvent,
};
use crate::json::{uuid_chars, uuid_text, Json};
use crate::text::{decimal_chars, same_text};

verus! {

broadcast use vstd::string::group_string_axioms;

/// A failure reported by the SQL driver, as plain values.
#[derive(Debug)]
pub enum SqlFailure {
    /// The database refused the statement; `code` is its SQLSTATE.
    Database { message: String, code: Option<String> },
    PoolClosed,
    RowNotFound,
    /// Any other failure, by its text.
    Other(String),
}

/// A unique-key violation: another append took the position first.
pub open spec fn unique_violation(f: &SqlFailure) -> bool {
    match f {
        SqlFailure::Database { code, .. } => code matches Some(c) && c@ == "23505"@,
        _ => false,
    }
}

/// The store error for a driver failure during `operation`: a unique-key
/// violation is a concurrency failure; everything else an invalid append.
pub open spec fn sql_error_view(operation: Seq<char>, f: &SqlFailure) -> (StoreErrorKind, Seq<char>) {
    match f {
        SqlFailure::Database { message, .. } => (
            if unique_violation(f) {
                StoreErrorKind::Concurrency
            } else {
                StoreErrorKind::InvalidAppend
            },
            "database error in "@ + operation + ": "@ + message@,
        ),
        SqlFailure::PoolClosed => (StoreErrorKind::InvalidAppend, "connection pool closed in "@ + operation),
        SqlFailure::RowNotFound => (StoreErrorKind::InvalidAppend, "unexpected row not found in "@ + operation),
        SqlFailure::Other(text) => (StoreErrorKind::InvalidAppend, "sqlx error in "@ + operation + ": "@ + text@),
    }
}

pub fn is_unique_violation(failure: &SqlFailure) -> (r: bool)
    ensures
        r == unique_violation(failure),
{
    match failure {
        SqlFailure::Database { code, .. } => match code {
            Some(c) => same_text(c.as_str(), "23505"),
            None => false,
        },
        _ => false,
    }
}

/// Map a driver failure during `operation` to a store error.
pub fn map_sql_failure(operation: &str, failure: &SqlFailure) -> (r: EventStoreError)
    ensures
        (r.spec_kind(), crate::event_store::store_error_message(&r)) == sql_error_view(operation@, failure),
{
    match failure {
        SqlFailure::Database { message, .. } => {
            let msg = String::from_str("database error in ").concat(operation).concat(": ").concat(
                message.as_str(),
            );
            if is_unique_violation(failure) {
                EventStoreError::Concurrency(msg)
            } else {
                EventStoreError::InvalidAppend(msg)
            }
        },
        SqlFailure::PoolClosed => EventStoreError::InvalidAppend(
            String::from_str("connection pool closed in ").concat(operation),
        ),
        SqlFailure::RowNotFound => EventStoreError::InvalidAppend(
            String::from_str("unexpected row not found in ").concat(operation),
        ),
        SqlFailure::Other(text) => EventStoreError::InvalidAppend(
            String::from_str("sqlx error in ").concat(operation).concat(": ").concat(text.as_str()),
        ),
    }
}

/// What is wrong with a batch for the stream `(tenant, aggregate)`: the first
/// event's tenant, then its aggregate, then, event by event, a tenant or an
/// aggregate other than the stream's.
pub open spec fn batch_fault_at(
    tenant: TenantId,
    aggregate: AggregateId,
    events: Seq<UncommittedEvent<Json>>,
) -> Option<(StoreErrorKind, int)> {
    if events.len() == 0 {
        None
    } else if events[0].tenant_id != tenant {
        Some((StoreErrorKind::TenantIsolation, -1))
    } else if events[0].aggregate_id != aggregate {
        Some((StoreErrorKind::InvalidAppend, -1))
    } else {
        first_stranger(tenant, aggregate, events, 0)
    }
}

/// The first event from `i` on of another tenant or aggregate.
pub open spec fn first_stranger(
    tenant: TenantId,
    aggregate: AggregateId,
    events: Seq<UncommittedEvent<Json>>,
    i: int,
) -> Option<(StoreErrorKind, int)>
    decreases events.len() - i,
{
    if i < 0 || i >= events.len() {
        None
    } else if events[i].tenant_id != tenant {
        Some((StoreErrorKind::TenantIsolation, i))
    } else if events[i].aggregate_id != aggregate {
        Some((StoreErrorKind::InvalidAppend, i))
    } else {
        first_stranger(tenant, aggregate, events, i + 1)
    }
}

/// Check that a batch belongs to the stream `(tenant, aggregate)`.
pub fn check_stream_batch(tenant_id: TenantId, aggregate_id: AggregateId, events: &Vec<UncommittedEvent<Json>>) -> (r:
    Result<(), EventStoreError>)
    ensures
        match batch_fault_at(tenant_id, aggregate_id, events@) {
            None => r is Ok,
            Some((kind, _)) => r matches Err(e) && e.spec_kind() == kind,
        },
        (events@.len() > 0 && events@[0].tenant_id != tenant_id) ==> (r matches Err(e) && crate::event_store::store_error_message(&e) == "event tenant_id mismatch: expected "@ + uuid_chars(tenant_id.0) + ", got "@ + uuid_chars(events@[0].tenant_id.0)),
        (events@.len() > 0 && events@[0].tenant_id == tenant_id && events@[0].aggregate_id != aggregate_id) ==> (r matches Err(e) && crate::event_store::store_error_message(&e) == "event aggregate_id mismatch: expected "@ + uuid_chars(aggregate_id.0) + ", got "@ + uuid_chars(events@[0].aggregate_id.0)),
{
    if events.len() == 0 {
        return Ok(());
    }
    let first = &events[0];
    if first.tenant_id != tenant_id {
        return Err(EventStoreError::TenantIsolation(
            String::from_str("event tenant_id mismatch: expected ").concat(uuid_text(tenant_id.0).as_str()).concat(
                ", got ",
            ).concat(uuid_text(first.tenant_id.0).as_str()),
        ));
    }
    if first.aggregate_id != aggregate_id {
        return Err(EventStoreError::InvalidAppend(
            String::from_str("event aggregate_id mismatch: expected ").concat(uuid_text(aggregate_id.0).as_str()).concat(
                ", got ",
            ).concat(uuid_text(first.aggregate_id.0).as_str()),
        ));
    }
    let mut i: usize = 0;
    while i < events.len()
        invariant
            i <= events@.len(),
            events@.len() > 0,
            events@[0].tenant_id == tenant_id,
            events@[0].aggregate_id == aggregate_id,
            first_stranger(tenant_id, aggregate_id, events@, 0) == first_stranger(tenant_id, aggregate_id, events@, i as int),
        decreases events@.len() - i,
    {
        if events[i].tenant_id != tenant_id {
            return Err(EventStoreError::TenantIsolation(batch_message("tenant_ids", i)));
        }
        if events[i].aggregate_id != aggregate_id {
            return Err(EventStoreError::InvalidAppend(batch_message("aggregate_ids", i)));
        }
        i = i + 1;
    }
    Ok(())
}

/// Whether a stream at `current`, holding `existing` as its type, accepts a
/// batch of `aggregate_type` expecting `expected`: a type other than the
/// stream's is refused first, then a version other than expected; accepted
/// events are numbered from `current + 1`.
pub open spec fn stream_admits(
    current: u64,
    existing: Option<Seq<char>>,
    aggregate_type: Seq<char>,
    expected: ExpectedVersion,
) -> Result<u64, StoreErrorKind> {
    if existing is Some && existing->0 != aggregate_type {
        Err(StoreErrorKind::AggregateTypeMismatch)
    } else if !expected.spec_matches(current) {
        Err(StoreErrorKind::Concurrency)
    } else {
        Ok((current + 1) as u64)
    }
}

/// The message of a refused stream append: the type mismatch, else the
/// version conflict.
pub open spec fn stream_refusal_text(
    current: u64,
    existing: Option<&str>,
    aggregate_type: Seq<char>,
    expected: ExpectedVersion,
) -> Seq<char> {
    match existing {
        Some(t) if t@ != aggregate_type => "stream aggregate_type is '"@ + t@ + "', attempted append with '"@
            + aggregate_type + "'"@,
        _ => "optimistic concurrency check failed: "@ + ("expected "@ + expected_version_text(expected) + ", found "@
            + decimal_chars(current as nat)),
    }
}

pub fn decide_stream_append(
    current: u64,
    existing: Option<&str>,
    aggregate_type: &str,
    expected: ExpectedVersion,
) -> (r: Result<u64, EventStoreError>)
    requires
        current < u64::MAX,
    ensures
        match stream_admits(
            current,
            match existing {
                Some(t) => Some(t@),
                None => None,
            },
            aggregate_type@,
            expected,
        ) {
            Ok(first) => r == Ok::<u64, EventStoreError>(first),
            Err(kind) => r matches Err(e) && e.spec_kind() == kind && crate::event_store::store_error_message(&e)
                == stream_refusal_text(current, existing, aggregate_type@, expected),
        },
{
    match existing {
        Some(t) => {
            if !same_text(t, aggregate_type) {
                return Err(EventStoreError::AggregateTypeMismatch(type_message(t, aggregate_type)));
            }
        },
        None => {},
    }
    if !expected.matches(current) {
        return Err(EventStoreError::Concurrency(
            String::from_str("optimistic concurrency check failed: ").concat(
                concurrency_message(expected, current).as_str(),
            ),
        ));
    }
    Ok(current + 1)
}

/// The events as inserted: at consecutive positions from `first`.
pub fn number_from(events: Vec<UncommittedEvent<Json>>, first: u64) -> (r: Vec<StoredEvent<Json>>)
    requires
        first + events@.len() <= u64::MAX,
    ensures
        records(r@) == numbered(pending(events@), first as int),
{
    let ghost all = pending(events@);
    let n = events.len();
    let mut events = events;
    let mut reversed: Vec<StoredEvent<Json>> = Vec::new();
    while events.len() > 0
        invariant
            events@.len() <= n,
            n == all.len(),
            first + n <= u64::MAX,
            pending(events@) == all.take(events@.len() as int),
            records(reversed@) == numbered(all, first as int).skip(events@.len() as int).reverse(),
        decreases events@.len(),
    {
        let ghost k = events@.len();
        let ghost before = events@;
        let e = events.pop().unwrap();
        assert(e == before[k - 1]);
        assert(pending(before)[k - 1] == before[k - 1]@);
        assert(all.take(k as int)[k - 1] == all[k - 1]);
        let seq: u64 = first + (events.len() as u64);
        let stored = StoredEvent {
            event_id: e.event_id,
            tenant_id: e.tenant_id,
            aggregate_id: e.aggregate_id,
            aggregate_type: e.aggregate_type,
            sequence_number: seq,
            event_type: e.event_type,
            event_version: e.event_version,
            occurred_at: e.occurred_at,
            payload: e.payload,
        };
        let ghost prev = reversed@;
        reversed.push(stored);
        proof {
            assert(pending(events@) =~= all.take(k - 1));
            assert(all[k - 1] == e@);
            assert(stored@ == committed_at(all[k - 1], (first + (k - 1)) as u64));
            assert(numbered(all, first as int).skip(k - 1) =~= seq![numbered(all, first as int)[k - 1]] + numbered(
                all,
                first as int,
            ).skip(k as int));
            assert(records(reversed@) =~= records(prev).push(stored@));
            assert(records(reversed@) =~= numbered(all, first as int).skip(k - 1).reverse());
        }
    }
    let mut out: Vec<StoredEvent<Json>> = Vec::new();
    let ghost target = numbered(all, first as int);
    assert(target.skip(0) =~= target);
    while reversed.len() > 0
        invariant
            records(reversed@) == target.skip(out@.len() as int).reverse(),
            records(out@) == target.take(out@.len() as int),
            out@.len() <= target.len(),
            target.len() == n,
        decreases reversed@.len(),
    {
        let ghost k = out@.len();
        let ghost rv = records(reversed@);
        let e = reversed.pop().unwrap();
        proof {
            assert(rv.len() == target.len() - k);
            assert(rv.last() == target[k as int]);
            assert(records(reversed@) =~= rv.drop_last());
            assert(target.skip(k as int + 1).reverse() =~= target.skip(k as int).reverse().drop_last());
        }
        let ghost prev = out@;
        out.push(e);
        assert(records(out@) =~= records(prev).push(e@));
        assert(target.take(k as int + 1) =~= target.take(k as int).push(target[k as int]));
    }
    assert(target.take(n as int) =~= target);
    out
}

/// Whether results go on past the page at `offset` of `limit` rows, out of
/// `total`.
pub fn more_pages(total: i64, offset: u32, limit: u32) -> (r: bool)
    requires
        offset + limit <= u32::MAX,
    ensures
        r == (total > offset + limit),
{
    total > (offset + limit) as i64
}

/// An event row as the database returns it.
#[derive(Debug)]
pub struct EventRow {
    pub event_id: u128,
    pub tenant_id: u128,
    pub aggregate_id: u128,
    pub aggregate_type: String,
    pub sequence_number: i64,
    pub event_type: String,
    pub event_version: i32,
    pub occurred_at: Timestamp,
    pub payload: Json,
}

/// The stored event a row holds; the signed columns are read as unsigned,
/// bit for bit.
pub fn stored_from_row(row: EventRow) -> (r: StoredEvent<Json>)
    ensures
        r.event_id == row.event_id,
        r.tenant_id == TenantId(row.tenant_id),
        r.aggregate_id == AggregateId(row.aggregate_id),
        r.aggregate_type == row.aggregate_type,
        r.sequence_number == row.sequence_number as u64,
        r.event_type == row.event_type,
        r.event_version == row.event_version as u32,
        r.occurred_at == row.occurred_at,
        r.payload == row.payload,
{
    StoredEvent {
        event_id: row.event_id,
        tenant_id: TenantId(row.tenant_id),
        aggregate_id: AggregateId(row.aggregate_id),
        aggregate_type: row.aggregate_type,
        sequence_number: row.sequence_number as u64,
        event_type: row.event_type,
        event_version: row.event_version as u32,
        occurred_at: row.occurred_at,
        payload: row.payload,
    }
}

/// A snapshot of an aggregate's state at a version.
#[derive(Debug)]
pub struct Snapshot {
    pub tenant_id: TenantId,
    pub aggregate_id: AggregateId,
    pub aggregate_type: String,
    pub version: u64,
    pub state: Json,
    pub created_at: Timestamp,
}

/// Check that a snapshot belongs to the stream it is stored under.
pub fn check_snapshot(tenant_id: TenantId, aggregate_id: AggregateId, snapshot: &Snapshot) -> (r: Result<(), EventStoreError>)
    ensures
        snapshot.tenant_id != tenant_id ==> (r matches Err(e) && e.spec_kind() == StoreErrorKind::TenantIsolation
            && crate::event_store::store_error_message(&e) == "snapshot tenant_id mismatch: expected "@ + uuid_chars(tenant_id.0) + ", got "@ + uuid_chars(snapshot.tenant_id.0)),
        snapshot.tenant_id == tenant_id && snapshot.aggregate_id != aggregate_id ==> (r matches Err(e) && e.spec_kind()
            == StoreErrorKind::InvalidAppend && crate::event_store::store_error_message(&e) == "snapshot aggregate_id mismatch: expected "@ + uuid_chars(aggregate_id.0) + ", got "@ + uuid_chars(snapshot.aggregate_id.0)),
        snapshot.tenant_id == tenant_id && snapshot.aggregate_id == aggregate_id ==> r is Ok,
{
    if snapshot.tenant_id != tenant_id {
        return Err(EventStoreError::TenantIsolation(
            String::from_str("snapshot tenant_id mismatch: expected ").concat(uuid_text(tenant_id.0).as_str()).concat(
                ", got ",
            ).concat(uuid_text(snapshot.tenant_id.0).as_str()),
        ));
    }
    if snapshot.aggregate_id != aggregate_id {
        return Err(EventStoreError::InvalidAppend(
            String::from_str("snapshot aggregate_id mismatch: expected ").concat(uuid_text(aggregate_id.0).as_str()).concat(
                ", got ",
            ).concat(uuid_text(snapshot.aggregate_id.0).as_str()),
        ));
    }
    Ok(())
}

} // verus!
