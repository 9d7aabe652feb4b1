//! Core building blocks: identifiers, time, domain errors, optimistic
//! concurrency expectations and the aggregate contract.
use vstd::prelude::*;

use crate::text::owned;

verus! {

/// Uuid v4 from the `uuid` crate, as its 128-bit value. Random: nothing is
/// stated of the result.
#[verifier::external_body]
pub(crate) fn fresh_u128() -> u128 {
    uuid::Uuid::new_v4().as_u128()
}

/// `uuid::Uuid::now_v7()` as its 128-bit value: time-ordered and random, so
/// nothing is stated of it.
#[verifier::external_body]
pub(crate) fn fresh_v7() -> u128 {
    uuid::Uuid::now_v7().as_u128()
}

/// `format!("{e:?}")`: the `Debug` text of a value, which `derive` wrote and
/// Verus has not read, so nothing is stated of it.
#[verifier::external_body]
pub(crate) fn debug_text<E: std::fmt::Debug>(e: &E) -> String {
    format!("{e:?}")
}

/// `chrono::Utc::now().timestamp_millis()`: the clock, so nothing is stated
/// of the result.
#[verifier::external_body]
fn clock_millis() -> i64 {
    chrono::Utc::now().timestamp_millis()
}

/// `chrono::Utc::now()` in the RFC 3339 form that chrono's serde support
/// writes (`to_rfc3339_opts(SecondsFormat::AutoSi, true)`): the clock, so
/// nothing is stated of the result.
#[verifier::external_body]
pub(crate) fn now_rfc3339() -> String {
    chrono::Utc::now().to_rfc3339_opts(chrono::SecondsFormat::AutoSi, true)
}

/// Tenant identifier: the isolation boundary of every stream and read model.
#[derive(Debug, Clone, Copy, PartialEq, Eq, Hash, PartialOrd, Ord, Structural)]
pub struct TenantId(pub u128);

impl TenantId {
    /// A fresh random tenant id.
    pub fn new() -> (r: TenantId) {
        TenantId(fresh_u128())
    }

    pub fn from_u128(v: u128) -> (r: TenantId)
        ensures
            r.0 == v,
    {
        TenantId(v)
    }

    pub fn as_u128(&self) -> (r: u128)
        ensures
            r == self.0,
    {
        self.0
    }
}

/// Aggregate (stream) identifier.
#[derive(Debug, Clone, Copy, PartialEq, Eq, Hash, PartialOrd, Ord, Structural)]
pub struct AggregateId(pub u128);

impl AggregateId {
    /// A fresh random aggregate id.
    pub fn new() -> (r: AggregateId) {
        AggregateId(fresh_u128())
    }

    pub fn from_u128(v: u128) -> (r: AggregateId)
        ensures
            r.0 == v,
    {
        AggregateId(v)
    }

    pub fn as_u128(&self) -> (r: u128)
        ensures
            r == self.0,
    {
        self.0
    }
}

/// A point in time: milliseconds since the Unix epoch, UTC.
#[derive(Debug, Clone, Copy, PartialEq, Eq, Hash, PartialOrd, Ord, Structural)]
pub struct Timestamp(pub i64);

impl Timestamp {
    /// The current time.
    pub fn now() -> (r: Timestamp) {
        Timestamp(clock_millis())
    }

    pub fn from_millis(ms: i64) -> (r: Timestamp)
        ensures
            r.0 == ms,
    {
        Timestamp(ms)
    }
}

/// Kind of a domain rejection.
#[derive(Debug, Clone, Copy, PartialEq, Eq, Structural)]
pub enum DomainErrorKind {
    Validation,
    InvariantViolation,
    Conflict,
    Unauthorized,
    NotFound,
    InvalidId,
}

/// Mathematical view of a domain error: its kind and message.
pub struct Rejection {
    pub kind: DomainErrorKind,
    pub message: Seq<char>,
}

pub open spec fn reject(kind: DomainErrorKind, message: Seq<char>) -> Rejection {
    Rejection { kind, message }
}

/// Deterministic domain failure.
#[derive(Debug, Clone, PartialEq, Eq)]
pub enum DomainError {
    Validation(String),
    InvariantViolation(String),
    Conflict(String),
    Unauthorized,
    NotFound,
    InvalidId(String),
}

impl View for DomainError {
    type V = Rejection;

    open spec fn view(&self) -> Rejection {
        match self {
            DomainError::Validation(m) => reject(DomainErrorKind::Validation, m@),
            DomainError::InvariantViolation(m) => reject(DomainErrorKind::InvariantViolation, m@),
            DomainError::Conflict(m) => reject(DomainErrorKind::Conflict, m@),
            DomainError::Unauthorized => reject(DomainErrorKind::Unauthorized, Seq::empty()),
            DomainError::NotFound => reject(DomainErrorKind::NotFound, Seq::empty()),
            DomainError::InvalidId(m) => reject(DomainErrorKind::InvalidId, m@),
        }
    }
}

impl DomainError {
    pub fn validation(msg: &str) -> (r: DomainError)
        ensures
            r@ == reject(DomainErrorKind::Validation, msg@),
    {
        DomainError::Validation(owned(msg))
    }

    pub fn invariant_violation(msg: &str) -> (r: DomainError)
        ensures
            r@ == reject(DomainErrorKind::InvariantViolation, msg@),
    {
        DomainError::InvariantViolation(owned(msg))
    }

    pub fn conflict(msg: &str) -> (r: DomainError)
        ensures
            r@ == reject(DomainErrorKind::Conflict, msg@),
    {
        DomainError::Conflict(owned(msg))
    }

    pub fn not_found() -> (r: DomainError)
        ensures
            r@ == reject(DomainErrorKind::NotFound, Seq::empty()),
    {
        DomainError::NotFound
    }
}

/// The views of a list of events.
pub open spec fn views<E: View>(v: Seq<E>) -> Seq<E::V> {
    v.map_values(|e: E| e@)
}

/// What a decision produced, by its view.
pub open spec fn outcome<E: View>(r: Result<Vec<E>, DomainError>) -> Result<Seq<E::V>, Rejection> {
    match r {
        Ok(v) => Ok(views(v@)),
        Err(e) => Err(e@),
    }
}

/// Optimistic concurrency expectation for an append.
#[derive(Debug, Clone, Copy, PartialEq, Eq, Structural)]
pub enum ExpectedVersion {
    /// Append regardless of the current stream version.
    Any,
    /// Append only if the stream is exactly at this version.
    Exact(u64),
}

impl ExpectedVersion {
    pub open spec fn spec_matches(self, current: u64) -> bool {
        match self {
            ExpectedVersion::Any => true,
            ExpectedVersion::Exact(v) => v == current,
        }
    }

    pub fn matches(&self, current: u64) -> (r: bool)
        ensures
            r == self.spec_matches(current),
    {
        match self {
            ExpectedVersion::Any => true,
            ExpectedVersion::Exact(v) => *v == current,
        }
    }
}

/// An event-sourced aggregate root: identity and version.
pub trait AggregateRoot: Sized {
    type Id;

    spec fn spec_version(&self) -> u64;

    fn id(&self) -> &Self::Id;

    fn version(&self) -> (r: u64)
        ensures
            r == self.spec_version(),
    ;
}

/// Decide (command to events, no mutation) and evolve (event to state).
pub trait Aggregate: AggregateRoot + View {
    type Command;
    type Event: View;

    /// The decision, as a function of state and command.
    spec fn spec_decide(state: Self::V, command: Self::Command) -> Result<
        Seq<<Self::Event as View>::V>,
        Rejection,
    >;

    /// The state after one event.
    spec fn spec_evolve(state: Self::V, event: <Self::Event as View>::V) -> Self::V;

    /// Inputs on which deciding stays within machine arithmetic.
    spec fn spec_handle_defined(state: Self::V, command: Self::Command) -> bool;

    /// Inputs on which evolving stays within machine arithmetic.
    spec fn spec_apply_defined(state: Self::V, event: <Self::Event as View>::V) -> bool;

    fn handle(&self, command: &Self::Command) -> (r: Result<Vec<Self::Event>, DomainError>)
        requires
            Self::spec_handle_defined(self@, *command),
        ensures
            outcome(r) == Self::spec_decide(self@, *command),
    ;

    fn apply(&mut self, event: &Self::Event)
        requires
            old(self).spec_version() < u64::MAX,
            Self::spec_apply_defined(old(self)@, event@),
        ensures
            final(self)@ == Self::spec_evolve(old(self)@, event@),
            final(self).spec_version() == old(self).spec_version() + 1,
    ;
}

/// Values that can be duplicated with the same view.
pub trait Replicate: View + Sized {
    fn replicate(&self) -> (r: Self)
        ensures
            r@ == self@,
    ;
}

/// A copy of a vector of plain values.
pub fn copy_vec<T: Copy>(v: &Vec<T>) -> (r: Vec<T>)
    ensures
        r@ == v@,
{
    let mut r: Vec<T> = Vec::new();
    let mut i: usize = 0;
    while i < v.len()
        invariant
            i <= v.len(),
            r@ == v@.subrange(0, i as int),
        decreases v.len() - i,
    {
        r.push(v[i]);
        i = i + 1;
    }
    assert(r@ == v@);
    r
}

/// The state after a sequence of events, applied in order.
pub open spec fn replay<A: Aggregate>(s: A::V, evs: Seq<<A::Event as View>::V>) -> A::V
    decreases evs.len(),
{
    if evs.len() == 0 {
        s
    } else {
        A::spec_evolve(replay::<A>(s, evs.drop_last()), evs.last())
    }
}

/// Execute a command in place: decide, then apply each decided event.
pub fn execute<A: Aggregate>(aggregate: &mut A, command: &A::Command) -> (r: Result<
    Vec<A::Event>,
    DomainError,
>)
    requires
        A::spec_handle_defined(old(aggregate)@, *command),
        A::spec_decide(old(aggregate)@, *command) matches Ok(evs) ==> old(aggregate).spec_version()
            + evs.len() <= u64::MAX && forall|i: int|
            0 <= i < evs.len() ==> A::spec_apply_defined(
                #[trigger] replay::<A>(old(aggregate)@, evs.take(i)),
                evs[i],
            ),
    ensures
        outcome(r) == A::spec_decide(old(aggregate)@, *command),
        r matches Ok(evs) ==> final(aggregate)@ == replay::<A>(old(aggregate)@, views(evs@))
            && final(aggregate).spec_version() == old(aggregate).spec_version() + evs.len(),
        r is Err ==> *final(aggregate) == *old(aggregate),
{
    let events = match aggregate.handle(command) {
        Ok(evs) => evs,
        Err(e) => return Err(e),
    };
    let ghost s0 = aggregate@;
    let ghost v0 = aggregate.spec_version();
    let mut i: usize = 0;
    while i < events.len()
        invariant
            i <= events.len(),
            v0 + events@.len() <= u64::MAX,
            aggregate.spec_version() == v0 + i,
            aggregate@ == replay::<A>(s0, views(events@).take(i as int)),
            views(events@).len() == events@.len(),
            forall|k: int|
                0 <= k < events@.len() ==> A::spec_apply_defined(
                    #[trigger] replay::<A>(s0, views(events@).take(k)),
                    views(events@)[k],
                ),
        decreases events.len() - i,
    {
        proof {
            assert(views(events@).take(i + 1).drop_last() =~= views(events@).take(i as int));
        }
        aggregate.apply(&events[i]);
        i = i + 1;
    }
    proof {
        assert(views(events@).take(events@.len() as int) =~= views(events@));
    }
    Ok(events)
}

} // verus!
