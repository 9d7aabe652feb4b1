//! Projections: read models folded from published envelopes.
//!
//! Every projection is rebuildable (cleared and replayed in a deterministic
//! order), tenant-isolated (an event must belong to the envelope's tenant)
//! and idempotent: each `(tenant, aggregate)` stream has a cursor, envelopes
//! at or below it are ignored, and after the first one each envelope must be
//! the next in its stream.
//!
//! Payloads reach a projection already decoded: `Ok(event)`, or `Err(text)`
//! with the decoder's message when the payload was not a valid event.
use vstd::prelude::*;

use crate::common::{AggregateId, TenantId};
use crate::events::EventEnvelope;
use crate::read_model::{lookup, upserted, without_tenants, InMemoryTenantStore};
use crate::text::same_text;

pub mod parties;
pub mod products;
pub mod inventory_stock;
pub mod inventory_valuation;
pub mod invoicing;
pub mod invoices;
pub mod open_invoices;
pub mod sales_orders;
pub mod purchasing;
pub mod accounting;
pub mod customer_balances;
pub mod users;

verus! {

/// Last applied sequence number per `(tenant, aggregate)` stream.
pub type CursorTable = InMemoryTenantStore<AggregateId, u64>;

/// The cursor of a stream: its last applied sequence number, 0 if none.
pub open spec fn cursor_of(cursors: Seq<(TenantId, AggregateId, u64)>, t: TenantId, a: AggregateId) -> u64 {
    match lookup(cursors, t, a) {
        Some(v) => v,
        None => 0,
    }
}

/// What a projection makes of an envelope's stream position.
#[derive(Debug, Clone, Copy, PartialEq, Eq, Structural)]
pub enum Intake {
    /// Not for this projection, or already applied: nothing to do.
    Ignore,
    /// Out of order: sequence 0, or a gap after the first applied envelope.
    Stale { last: u64, found: u64 },
    /// The next envelope of its stream.
    Proceed,
}

/// The cursor rule: 0 is never valid, at or below the cursor is a replay,
/// and after the first applied envelope the next must follow directly.
pub open spec fn spec_gate(last: u64, seq: u64) -> Intake {
    if seq == 0 {
        Intake::Stale { last, found: seq }
    } else if seq <= last {
        Intake::Ignore
    } else if seq != last + 1 && last != 0 {
        Intake::Stale { last, found: seq }
    } else {
        Intake::Proceed
    }
}

/// Intake of an envelope by a projection of aggregate type `expected`.
pub open spec fn spec_intake<E>(
    expected: Seq<char>,
    cursors: Seq<(TenantId, AggregateId, u64)>,
    env: EventEnvelope<E>,
) -> Intake {
    if env.spec_aggregate_type() != expected {
        Intake::Ignore
    } else {
        spec_gate(
            cursor_of(cursors, env.spec_tenant_id(), env.spec_aggregate_id()),
            env.spec_sequence_number(),
        )
    }
}

pub fn gate(last: u64, seq: u64) -> (r: Intake)
    ensures
        r == spec_gate(last, seq),
{
    if seq == 0 {
        Intake::Stale { last, found: seq }
    } else if seq <= last {
        Intake::Ignore
    } else if seq != last + 1 && last != 0 {
        Intake::Stale { last, found: seq }
    } else {
        Intake::Proceed
    }
}

/// The cursor of a stream.
pub fn read_cursor(cursors: &CursorTable, tenant_id: TenantId, aggregate_id: AggregateId) -> (r: u64)
    ensures
        r == cursor_of(cursors.entries(), tenant_id, aggregate_id),
{
    match cursors.get(tenant_id, &aggregate_id) {
        Some(v) => v,
        None => 0,
    }
}

/// Intake of an envelope against the cursors.
pub fn intake<E>(cursors: &CursorTable, envelope: &EventEnvelope<E>, expected: &str) -> (r: Intake)
    ensures
        r == spec_intake(expected@, cursors.entries(), *envelope),
{
    if !same_text(envelope.aggregate_type(), expected) {
        return Intake::Ignore;
    }
    let last = read_cursor(cursors, envelope.tenant_id(), envelope.aggregate_id());
    gate(last, envelope.sequence_number())
}

/// Why a projection refused an envelope, by view.
pub enum ProjectionFault {
    Deserialize(Seq<char>),
    TenantIsolation(Seq<char>),
    NonMonotonicSequence { last: u64, found: u64 },
}

/// Read-model rows and stream cursors of a projection.
pub struct ProjectionView<R> {
    pub rows: R,
    pub cursors: Seq<(TenantId, AggregateId, u64)>,
}

/// How a projection folds one accepted event into its rows.
pub type Rules<E, R> = spec_fn(R, TenantId, AggregateId, E) -> Result<R, ProjectionFault>;

/// One envelope through a projection: admission, decoding, the rules, and
/// on success the stream cursor moves to the envelope's sequence number.
/// A refused envelope changes nothing.
pub open spec fn project<E, R>(
    expected: Seq<char>,
    s: ProjectionView<R>,
    env: EventEnvelope<Result<E, String>>,
    rules: Rules<E, R>,
) -> (Result<(), ProjectionFault>, ProjectionView<R>) {
    let t = env.spec_tenant_id();
    let a = env.spec_aggregate_id();
    match spec_intake(expected, s.cursors, env) {
        Intake::Ignore => (Ok(()), s),
        Intake::Stale { last, found } => (Err(ProjectionFault::NonMonotonicSequence { last, found }), s),
        Intake::Proceed => match env.spec_payload() {
            Err(m) => (Err(ProjectionFault::Deserialize(m@)), s),
            Ok(ev) => match rules(s.rows, t, a, ev) {
                Err(f) => (Err(f), s),
                Ok(rows) => (
                    Ok(()),
                    ProjectionView {
                        rows,
                        cursors: upserted(s.cursors, t, a, env.spec_sequence_number()),
                    },
                ),
            },
        },
    }
}

/// The envelopes at positions `order`, projected in turn until the first refusal.
pub open spec fn project_all<E, R>(
    expected: Seq<char>,
    s: ProjectionView<R>,
    envs: Seq<EventEnvelope<Result<E, String>>>,
    order: Seq<int>,
    rules: Rules<E, R>,
) -> (Result<(), ProjectionFault>, ProjectionView<R>)
    decreases order.len(),
{
    if order.len() == 0 {
        (Ok(()), s)
    } else {
        let (r, s1) = project_all(expected, s, envs, order.drop_last(), rules);
        if r is Err {
            (r, s1)
        } else {
            project(expected, s1, envs[order.last()], rules)
        }
    }
}

/// A projection outcome, by view.
pub open spec fn fault_view<F: View<V = ProjectionFault>>(r: Result<(), F>) -> Result<(), ProjectionFault> {
    match r {
        Ok(()) => Ok(()),
        Err(f) => Err(f@),
    }
}

/// A keyed projection state with the given tenants' rows and cursors removed.
pub open spec fn cleared<KV, VV>(
    s: ProjectionView<Seq<(TenantId, KV, VV)>>,
    ts: Seq<TenantId>,
) -> ProjectionView<Seq<(TenantId, KV, VV)>> {
    ProjectionView { rows: without_tenants(s.rows, ts), cursors: without_tenants(s.cursors, ts) }
}

/// Once a replay has failed, later envelopes change nothing.
pub proof fn lemma_project_all_stops<E, R>(
    expected: Seq<char>,
    s: ProjectionView<R>,
    envs: Seq<EventEnvelope<Result<E, String>>>,
    order: Seq<int>,
    rules: Rules<E, R>,
    k: int,
)
    requires
        0 <= k <= order.len(),
        project_all(expected, s, envs, order.take(k), rules).0 is Err,
    ensures
        project_all(expected, s, envs, order, rules) == project_all(
            expected,
            s,
            envs,
            order.take(k),
            rules,
        ),
    decreases order.len(),
{
    if order.len() > k {
        assert(order.drop_last().take(k) =~= order.take(k));
        lemma_project_all_stops(expected, s, envs, order.drop_last(), rules, k);
    } else {
        assert(order.take(k) =~= order);
    }
}

/// Inputs on which a projection's rules stay within machine arithmetic.
pub type Defined<E, R> = spec_fn(R, TenantId, AggregateId, E) -> bool;

/// Whether projecting `env` stays within machine arithmetic.
pub open spec fn step_defined<E, R>(
    expected: Seq<char>,
    s: ProjectionView<R>,
    env: EventEnvelope<Result<E, String>>,
    defined: Defined<E, R>,
) -> bool {
    spec_intake(expected, s.cursors, env) == Intake::Proceed && env.spec_payload() is Ok ==> defined(
        s.rows,
        env.spec_tenant_id(),
        env.spec_aggregate_id(),
        env.spec_payload()->Ok_0,
    )
}

/// Whether every step of a replay stays within machine arithmetic.
pub open spec fn replay_defined<E, R>(
    expected: Seq<char>,
    s: ProjectionView<R>,
    envs: Seq<EventEnvelope<Result<E, String>>>,
    order: Seq<int>,
    rules: Rules<E, R>,
    defined: Defined<E, R>,
) -> bool
    decreases order.len(),
{
    if order.len() == 0 {
        true
    } else {
        let (r, s1) = project_all(expected, s, envs, order.drop_last(), rules);
        &&& replay_defined(expected, s, envs, order.drop_last(), rules, defined)
        &&& (r is Ok ==> step_defined(expected, s1, envs[order.last()], defined))
    }
}

pub proof fn lemma_replay_defined_prefix<E, R>(
    expected: Seq<char>,
    s: ProjectionView<R>,
    envs: Seq<EventEnvelope<Result<E, String>>>,
    order: Seq<int>,
    rules: Rules<E, R>,
    defined: Defined<E, R>,
    k: int,
)
    requires
        0 <= k <= order.len(),
        replay_defined(expected, s, envs, order, rules, defined),
    ensures
        replay_defined(expected, s, envs, order.take(k), rules, defined),
    decreases order.len(),
{
    if order.len() > k {
        assert(order.drop_last().take(k) =~= order.take(k));
        lemma_replay_defined_prefix(expected, s, envs, order.drop_last(), rules, defined, k);
    } else {
        assert(order.take(k) =~= order);
    }
}

/// Like `project_all`, for rules that take a value drawn per envelope
/// (a clock reading or a fresh identifier): step `i` uses `drawn[i]`.
pub open spec fn project_all_drawn<E, R, P>(
    expected: Seq<char>,
    s: ProjectionView<R>,
    envs: Seq<EventEnvelope<Result<E, String>>>,
    order: Seq<int>,
    rules: spec_fn(P) -> Rules<E, R>,
    drawn: Seq<P>,
) -> (Result<(), ProjectionFault>, ProjectionView<R>)
    decreases order.len(),
{
    if order.len() == 0 {
        (Ok(()), s)
    } else {
        let (r, s1) = project_all_drawn(expected, s, envs, order.drop_last(), rules, drawn);
        if r is Err {
            (r, s1)
        } else {
            project(expected, s1, envs[order.last()], rules(drawn[order.len() - 1]))
        }
    }
}

pub proof fn lemma_project_all_drawn_stops<E, R, P>(
    expected: Seq<char>,
    s: ProjectionView<R>,
    envs: Seq<EventEnvelope<Result<E, String>>>,
    order: Seq<int>,
    rules: spec_fn(P) -> Rules<E, R>,
    drawn: Seq<P>,
    k: int,
)
    requires
        0 <= k <= order.len(),
        project_all_drawn(expected, s, envs, order.take(k), rules, drawn).0 is Err,
    ensures
        project_all_drawn(expected, s, envs, order, rules, drawn) == project_all_drawn(
            expected,
            s,
            envs,
            order.take(k),
            rules,
            drawn,
        ),
    decreases order.len(),
{
    if order.len() > k {
        assert(order.drop_last().take(k) =~= order.take(k));
        lemma_project_all_drawn_stops(expected, s, envs, order.drop_last(), rules, drawn, k);
    } else {
        assert(order.take(k) =~= order);
    }
}

/// Replay key of an envelope: tenant, aggregate, sequence number.
pub open spec fn replay_key<E>(e: EventEnvelope<E>) -> (u128, u128, u64) {
    (e.spec_tenant_id().0, e.spec_aggregate_id().0, e.spec_sequence_number())
}

pub open spec fn replay_keys<E>(envs: Seq<EventEnvelope<E>>) -> Seq<(u128, u128, u64)> {
    envs.map_values(|e: EventEnvelope<E>| replay_key(e))
}

/// The tenants of a list of envelopes, in order.
pub open spec fn tenants_of<E>(envs: Seq<EventEnvelope<E>>) -> Seq<TenantId> {
    envs.map_values(|e: EventEnvelope<E>| e.spec_tenant_id())
}

/// Lexicographic order of replay keys.
pub open spec fn key_le(a: (u128, u128, u64), b: (u128, u128, u64)) -> bool {
    a.0 < b.0 || (a.0 == b.0 && (a.1 < b.1 || (a.1 == b.1 && a.2 <= b.2)))
}

/// How many positions of `order` have a key at or below `k`.
pub open spec fn count_le(order: Seq<int>, ks: Seq<(u128, u128, u64)>, k: (u128, u128, u64)) -> nat
    decreases order.len(),
{
    if order.len() == 0 {
        0
    } else {
        count_le(order.drop_last(), ks, k) + if key_le(ks[order.last()], k) {
            1nat
        } else {
            0nat
        }
    }
}

/// Stable sort of the first `n` positions by key: each position is inserted
/// after every earlier one whose key is at or below its own.
pub open spec fn replay_order(ks: Seq<(u128, u128, u64)>, n: nat) -> Seq<int>
    decreases n,
{
    if n == 0 {
        Seq::empty()
    } else {
        let prev = replay_order(ks, (n - 1) as nat);
        prev.insert(count_le(prev, ks, ks[n - 1]) as int, n - 1)
    }
}

pub proof fn lemma_count_le_bound(order: Seq<int>, ks: Seq<(u128, u128, u64)>, k: (u128, u128, u64))
    ensures
        count_le(order, ks, k) <= order.len(),
    decreases order.len(),
{
    if order.len() > 0 {
        lemma_count_le_bound(order.drop_last(), ks, k);
    }
}

pub proof fn lemma_replay_order_shape(ks: Seq<(u128, u128, u64)>, n: nat)
    ensures
        replay_order(ks, n).len() == n,
        forall|j: int| 0 <= j < n ==> 0 <= #[trigger] replay_order(ks, n)[j] < n,
    decreases n,
{
    if n > 0 {
        let prev = replay_order(ks, (n - 1) as nat);
        lemma_replay_order_shape(ks, (n - 1) as nat);
        lemma_count_le_bound(prev, ks, ks[n - 1]);
        prev.insert_ensures(count_le(prev, ks, ks[n - 1]) as int, n - 1);
        let c = count_le(prev, ks, ks[n - 1]) as int;
        assert forall|j: int| 0 <= j < n implies 0 <= #[trigger] replay_order(ks, n)[j] < n by {
            if j < c {
                assert(replay_order(ks, n)[j] == prev[j]);
            } else if j > c {
                assert(replay_order(ks, n)[(j - 1) + 1] == prev[j - 1]);
            }
        }
    }
}

/// In positions sorted by key, those at or below `k` come first: the count
/// of them marks where the others begin.
proof fn lemma_count_le_prefix(order: Seq<int>, ks: Seq<(u128, u128, u64)>, k: (u128, u128, u64))
    requires
        forall|i: int, j: int| 0 <= i < j < order.len() ==> key_le(#[trigger] ks[order[i]], #[trigger] ks[order[j]]),
    ensures
        count_le(order, ks, k) <= order.len(),
        forall|i: int| 0 <= i < count_le(order, ks, k) ==> key_le(#[trigger] ks[order[i]], k),
        forall|i: int| count_le(order, ks, k) <= i < order.len() ==> !key_le(#[trigger] ks[order[i]], k),
    decreases order.len(),
{
    if order.len() > 0 {
        let init = order.drop_last();
        let c = count_le(init, ks, k);
        let n = order.len() as int;
        assert(order.last() == order[n - 1]);
        assert forall|i: int, j: int| 0 <= i < j < init.len() implies key_le(
            #[trigger] ks[init[i]],
            #[trigger] ks[init[j]],
        ) by {
            assert(init[i] == order[i] && init[j] == order[j]);
        }
        lemma_count_le_prefix(init, ks, k);
        if key_le(ks[order[n - 1]], k) {
            assert(count_le(order, ks, k) == c + 1);
            assert forall|i: int| 0 <= i < order.len() implies key_le(#[trigger] ks[order[i]], k) by {
                if i < n - 1 {
                    assert(key_le(ks[order[i]], ks[order[n - 1]]));
                }
            }
            if c < init.len() {
                assert(init[c as int] == order[c as int]);
                assert(key_le(ks[order[c as int]], k));
                assert(!key_le(ks[init[c as int]], k));
            }
        } else {
            assert(count_le(order, ks, k) == c);
            assert forall|i: int| 0 <= i < c implies key_le(#[trigger] ks[order[i]], k) by {
                assert(init[i] == order[i]);
                assert(key_le(ks[init[i]], k));
            }
            assert forall|i: int| c <= i < order.len() implies !key_le(#[trigger] ks[order[i]], k) by {
                if i < n - 1 {
                    assert(init[i] == order[i]);
                    assert(!key_le(ks[init[i]], k));
                }
            }
        }
    }
}

/// Replay order is sorted by key: a position comes before another only if
/// its key is at or below the other's.
pub proof fn lemma_replay_order_sorted(ks: Seq<(u128, u128, u64)>, n: nat)
    requires
        n <= ks.len(),
    ensures
        forall|i: int, j: int|
            0 <= i < j < n ==> key_le(#[trigger] ks[replay_order(ks, n)[i]], #[trigger] ks[replay_order(ks, n)[j]]),
    decreases n,
{
    if n > 0 {
        let prev = replay_order(ks, (n - 1) as nat);
        lemma_replay_order_sorted(ks, (n - 1) as nat);
        lemma_replay_order_shape(ks, (n - 1) as nat);
        let k = ks[n - 1];
        lemma_count_le_prefix(prev, ks, k);
        let c = count_le(prev, ks, k) as int;
        let cur = replay_order(ks, n);
        assert(cur == prev.insert(c, n - 1));
        assert forall|i: int, j: int| 0 <= i < j < n implies key_le(#[trigger] ks[cur[i]], #[trigger] ks[cur[j]]) by {
            let pi = if i < c { i } else { i - 1 };
            let pj = if j < c { j } else { j - 1 };
            if i != c {
                assert(cur[i] == prev[pi]);
            } else {
                assert(cur[i] == n - 1);
            }
            if j != c {
                assert(cur[j] == prev[pj]);
            } else {
                assert(cur[j] == n - 1);
            }
            if i != c && j != c {
                assert(pi < pj);
            }
        }
    }
}

/// Replay order takes each position once: no position occurs twice.
pub proof fn lemma_replay_order_distinct(ks: Seq<(u128, u128, u64)>, n: nat)
    ensures
        forall|i: int, j: int|
            0 <= i < j < n ==> #[trigger] replay_order(ks, n)[i] != #[trigger] replay_order(ks, n)[j],
    decreases n,
{
    if n > 0 {
        let prev = replay_order(ks, (n - 1) as nat);
        lemma_replay_order_distinct(ks, (n - 1) as nat);
        lemma_replay_order_shape(ks, (n - 1) as nat);
        lemma_count_le_bound(prev, ks, ks[n - 1]);
        let c = count_le(prev, ks, ks[n - 1]) as int;
        let cur = replay_order(ks, n);
        assert(cur == prev.insert(c, n - 1));
        assert forall|i: int, j: int| 0 <= i < j < n implies #[trigger] cur[i] != #[trigger] cur[j] by {
            let pi = if i < c { i } else { i - 1 };
            let pj = if j < c { j } else { j - 1 };
            if i != c {
                assert(cur[i] == prev[pi]);
                assert(0 <= prev[pi] < n - 1);
            }
            if j != c {
                assert(cur[j] == prev[pj]);
                assert(0 <= prev[pj] < n - 1);
            }
            if i != c && j != c {
                assert(pi < pj);
            }
        }
    }
}

fn replay_key_of<E>(e: &EventEnvelope<E>) -> (r: (u128, u128, u64))
    ensures
        r == replay_key(*e),
{
    (e.tenant_id().0, e.aggregate_id().0, e.sequence_number())
}

fn key_le_exec(a: (u128, u128, u64), b: (u128, u128, u64)) -> (r: bool)
    ensures
        r == key_le(a, b),
{
    a.0 < b.0 || (a.0 == b.0 && (a.1 < b.1 || (a.1 == b.1 && a.2 <= b.2)))
}

/// Positions `0..ks.len()` stably sorted by key: equal keys keep their order.
pub fn stable_order(ks: &Vec<(u128, u128, u64)>) -> (r: Vec<usize>)
    ensures
        r@.map_values(|i: usize| i as int) == replay_order(ks@, ks@.len() as nat),
        forall|j: int| 0 <= j < r@.len() ==> r@[j] < ks@.len(),
{
    let mut order: Vec<usize> = Vec::new();
    let mut i: usize = 0;
    proof {
        assert(order@.map_values(|i: usize| i as int) =~= replay_order(ks@, 0));
    }
    while i < ks.len()
        invariant
            i <= ks@.len(),
            order@.map_values(|x: usize| x as int) == replay_order(ks@, i as nat),
            order@.len() == i,
            forall|j: int| 0 <= j < order@.len() ==> order@[j] < i,
        decreases ks@.len() - i,
    {
        let ghost mapped = order@.map_values(|x: usize| x as int);
        let ki = ks[i];
        let mut count: usize = 0;
        let mut p: usize = 0;
        while p < order.len()
            invariant
                p <= order@.len(),
                order@.len() == i,
                i < ks@.len(),
                ki == ks@[i as int],
                mapped == order@.map_values(|x: usize| x as int),
                forall|j: int| 0 <= j < order@.len() ==> order@[j] < i,
                count == count_le(mapped.take(p as int), ks@, ki),
                count <= p,
            decreases order@.len() - p,
        {
            let q = order[p];
            let kq = ks[q];
            proof {
                assert(mapped.take(p + 1).drop_last() =~= mapped.take(p as int));
                assert(mapped.take(p + 1).last() == q as int);
            }
            if key_le_exec(kq, ki) {
                count = count + 1;
            }
            p = p + 1;
        }
        proof {
            assert(mapped.take(order@.len() as int) =~= mapped);
        }
        let ghost old_order = order@;
        order.insert(count, i);
        proof {
            assert(order@.map_values(|x: usize| x as int) =~= mapped.insert(count as int, i as int));
            old_order.insert_ensures(count as int, i);
            assert forall|j: int| 0 <= j < order@.len() implies order@[j] < i + 1 by {
                if j < count {
                    assert(order@[j] == old_order[j]);
                } else if j > count {
                    assert(order@[(j - 1) + 1] == old_order[j - 1]);
                }
            }
        }
        i = i + 1;
    }
    order
}

/// The deterministic replay order of envelopes: by tenant, aggregate and
/// sequence number, equal keys kept in their given order.
pub fn replay_order_of<E>(envs: &Vec<EventEnvelope<E>>) -> (r: Vec<usize>)
    ensures
        r@.map_values(|i: usize| i as int) == replay_order(replay_keys(envs@), envs@.len() as nat),
        forall|j: int| 0 <= j < r@.len() ==> r@[j] < envs@.len(),
{
    let mut ks: Vec<(u128, u128, u64)> = Vec::new();
    let mut i: usize = 0;
    while i < envs.len()
        invariant
            i <= envs@.len(),
            ks@ == replay_keys(envs@).take(i as int),
        decreases envs@.len() - i,
    {
        ks.push(replay_key_of(&envs[i]));
        i = i + 1;
        assert(ks@ =~= replay_keys(envs@).take(i as int));
    }
    assert(ks@ =~= replay_keys(envs@));
    stable_order(&ks)
}

/// The tenants of a list of envelopes.
pub fn envelope_tenants<E>(envs: &Vec<EventEnvelope<E>>) -> (r: Vec<TenantId>)
    ensures
        r@ == tenants_of(envs@),
{
    let mut out: Vec<TenantId> = Vec::new();
    let mut i: usize = 0;
    while i < envs.len()
        invariant
            i <= envs@.len(),
            out@ == tenants_of(envs@).take(i as int),
        decreases envs@.len() - i,
    {
        out.push(envs[i].tenant_id());
        i = i + 1;
        assert(out@ =~= tenants_of(envs@).take(i as int));
    }
    assert(out@ =~= tenants_of(envs@));
    out
}

/// Cursor persistence for projections.
pub trait ProjectionCursorStore {
    /// The last processed sequence number of a stream, if recorded.
    fn get_cursor(&self, tenant_id: TenantId, aggregate_id: AggregateId, projection_name: &str) -> Option<u64>;

    /// Record the last processed sequence number of a stream.
    fn update_cursor(
        &mut self,
        tenant_id: TenantId,
        aggregate_id: AggregateId,
        projection_name: &str,
        sequence_number: u64,
    );

    /// Forget every cursor of a tenant for one projection.
    fn clear_cursors(&mut self, tenant_id: TenantId, projection_name: &str);
}

/// Cursor persistence that keeps nothing: projections then rely on their
/// in-memory cursors alone.
#[derive(Debug, Clone, Copy)]
pub struct InMemoryCursorStore;

impl ProjectionCursorStore for InMemoryCursorStore {
    fn get_cursor(&self, tenant_id: TenantId, aggregate_id: AggregateId, projection_name: &str) -> (r:
        Option<u64>)
        ensures
            r is None,
    {
        None
    }

    fn update_cursor(
        &mut self,
        tenant_id: TenantId,
        aggregate_id: AggregateId,
        projection_name: &str,
        sequence_number: u64,
    ) {
    }

    fn clear_cursors(&mut self, tenant_id: TenantId, projection_name: &str) {
    }
}

/// Resuming from a persisted cursor: once a stream's cursor is seeded with
/// `last`, its envelopes at or below `last` are ignored and leave the
/// projection as it is, and the envelope right after `last` is taken.
pub proof fn law_resume_from_cursor<E, R>(
    expected: Seq<char>,
    s: ProjectionView<R>,
    last: u64,
    env: EventEnvelope<Result<E, String>>,
    rules: Rules<E, R>,
)
    requires
        env.spec_aggregate_type() == expected,
        env.spec_sequence_number() > 0,
    ensures
        ({
            let seeded = ProjectionView {
                rows: s.rows,
                cursors: upserted(s.cursors, env.spec_tenant_id(), env.spec_aggregate_id(), last),
            };
            &&& env.spec_sequence_number() <= last ==> project(expected, seeded, env, rules) == (
                Ok::<(), ProjectionFault>(()),
                seeded,
            )
            &&& env.spec_sequence_number() == last + 1 ==> spec_intake(expected, seeded.cursors, env)
                == Intake::Proceed
        }),
{
    let t = env.spec_tenant_id();
    let a = env.spec_aggregate_id();
    crate::read_model::lemma_lookup_upserted(s.cursors, t, a, last, t, a);
}

/// Idempotent delivery: an envelope delivered again after it was applied
/// (or ignored) is ignored, and the projection stays as the first delivery
/// left it.
pub proof fn law_redelivery_is_ignored<E, R>(
    expected: Seq<char>,
    s: ProjectionView<R>,
    env: EventEnvelope<Result<E, String>>,
    rules: Rules<E, R>,
)
    requires
        project(expected, s, env, rules).0 is Ok,
    ensures
        project(expected, project(expected, s, env, rules).1, env, rules) == (
            Ok::<(), ProjectionFault>(()),
            project(expected, s, env, rules).1,
        ),
{
    let t = env.spec_tenant_id();
    let a = env.spec_aggregate_id();
    let s1 = project(expected, s, env, rules).1;
    if spec_intake(expected, s.cursors, env) is Proceed && s1 != s {
        crate::read_model::lemma_lookup_upserted(s.cursors, t, a, env.spec_sequence_number(), t, a);
        assert(cursor_of(s1.cursors, t, a) == env.spec_sequence_number());
    }
}

/// Tenant isolation of progress: projecting an envelope moves no other
/// tenant's cursors.
pub proof fn law_cursors_isolated<E, R>(
    expected: Seq<char>,
    s: ProjectionView<R>,
    env: EventEnvelope<Result<E, String>>,
    rules: Rules<E, R>,
    t2: TenantId,
    a2: AggregateId,
)
    requires
        t2 != env.spec_tenant_id(),
    ensures
        cursor_of(project(expected, s, env, rules).1.cursors, t2, a2) == cursor_of(s.cursors, t2, a2),
{
    crate::read_model::lemma_lookup_upserted(
        s.cursors,
        env.spec_tenant_id(),
        env.spec_aggregate_id(),
        env.spec_sequence_number(),
        t2,
        a2,
    );
}

} // verus!
