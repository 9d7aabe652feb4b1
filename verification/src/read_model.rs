//! Tenant-isolated key/value storage for disposable read models.
//!
//! A store is a sequence of `(tenant, key, value)` rows. A key is looked up
//! at its first row; an upsert rewrites that row in place or appends a new
//! one, so a tenant's listing keeps insertion order.
use vstd::prelude::*;

use crate::common::{AggregateId, Replicate, TenantId};

verus! {

/// Keys of read-model rows: comparable and copyable by their view.
pub trait RecordKey: View + Sized {
    fn same_key(&self, other: &Self) -> (r: bool)
        ensures
            r == (self@ == other@),
    ;

    fn copy_key(&self) -> (r: Self)
        ensures
            r@ == self@,
    ;
}

impl View for AggregateId {
    type V = AggregateId;

    open spec fn view(&self) -> AggregateId {
        *self
    }
}

impl RecordKey for AggregateId {
    fn same_key(&self, other: &Self) -> (r: bool) {
        self.0 == other.0
    }

    fn copy_key(&self) -> (r: Self) {
        *self
    }
}

impl RecordKey for String {
    fn same_key(&self, other: &Self) -> (r: bool) {
        *self == *other
    }

    fn copy_key(&self) -> (r: Self) {
        self.clone()
    }
}

impl Replicate for u64 {
    fn replicate(&self) -> (r: u64) {
        *self
    }
}

/// Whether a row belongs to the slot `(t, k)`.
pub open spec fn same_slot<KV, VV>(e: (TenantId, KV, VV), t: TenantId, k: KV) -> bool {
    e.0 == t && e.1 == k
}

/// Whether some row holds the slot `(t, k)`.
pub open spec fn has_slot<KV, VV>(s: Seq<(TenantId, KV, VV)>, t: TenantId, k: KV) -> bool {
    exists|i: int| 0 <= i < s.len() && #[trigger] same_slot(s[i], t, k)
}

/// Whether `i` is the first row that holds the slot `(t, k)`.
pub open spec fn is_first_slot<KV, VV>(s: Seq<(TenantId, KV, VV)>, t: TenantId, k: KV, i: int) -> bool {
    &&& 0 <= i < s.len()
    &&& same_slot(s[i], t, k)
    &&& forall|j: int| 0 <= j < i ==> !#[trigger] same_slot(s[j], t, k)
}

/// The first row that holds the slot `(t, k)`.
pub open spec fn first_slot<KV, VV>(s: Seq<(TenantId, KV, VV)>, t: TenantId, k: KV) -> int {
    choose|i: int| is_first_slot(s, t, k, i)
}

/// The value stored under `(t, k)`, if any.
pub open spec fn lookup<KV, VV>(s: Seq<(TenantId, KV, VV)>, t: TenantId, k: KV) -> Option<VV> {
    if has_slot(s, t, k) {
        Some(s[first_slot(s, t, k)].2)
    } else {
        None
    }
}

/// The rows after storing `v` under `(t, k)`.
pub open spec fn upserted<KV, VV>(s: Seq<(TenantId, KV, VV)>, t: TenantId, k: KV, v: VV) -> Seq<
    (TenantId, KV, VV),
> {
    if has_slot(s, t, k) {
        s.update(first_slot(s, t, k), (t, k, v))
    } else {
        s.push((t, k, v))
    }
}

/// The values of one tenant, in row order.
pub open spec fn tenant_rows<KV, VV>(s: Seq<(TenantId, KV, VV)>, t: TenantId) -> Seq<VV>
    decreases s.len(),
{
    if s.len() == 0 {
        Seq::empty()
    } else if s.last().0 == t {
        tenant_rows(s.drop_last(), t).push(s.last().2)
    } else {
        tenant_rows(s.drop_last(), t)
    }
}

/// The rows of every tenant not in `ts`, in row order.
pub open spec fn without_tenants<KV, VV>(s: Seq<(TenantId, KV, VV)>, ts: Seq<TenantId>) -> Seq<
    (TenantId, KV, VV),
>
    decreases s.len(),
{
    if s.len() == 0 {
        Seq::empty()
    } else if ts.contains(s.last().0) {
        without_tenants(s.drop_last(), ts)
    } else {
        without_tenants(s.drop_last(), ts).push(s.last())
    }
}

/// A key held by some row has a first row.
pub proof fn lemma_first_slot_exists<KV, VV>(s: Seq<(TenantId, KV, VV)>, t: TenantId, k: KV)
    requires
        has_slot(s, t, k),
    ensures
        is_first_slot(s, t, k, first_slot(s, t, k)),
    decreases s.len(),
{
    let d = s.drop_last();
    if has_slot(d, t, k) {
        lemma_first_slot_exists(d, t, k);
        let i = first_slot(d, t, k);
        assert forall|j: int| 0 <= j < i implies !#[trigger] same_slot(s[j], t, k) by {
            assert(s[j] == d[j]);
        }
        assert(s[i] == d[i]);
        assert(is_first_slot(s, t, k, i));
    } else {
        let w = choose|j: int| 0 <= j < s.len() && #[trigger] same_slot(s[j], t, k);
        if w < s.len() - 1 {
            assert(d[w] == s[w]);
            assert(same_slot(d[w], t, k));
        }
        let i = s.len() - 1;
        assert forall|j: int| 0 <= j < i implies !#[trigger] same_slot(s[j], t, k) by {
            assert(s[j] == d[j]);
            if same_slot(s[j], t, k) {
                assert(same_slot(d[j], t, k));
            }
        }
        assert(is_first_slot(s, t, k, i));
    }
}

pub proof fn lemma_first_slot_unique<KV, VV>(s: Seq<(TenantId, KV, VV)>, t: TenantId, k: KV, i: int, j: int)
    requires
        is_first_slot(s, t, k, i),
        is_first_slot(s, t, k, j),
    ensures
        i == j,
{
    if i < j {
        assert(!same_slot(s[i], t, k));
    }
    if j < i {
        assert(!same_slot(s[j], t, k));
    }
}

/// Lookup after an upsert: the stored value under the written key, what
/// was there before under every other key.
pub proof fn lemma_lookup_upserted<KV, VV>(
    s: Seq<(TenantId, KV, VV)>,
    t: TenantId,
    k: KV,
    v: VV,
    t2: TenantId,
    k2: KV,
)
    ensures
        lookup(upserted(s, t, k, v), t2, k2) == if t2 == t && k2 == k {
            Some(v)
        } else {
            lookup(s, t2, k2)
        },
{
    let s2 = upserted(s, t, k, v);
    if has_slot(s, t, k) {
        lemma_first_slot_exists(s, t, k);
    }
    let i = if has_slot(s, t, k) {
        first_slot(s, t, k)
    } else {
        s.len() as int
    };
    assert(same_slot(s2[i], t, k));
    assert(s2.len() == if has_slot(s, t, k) {
        s.len()
    } else {
        s.len() + 1
    });
    assert forall|j: int| 0 <= j < s2.len() && j != i implies s2[j] == s[j] by {}
    if t2 == t && k2 == k {
        assert forall|j: int| 0 <= j < i implies !#[trigger] same_slot(s2[j], t, k) by {
            assert(s2[j] == s[j]);
        }
        assert(is_first_slot(s2, t, k, i));
        assert(has_slot(s2, t, k));
        lemma_first_slot_exists(s2, t, k);
        lemma_first_slot_unique(s2, t, k, i, first_slot(s2, t, k));
    } else {
        assert(!same_slot(s2[i], t2, k2));
        if has_slot(s, t, k) {
            assert(!same_slot(s[i], t2, k2));
        }
        if has_slot(s, t2, k2) {
            lemma_first_slot_exists(s, t2, k2);
            let f = first_slot(s, t2, k2);
            assert(f != i);
            assert(s2[f] == s[f]);
            assert forall|j: int| 0 <= j < f implies !#[trigger] same_slot(s2[j], t2, k2) by {
                if j != i {
                    assert(s2[j] == s[j]);
                }
            }
            assert(is_first_slot(s2, t2, k2, f));
            lemma_first_slot_exists(s2, t2, k2);
            lemma_first_slot_unique(s2, t2, k2, f, first_slot(s2, t2, k2));
        } else {
            assert forall|j: int| 0 <= j < s2.len() implies !#[trigger] same_slot(s2[j], t2, k2) by {
                if j != i {
                    assert(s2[j] == s[j]);
                    if same_slot(s2[j], t2, k2) {
                        assert(same_slot(s[j], t2, k2));
                    }
                }
            }
        }
    }
}

/// The view of an optional value.
pub open spec fn opt_view<V: View>(o: Option<V>) -> Option<V::V> {
    match o {
        Some(v) => Some(v@),
        None => None,
    }
}

/// Tenant-isolated in-memory store for read models.
#[derive(Debug)]
pub struct InMemoryTenantStore<K, V> {
    rows: Vec<(TenantId, K, V)>,
}

impl<K: RecordKey, V: Replicate> InMemoryTenantStore<K, V> {
    /// The stored rows, by view.
    pub closed spec fn entries(&self) -> Seq<(TenantId, K::V, V::V)> {
        self.rows@.map_values(|r: (TenantId, K, V)| (r.0, r.1@, r.2@))
    }

    pub fn new() -> (r: Self)
        ensures
            r.entries() == Seq::<(TenantId, K::V, V::V)>::empty(),
    {
        let r = InMemoryTenantStore { rows: Vec::new() };
        assert(r.entries() =~= Seq::<(TenantId, K::V, V::V)>::empty());
        r
    }

    /// Index of the first row holding `(t, k)`, if any.
    fn find(&self, tenant_id: TenantId, key: &K) -> (r: Option<usize>)
        ensures
            match r {
                Some(i) => is_first_slot(self.entries(), tenant_id, key@, i as int)
                    && has_slot(self.entries(), tenant_id, key@) && first_slot(
                    self.entries(),
                    tenant_id,
                    key@,
                ) == i as int,
                None => !has_slot(self.entries(), tenant_id, key@),
            },
    {
        let ghost s = self.entries();
        let mut i: usize = 0;
        while i < self.rows.len()
            invariant
                i <= self.rows.len(),
                s == self.entries(),
                s.len() == self.rows@.len(),
                forall|j: int| 0 <= j < i ==> !#[trigger] same_slot(s[j], tenant_id, key@),
            decreases self.rows.len() - i,
        {
            let row = &self.rows[i];
            assert(s[i as int] == (row.0, row.1@, row.2@));
            if row.0 == tenant_id && row.1.same_key(key) {
                proof {
                    assert(same_slot(s[i as int], tenant_id, key@));
                    assert(is_first_slot(s, tenant_id, key@, i as int));
                    let f = first_slot(s, tenant_id, key@);
                    assert(is_first_slot(s, tenant_id, key@, f));
                    if f < i {
                        assert(!same_slot(s[f], tenant_id, key@));
                    }
                    if f > i {
                        assert(!same_slot(s[i as int], tenant_id, key@));
                    }
                }
                return Some(i);
            }
            i = i + 1;
        }
        None
    }

    /// The value stored under `(t, k)`.
    pub fn get(&self, tenant_id: TenantId, key: &K) -> (r: Option<V>)
        ensures
            opt_view(r) == lookup(self.entries(), tenant_id, key@),
    {
        match self.find(tenant_id, key) {
            Some(i) => {
                assert(self.entries()[i as int].2 == self.rows@[i as int].2@);
                Some(self.rows[i].2.replicate())
            },
            None => None,
        }
    }

    /// Store `value` under `(t, k)`, in place if the slot exists.
    pub fn upsert(&mut self, tenant_id: TenantId, key: K, value: V)
        ensures
            final(self).entries() == upserted(old(self).entries(), tenant_id, key@, value@),
    {
        match self.find(tenant_id, &key) {
            Some(i) => {
                self.rows.set(i, (tenant_id, key, value));
            },
            None => {
                self.rows.push((tenant_id, key, value));
            },
        }
        assert(self.entries() =~= upserted(old(self).entries(), tenant_id, key@, value@));
    }

    /// The values of one tenant, in row order.
    pub fn list(&self, tenant_id: TenantId) -> (r: Vec<V>)
        ensures
            r@.map_values(|v: V| v@) == tenant_rows(self.entries(), tenant_id),
    {
        let ghost s = self.entries();
        let mut out: Vec<V> = Vec::new();
        let mut i: usize = 0;
        while i < self.rows.len()
            invariant
                i <= self.rows.len(),
                s == self.entries(),
                s.len() == self.rows@.len(),
                out@.map_values(|v: V| v@) == tenant_rows(s.take(i as int), tenant_id),
            decreases self.rows.len() - i,
        {
            let ghost before = out@;
            proof {
                assert(s.take(i + 1).drop_last() =~= s.take(i as int));
                assert(s[i as int] == (self.rows@[i as int].0, self.rows@[i as int].1@, self.rows@[i as int].2@));
            }
            if self.rows[i].0 == tenant_id {
                let v = self.rows[i].2.replicate();
                out.push(v);
                assert(out@.map_values(|v: V| v@) =~= before.map_values(|v: V| v@).push(v@));
            }
            i = i + 1;
        }
        assert(s.take(s.len() as int) =~= s);
        out
    }

    /// Remove every row of one tenant.
    pub fn clear_tenant(&mut self, tenant_id: TenantId)
        ensures
            final(self).entries() == without_tenants(old(self).entries(), seq![tenant_id]),
    {
        let mut ts: Vec<TenantId> = Vec::new();
        ts.push(tenant_id);
        assert(ts@ =~= seq![tenant_id]);
        self.clear_tenants(&ts);
    }

    /// Remove every row of the given tenants.
    pub fn clear_tenants(&mut self, tenants: &Vec<TenantId>)
        ensures
            final(self).entries() == without_tenants(old(self).entries(), tenants@),
    {
        let ghost s = self.entries();
        let mut kept: Vec<(TenantId, K, V)> = Vec::new();
        let mut rows: Vec<(TenantId, K, V)> = Vec::new();
        std::mem::swap(&mut rows, &mut self.rows);
        let ghost orig = rows@;
        let mut i: usize = 0;
        while i < rows.len()
            invariant
                rows@ == orig,
                s == orig.map_values(|r: (TenantId, K, V)| (r.0, r.1@, r.2@)),
                i <= rows.len(),
                kept@.map_values(|r: (TenantId, K, V)| (r.0, r.1@, r.2@)) == without_tenants(
                    s.take(i as int),
                    tenants@,
                ),
            decreases rows.len() - i,
        {
            let ghost before = kept@;
            proof {
                assert(s.take(i + 1).drop_last() =~= s.take(i as int));
            }
            let t = rows[i].0;
            let mut found = false;
            let mut j: usize = 0;
            while j < tenants.len()
                invariant
                    j <= tenants.len(),
                    found == (exists|m: int| 0 <= m < j && tenants@[m] == t),
                decreases tenants.len() - j,
            {
                if tenants[j] == t {
                    found = true;
                }
                j = j + 1;
            }
            if !found {
                let row = (rows[i].0, rows[i].1.copy_key(), rows[i].2.replicate());
                kept.push(row);
                assert(kept@.map_values(|r: (TenantId, K, V)| (r.0, r.1@, r.2@)) =~= before.map_values(
                    |r: (TenantId, K, V)| (r.0, r.1@, r.2@),
                ).push(s[i as int]));
            } else {
                assert(tenants@.contains(t));
            }
            i = i + 1;
        }
        assert(s.take(s.len() as int) =~= s);
        self.rows = kept;
    }
}

} // verus!
