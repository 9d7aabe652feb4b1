//! Account balances: the signed balance of every ledger account per tenant,
//! debits counted positive and credits negative.
use vstd::prelude::*;

use crate::accounting::{AccountKind, JournalLine, LedgerEvent};
use crate::common::{AggregateId, Replicate, TenantId};
use crate::events::EventEnvelope;
use crate::projections::{
    cleared, envelope_tenants, fault_view, intake, lemma_project_all_stops,
    lemma_replay_defined_prefix, project, project_all, replay_defined, replay_keys, replay_order,
    replay_order_of, step_defined, tenants_of, CursorTable, Defined, Intake, ProjectionFault,
    ProjectionView, Rules,
};
use crate::read_model::{lookup, opt_view, tenant_rows, upserted, InMemoryTenantStore};
use crate::text::owned;

pub use crate::projections::InMemoryCursorStore;

verus! {

/// Balance of one account.
#[derive(Debug, Clone, PartialEq, Eq)]
pub struct AccountBalance {
    pub account_code: String,
    pub account_name: String,
    pub kind: AccountKind,
    pub balance: i128,
}

/// Balance of one account, by view.
pub struct BalanceRow {
    pub account_code: Seq<char>,
    pub account_name: Seq<char>,
    pub kind: AccountKind,
    pub balance: i128,
}

impl View for AccountBalance {
    type V = BalanceRow;

    open spec fn view(&self) -> BalanceRow {
        BalanceRow {
            account_code: self.account_code@,
            account_name: self.account_name@,
            kind: self.kind,
            balance: self.balance,
        }
    }
}

impl Replicate for AccountBalance {
    fn replicate(&self) -> (r: AccountBalance) {
        AccountBalance {
            account_code: self.account_code.clone(),
            account_name: self.account_name.clone(),
            kind: self.kind,
            balance: self.balance,
        }
    }
}

#[derive(Debug)]
pub enum AccountingProjectionError {
    Deserialize(String),
    TenantIsolation(String),
    NonMonotonicSequence { last: u64, found: u64 },
}

impl View for AccountingProjectionError {
    type V = ProjectionFault;

    open spec fn view(&self) -> ProjectionFault {
        match self {
            AccountingProjectionError::Deserialize(m) => ProjectionFault::Deserialize(m@),
            AccountingProjectionError::TenantIsolation(m) => ProjectionFault::TenantIsolation(m@),
            AccountingProjectionError::NonMonotonicSequence { last, found } => {
                ProjectionFault::NonMonotonicSequence { last: *last, found: *found }
            },
        }
    }
}

/// Rows of the balances read model, keyed by account code.
pub type BalanceRows = Seq<(TenantId, Seq<char>, BalanceRow)>;

/// The signed amount of a line: positive for a debit, negative for a credit.
pub open spec fn line_delta(l: JournalLine) -> int {
    if l.is_debit {
        l.amount as int
    } else {
        -(l.amount as int)
    }
}

/// The balance a line applies to: the account's current one, or zero.
pub open spec fn balance_base(rows: BalanceRows, t: TenantId, l: JournalLine) -> BalanceRow {
    match lookup(rows, t, l.account.code@) {
        Some(b) => b,
        None => BalanceRow {
            account_code: l.account.code@,
            account_name: l.account.name@,
            kind: l.account.kind,
            balance: 0,
        },
    }
}

/// The rows after posting one line.
pub open spec fn post_line(rows: BalanceRows, t: TenantId, l: JournalLine) -> BalanceRows {
    let b = balance_base(rows, t, l);
    upserted(rows, t, l.account.code@, BalanceRow { balance: (b.balance + line_delta(l)) as i128, ..b })
}

/// The rows after posting lines in order.
pub open spec fn post_lines(rows: BalanceRows, t: TenantId, lines: Seq<JournalLine>) -> BalanceRows
    decreases lines.len(),
{
    if lines.len() == 0 {
        rows
    } else {
        post_line(post_lines(rows, t, lines.drop_last()), t, lines.last())
    }
}

/// Posting lines in order keeps every balance within `i128`.
pub open spec fn posting_fits(rows: BalanceRows, t: TenantId, lines: Seq<JournalLine>) -> bool
    decreases lines.len(),
{
    if lines.len() == 0 {
        true
    } else {
        let before = post_lines(rows, t, lines.drop_last());
        &&& posting_fits(rows, t, lines.drop_last())
        &&& i128::MIN <= balance_base(before, t, lines.last()).balance + line_delta(lines.last())
            <= i128::MAX
    }
}

/// The ledger rules: the entry must belong to the envelope's tenant; each of
/// its lines is then posted to its account.
pub open spec fn ledger_rules() -> Rules<LedgerEvent, BalanceRows> {
    |rows: BalanceRows, t: TenantId, a: AggregateId, e: LedgerEvent|
        match e {
            LedgerEvent::JournalEntryPosted(p) => if p.tenant_id != t {
                Err(
                    ProjectionFault::TenantIsolation(
                        "event tenant_id does not match envelope tenant_id"@,
                    ),
                )
            } else {
                Ok(post_lines(rows, t, p.lines@))
            },
        }
}

/// Posting stays within `i128`.
pub open spec fn ledger_defined() -> Defined<LedgerEvent, BalanceRows> {
    |rows: BalanceRows, t: TenantId, a: AggregateId, e: LedgerEvent|
        match e {
            LedgerEvent::JournalEntryPosted(p) => p.tenant_id == t ==> posting_fits(rows, t, p.lines@),
        }
}

pub proof fn lemma_posting_fits_prefix(rows: BalanceRows, t: TenantId, lines: Seq<JournalLine>, k: int)
    requires
        0 <= k <= lines.len(),
        posting_fits(rows, t, lines),
    ensures
        posting_fits(rows, t, lines.take(k)),
    decreases lines.len(),
{
    if k < lines.len() {
        assert(lines.drop_last().take(k) =~= lines.take(k));
        lemma_posting_fits_prefix(rows, t, lines.drop_last(), k);
    } else {
        assert(lines.take(k) =~= lines);
    }
}

/// Account balances projection.
#[derive(Debug)]
pub struct AccountBalancesProjection {
    store: InMemoryTenantStore<String, AccountBalance>,
    cursors: CursorTable,
}

impl View for AccountBalancesProjection {
    type V = ProjectionView<BalanceRows>;

    closed spec fn view(&self) -> ProjectionView<BalanceRows> {
        ProjectionView { rows: self.store.entries(), cursors: self.cursors.entries() }
    }
}

impl AccountBalancesProjection {
    /// Take up a stream's progress kept elsewhere (a cursor persisted across
    /// restarts): envelopes of the stream at or below `last` are then ignored.
    pub fn seed_cursor(&mut self, tenant_id: TenantId, aggregate_id: AggregateId, last: u64)
        ensures
            final(self)@.rows == old(self)@.rows,
            final(self)@.cursors == upserted(old(self)@.cursors, tenant_id, aggregate_id, last),
    {
        self.cursors.upsert(tenant_id, aggregate_id, last);
    }

    /// The last sequence number applied for a stream, 0 if none: the cursor
    /// to persist.
    pub fn stream_cursor(&self, tenant_id: TenantId, aggregate_id: AggregateId) -> (r: u64)
        ensures
            r == crate::projections::cursor_of(self@.cursors, tenant_id, aggregate_id),
    {
        crate::projections::read_cursor(&self.cursors, tenant_id, aggregate_id)
    }

    pub fn new() -> (r: Self)
        ensures
            r@.rows == Seq::<(TenantId, Seq<char>, BalanceRow)>::empty(),
            r@.cursors == Seq::<(TenantId, AggregateId, u64)>::empty(),
    {
        AccountBalancesProjection { store: InMemoryTenantStore::new(), cursors: InMemoryTenantStore::new() }
    }

    /// The balance of one account.
    pub fn get(&self, tenant_id: TenantId, code: &str) -> (r: Option<AccountBalance>)
        ensures
            opt_view(r) == lookup(self@.rows, tenant_id, code@),
    {
        self.store.get(tenant_id, &owned(code))
    }

    /// Every balance of a tenant.
    pub fn list(&self, tenant_id: TenantId) -> (r: Vec<AccountBalance>)
        ensures
            r@.map_values(|m: AccountBalance| m@) == tenant_rows(self@.rows, tenant_id),
    {
        self.store.list(tenant_id)
    }

    /// Post the lines of an entry in order.
    fn post(&mut self, tenant_id: TenantId, lines: &Vec<JournalLine>)
        requires
            posting_fits(old(self)@.rows, tenant_id, lines@),
        ensures
            final(self)@.rows == post_lines(old(self)@.rows, tenant_id, lines@),
            final(self)@.cursors == old(self)@.cursors,
    {
        let ghost rows0 = self@.rows;
        let mut i: usize = 0;
        proof {
            assert(lines@.take(0) =~= Seq::<JournalLine>::empty());
        }
        while i < lines.len()
            invariant
                i <= lines@.len(),
                posting_fits(rows0, tenant_id, lines@),
                self@.rows == post_lines(rows0, tenant_id, lines@.take(i as int)),
                self@.cursors == old(self)@.cursors,
            decreases lines@.len() - i,
        {
            let line = &lines[i];
            proof {
                assert(lines@.take(i + 1).drop_last() =~= lines@.take(i as int));
                assert(lines@.take(i + 1).last() == *line);
                lemma_posting_fits_prefix(rows0, tenant_id, lines@, i + 1);
            }
            let code = line.account.code.clone();
            let mut rm = match self.store.get(tenant_id, &code) {
                Some(b) => b,
                None => AccountBalance {
                    account_code: code.clone(),
                    account_name: line.account.name.clone(),
                    kind: line.account.kind,
                    balance: 0,
                },
            };
            let delta: i128 = if line.is_debit {
                line.amount as i128
            } else {
                -(line.amount as i128)
            };
            rm.balance = rm.balance + delta;
            self.store.upsert(tenant_id, code, rm);
            i = i + 1;
        }
        proof {
            assert(lines@.take(lines@.len() as int) =~= lines@);
        }
    }

    /// Apply one published envelope.
    pub fn apply_envelope(&mut self, envelope: &EventEnvelope<Result<LedgerEvent, String>>) -> (r:
        Result<(), AccountingProjectionError>)
        requires
            step_defined("accounting.ledger"@, old(self)@, *envelope, ledger_defined()),
        ensures
            (fault_view(r), final(self)@) == project(
                "accounting.ledger"@,
                old(self)@,
                *envelope,
                ledger_rules(),
            ),
    {
        let tenant_id = envelope.tenant_id();
        let aggregate_id = envelope.aggregate_id();
        let seq = envelope.sequence_number();
        match intake(&self.cursors, envelope, "accounting.ledger") {
            Intake::Ignore => {
                return Ok(());
            },
            Intake::Stale { last, found } => {
                return Err(AccountingProjectionError::NonMonotonicSequence { last, found });
            },
            Intake::Proceed => {},
        }
        let ev = match envelope.payload() {
            Err(m) => {
                return Err(AccountingProjectionError::Deserialize(m.clone()));
            },
            Ok(e) => e,
        };
        match ev {
            LedgerEvent::JournalEntryPosted(p) => {
                if p.tenant_id != tenant_id {
                    return Err(
                        AccountingProjectionError::TenantIsolation(
                            owned("event tenant_id does not match envelope tenant_id"),
                        ),
                    );
                }
                self.post(tenant_id, &p.lines);
            },
        }
        self.cursors.upsert(tenant_id, aggregate_id, seq);
        Ok(())
    }

    /// Clear the tenants of `envelopes` and replay them in replay order,
    /// stopping at the first refusal.
    pub fn rebuild_from_scratch(
        &mut self,
        envelopes: Vec<EventEnvelope<Result<LedgerEvent, String>>>,
    ) -> (r: Result<(), AccountingProjectionError>)
        requires
            replay_defined(
                "accounting.ledger"@,
                cleared(old(self)@, tenants_of(envelopes@)),
                envelopes@,
                replay_order(replay_keys(envelopes@), envelopes@.len() as nat),
                ledger_rules(),
                ledger_defined(),
            ),
        ensures
            (fault_view(r), final(self)@) == project_all(
                "accounting.ledger"@,
                cleared(old(self)@, tenants_of(envelopes@)),
                envelopes@,
                replay_order(replay_keys(envelopes@), envelopes@.len() as nat),
                ledger_rules(),
            ),
    {
        let tenants = envelope_tenants(&envelopes);
        self.store.clear_tenants(&tenants);
        self.cursors.clear_tenants(&tenants);
        let ghost s0 = self@;
        let order = replay_order_of(&envelopes);
        let ghost ord = order@.map_values(|x: usize| x as int);
        let mut i: usize = 0;
        proof {
            assert(ord.take(0) =~= Seq::<int>::empty());
        }
        while i < order.len()
            invariant
                i <= order@.len(),
                ord == order@.map_values(|x: usize| x as int),
                ord == replay_order(replay_keys(envelopes@), envelopes@.len() as nat),
                forall|j: int| 0 <= j < order@.len() ==> order@[j] < envelopes@.len(),
                s0 == cleared(old(self)@, tenants_of(envelopes@)),
                replay_defined("accounting.ledger"@, s0, envelopes@, ord, ledger_rules(), ledger_defined()),
                project_all("accounting.ledger"@, s0, envelopes@, ord.take(i as int), ledger_rules()) == (
                    Ok::<(), ProjectionFault>(()),
                    self@,
                ),
            decreases order@.len() - i,
        {
            let k = order[i];
            proof {
                assert(ord.take(i + 1).drop_last() =~= ord.take(i as int));
                assert(ord.take(i + 1).last() == k as int);
                lemma_replay_defined_prefix(
                    "accounting.ledger"@,
                    s0,
                    envelopes@,
                    ord,
                    ledger_rules(),
                    ledger_defined(),
                    i + 1,
                );
            }
            let res = self.apply_envelope(&envelopes[k]);
            match res {
                Err(e) => {
                    proof {
                        lemma_project_all_stops(
                            "accounting.ledger"@,
                            s0,
                            envelopes@,
                            ord,
                            ledger_rules(),
                            i + 1,
                        );
                    }
                    return Err(e);
                },
                Ok(()) => {},
            }
            i = i + 1;
        }
        proof {
            assert(ord.take(ord.len() as int) =~= ord);
        }
        Ok(())
    }
}

/// The balance of an account as the rows hold it (0 when unknown).
pub open spec fn balance_in(rows: BalanceRows, t: TenantId, code: Seq<char>) -> int {
    match lookup(rows, t, code) {
        Some(b) => b.balance as int,
        None => 0,
    }
}

/// What lines move an account by: the debits to it less the credits to it.
pub open spec fn net_for(lines: Seq<JournalLine>, code: Seq<char>) -> int
    decreases lines.len(),
{
    if lines.len() == 0 {
        0
    } else {
        let l = lines.last();
        net_for(lines.drop_last(), code) + if l.account.code@ != code {
            0int
        } else if l.is_debit {
            l.amount as int
        } else {
            0int - l.amount
        }
    }
}

/// The debits of lines less their credits.
pub open spec fn net_of(lines: Seq<JournalLine>) -> int
    decreases lines.len(),
{
    if lines.len() == 0 {
        0
    } else {
        net_of(lines.drop_last()) + if lines.last().is_debit {
            lines.last().amount as int
        } else {
            0int - lines.last().amount
        }
    }
}

/// Posting lines moves each account's balance by the debits to it less the
/// credits to it: a debit raises its account's balance by its amount, a
/// credit lowers it, and accounts no line names keep their balance.
pub proof fn law_posting_moves_balances(rows: BalanceRows, t: TenantId, lines: Seq<JournalLine>, code: Seq<char>)
    requires
        posting_fits(rows, t, lines),
    ensures
        balance_in(post_lines(rows, t, lines), t, code) == balance_in(rows, t, code) + net_for(lines, code),
        forall|t2: TenantId, c2: Seq<char>|
            t2 != t ==> #[trigger] lookup(post_lines(rows, t, lines), t2, c2) == lookup(rows, t2, c2),
    decreases lines.len(),
{
    if lines.len() > 0 {
        let init = lines.drop_last();
        let l = lines.last();
        law_posting_moves_balances(rows, t, init, code);
        let before = post_lines(rows, t, init);
        let b = balance_base(before, t, l);
        let nb = BalanceRow { balance: (b.balance + line_delta(l)) as i128, ..b };
        crate::read_model::lemma_lookup_upserted(before, t, l.account.code@, nb, t, code);
        assert forall|t2: TenantId, c2: Seq<char>| t2 != t implies #[trigger] lookup(
            post_lines(rows, t, lines),
            t2,
            c2,
        ) == lookup(rows, t2, c2) by {
            crate::read_model::lemma_lookup_upserted(before, t, l.account.code@, nb, t2, c2);
            law_posting_moves_balances(rows, t, init, code);
        }
    }
}

/// The sum of the debit amounts of lines.
pub open spec fn debits_of(lines: Seq<JournalLine>) -> int
    decreases lines.len(),
{
    if lines.len() == 0 {
        0
    } else {
        debits_of(lines.drop_last()) + if lines.last().is_debit {
            lines.last().amount as int
        } else {
            0int
        }
    }
}

/// The sum of the credit amounts of lines.
pub open spec fn credits_of(lines: Seq<JournalLine>) -> int
    decreases lines.len(),
{
    if lines.len() == 0 {
        0
    } else {
        credits_of(lines.drop_last()) + if lines.last().is_debit {
            0int
        } else {
            lines.last().amount as int
        }
    }
}

/// The sum of the balances a tenant's rows hold.
pub open spec fn tenant_total(rows: BalanceRows, t: TenantId) -> int
    decreases rows.len(),
{
    if rows.len() == 0 {
        0
    } else {
        tenant_total(rows.drop_last(), t) + if rows.last().0 == t {
            rows.last().2.balance as int
        } else {
            0int
        }
    }
}

proof fn lemma_net_of(lines: Seq<JournalLine>)
    ensures
        net_of(lines) == debits_of(lines) - credits_of(lines),
    decreases lines.len(),
{
    if lines.len() > 0 {
        lemma_net_of(lines.drop_last());
    }
}

proof fn lemma_tenant_total_update(rows: BalanceRows, t: TenantId, i: int, x: (TenantId, Seq<char>, BalanceRow))
    requires
        0 <= i < rows.len(),
    ensures
        tenant_total(rows.update(i, x), t) == tenant_total(rows, t) - (if rows[i].0 == t {
            rows[i].2.balance as int
        } else {
            0int
        }) + (if x.0 == t {
            x.2.balance as int
        } else {
            0int
        }),
    decreases rows.len(),
{
    let u = rows.update(i, x);
    if i == rows.len() - 1 {
        assert(u.drop_last() =~= rows.drop_last());
    } else {
        assert(u.drop_last() =~= rows.drop_last().update(i, x));
        lemma_tenant_total_update(rows.drop_last(), t, i, x);
    }
}

/// Posting one line moves the tenant's total by the line's signed amount.
proof fn lemma_post_line_total(rows: BalanceRows, t: TenantId, l: JournalLine)
    requires
        i128::MIN <= balance_base(rows, t, l).balance + line_delta(l) <= i128::MAX,
    ensures
        tenant_total(post_line(rows, t, l), t) == tenant_total(rows, t) + if l.is_debit {
            l.amount as int
        } else {
            0int - l.amount
        },
{
    let code = l.account.code@;
    let b = balance_base(rows, t, l);
    let nb = BalanceRow { balance: (b.balance + line_delta(l)) as i128, ..b };
    if crate::read_model::has_slot(rows, t, code) {
        crate::read_model::lemma_first_slot_exists(rows, t, code);
        let i = crate::read_model::first_slot(rows, t, code);
        lemma_tenant_total_update(rows, t, i, (t, code, nb));
        assert(lookup(rows, t, code) == Some(rows[i].2));
    } else {
        let p = rows.push((t, code, nb));
        assert(p.drop_last() =~= rows);
    }
}

/// Posting lines moves the tenant's total balance by their debits less
/// their credits.
proof fn lemma_post_lines_total(rows: BalanceRows, t: TenantId, lines: Seq<JournalLine>)
    requires
        posting_fits(rows, t, lines),
    ensures
        tenant_total(post_lines(rows, t, lines), t) == tenant_total(rows, t) + net_of(lines),
    decreases lines.len(),
{
    if lines.len() > 0 {
        lemma_post_lines_total(rows, t, lines.drop_last());
        lemma_post_line_total(post_lines(rows, t, lines.drop_last()), t, lines.last());
    }
}

/// Posting lines changes the sum of the tenant's balances by their debits
/// less their credits; a balanced entry, whose debits add up to its credits,
/// leaves that sum as it was.
pub proof fn law_balanced_entry_keeps_total(rows: BalanceRows, t: TenantId, lines: Seq<JournalLine>)
    requires
        posting_fits(rows, t, lines),
    ensures
        tenant_total(post_lines(rows, t, lines), t) == tenant_total(rows, t) + debits_of(lines) - credits_of(lines),
        debits_of(lines) == credits_of(lines) ==> tenant_total(post_lines(rows, t, lines), t) == tenant_total(rows, t),
{
    lemma_post_lines_total(rows, t, lines);
    lemma_net_of(lines);
}

/// A posted journal entry moves each account of its tenant by the debits to
/// it less the credits to it, and leaves other tenants' accounts alone.
pub proof fn law_entry_moves_balances(
    s: ProjectionView<BalanceRows>,
    env: EventEnvelope<Result<LedgerEvent, String>>,
    code: Seq<char>,
)
    requires
        crate::projections::spec_intake("accounting.ledger"@, s.cursors, env) == Intake::Proceed,
        env.spec_payload() matches Ok(LedgerEvent::JournalEntryPosted(p)) && p.tenant_id == env.spec_tenant_id(),
        ledger_defined()(s.rows, env.spec_tenant_id(), env.spec_aggregate_id(), env.spec_payload()->Ok_0),
    ensures
        ({
            let t = env.spec_tenant_id();
            let p = env.spec_payload()->Ok_0->JournalEntryPosted_0;
            let r = project("accounting.ledger"@, s, env, ledger_rules());
            &&& r.0 is Ok
            &&& balance_in(r.1.rows, t, code) == balance_in(s.rows, t, code) + net_for(p.lines@, code)
        }),
{
    let t = env.spec_tenant_id();
    let p = env.spec_payload()->Ok_0->JournalEntryPosted_0;
    law_posting_moves_balances(s.rows, t, p.lines@, code);
}

} // verus!
