//! Accounting: chart-of-accounts entries and the ledger events that the
//! read side consumes.
use vstd::prelude::*;

use crate::common::{TenantId, Timestamp};

verus! {

/// Kind of a ledger account.
#[derive(Debug, Clone, Copy, PartialEq, Eq, Structural)]
pub enum AccountKind {
    Asset,
    Liability,
    Equity,
    Revenue,
    Expense,
}

/// A ledger account.
#[derive(Debug, Clone, PartialEq, Eq)]
pub struct Account {
    pub code: String,
    pub name: String,
    pub kind: AccountKind,
}

/// One line of a journal entry: an amount debited or credited to an account.
#[derive(Debug, Clone, PartialEq, Eq)]
pub struct JournalLine {
    pub account: Account,
    pub amount: u64,
    pub is_debit: bool,
}

/// Event: a journal entry was posted to the ledger.
#[derive(Debug, Clone, PartialEq, Eq)]
pub struct JournalEntryPosted {
    pub tenant_id: TenantId,
    pub lines: Vec<JournalLine>,
    pub occurred_at: Timestamp,
}

#[derive(Debug, Clone, PartialEq, Eq)]
pub enum LedgerEvent {
    JournalEntryPosted(JournalEntryPosted),
}

} // verus!
