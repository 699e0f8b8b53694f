//! The records that move through a settlement: transfer requests, accounts,
//! incentives, ledger entries and idempotency keys.
//!
//! Every amount is a whole number of minor units (hundredths of the currency
//! unit), so sums and differences are exact.

use vstd::prelude::*;

verus! {

/// How many minor units make one currency unit.
pub const MINOR_UNITS_PER_UNIT: i64 = 100;

/// A transfer request as it arrives on the stream. It is not yet trusted:
/// the amount may be zero or negative and the accounts may not exist.
#[derive(Debug, PartialEq, Eq)]
pub struct Transaction {
    pub sender_id: String,
    pub recipient_id: String,
    pub amount: i64,
}

/// The mathematical content of a [`Transaction`].
pub struct TransactionView {
    pub sender_id: Seq<char>,
    pub recipient_id: Seq<char>,
    pub amount: int,
}

impl View for Transaction {
    type V = TransactionView;

    open spec fn view(&self) -> TransactionView {
        TransactionView {
            sender_id: self.sender_id@,
            recipient_id: self.recipient_id@,
            amount: self.amount as int,
        }
    }
}

impl Clone for Transaction {
    fn clone(&self) -> (copy: Self)
        ensures
            copy == *self,
    {
        Transaction {
            sender_id: self.sender_id.clone(),
            recipient_id: self.recipient_id.clone(),
            amount: self.amount,
        }
    }
}

/// An account: an identifier and a balance in minor units.
#[derive(Debug, PartialEq, Eq)]
pub struct User {
    pub id: String,
    pub balance: i64,
}

/// The mathematical content of a [`User`].
pub struct UserView {
    pub id: Seq<char>,
    pub balance: int,
}

impl View for User {
    type V = UserView;

    open spec fn view(&self) -> UserView {
        UserView { id: self.id@, balance: self.balance as int }
    }
}

impl Clone for User {
    fn clone(&self) -> (copy: Self)
        ensures
            copy == *self,
    {
        User { id: self.id.clone(), balance: self.balance }
    }
}

/// An incentive granted for one transfer, in minor units. It is minted: the
/// recipient receives it and nobody pays it.
#[derive(Clone, Copy, Debug, PartialEq, Eq, Structural)]
pub struct Incentive {
    pub amount: i64,
}

/// One settled transfer. Entries are only ever appended; `id` numbers them in
/// the order in which they were committed, starting at 1.
#[derive(Debug, PartialEq, Eq)]
pub struct LedgerEntry {
    pub id: u64,
    pub sender_id: String,
    pub recipient_id: String,
    pub amount: i64,
    pub incentive: i64,
    pub timestamp: i64,
}

/// The mathematical content of a [`LedgerEntry`].
pub struct LedgerEntryView {
    pub id: int,
    pub sender_id: Seq<char>,
    pub recipient_id: Seq<char>,
    pub amount: int,
    pub incentive: int,
    pub timestamp: int,
}

impl View for LedgerEntry {
    type V = LedgerEntryView;

    open spec fn view(&self) -> LedgerEntryView {
        LedgerEntryView {
            id: self.id as int,
            sender_id: self.sender_id@,
            recipient_id: self.recipient_id@,
            amount: self.amount as int,
            incentive: self.incentive as int,
            timestamp: self.timestamp as int,
        }
    }
}

impl Clone for LedgerEntry {
    fn clone(&self) -> (copy: Self)
        ensures
            copy == *self,
    {
        LedgerEntry {
            id: self.id,
            sender_id: self.sender_id.clone(),
            recipient_id: self.recipient_id.clone(),
            amount: self.amount,
            incentive: self.incentive,
            timestamp: self.timestamp,
        }
    }
}

/// The durable position of a message on the stream. A message that is
/// delivered again carries the same key, which is how a second settlement of
/// the same transfer is recognised.
#[derive(Clone, Copy, Debug, PartialEq, Eq, Structural)]
pub struct IdempotencyKey {
    pub partition: i32,
    pub offset: i64,
}

} // verus!
