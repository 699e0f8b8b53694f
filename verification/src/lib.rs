//! Settlement of monetary transfers against a ledger of account balances.
//!
//! A transfer names a sender, a recipient and an amount. Settling it debits
//! the sender, credits the recipient with the amount and an incentive, and
//! appends one entry to the ledger, all as one unit and at most once for each
//! idempotency key.
//!
//! * [`transaction`]: the records.
//! * [`validator`]: the decision whether a transfer may be settled.
//! * [`incentive`]: the incentive rule.
//! * [`ledger`]: the ledger store and its operations.
//! * [`settlement`]: the settlement engine.
//! * [`interleaving`]: settlements that overlap in time lose no update.
//! * [`retry`]: bounded attempts with a growing delay.
//! * [`consumer`]: the stream consumer, from fetch to acknowledgment.

pub mod consumer;
pub mod error;
pub mod incentive;
pub mod interleaving;
pub mod ledger;
pub mod retry;
pub mod settlement;
pub mod transaction;
pub mod validator;
