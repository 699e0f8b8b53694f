//! Why a transfer was not settled.

use vstd::prelude::*;

verus! {

/// A business rule that the request breaks. Final: trying again cannot help.
#[derive(Clone, Copy, Debug, PartialEq, Eq, Structural)]
pub enum ValidationError {
    AccountNotFound,
    InsufficientBalance,
    InvalidAmount,
}

/// The incentive service gave no usable answer. Transient.
#[derive(Clone, Copy, Debug, PartialEq, Eq, Structural)]
pub enum EnrichmentError {
    Timeout,
    Unreachable,
    MalformedResponse,
}

/// The ledger store could not complete an operation. Transient.
#[derive(Clone, Copy, Debug, PartialEq, Eq, Structural)]
pub enum PersistenceError {
    CommitFailed,
    StoreUnavailable,
}

/// A transient failure of a settlement attempt: nothing was written, and the
/// same request may be tried again.
#[derive(Clone, Copy, Debug, PartialEq, Eq, Structural)]
pub enum SettlementError {
    Enrichment(EnrichmentError),
    Persistence(PersistenceError),
}

/// A message that cannot be read as a transfer request. Final: the same
/// bytes will never read differently.
#[derive(Clone, Copy, Debug, PartialEq, Eq, Structural)]
pub enum DeserializationError {
    /// The message carries no payload.
    NoPayload,
    /// The payload is not text.
    InvalidEncoding,
    /// The text is not a transfer request.
    MalformedPayload,
}

} // verus!
