//! The decision whether a transfer may be settled, given the two accounts as
//! they stand.

use vstd::prelude::*;
use crate::error::ValidationError;
use crate::transaction::{Transaction, User};

verus! {

/// The verdict on a transfer of `amount` from an account with balance
/// `sender` to an account with balance `recipient`, where `None` stands for an
/// account that does not exist.
///
/// A missing account is reported before anything else, then a balance that
/// does not cover the amount, then an amount that is not positive.
pub open spec fn verdict(amount: int, sender: Option<int>, recipient: Option<int>) -> Result<
    (),
    ValidationError,
> {
    if sender is None || recipient is None {
        Err(ValidationError::AccountNotFound)
    } else if sender->0 < amount {
        Err(ValidationError::InsufficientBalance)
    } else if amount <= 0 {
        Err(ValidationError::InvalidAmount)
    } else {
        Ok(())
    }
}

/// The balance of an account that may be absent.
pub open spec fn balance_of(account: Option<&User>) -> Option<int> {
    match account {
        Some(user) => Some(user.balance as int),
        None => None,
    }
}

/// Accepts or rejects `request` against the current state of its two
/// accounts. Reads nothing else and changes nothing.
pub fn validate(request: &Transaction, sender: Option<&User>, recipient: Option<&User>) -> (result:
    Result<(), ValidationError>)
    ensures
        result == verdict(request.amount as int, balance_of(sender), balance_of(recipient)),
{
    match (sender, recipient) {
        (Some(from), Some(_)) => {
            if from.balance < request.amount {
                Err(ValidationError::InsufficientBalance)
            } else if request.amount <= 0 {
                Err(ValidationError::InvalidAmount)
            } else {
                Ok(())
            }
        },
        _ => Err(ValidationError::AccountNotFound),
    }
}

/// A transfer of the whole balance is accepted.
pub proof fn lemma_whole_balance_accepted(balance: int, recipient: int)
    requires
        balance > 0,
    ensures
        verdict(balance, Some(balance), Some(recipient)) == Ok::<(), ValidationError>(()),
{
}

} // verus!
