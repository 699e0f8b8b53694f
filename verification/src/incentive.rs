//! The incentive rule: a tenth of the amount, capped.

use vstd::prelude::*;
use crate::transaction::{Incentive, Transaction};

verus! {

/// The incentive is the amount divided by this.
pub const INCENTIVE_DIVISOR: i64 = 10;

/// No incentive is larger than this: fifteen currency units.
pub const INCENTIVE_CAP: i64 = 1500;

/// The incentive for a transfer of `amount` minor units: a tenth of it,
/// rounded down to a whole minor unit, and never more than the cap. An amount
/// that is not positive earns nothing.
pub open spec fn incentive_for(amount: int) -> int {
    if amount <= 0 {
        0
    } else if amount / 10 > 1500 {
        1500
    } else {
        amount / 10
    }
}

/// Computes the incentive for `request`.
pub fn get_incentive(request: &Transaction) -> (incentive: Incentive)
    ensures
        incentive.amount == incentive_for(request.amount as int),
        0 <= incentive.amount <= INCENTIVE_CAP,
{
    if request.amount <= 0 {
        return Incentive { amount: 0 };
    }
    let tenth: i64 = request.amount / INCENTIVE_DIVISOR;
    if tenth > INCENTIVE_CAP {
        Incentive { amount: INCENTIVE_CAP }
    } else {
        Incentive { amount: tenth }
    }
}

/// The incentive never falls when the amount grows, and from 150 currency
/// units on it is the cap whatever the amount.
pub proof fn lemma_incentive_capped(amount: int, larger: int)
    requires
        amount <= larger,
    ensures
        incentive_for(amount) <= incentive_for(larger),
        0 <= incentive_for(amount) <= 1500,
        amount >= 15000 ==> incentive_for(amount) == 1500,
{
}

} // verus!
