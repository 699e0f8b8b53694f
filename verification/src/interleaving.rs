//! Settlements that overlap in time.
//!
//! An attempt reads the ledger and checks its request, waits for the
//! incentive service without holding anything, and then commits. While it
//! waits, other attempts may check and commit. This module shows that
//! whatever the interleaving, the ledger ends as if the attempts had run one
//! after another in some order: no update is lost.

use vstd::prelude::*;
use crate::error::EnrichmentError;
use crate::ledger::LedgerView;
use crate::settlement::{admission_in, state_after, Admission};
use crate::transaction::{IdempotencyKey, Incentive, TransactionView};

verus! {

/// One settlement attempt: the request, its key, what the incentive service
/// replies to it, and the time of its commit.
pub struct Attempt {
    pub key: IdempotencyKey,
    pub request: TransactionView,
    pub reply: Result<Incentive, EnrichmentError>,
    pub timestamp: int,
}

/// One step of an interleaving, naming the attempt that takes it.
pub enum Step {
    /// The attempt checks its request against the ledger as it stands.
    Check(int),
    /// The attempt, with the reply in hand, commits against the ledger as it
    /// stands now.
    Commit(int),
}

/// The ledger after `attempt` has run from check to commit with nothing in
/// between.
pub open spec fn alone(ledger: LedgerView, attempt: Attempt) -> LedgerView {
    state_after(ledger, attempt.key, attempt.request, attempt.reply, attempt.timestamp)
}

/// Whether `attempt` passes its check against `ledger`.
pub open spec fn passes(ledger: LedgerView, attempt: Attempt) -> bool {
    admission_in(ledger, attempt.key, attempt.request) == Admission::Admitted
}

/// The ledger after the steps have been taken in the order given, together
/// with the attempts that have passed their check and not yet committed.
///
/// A check changes nothing in the ledger. A commit by an attempt that passed
/// its check settles against the ledger of that moment; a commit by any
/// other attempt does nothing.
pub open spec fn interleaved(ledger: LedgerView, attempts: Seq<Attempt>, steps: Seq<Step>) -> (
    LedgerView,
    Set<int>,
)
    decreases steps.len(),
{
    if steps.len() == 0 {
        (ledger, Set::empty())
    } else {
        let (before, waiting) = interleaved(ledger, attempts, steps.drop_last());
        match steps.last() {
            Step::Check(i) => if 0 <= i < attempts.len() && passes(before, attempts[i]) {
                (before, waiting.insert(i))
            } else {
                (before, waiting.remove(i))
            },
            Step::Commit(i) => if waiting.contains(i) {
                (alone(before, attempts[i]), waiting.remove(i))
            } else {
                (before, waiting)
            },
        }
    }
}

/// The ledger after the attempts named by `order` have run one after
/// another, each from check to commit.
pub open spec fn serial(ledger: LedgerView, attempts: Seq<Attempt>, order: Seq<int>) -> LedgerView
    decreases order.len(),
{
    if order.len() == 0 {
        ledger
    } else {
        alone(serial(ledger, attempts, order.drop_last()), attempts[order.last()])
    }
}

/// The serial order that an interleaving amounts to: an attempt that fails
/// its check stands where it checked, and an attempt that passed stands
/// where it committed.
pub open spec fn serial_order(ledger: LedgerView, attempts: Seq<Attempt>, steps: Seq<Step>) -> Seq<
    int,
>
    decreases steps.len(),
{
    if steps.len() == 0 {
        Seq::empty()
    } else {
        let earlier = serial_order(ledger, attempts, steps.drop_last());
        let (before, waiting) = interleaved(ledger, attempts, steps.drop_last());
        match steps.last() {
            Step::Check(i) => if 0 <= i < attempts.len() && !passes(before, attempts[i]) {
                earlier.push(i)
            } else {
                earlier
            },
            Step::Commit(i) => if waiting.contains(i) {
                earlier.push(i)
            } else {
                earlier
            },
        }
    }
}

/// How often the attempt `i` stands in `order`.
pub open spec fn occurrences(order: Seq<int>, i: int) -> nat
    decreases order.len(),
{
    if order.len() == 0 {
        0
    } else {
        occurrences(order.drop_last(), i) + if order.last() == i {
            1nat
        } else {
            0nat
        }
    }
}

/// How often the attempt `i` checks in `steps`.
pub open spec fn checks(steps: Seq<Step>, i: int) -> nat
    decreases steps.len(),
{
    if steps.len() == 0 {
        0
    } else {
        checks(steps.drop_last(), i) + if steps.last() == Step::Check(i) {
            1nat
        } else {
            0nat
        }
    }
}

/// The attempts that wait for their commit are attempts that exist, and the
/// serial order names only attempts that exist.
pub proof fn lemma_only_known_attempts(
    ledger: LedgerView,
    attempts: Seq<Attempt>,
    steps: Seq<Step>,
)
    ensures
        forall|i: int| #[trigger]
            interleaved(ledger, attempts, steps).1.contains(i) ==> 0 <= i < attempts.len(),
        forall|k: int|
            0 <= k < serial_order(ledger, attempts, steps).len() ==> 0 <= #[trigger] serial_order(
                ledger,
                attempts,
                steps,
            )[k] < attempts.len(),
    decreases steps.len(),
{
    if steps.len() > 0 {
        lemma_only_known_attempts(ledger, attempts, steps.drop_last());
        let earlier = serial_order(ledger, attempts, steps.drop_last());
        let waiting = interleaved(ledger, attempts, steps.drop_last()).1;
        let order = serial_order(ledger, attempts, steps);
        let left = interleaved(ledger, attempts, steps).1;
        assert forall|i: int| #[trigger] left.contains(i) implies 0 <= i < attempts.len() by {
            if waiting.contains(i) {
            }
        }
        assert forall|k: int| 0 <= k < order.len() implies 0 <= #[trigger] order[k]
            < attempts.len() by {
            if k < earlier.len() {
                assert(order[k] == earlier[k]);
            } else {
                match steps.last() {
                    Step::Check(i) => {},
                    Step::Commit(i) => {
                        assert(waiting.contains(i));
                    },
                }
            }
        }
    }
}

/// Any interleaving of checks and commits leaves the ledger that the
/// attempts leave when they run one after another in the order
/// [`serial_order`]. A check against a ledger that has changed since does no
/// harm, because the commit settles against the ledger of its own moment.
pub proof fn lemma_interleaving_is_serial(
    ledger: LedgerView,
    attempts: Seq<Attempt>,
    steps: Seq<Step>,
)
    ensures
        interleaved(ledger, attempts, steps).0 == serial(
            ledger,
            attempts,
            serial_order(ledger, attempts, steps),
        ),
    decreases steps.len(),
{
    if steps.len() > 0 {
        lemma_interleaving_is_serial(ledger, attempts, steps.drop_last());
        let earlier = serial_order(ledger, attempts, steps.drop_last());
        let (before, waiting) = interleaved(ledger, attempts, steps.drop_last());
        match steps.last() {
            Step::Check(i) => {
                if 0 <= i < attempts.len() && !passes(before, attempts[i]) {
                    assert(earlier.push(i).drop_last() =~= earlier);
                    assert(alone(before, attempts[i]) == before);
                }
            },
            Step::Commit(i) => {
                if waiting.contains(i) {
                    assert(earlier.push(i).drop_last() =~= earlier);
                }
            },
        }
    }
}

/// While an attempt has checked at most once, it stands in the serial order
/// once if it has finished, and not at all while it waits or has not yet
/// checked.
pub proof fn lemma_each_attempt_counted(
    ledger: LedgerView,
    attempts: Seq<Attempt>,
    steps: Seq<Step>,
    i: int,
)
    requires
        0 <= i < attempts.len(),
        checks(steps, i) <= 1,
    ensures
        occurrences(serial_order(ledger, attempts, steps), i) + (if interleaved(
            ledger,
            attempts,
            steps,
        ).1.contains(i) {
            1nat
        } else {
            0nat
        }) == checks(steps, i),
    decreases steps.len(),
{
    if steps.len() > 0 {
        lemma_each_attempt_counted(ledger, attempts, steps.drop_last(), i);
        let earlier = serial_order(ledger, attempts, steps.drop_last());
        match steps.last() {
            Step::Check(j) => {
                assert(earlier.push(j).drop_last() =~= earlier);
            },
            Step::Commit(j) => {
                assert(earlier.push(j).drop_last() =~= earlier);
            },
        }
    }
}

/// Where every attempt checks exactly once and none is left waiting, the
/// final ledger is the ledger of a serial run in which every attempt stands
/// exactly once.
pub proof fn lemma_no_lost_update(ledger: LedgerView, attempts: Seq<Attempt>, steps: Seq<Step>)
    requires
        forall|i: int| 0 <= i < attempts.len() ==> #[trigger] checks(steps, i) == 1,
        interleaved(ledger, attempts, steps).1 == Set::<int>::empty(),
    ensures
        ({
            let order = serial_order(ledger, attempts, steps);
            &&& interleaved(ledger, attempts, steps).0 == serial(ledger, attempts, order)
            &&& forall|i: int| 0 <= i < attempts.len() ==> #[trigger] occurrences(order, i) == 1
            &&& forall|k: int| 0 <= k < order.len() ==> 0 <= #[trigger] order[k] < attempts.len()
        }),
{
    lemma_interleaving_is_serial(ledger, attempts, steps);
    lemma_only_known_attempts(ledger, attempts, steps);
    let order = serial_order(ledger, attempts, steps);
    assert forall|i: int| 0 <= i < attempts.len() implies #[trigger] occurrences(order, i) == 1 by {
        assert(checks(steps, i) == 1);
        lemma_each_attempt_counted(ledger, attempts, steps, i);
    }
}

/// A serial run keeps the ledger well formed.
pub proof fn lemma_serial_keeps_wf(ledger: LedgerView, attempts: Seq<Attempt>, order: Seq<int>)
    requires
        ledger.wf(),
    ensures
        serial(ledger, attempts, order).wf(),
    decreases order.len(),
{
    if order.len() > 0 {
        lemma_serial_keeps_wf(ledger, attempts, order.drop_last());
        let attempt = attempts[order.last()];
        crate::settlement::lemma_attempt_keeps_wf(
            serial(ledger, attempts, order.drop_last()),
            attempt.key,
            attempt.request,
            attempt.reply,
            attempt.timestamp,
        );
    }
}

} // verus!
