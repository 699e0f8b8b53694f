//! The settlement engine: validate, enrich, then commit as one unit.
//!
//! A settlement attempt either appends exactly one ledger entry and moves the
//! two balances, or changes nothing at all.

use vstd::prelude::*;
use crate::error::{EnrichmentError, PersistenceError, SettlementError, ValidationError};
use crate::ledger::{
    adjusted,
    balance_in,
    holds_account,
    lemma_adjusted,
    position_of,
    Ledger,
    LedgerView,
};
use crate::transaction::{
    IdempotencyKey,
    Incentive,
    LedgerEntry,
    LedgerEntryView,
    Transaction,
    TransactionView,
    User,
};
use crate::validator::{balance_of, validate, verdict};

verus! {

/// Whether a request may go on to enrichment.
#[derive(Clone, Copy, Debug, PartialEq, Eq, Structural)]
pub enum Admission {
    /// The request is valid and its key is new.
    Admitted,
    /// A transfer was already settled under this key.
    AlreadySettled,
    /// The request breaks a business rule.
    Rejected(ValidationError),
}

/// How a settlement attempt ended.
#[derive(Debug, PartialEq, Eq)]
pub enum SettlementOutcome {
    /// The transfer was committed; this is its ledger entry.
    Settled(LedgerEntry),
    /// The request was refused for good. Nothing was written.
    Rejected(ValidationError),
    /// The attempt failed for now. Nothing was written; the same request may
    /// be tried again under the same key.
    Failed(SettlementError),
    /// A transfer was settled under this key before. Nothing was written.
    AlreadySettled,
}

/// The mathematical content of a [`SettlementOutcome`].
pub enum SettlementOutcomeView {
    Settled(LedgerEntryView),
    Rejected(ValidationError),
    Failed(SettlementError),
    AlreadySettled,
}

impl View for SettlementOutcome {
    type V = SettlementOutcomeView;

    open spec fn view(&self) -> SettlementOutcomeView {
        match self {
            SettlementOutcome::Settled(entry) => SettlementOutcomeView::Settled(entry@),
            SettlementOutcome::Rejected(reason) => SettlementOutcomeView::Rejected(*reason),
            SettlementOutcome::Failed(error) => SettlementOutcomeView::Failed(*error),
            SettlementOutcome::AlreadySettled => SettlementOutcomeView::AlreadySettled,
        }
    }
}

/// The admission of a transfer of `amount`: a key that was settled before
/// decides first, then the validator's verdict on the two balances.
pub open spec fn admission(
    already_settled: bool,
    amount: int,
    sender: Option<int>,
    recipient: Option<int>,
) -> Admission {
    if already_settled {
        Admission::AlreadySettled
    } else {
        match verdict(amount, sender, recipient) {
            Ok(_) => Admission::Admitted,
            Err(reason) => Admission::Rejected(reason),
        }
    }
}

/// Decides whether `request` may go on to enrichment, from what the store
/// holds: whether its key was settled before, and the two accounts.
pub fn check_request(
    already_settled: bool,
    request: &Transaction,
    sender: Option<&User>,
    recipient: Option<&User>,
) -> (decision: Admission)
    ensures
        decision == admission(
            already_settled,
            request.amount as int,
            balance_of(sender),
            balance_of(recipient),
        ),
{
    if already_settled {
        return Admission::AlreadySettled;
    }
    match validate(request, sender, recipient) {
        Ok(_) => Admission::Admitted,
        Err(reason) => Admission::Rejected(reason),
    }
}

/// The admission of `request` under `key` against the state `ledger`.
pub open spec fn admission_in(
    ledger: LedgerView,
    key: IdempotencyKey,
    request: TransactionView,
) -> Admission {
    admission(
        ledger.processed.contains(key),
        request.amount,
        ledger.balance(request.sender_id),
        ledger.balance(request.recipient_id),
    )
}

/// The ledger entry that records `request` with its incentive, before the
/// store has numbered it.
pub open spec fn entry_for(request: TransactionView, incentive: int, timestamp: int) -> LedgerEntryView {
    LedgerEntryView {
        id: 0,
        sender_id: request.sender_id,
        recipient_id: request.recipient_id,
        amount: request.amount,
        incentive,
        timestamp,
    }
}

/// Builds the ledger entry that records `request` with its incentive. The
/// store numbers it when it is committed.
pub fn settlement_entry(request: &Transaction, incentive: Incentive, timestamp: i64) -> (entry:
    LedgerEntry)
    ensures
        entry@ == entry_for(request@, incentive.amount as int, timestamp as int),
{
    LedgerEntry {
        id: 0,
        sender_id: request.sender_id.clone(),
        recipient_id: request.recipient_id.clone(),
        amount: request.amount,
        incentive: incentive.amount,
        timestamp,
    }
}

/// Whether an attempt commits: the request is admitted, the incentive
/// service answered with an incentive that is not negative, and the store
/// permits the commit.
pub open spec fn commits(
    ledger: LedgerView,
    key: IdempotencyKey,
    request: TransactionView,
    reply: Result<Incentive, EnrichmentError>,
    timestamp: int,
) -> bool {
    &&& admission_in(ledger, key, request) == Admission::Admitted
    &&& reply matches Ok(incentive)
    &&& incentive.amount >= 0
    &&& ledger.permits(
        key,
        request.amount,
        request.amount + incentive.amount,
        entry_for(request, incentive.amount as int, timestamp),
    )
}

/// The state that an attempt leaves: the commit where it commits, else the
/// state as it was.
pub open spec fn state_after(
    ledger: LedgerView,
    key: IdempotencyKey,
    request: TransactionView,
    reply: Result<Incentive, EnrichmentError>,
    timestamp: int,
) -> LedgerView {
    if commits(ledger, key, request, reply, timestamp) {
        ledger.committed(
            key,
            request.amount,
            request.amount + reply->Ok_0.amount,
            entry_for(request, reply->Ok_0.amount as int, timestamp),
        )
    } else {
        ledger
    }
}

/// How an attempt ends, given the reply of the incentive service.
pub open spec fn outcome_of(
    ledger: LedgerView,
    key: IdempotencyKey,
    request: TransactionView,
    reply: Result<Incentive, EnrichmentError>,
    timestamp: int,
) -> SettlementOutcomeView {
    match admission_in(ledger, key, request) {
        Admission::AlreadySettled => SettlementOutcomeView::AlreadySettled,
        Admission::Rejected(reason) => SettlementOutcomeView::Rejected(reason),
        Admission::Admitted => match reply {
            Err(error) => SettlementOutcomeView::Failed(SettlementError::Enrichment(error)),
            Ok(incentive) => if incentive.amount < 0 {
                SettlementOutcomeView::Failed(
                    SettlementError::Enrichment(EnrichmentError::MalformedResponse),
                )
            } else if commits(ledger, key, request, reply, timestamp) {
                SettlementOutcomeView::Settled(
                    ledger.numbered(entry_for(request, incentive.amount as int, timestamp)),
                )
            } else {
                SettlementOutcomeView::Failed(
                    SettlementError::Persistence(PersistenceError::CommitFailed),
                )
            },
        },
    }
}

/// Settles `request` under `key`, given what the incentive service replied.
///
/// The request is checked against the ledger as it stands now, so a reply
/// that was obtained against an older state is applied safely: the commit
/// happens only where the present balances allow it.
pub fn settle_with(
    ledger: &mut Ledger,
    key: IdempotencyKey,
    request: &Transaction,
    reply: Result<Incentive, EnrichmentError>,
    timestamp: i64,
) -> (outcome: SettlementOutcome)
    requires
        old(ledger).wf(),
    ensures
        final(ledger).wf(),
        outcome@ == outcome_of(old(ledger)@, key, request@, reply, timestamp as int),
        final(ledger)@ == state_after(old(ledger)@, key, request@, reply, timestamp as int),
{
    let seen = ledger.is_processed(key);
    let sender = ledger.get_account(&request.sender_id);
    let recipient = ledger.get_account(&request.recipient_id);
    match check_request(seen, request, sender.as_ref(), recipient.as_ref()) {
        Admission::AlreadySettled => {
            return SettlementOutcome::AlreadySettled;
        },
        Admission::Rejected(reason) => {
            return SettlementOutcome::Rejected(reason);
        },
        Admission::Admitted => {},
    }
    let incentive = match reply {
        Ok(incentive) => incentive,
        Err(error) => {
            return SettlementOutcome::Failed(SettlementError::Enrichment(error));
        },
    };
    if incentive.amount < 0 {
        return SettlementOutcome::Failed(
            SettlementError::Enrichment(EnrichmentError::MalformedResponse),
        );
    }
    let credit: i128 = request.amount as i128 + incentive.amount as i128;
    if credit > i64::MAX as i128 {
        proof {
            lemma_credit_out_of_range(
                ledger@,
                key,
                request@,
                incentive.amount as int,
                timestamp as int,
            );
        }
        return SettlementOutcome::Failed(
            SettlementError::Persistence(PersistenceError::CommitFailed),
        );
    }
    let entry = settlement_entry(request, incentive, timestamp);
    match ledger.atomic_settle(key, request.amount, credit as i64, entry) {
        Ok(written) => SettlementOutcome::Settled(written),
        Err(refusal) => SettlementOutcome::Failed(SettlementError::Persistence(refusal)),
    }
}

/// A credit beyond the machine's range is never permitted: the balance it
/// is added to is not negative.
proof fn lemma_credit_out_of_range(
    ledger: LedgerView,
    key: IdempotencyKey,
    request: TransactionView,
    incentive: int,
    timestamp: int,
)
    requires
        ledger.wf(),
        request.amount + incentive > i64::MAX,
    ensures
        !ledger.permits(
            key,
            request.amount,
            request.amount + incentive,
            entry_for(request, incentive, timestamp),
        ),
{
    let entry = entry_for(request, incentive, timestamp);
    if ledger.permits(key, request.amount, request.amount + incentive, entry) {
        lemma_adjusted(ledger.accounts, request.sender_id, -request.amount);
        if request.recipient_id != request.sender_id {
            let i = position_of(ledger.accounts, request.recipient_id);
            assert(ledger.accounts[i].balance >= 0);
        }
    }
}

/// Settles `request` under `key`: checks it against the ledger, asks
/// `enrich` for the incentive only where the check passed, and commits.
///
/// `enrich` stands for the call to the incentive service. Whatever it
/// replies, the attempt ends as [`outcome_of`] says for that reply and leaves
/// the ledger as [`state_after`] says. A request that is not admitted is
/// answered without any reply.
pub fn process_transaction<F>(
    ledger: &mut Ledger,
    key: IdempotencyKey,
    request: &Transaction,
    enrich: F,
    timestamp: i64,
) -> (outcome: SettlementOutcome) where
    F: FnOnce(&Transaction) -> Result<Incentive, EnrichmentError>,

    requires
        old(ledger).wf(),
        call_requires(enrich, (request,)),
    ensures
        final(ledger).wf(),
        admission_in(old(ledger)@, key, request@) != Admission::Admitted ==> {
            &&& final(ledger)@ == old(ledger)@
            &&& forall|reply: Result<Incentive, EnrichmentError>|
                outcome@ == #[trigger] outcome_of(
                    old(ledger)@,
                    key,
                    request@,
                    reply,
                    timestamp as int,
                )
        },
        admission_in(old(ledger)@, key, request@) == Admission::Admitted ==> exists|
            reply: Result<Incentive, EnrichmentError>,
        |
            {
                &&& #[trigger] call_ensures(enrich, (request,), reply)
                &&& outcome@ == outcome_of(old(ledger)@, key, request@, reply, timestamp as int)
                &&& final(ledger)@ == state_after(
                    old(ledger)@,
                    key,
                    request@,
                    reply,
                    timestamp as int,
                )
            },
{
    let seen = ledger.is_processed(key);
    let sender = ledger.get_account(&request.sender_id);
    let recipient = ledger.get_account(&request.recipient_id);
    match check_request(seen, request, sender.as_ref(), recipient.as_ref()) {
        Admission::AlreadySettled => SettlementOutcome::AlreadySettled,
        Admission::Rejected(reason) => SettlementOutcome::Rejected(reason),
        Admission::Admitted => {
            let reply = enrich(request);
            settle_with(ledger, key, request, reply, timestamp)
        },
    }
}

/// Every attempt keeps the ledger well formed.
pub proof fn lemma_attempt_keeps_wf(
    ledger: LedgerView,
    key: IdempotencyKey,
    request: TransactionView,
    reply: Result<Incentive, EnrichmentError>,
    timestamp: int,
)
    requires
        ledger.wf(),
    ensures
        state_after(ledger, key, request, reply, timestamp).wf(),
{
    if commits(ledger, key, request, reply, timestamp) {
        let credit = request.amount + reply->Ok_0.amount;
        let debited = adjusted(ledger.accounts, request.sender_id, -request.amount);
        let after = state_after(ledger, key, request, reply, timestamp);
        lemma_adjusted(ledger.accounts, request.sender_id, -request.amount);
        lemma_adjusted(debited, request.recipient_id, credit);
        assert forall|i: int| 0 <= i < after.accounts.len() implies 0 <= (
        #[trigger] after.accounts[i]).balance <= i64::MAX by {
            assert(0 <= ledger.accounts[i].balance <= i64::MAX);
            assert(0 <= debited[i].balance <= i64::MAX);
        }
        assert forall|i: int| 0 <= i < after.entries.len() implies (#[trigger] after.entries[i]).id
            == i + 1 by {
            if i < ledger.entries.len() {
                assert(ledger.entries[i].id == i + 1);
            }
        }
    }
}

/// A settled transfer between two different accounts takes exactly the
/// amount from the sender and gives exactly the amount and the incentive to
/// the recipient. No other account changes.
pub proof fn lemma_settled_balances(
    ledger: LedgerView,
    key: IdempotencyKey,
    request: TransactionView,
    reply: Result<Incentive, EnrichmentError>,
    timestamp: int,
)
    requires
        ledger.wf(),
        commits(ledger, key, request, reply, timestamp),
        request.sender_id != request.recipient_id,
    ensures
        state_after(ledger, key, request, reply, timestamp).balance(request.sender_id) == Some(
            ledger.balance(request.sender_id)->0 - request.amount,
        ),
        state_after(ledger, key, request, reply, timestamp).balance(request.recipient_id) == Some(
            ledger.balance(request.recipient_id)->0 + request.amount + reply->Ok_0.amount,
        ),
        forall|other: Seq<char>|
            other != request.sender_id && other != request.recipient_id ==> #[trigger] state_after(
                ledger,
                key,
                request,
                reply,
                timestamp,
            ).balance(other) == ledger.balance(other),
{
    let credit = request.amount + reply->Ok_0.amount;
    let debited = adjusted(ledger.accounts, request.sender_id, -request.amount);
    lemma_adjusted(ledger.accounts, request.sender_id, -request.amount);
    lemma_adjusted(debited, request.recipient_id, credit);
    let after = state_after(ledger, key, request, reply, timestamp);
    assert forall|other: Seq<char>|
        other != request.sender_id && other != request.recipient_id implies #[trigger] after.balance(
        other,
    ) == ledger.balance(other) by {
        assert(balance_in(debited, other) == balance_in(
            ledger.accounts,
            other,
        ));
    }
}

/// A settled transfer raises the sum of all balances by exactly its
/// incentive: the amount moves, the incentive is minted.
pub proof fn lemma_settled_total(
    ledger: LedgerView,
    key: IdempotencyKey,
    request: TransactionView,
    reply: Result<Incentive, EnrichmentError>,
    timestamp: int,
)
    requires
        ledger.wf(),
        commits(ledger, key, request, reply, timestamp),
    ensures
        state_after(ledger, key, request, reply, timestamp).total() == ledger.total()
            + reply->Ok_0.amount,
{
    let credit = request.amount + reply->Ok_0.amount;
    let debited = adjusted(ledger.accounts, request.sender_id, -request.amount);
    lemma_adjusted(ledger.accounts, request.sender_id, -request.amount);
    lemma_adjusted(debited, request.recipient_id, credit);
}

/// An attempt that does not commit changes nothing, and one that commits
/// appends exactly one entry and records its key.
pub proof fn lemma_all_or_nothing(
    ledger: LedgerView,
    key: IdempotencyKey,
    request: TransactionView,
    reply: Result<Incentive, EnrichmentError>,
    timestamp: int,
)
    ensures
        !(outcome_of(ledger, key, request, reply, timestamp) is Settled) ==> state_after(
            ledger,
            key,
            request,
            reply,
            timestamp,
        ) == ledger,
        outcome_of(ledger, key, request, reply, timestamp) is Settled <==> commits(
            ledger,
            key,
            request,
            reply,
            timestamp,
        ),
        commits(ledger, key, request, reply, timestamp) ==> {
            let after = state_after(ledger, key, request, reply, timestamp);
            &&& after.entries.len() == ledger.entries.len() + 1
            &&& after.entries.last() == ledger.numbered(
                entry_for(request, reply->Ok_0.amount as int, timestamp),
            )
            &&& after.processed.contains(key)
            &&& !ledger.processed.contains(key)
        },
{
}

/// Settling under a key that has been settled changes nothing, whatever the
/// second request and the second reply are: one key gives one ledger entry
/// and one change of balances.
pub proof fn lemma_idempotent(
    ledger: LedgerView,
    key: IdempotencyKey,
    first: TransactionView,
    first_reply: Result<Incentive, EnrichmentError>,
    first_time: int,
    second: TransactionView,
    second_reply: Result<Incentive, EnrichmentError>,
    second_time: int,
)
    requires
        commits(ledger, key, first, first_reply, first_time),
    ensures
        ({
            let once = state_after(ledger, key, first, first_reply, first_time);
            &&& outcome_of(once, key, second, second_reply, second_time)
                == SettlementOutcomeView::AlreadySettled
            &&& state_after(once, key, second, second_reply, second_time) == once
            &&& once.entries.len() == ledger.entries.len() + 1
        }),
{
}

/// A transfer of the sender's whole balance is admitted, and where it is
/// settled to another account the sender is left with exactly zero.
pub proof fn lemma_whole_balance(
    ledger: LedgerView,
    key: IdempotencyKey,
    request: TransactionView,
    reply: Result<Incentive, EnrichmentError>,
    timestamp: int,
)
    requires
        ledger.wf(),
        !ledger.processed.contains(key),
        ledger.balance(request.sender_id) == Some(request.amount),
        ledger.balance(request.recipient_id) is Some,
        request.amount > 0,
    ensures
        admission_in(ledger, key, request) == Admission::Admitted,
        commits(ledger, key, request, reply, timestamp) && request.sender_id
            != request.recipient_id ==> state_after(
            ledger,
            key,
            request,
            reply,
            timestamp,
        ).balance(request.sender_id) == Some(0int),
{
    if commits(ledger, key, request, reply, timestamp) && request.sender_id
        != request.recipient_id {
        lemma_settled_balances(ledger, key, request, reply, timestamp);
    }
}

/// An amount above the sender's balance is rejected for insufficient
/// balance, and nothing changes.
pub proof fn lemma_insufficient_balance(
    ledger: LedgerView,
    key: IdempotencyKey,
    request: TransactionView,
    reply: Result<Incentive, EnrichmentError>,
    timestamp: int,
)
    requires
        !ledger.processed.contains(key),
        ledger.balance(request.sender_id) is Some,
        ledger.balance(request.recipient_id) is Some,
        request.amount > ledger.balance(request.sender_id)->0,
    ensures
        outcome_of(ledger, key, request, reply, timestamp) == SettlementOutcomeView::Rejected(
            ValidationError::InsufficientBalance,
        ),
        state_after(ledger, key, request, reply, timestamp) == ledger,
{
}

/// A request that names an account which does not exist is rejected for
/// that, and nothing changes.
pub proof fn lemma_missing_account(
    ledger: LedgerView,
    key: IdempotencyKey,
    request: TransactionView,
    reply: Result<Incentive, EnrichmentError>,
    timestamp: int,
)
    requires
        !ledger.processed.contains(key),
        ledger.balance(request.sender_id) is None || ledger.balance(request.recipient_id) is None,
    ensures
        outcome_of(ledger, key, request, reply, timestamp) == SettlementOutcomeView::Rejected(
            ValidationError::AccountNotFound,
        ),
        state_after(ledger, key, request, reply, timestamp) == ledger,
{
}

/// A transfer is settled only where the sender's balance covered the
/// amount before the debit, and the amount was positive.
pub proof fn lemma_settled_was_covered(
    ledger: LedgerView,
    key: IdempotencyKey,
    request: TransactionView,
    reply: Result<Incentive, EnrichmentError>,
    timestamp: int,
)
    requires
        commits(ledger, key, request, reply, timestamp),
    ensures
        ledger.balance(request.sender_id) is Some,
        ledger.balance(request.sender_id)->0 >= request.amount,
        request.amount > 0,
        reply->Ok_0.amount >= 0,
{
}

/// No attempt opens or closes an account, and none rewrites history: the
/// accounts keep their identifiers and their places, and the entries that
/// were there stay as they were, at the front.
pub proof fn lemma_accounts_and_history_kept(
    ledger: LedgerView,
    key: IdempotencyKey,
    request: TransactionView,
    reply: Result<Incentive, EnrichmentError>,
    timestamp: int,
)
    requires
        ledger.wf(),
    ensures
        ({
            let after = state_after(ledger, key, request, reply, timestamp);
            &&& after.accounts.len() == ledger.accounts.len()
            &&& forall|i: int|
                0 <= i < ledger.accounts.len() ==> (#[trigger] after.accounts[i]).id
                    == ledger.accounts[i].id
            &&& forall|id: Seq<char>| #[trigger]
                after.balance(id) is Some <==> ledger.balance(id) is Some
            &&& after.entries.len() >= ledger.entries.len()
            &&& after.entries.take(ledger.entries.len() as int) == ledger.entries
            &&& ledger.processed.subset_of(after.processed)
        }),
{
    let after = state_after(ledger, key, request, reply, timestamp);
    if commits(ledger, key, request, reply, timestamp) {
        let credit = request.amount + reply->Ok_0.amount;
        let debited = adjusted(ledger.accounts, request.sender_id, -request.amount);
        lemma_adjusted(ledger.accounts, request.sender_id, -request.amount);
        lemma_adjusted(debited, request.recipient_id, credit);
        assert forall|i: int| 0 <= i < ledger.accounts.len() implies (
        #[trigger] after.accounts[i]).id == ledger.accounts[i].id by {
            assert(debited[i].id == ledger.accounts[i].id);
        }
        assert forall|id: Seq<char>| #[trigger]
            after.balance(id) is Some <==> ledger.balance(id) is Some by {
            assert(holds_account(debited, id) == holds_account(
                ledger.accounts,
                id,
            ));
            assert(holds_account(after.accounts, id)
                == holds_account(debited, id));
        }
        assert(after.entries.take(ledger.entries.len() as int) =~= ledger.entries);
    } else {
        assert(after.entries.take(ledger.entries.len() as int) =~= ledger.entries);
    }
}

} // verus!
