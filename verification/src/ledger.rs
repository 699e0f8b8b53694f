//! The ledger store: accounts keyed by identifier, the append-only history of
//! settled transfers, and the record of idempotency keys already settled.
//!
//! [`LedgerView`] is the mathematical state and says what every operation
//! means; [`Ledger`] keeps that state in memory.

use vstd::prelude::*;
use crate::error::PersistenceError;
use crate::transaction::{IdempotencyKey, LedgerEntry, LedgerEntryView, User, UserView};

verus! {

/// The sum of all balances.
pub open spec fn total_balance(accounts: Seq<UserView>) -> int
    decreases accounts.len(),
{
    if accounts.len() == 0 {
        0
    } else {
        total_balance(accounts.drop_last()) + accounts.last().balance
    }
}

/// Whether some account carries the identifier `id`.
pub open spec fn holds_account(accounts: Seq<UserView>, id: Seq<char>) -> bool {
    exists|i: int| 0 <= i < accounts.len() && (#[trigger] accounts[i]).id == id
}

/// Where the account `id` stands, if there is one.
pub open spec fn position_of(accounts: Seq<UserView>, id: Seq<char>) -> int {
    choose|i: int| 0 <= i < accounts.len() && (#[trigger] accounts[i]).id == id
}

/// No two accounts share an identifier.
pub open spec fn distinct_ids(accounts: Seq<UserView>) -> bool {
    forall|i: int, j: int|
        0 <= i < j < accounts.len() ==> (#[trigger] accounts[i]).id != (#[trigger] accounts[j]).id
}

/// The balance of the account `id`, or `None` where no such account exists.
pub open spec fn balance_in(accounts: Seq<UserView>, id: Seq<char>) -> Option<int> {
    if holds_account(accounts, id) {
        Some(accounts[position_of(accounts, id)].balance)
    } else {
        None
    }
}

/// The accounts after the balance of `id` has changed by `delta`. Nothing
/// changes where no such account exists.
pub open spec fn adjusted(accounts: Seq<UserView>, id: Seq<char>, delta: int) -> Seq<UserView> {
    if holds_account(accounts, id) {
        let i = position_of(accounts, id);
        accounts.update(i, UserView { id: accounts[i].id, balance: accounts[i].balance + delta })
    } else {
        accounts
    }
}

/// The state of the ledger store.
#[verifier::ext_equal]
pub struct LedgerView {
    /// The accounts, in the order in which they were provisioned.
    pub accounts: Seq<UserView>,
    /// The settled transfers, oldest first.
    pub entries: Seq<LedgerEntryView>,
    /// The idempotency keys of the settled transfers.
    pub processed: Set<IdempotencyKey>,
}

impl LedgerView {
    /// Identifiers are unique, no balance is negative, and the entries are
    /// numbered 1, 2, 3, ... in the order of their commit.
    pub open spec fn wf(self) -> bool {
        &&& distinct_ids(self.accounts)
        &&& forall|i: int|
            0 <= i < self.accounts.len() ==> 0 <= (#[trigger] self.accounts[i]).balance <= i64::MAX
        &&& forall|i: int| 0 <= i < self.entries.len() ==> (#[trigger] self.entries[i]).id == i + 1
    }

    /// The balance of the account `id`, if it exists.
    pub open spec fn balance(self, id: Seq<char>) -> Option<int> {
        balance_in(self.accounts, id)
    }

    /// The sum of all balances.
    pub open spec fn total(self) -> int {
        total_balance(self.accounts)
    }

    /// Whether the store accepts the commit: the key is new, both accounts
    /// exist, the debit leaves the sender a balance that is not negative,
    /// the credit (applied after the debit) leaves the recipient a balance
    /// that is not negative, both fit the machine's range, and the history
    /// has room for another entry.
    pub open spec fn permits(
        self,
        key: IdempotencyKey,
        debit: int,
        credit: int,
        entry: LedgerEntryView,
    ) -> bool {
        let debited = adjusted(self.accounts, entry.sender_id, -debit);
        &&& !self.processed.contains(key)
        &&& holds_account(self.accounts, entry.sender_id)
        &&& holds_account(self.accounts, entry.recipient_id)
        &&& 0 <= balance_in(self.accounts, entry.sender_id)->0 - debit <= i64::MAX
        &&& 0 <= balance_in(debited, entry.recipient_id)->0 + credit <= i64::MAX
        &&& self.entries.len() < u64::MAX
    }

    /// The entry as it is written: `entry` under the next free number.
    pub open spec fn numbered(self, entry: LedgerEntryView) -> LedgerEntryView {
        LedgerEntryView { id: self.entries.len() as int + 1, ..entry }
    }

    /// The state after the commit: the sender debited, then the recipient
    /// credited, the entry appended and the key recorded.
    pub open spec fn committed(
        self,
        key: IdempotencyKey,
        debit: int,
        credit: int,
        entry: LedgerEntryView,
    ) -> LedgerView {
        LedgerView {
            accounts: adjusted(
                adjusted(self.accounts, entry.sender_id, -debit),
                entry.recipient_id,
                credit,
            ),
            entries: self.entries.push(self.numbered(entry)),
            processed: self.processed.insert(key),
        }
    }
}

/// An account found at `i` is the account that `position_of` names.
pub proof fn lemma_position_unique(accounts: Seq<UserView>, id: Seq<char>, i: int)
    requires
        distinct_ids(accounts),
        0 <= i < accounts.len(),
        accounts[i].id == id,
    ensures
        holds_account(accounts, id),
        position_of(accounts, id) == i,
{
    let j = position_of(accounts, id);
    assert(0 <= j < accounts.len() && accounts[j].id == id);
    if j < i {
        assert(accounts[j].id != accounts[i].id);
    } else if i < j {
        assert(accounts[i].id != accounts[j].id);
    }
}

/// Replacing one account changes the total by the change in its balance.
pub proof fn lemma_total_after_update(accounts: Seq<UserView>, i: int, account: UserView)
    requires
        0 <= i < accounts.len(),
    ensures
        total_balance(accounts.update(i, account)) == total_balance(accounts) - accounts[i].balance
            + account.balance,
    decreases accounts.len(),
{
    let updated = accounts.update(i, account);
    if i == accounts.len() - 1 {
        assert(updated.drop_last() =~= accounts.drop_last());
    } else {
        lemma_total_after_update(accounts.drop_last(), i, account);
        assert(updated.drop_last() =~= accounts.drop_last().update(i, account));
    }
}

/// Adjusting an account that exists moves the total by `delta`, keeps the
/// identifiers where they were, and changes no other balance.
pub proof fn lemma_adjusted(accounts: Seq<UserView>, id: Seq<char>, delta: int)
    requires
        distinct_ids(accounts),
        holds_account(accounts, id),
    ensures
        total_balance(adjusted(accounts, id, delta)) == total_balance(accounts) + delta,
        adjusted(accounts, id, delta).len() == accounts.len(),
        distinct_ids(adjusted(accounts, id, delta)),
        forall|k: int|
            0 <= k < accounts.len() ==> (#[trigger] adjusted(accounts, id, delta)[k]).id
                == accounts[k].id,
        balance_in(adjusted(accounts, id, delta), id) == Some(balance_in(accounts, id)->0 + delta),
        forall|other: Seq<char>|
            other != id ==> #[trigger] balance_in(adjusted(accounts, id, delta), other)
                == balance_in(accounts, other),
        forall|other: Seq<char>|
            #[trigger] holds_account(adjusted(accounts, id, delta), other) == holds_account(
                accounts,
                other,
            ),
{
    let i = position_of(accounts, id);
    let after = adjusted(accounts, id, delta);
    lemma_total_after_update(
        accounts,
        i,
        UserView { id: accounts[i].id, balance: accounts[i].balance + delta },
    );
    assert forall|a: int, b: int| 0 <= a < b < after.len() implies (#[trigger] after[a]).id != (
    #[trigger] after[b]).id by {
        assert(accounts[a].id != accounts[b].id);
    }
    assert(after[i].id == id);
    lemma_position_unique(after, id, i);
    assert forall|other: Seq<char>| #[trigger]
        holds_account(after, other) == holds_account(accounts, other) by {
        if holds_account(accounts, other) {
            let k = position_of(accounts, other);
            assert(after[k].id == other);
        }
        if holds_account(after, other) {
            let k = position_of(after, other);
            assert(accounts[k].id == other);
        }
    }
    assert forall|other: Seq<char>| other != id implies #[trigger] balance_in(after, other)
        == balance_in(accounts, other) by {
        if holds_account(accounts, other) {
            let k = position_of(accounts, other);
            assert(after[k].id == other);
            lemma_position_unique(after, other, k);
        }
    }
}

/// The balances that one commit writes.
#[derive(Clone, Copy, Debug, PartialEq, Eq, Structural)]
pub struct BalanceUpdate {
    /// The sender's balance after the debit.
    pub sender_balance: i64,
    /// The recipient's balance after the credit. Where sender and recipient
    /// are one account this is its final balance.
    pub recipient_balance: i64,
}

/// The balances after a debit of the sender followed by a credit of the
/// recipient, where `same` says that the two are one account. `None` where a
/// balance would be negative or would not fit the machine's range.
pub open spec fn balances_after(
    sender: int,
    recipient: int,
    same: bool,
    debit: int,
    credit: int,
) -> Option<(int, int)> {
    let sender_after = sender - debit;
    let recipient_after = (if same {
        sender_after
    } else {
        recipient
    }) + credit;
    if 0 <= sender_after <= i64::MAX && 0 <= recipient_after <= i64::MAX {
        Some((sender_after, recipient_after))
    } else {
        None
    }
}

/// Computes the balances that a commit writes, from the two accounts as they
/// stand when the commit begins. A store that keeps its accounts elsewhere
/// reads both accounts inside its transaction, calls this, and writes the
/// sender's balance first and the recipient's second.
pub fn plan_balances(sender: &User, recipient: &User, debit: i64, credit: i64) -> (plan: Option<
    BalanceUpdate,
>)
    ensures
        match plan {
            Some(update) => balances_after(
                sender.balance as int,
                recipient.balance as int,
                sender.id@ == recipient.id@,
                debit as int,
                credit as int,
            ) == Some((update.sender_balance as int, update.recipient_balance as int)),
            None => balances_after(
                sender.balance as int,
                recipient.balance as int,
                sender.id@ == recipient.id@,
                debit as int,
                credit as int,
            ) is None,
        },
{
    let sender_after: i128 = sender.balance as i128 - debit as i128;
    if sender_after < 0 || sender_after > i64::MAX as i128 {
        return None;
    }
    let recipient_before: i128 = if sender.id == recipient.id {
        sender_after
    } else {
        recipient.balance as i128
    };
    let recipient_after: i128 = recipient_before + credit as i128;
    if recipient_after < 0 || recipient_after > i64::MAX as i128 {
        return None;
    }
    Some(
        BalanceUpdate {
            sender_balance: sender_after as i64,
            recipient_balance: recipient_after as i64,
        },
    )
}

/// The balance that a query reports for an account that may be absent: an
/// absent account reads as zero.
pub open spec fn reported_balance(found: Option<int>) -> int {
    match found {
        Some(balance) => balance,
        None => 0,
    }
}

/// The balance to report for the balance of an account as the store returned
/// it, `None` standing for an account that does not exist.
pub fn balance_or_zero(found: Option<i64>) -> (balance: i64)
    ensures
        balance == reported_balance(
            match found {
                Some(amount) => Some(amount as int),
                None => None,
            },
        ),
{
    match found {
        Some(amount) => amount,
        None => 0,
    }
}

/// The ledger store, held in memory.
pub struct Ledger {
    accounts: Vec<User>,
    entries: Vec<LedgerEntry>,
    processed: Vec<IdempotencyKey>,
}

impl View for Ledger {
    type V = LedgerView;

    open spec fn view(&self) -> LedgerView {
        self.state()
    }
}

impl Ledger {
    /// The state that this ledger holds.
    pub closed spec fn state(&self) -> LedgerView {
        LedgerView {
            accounts: self.accounts@.map_values(|account: User| account@),
            entries: self.entries@.map_values(|entry: LedgerEntry| entry@),
            processed: self.processed@.to_set(),
        }
    }

    /// The invariant of the store; see [`LedgerView::wf`].
    pub open spec fn wf(&self) -> bool {
        self@.wf()
    }

    /// A ledger with no accounts and no history.
    pub fn new() -> (ledger: Ledger)
        ensures
            ledger.wf(),
            ledger@.accounts == Seq::<UserView>::empty(),
            ledger@.entries == Seq::<LedgerEntryView>::empty(),
            ledger@.processed == Set::<IdempotencyKey>::empty(),
    {
        let ledger = Ledger { accounts: Vec::new(), entries: Vec::new(), processed: Vec::new() };
        assert(ledger@.accounts =~= Seq::<UserView>::empty());
        assert(ledger@.entries =~= Seq::<LedgerEntryView>::empty());
        assert(ledger@.processed =~= Set::<IdempotencyKey>::empty());
        ledger
    }

    /// Opens `account`. Refused, with nothing changed, where its balance is
    /// negative or its identifier is taken.
    pub fn provision(&mut self, account: User) -> (opened: bool)
        requires
            old(self).wf(),
        ensures
            final(self).wf(),
            opened == (account.balance >= 0 && !holds_account(old(self)@.accounts, account.id@)),
            opened ==> final(self)@ == (LedgerView {
                accounts: old(self)@.accounts.push(account@),
                ..old(self)@
            }),
            !opened ==> final(self)@ == old(self)@,
    {
        if account.balance < 0 {
            return false;
        }
        if self.locate(&account.id).is_some() {
            return false;
        }
        let ghost before = self@;
        self.accounts.push(account);
        proof {
            assert(self@.accounts =~= before.accounts.push(account@));
            assert(self@.entries =~= before.entries);
        }
        true
    }

    /// Where the account `id` is kept.
    fn locate(&self, id: &String) -> (found: Option<usize>)
        ensures
            match found {
                Some(i) => i < self@.accounts.len() && self@.accounts[i as int].id == id@
                    && self@.accounts[i as int] == self.accounts@[i as int]@,
                None => !holds_account(self@.accounts, id@),
            },
    {
        let mut i: usize = 0;
        while i < self.accounts.len()
            invariant
                i <= self.accounts.len(),
                forall|j: int| 0 <= j < i ==> (#[trigger] self.accounts@[j]).id@ != id@,
            decreases self.accounts.len() - i,
        {
            if self.accounts[i].id == *id {
                return Some(i);
            }
            i += 1;
        }
        proof {
            assert forall|j: int| 0 <= j < self@.accounts.len() implies (
            #[trigger] self@.accounts[j]).id != id@ by {
                assert(self.accounts@[j].id@ != id@);
            }
        }
        None
    }

    /// The account `id` as it stands.
    pub fn get_account(&self, id: &String) -> (found: Option<User>)
        requires
            self.wf(),
        ensures
            match found {
                Some(account) => self@.balance(id@) == Some(account.balance as int) && account.id@
                    == id@,
                None => self@.balance(id@) is None,
            },
    {
        match self.locate(id) {
            Some(i) => {
                proof {
                    lemma_position_unique(self@.accounts, id@, i as int);
                }
                Some(self.accounts[i].clone())
            },
            None => None,
        }
    }

    /// The balance of the account `id`; zero where there is no such account.
    pub fn get_balance(&self, id: &String) -> (balance: i64)
        requires
            self.wf(),
        ensures
            balance == reported_balance(self@.balance(id@)),
    {
        match self.locate(id) {
            Some(i) => {
                proof {
                    lemma_position_unique(self@.accounts, id@, i as int);
                }
                self.accounts[i].balance
            },
            None => 0,
        }
    }

    /// Whether a transfer was settled under `key`.
    pub fn is_processed(&self, key: IdempotencyKey) -> (seen: bool)
        ensures
            seen == self@.processed.contains(key),
    {
        let mut i: usize = 0;
        while i < self.processed.len()
            invariant
                i <= self.processed.len(),
                forall|j: int| 0 <= j < i ==> self.processed@[j] != key,
            decreases self.processed.len() - i,
        {
            if self.processed[i] == key {
                assert(self.processed@.contains(key));
                return true;
            }
            i += 1;
        }
        false
    }

    /// Records `key`. Answers whether it was new; a key seen before is left
    /// as it was.
    pub fn record_dedup(&mut self, key: IdempotencyKey) -> (fresh: bool)
        ensures
            fresh == !old(self)@.processed.contains(key),
            final(self)@ == (LedgerView {
                processed: old(self)@.processed.insert(key),
                ..old(self)@
            }),
    {
        if self.is_processed(key) {
            assert(self@.processed =~= self@.processed.insert(key));
            return false;
        }
        let ghost before = self@;
        let ghost keys = self.processed@;
        self.processed.push(key);
        proof {
            keys.lemma_push_to_set_commute(key);
            assert(self@.processed =~= before.processed.insert(key));
        }
        true
    }

    /// How many transfers have been settled.
    pub fn entry_count(&self) -> (count: usize)
        ensures
            count == self@.entries.len(),
    {
        self.entries.len()
    }

    /// The settled transfers, oldest first.
    pub fn entries(&self) -> (all: &Vec<LedgerEntry>)
        ensures
            all@.len() == self@.entries.len(),
            forall|i: int| 0 <= i < all@.len() ==> (#[trigger] all@[i])@ == self@.entries[i],
    {
        &self.entries
    }

    /// The sum of all balances.
    pub fn total(&self) -> (sum: i128)
        requires
            self.wf(),
        ensures
            sum == self@.total(),
    {
        let mut sum: i128 = 0;
        let mut i: usize = 0;
        while i < self.accounts.len()
            invariant
                self.wf(),
                i <= self.accounts.len(),
                sum == total_balance(self@.accounts.take(i as int)),
                0 <= sum <= i * i64::MAX,
            decreases self.accounts.len() - i,
        {
            proof {
                assert(self@.accounts.take(i + 1).drop_last() =~= self@.accounts.take(i as int));
                assert(self@.accounts[i as int].balance == self.accounts@[i as int].balance);
            }
            sum = sum + self.accounts[i].balance as i128;
            i += 1;
        }
        assert(self@.accounts.take(i as int) =~= self@.accounts);
        sum
    }

    /// Settles one transfer as a single unit: the sender `entry.sender_id` is
    /// debited by `debit`, the recipient `entry.recipient_id` is credited by
    /// `credit`, `entry` is appended under the next number (whatever `id` it
    /// came with) and `key` is recorded. Either all of it happens and the
    /// entry is returned as written, or the store refuses and nothing
    /// changes.
    pub fn atomic_settle(
        &mut self,
        key: IdempotencyKey,
        debit: i64,
        credit: i64,
        entry: LedgerEntry,
    ) -> (result: Result<LedgerEntry, PersistenceError>)
        requires
            old(self).wf(),
        ensures
            final(self).wf(),
            match result {
                Ok(written) => {
                    &&& old(self)@.permits(key, debit as int, credit as int, entry@)
                    &&& final(self)@ == old(self)@.committed(
                        key,
                        debit as int,
                        credit as int,
                        entry@,
                    )
                    &&& written@ == old(self)@.numbered(entry@)
                },
                Err(refusal) => {
                    &&& refusal == PersistenceError::CommitFailed
                    &&& !old(self)@.permits(key, debit as int, credit as int, entry@)
                    &&& final(self)@ == old(self)@
                },
            },
    {
        let ghost before = self@;
        if self.is_processed(key) {
            return Err(PersistenceError::CommitFailed);
        }
        let from = match self.locate(&entry.sender_id) {
            Some(i) => i,
            None => {
                return Err(PersistenceError::CommitFailed);
            },
        };
        let to = match self.locate(&entry.recipient_id) {
            Some(i) => i,
            None => {
                return Err(PersistenceError::CommitFailed);
            },
        };
        proof {
            lemma_position_unique(before.accounts, entry.sender_id@, from as int);
            lemma_position_unique(before.accounts, entry.recipient_id@, to as int);
            lemma_adjusted(before.accounts, entry.sender_id@, -(debit as int));
            lemma_position_unique(
                adjusted(before.accounts, entry.sender_id@, -(debit as int)),
                entry.recipient_id@,
                to as int,
            );
        }
        let update = match plan_balances(&self.accounts[from], &self.accounts[to], debit, credit) {
            Some(update) => update,
            None => {
                return Err(PersistenceError::CommitFailed);
            },
        };
        let count: usize = self.entries.len();
        if count as u64 >= u64::MAX {
            return Err(PersistenceError::CommitFailed);
        }
        let written = LedgerEntry {
            id: count as u64 + 1,
            sender_id: entry.sender_id,
            recipient_id: entry.recipient_id,
            amount: entry.amount,
            incentive: entry.incentive,
            timestamp: entry.timestamp,
        };
        let ghost keys = self.processed@;
        self.accounts[from].balance = update.sender_balance;
        let ghost accounts1 = self.accounts@;
        self.accounts[to].balance = update.recipient_balance;
        self.entries.push(written.clone());
        self.processed.push(key);
        proof {
            let debited = adjusted(before.accounts, entry.sender_id@, -(debit as int));
            assert(accounts1.map_values(|account: User| account@) =~= debited);
            lemma_adjusted(debited, entry.recipient_id@, credit as int);
            assert(self@.accounts =~= adjusted(debited, entry.recipient_id@, credit as int));
            assert(self@.entries =~= before.entries.push(before.numbered(entry@)));
            keys.lemma_push_to_set_commute(key);
            assert(self@.processed =~= before.processed.insert(key));
        }
        Ok(written)
    }
}

} // verus!
