use settlement::error::PersistenceError;
use settlement::ledger::{balance_or_zero, plan_balances, BalanceUpdate, Ledger};
use settlement::transaction::{IdempotencyKey, LedgerEntry, User};

fn user(id: &str, balance: i64) -> User {
    User { id: id.to_string(), balance }
}

fn key(offset: i64) -> IdempotencyKey {
    IdempotencyKey { partition: 0, offset }
}

fn record(sender: &str, recipient: &str, amount: i64, incentive: i64) -> LedgerEntry {
    LedgerEntry {
        id: 0,
        sender_id: sender.to_string(),
        recipient_id: recipient.to_string(),
        amount,
        incentive,
        timestamp: 1_700_000_000,
    }
}

fn two_accounts() -> Ledger {
    let mut ledger = Ledger::new();
    assert!(ledger.provision(user("A", 10_000)));
    assert!(ledger.provision(user("B", 5_000)));
    ledger
}

#[test]
fn a_new_ledger_is_empty() {
    let ledger = Ledger::new();
    assert_eq!(ledger.entry_count(), 0);
    assert_eq!(ledger.total(), 0);
    assert_eq!(ledger.get_account(&"A".to_string()), None);
    assert!(!ledger.is_processed(key(0)));
}

#[test]
fn provision_refuses_a_taken_identifier_and_a_negative_balance() {
    let mut ledger = two_accounts();
    assert!(!ledger.provision(user("A", 1)));
    assert!(!ledger.provision(user("C", -1)));
    assert_eq!(ledger.get_balance(&"A".to_string()), 10_000);
    assert_eq!(ledger.get_account(&"C".to_string()), None);
    assert_eq!(ledger.total(), 15_000);
    assert!(ledger.provision(user("C", 0)));
    assert_eq!(ledger.get_account(&"C".to_string()), Some(user("C", 0)));
}

#[test]
fn get_account_returns_the_account_as_it_stands() {
    let ledger = two_accounts();
    assert_eq!(ledger.get_account(&"B".to_string()), Some(user("B", 5_000)));
    assert_eq!(ledger.get_account(&"b".to_string()), None);
}

#[test]
fn an_absent_account_reads_as_zero() {
    let ledger = two_accounts();
    assert_eq!(ledger.get_balance(&"nobody".to_string()), 0);
    assert_eq!(balance_or_zero(None), 0);
    assert_eq!(balance_or_zero(Some(72)), 72);
    assert_eq!(balance_or_zero(Some(0)), 0);
}

#[test]
fn record_dedup_tells_new_keys_from_seen_ones() {
    let mut ledger = Ledger::new();
    assert!(ledger.record_dedup(key(1)));
    assert!(!ledger.record_dedup(key(1)));
    assert!(ledger.record_dedup(key(2)));
    assert!(ledger.record_dedup(IdempotencyKey { partition: 1, offset: 1 }));
    assert!(ledger.is_processed(key(1)));
    assert!(!ledger.is_processed(key(3)));
}

#[test]
fn atomic_settle_moves_the_balances_and_numbers_the_entry() {
    let mut ledger = two_accounts();
    let written = ledger.atomic_settle(key(1), 2_000, 2_200, record("A", "B", 2_000, 200));
    assert_eq!(
        written,
        Ok(LedgerEntry { id: 1, ..record("A", "B", 2_000, 200) })
    );
    assert_eq!(ledger.get_balance(&"A".to_string()), 8_000);
    assert_eq!(ledger.get_balance(&"B".to_string()), 7_200);
    assert_eq!(ledger.entry_count(), 1);
    assert!(ledger.is_processed(key(1)));
    let second = ledger.atomic_settle(key(2), 100, 100, record("B", "A", 100, 0));
    assert_eq!(second.map(|entry| entry.id), Ok(2));
    assert_eq!(ledger.entries().len(), 2);
    assert_eq!(ledger.entries()[0].id, 1);
    assert_eq!(ledger.entries()[1].id, 2);
    assert_eq!(ledger.entries()[1].sender_id, "B");
}

#[test]
fn atomic_settle_ignores_the_number_that_the_entry_came_with() {
    let mut ledger = two_accounts();
    let mut entry = record("A", "B", 1, 0);
    entry.id = 99;
    assert_eq!(ledger.atomic_settle(key(1), 1, 1, entry).map(|e| e.id), Ok(1));
}

fn assert_untouched(ledger: &Ledger) {
    assert_eq!(ledger.get_balance(&"A".to_string()), 10_000);
    assert_eq!(ledger.get_balance(&"B".to_string()), 5_000);
    assert_eq!(ledger.entry_count(), 0);
    assert_eq!(ledger.total(), 15_000);
}

#[test]
fn atomic_settle_refuses_an_overdraft_and_changes_nothing() {
    let mut ledger = two_accounts();
    let refused = ledger.atomic_settle(key(1), 10_001, 10_001, record("A", "B", 10_001, 0));
    assert_eq!(refused, Err(PersistenceError::CommitFailed));
    assert_untouched(&ledger);
    assert!(!ledger.is_processed(key(1)));
}

#[test]
fn atomic_settle_refuses_an_unknown_account_and_changes_nothing() {
    let mut ledger = two_accounts();
    assert_eq!(
        ledger.atomic_settle(key(1), 1, 1, record("A", "Z", 1, 0)),
        Err(PersistenceError::CommitFailed)
    );
    assert_eq!(
        ledger.atomic_settle(key(1), 1, 1, record("Z", "B", 1, 0)),
        Err(PersistenceError::CommitFailed)
    );
    assert_untouched(&ledger);
}

#[test]
fn atomic_settle_refuses_a_key_that_was_settled() {
    let mut ledger = two_accounts();
    assert!(ledger.atomic_settle(key(1), 10, 10, record("A", "B", 10, 0)).is_ok());
    assert_eq!(
        ledger.atomic_settle(key(1), 10, 10, record("A", "B", 10, 0)),
        Err(PersistenceError::CommitFailed)
    );
    assert_eq!(ledger.get_balance(&"A".to_string()), 9_990);
    assert_eq!(ledger.get_balance(&"B".to_string()), 5_010);
    assert_eq!(ledger.entry_count(), 1);
}

#[test]
fn atomic_settle_refuses_a_credit_beyond_the_range() {
    let mut ledger = Ledger::new();
    assert!(ledger.provision(user("A", 10)));
    assert!(ledger.provision(user("B", i64::MAX - 5)));
    assert_eq!(
        ledger.atomic_settle(key(1), 6, 6, record("A", "B", 6, 0)),
        Err(PersistenceError::CommitFailed)
    );
    assert_eq!(ledger.get_balance(&"A".to_string()), 10);
    assert_eq!(ledger.get_balance(&"B".to_string()), i64::MAX - 5);
    assert!(ledger.atomic_settle(key(1), 5, 5, record("A", "B", 5, 0)).is_ok());
    assert_eq!(ledger.get_balance(&"B".to_string()), i64::MAX);
}

#[test]
fn a_transfer_to_oneself_keeps_the_amount_and_gains_the_incentive() {
    let mut ledger = two_accounts();
    assert!(ledger.atomic_settle(key(1), 2_000, 2_200, record("A", "A", 2_000, 200)).is_ok());
    assert_eq!(ledger.get_balance(&"A".to_string()), 10_200);
    assert_eq!(ledger.get_balance(&"B".to_string()), 5_000);
    assert_eq!(ledger.total(), 15_200);
}

#[test]
fn the_total_is_the_sum_of_all_balances() {
    let mut ledger = two_accounts();
    assert!(ledger.provision(user("C", 1)));
    assert_eq!(ledger.total(), 15_001);
    let mut large = Ledger::new();
    assert!(large.provision(user("x", i64::MAX)));
    assert!(large.provision(user("y", i64::MAX)));
    assert_eq!(large.total(), 2 * (i64::MAX as i128));
}

#[test]
fn plan_balances_applies_the_debit_and_then_the_credit() {
    assert_eq!(
        plan_balances(&user("A", 10_000), &user("B", 5_000), 2_000, 2_200),
        Some(BalanceUpdate { sender_balance: 8_000, recipient_balance: 7_200 })
    );
    assert_eq!(
        plan_balances(&user("A", 10_000), &user("A", 10_000), 2_000, 2_200),
        Some(BalanceUpdate { sender_balance: 8_000, recipient_balance: 10_200 })
    );
    assert_eq!(
        plan_balances(&user("A", 2_000), &user("B", 0), 2_000, 2_000),
        Some(BalanceUpdate { sender_balance: 0, recipient_balance: 2_000 })
    );
}

#[test]
fn plan_balances_refuses_what_the_store_refuses() {
    assert_eq!(plan_balances(&user("A", 10), &user("B", 0), 11, 11), None);
    assert_eq!(plan_balances(&user("A", 10), &user("B", i64::MAX), 1, 1), None);
    assert_eq!(plan_balances(&user("A", 10), &user("B", 0), 1, -1), None);
    assert_eq!(plan_balances(&user("A", i64::MAX), &user("B", 0), -1, 0), None);
    assert_eq!(plan_balances(&user("A", 10), &user("B", 0), i64::MIN, i64::MAX), None);
}
