use sharded_ledger::account::{Account, TransactionError, AMOUNT_SCALE};

fn units(whole: u64) -> u64 {
    whole * AMOUNT_SCALE
}

fn assert_balances(account: &Account, available: u64, held: u64, total: u64) {
    assert_eq!(account.available(), i128::from(units(available)));
    assert_eq!(account.held(), i128::from(units(held)));
    assert_eq!(account.total(), i128::from(units(total)));
}

#[test]
fn test_dispute_resolve() {
    let mut account = Account::default();
    assert!(account.deposit(1, units(100)).is_ok());
    assert!(account.deposit(2, units(100)).is_ok());
    assert_balances(&account, 200, 0, 200);
    assert!(account.dispute(1).is_ok());
    assert_balances(&account, 100, 100, 200);
    assert!(account.resolve(1).is_ok());
    assert_balances(&account, 200, 0, 200);
}

#[test]
fn test_dispute_chargeback() {
    let mut account = Account::default();
    assert!(account.deposit(1, units(100)).is_ok());
    assert!(account.deposit(2, units(100)).is_ok());
    assert!(account.dispute(1).is_ok());
    assert!(account.chargeback(1).is_ok());
    assert_balances(&account, 100, 0, 100);
    assert!(account.is_locked())
}

#[test]
fn test_double_dispute() {
    let mut account = Account::default();
    assert!(account.deposit(1, units(100)).is_ok());
    assert_balances(&account, 100, 0, 100);
    assert!(account.dispute(1).is_ok());
    assert!(matches!(
        account.dispute(1),
        Err(TransactionError::AlreadyDisputed)
    ));
}

#[test]
fn test_resolve_non_dispute() {
    let mut account = Account::default();
    assert!(account.deposit(1, units(100)).is_ok());
    assert!(matches!(
        account.resolve(1),
        Err(TransactionError::NotDisputed)
    ));
}

#[test]
fn test_chargeback_non_dispute() {
    let mut account = Account::default();
    assert!(account.deposit(1, units(100)).is_ok());
    assert!(matches!(
        account.chargeback(1),
        Err(TransactionError::NotDisputed)
    ));
}

#[test]
fn test_insufficient_funds() {
    let mut account = Account::default();
    assert!(matches!(
        account.withdraw(units(100)),
        Err(TransactionError::InsufficientFunds)
    ));
}

#[test]
fn test_duplicate_transaction() {
    let mut account = Account::default();
    assert!(account.deposit(1, units(100)).is_ok());
    assert!(matches!(
        account.deposit(1, units(200)),
        Err(TransactionError::DuplicateTransaction)
    ));
    assert_balances(&account, 100, 0, 100);
}

#[test]
fn test_deposit_withdraw() {
    let mut account = Account::default();
    assert!(account.deposit(1, units(100)).is_ok());
    assert!(account.withdraw(units(99)).is_ok());
    assert_balances(&account, 1, 0, 1);
}

#[test]
fn default_account_is_empty() {
    let account = Account::default();
    assert_balances(&account, 0, 0, 0);
    assert!(!account.is_locked());
}

#[test]
fn deposit_adds_to_available_and_total() {
    let mut account = Account::default();
    assert_eq!(account.deposit(7, 12_345), Ok(()));
    assert_eq!(account.available(), 12_345);
    assert_eq!(account.total(), 12_345);
    assert_eq!(account.held(), 0);
    assert_eq!(account.deposit(8, 1), Ok(()));
    assert_eq!(account.available(), 12_346);
    assert_eq!(account.total(), 12_346);
}

#[test]
fn repeated_deposit_changes_nothing() {
    let mut account = Account::default();
    assert_eq!(account.deposit(1, units(3)), Ok(()));
    assert_eq!(account.dispute(1), Ok(()));
    assert_eq!(
        account.deposit(1, units(5)),
        Err(TransactionError::DuplicateTransaction)
    );
    assert_balances(&account, 0, 3, 3);
    assert!(!account.is_locked());
    assert_eq!(account.resolve(1), Ok(()));
    assert_balances(&account, 3, 0, 3);
}

#[test]
fn withdraw_succeeds_up_to_available() {
    let mut account = Account::default();
    assert_eq!(account.deposit(1, units(10)), Ok(()));
    assert_eq!(
        account.withdraw(units(10) + 1),
        Err(TransactionError::InsufficientFunds)
    );
    assert_balances(&account, 10, 0, 10);
    assert_eq!(account.withdraw(units(10)), Ok(()));
    assert_balances(&account, 0, 0, 0);
    assert_eq!(account.withdraw(0), Ok(()));
    assert_eq!(account.withdraw(1), Err(TransactionError::InsufficientFunds));
}

#[test]
fn withdraw_cannot_take_held_funds() {
    let mut account = Account::default();
    assert_eq!(account.deposit(1, units(10)), Ok(()));
    assert_eq!(account.deposit(2, units(5)), Ok(()));
    assert_eq!(account.dispute(1), Ok(()));
    assert_eq!(
        account.withdraw(units(6)),
        Err(TransactionError::InsufficientFunds)
    );
    assert_balances(&account, 5, 10, 15);
    assert_eq!(account.withdraw(units(5)), Ok(()));
    assert_balances(&account, 0, 10, 10);
}

#[test]
fn withdrawals_are_never_disputed() {
    let mut account = Account::default();
    assert_eq!(account.deposit(1, units(10)), Ok(()));
    assert_eq!(account.withdraw(units(4)), Ok(()));
    assert_eq!(
        account.dispute(2),
        Err(TransactionError::TransactionNotFound)
    );
    assert_balances(&account, 6, 0, 6);
}

#[test]
fn dispute_of_unknown_id_is_not_found() {
    let mut account = Account::default();
    assert_eq!(
        account.dispute(1),
        Err(TransactionError::TransactionNotFound)
    );
    assert_eq!(
        account.resolve(1),
        Err(TransactionError::TransactionNotFound)
    );
    assert_eq!(
        account.chargeback(1),
        Err(TransactionError::TransactionNotFound)
    );
    assert_balances(&account, 0, 0, 0);
    assert!(!account.is_locked());
}

#[test]
fn double_dispute_changes_nothing() {
    let mut account = Account::default();
    assert_eq!(account.deposit(1, units(100)), Ok(()));
    assert_eq!(account.dispute(1), Ok(()));
    assert_eq!(account.dispute(1), Err(TransactionError::AlreadyDisputed));
    assert_balances(&account, 0, 100, 100);
}

#[test]
fn dispute_after_withdrawal_makes_available_negative() {
    let mut account = Account::default();
    assert_eq!(account.deposit(1, units(100)), Ok(()));
    assert_eq!(account.withdraw(units(100)), Ok(()));
    assert_eq!(account.dispute(1), Ok(()));
    assert_eq!(account.available(), -1_000_000);
    assert_eq!(account.held(), 1_000_000);
    assert_eq!(account.total(), 0);
    assert_eq!(account.chargeback(1), Ok(()));
    assert_eq!(account.available(), -1_000_000);
    assert_eq!(account.held(), 0);
    assert_eq!(account.total(), -1_000_000);
    assert!(account.is_locked());
}

#[test]
fn resolve_twice_is_not_disputed() {
    let mut account = Account::default();
    assert_eq!(account.deposit(1, units(100)), Ok(()));
    assert_eq!(account.dispute(1), Ok(()));
    assert_eq!(account.resolve(1), Ok(()));
    assert_eq!(account.resolve(1), Err(TransactionError::NotDisputed));
    assert_balances(&account, 100, 0, 100);
    assert_eq!(account.dispute(1), Ok(()));
    assert_balances(&account, 0, 100, 100);
}

#[test]
fn locked_account_refuses_everything() {
    let mut account = Account::default();
    assert_eq!(account.deposit(1, units(1)), Ok(()));
    assert_eq!(account.deposit(2, units(2)), Ok(()));
    assert_eq!(account.deposit(3, units(4)), Ok(()));
    assert_eq!(account.dispute(1), Ok(()));
    assert_eq!(account.dispute(2), Ok(()));
    assert_eq!(account.chargeback(1), Ok(()));
    assert!(account.is_locked());
    assert_balances(&account, 4, 2, 6);
    assert_eq!(account.deposit(4, units(1)), Err(TransactionError::AccountLocked));
    assert_eq!(account.deposit(1, units(1)), Err(TransactionError::AccountLocked));
    assert_eq!(account.withdraw(units(1)), Err(TransactionError::AccountLocked));
    assert_eq!(account.withdraw(units(100)), Err(TransactionError::AccountLocked));
    assert_eq!(account.dispute(3), Err(TransactionError::AccountLocked));
    assert_eq!(account.dispute(9), Err(TransactionError::AccountLocked));
    assert_eq!(account.resolve(2), Err(TransactionError::AccountLocked));
    assert_eq!(account.resolve(3), Err(TransactionError::AccountLocked));
    assert_eq!(account.chargeback(2), Err(TransactionError::AccountLocked));
    assert_eq!(account.chargeback(1), Err(TransactionError::AccountLocked));
    assert_balances(&account, 4, 2, 6);
    assert!(account.is_locked());
}

#[test]
fn chargeback_scenario_of_two_deposits() {
    let mut account = Account::default();
    assert_eq!(account.deposit(1, units(1)), Ok(()));
    assert_eq!(account.deposit(2, units(2)), Ok(()));
    assert_eq!(account.dispute(1), Ok(()));
    assert_eq!(account.chargeback(1), Ok(()));
    assert_balances(&account, 2, 0, 2);
    assert!(account.is_locked());
}

#[test]
fn largest_amounts_do_not_overflow() {
    let mut account = Account::default();
    assert_eq!(account.deposit(0, u64::MAX), Ok(()));
    assert_eq!(account.deposit(u32::MAX, u64::MAX), Ok(()));
    assert_eq!(account.total(), 2 * i128::from(u64::MAX));
    assert_eq!(account.dispute(0), Ok(()));
    assert_eq!(account.dispute(u32::MAX), Ok(()));
    assert_eq!(account.held(), 2 * i128::from(u64::MAX));
    assert_eq!(account.available(), 0);
    assert_eq!(account.withdraw(1), Err(TransactionError::InsufficientFunds));
    assert_eq!(account.resolve(0), Ok(()));
    assert_eq!(account.withdraw(u64::MAX), Ok(()));
    assert_eq!(account.chargeback(u32::MAX), Ok(()));
    assert_eq!(account.total(), 0);
    assert_eq!(account.held(), 0);
}
