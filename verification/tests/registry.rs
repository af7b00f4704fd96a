use sharded_ledger::account::{Accounts, TransactionError, AMOUNT_SCALE};

#[test]
fn client_account_is_made_on_first_use() {
    let mut accounts = Accounts::default();
    assert_eq!(accounts.client_account(3).total(), 0);
    assert!(!accounts.client_account(3).is_locked());
    accounts.client_account(3).deposit(1, 5).unwrap();
    assert_eq!(accounts.client_account(3).total(), 5);
    assert_eq!(accounts.client_account(4).total(), 0);
    let mut ids: Vec<u16> = accounts.into_vec().into_iter().map(|(id, _)| id).collect();
    ids.sort();
    assert_eq!(ids, vec![3, 4]);
}

#[test]
fn failed_operation_still_makes_the_account() {
    let mut accounts = Accounts::default();
    assert_eq!(
        accounts.dispute(9, 1),
        Err(TransactionError::TransactionNotFound)
    );
    let all = accounts.into_vec();
    assert_eq!(all.len(), 1);
    assert_eq!(all[0].0, 9);
    assert_eq!(all[0].1.total(), 0);
}

#[test]
fn operations_reach_the_account_of_their_client() {
    let mut accounts = Accounts::default();
    assert_eq!(accounts.deposit(1, 1, 10 * AMOUNT_SCALE), Ok(()));
    assert_eq!(accounts.deposit(2, 1, 20 * AMOUNT_SCALE), Ok(()));
    assert_eq!(
        accounts.deposit(1, 1, 30 * AMOUNT_SCALE),
        Err(TransactionError::DuplicateTransaction)
    );
    assert_eq!(accounts.withdraw(2, 5 * AMOUNT_SCALE), Ok(()));
    assert_eq!(accounts.dispute(1, 1), Ok(()));
    assert_eq!(accounts.dispute(2, 2), Err(TransactionError::TransactionNotFound));
    assert_eq!(accounts.resolve(2, 1), Err(TransactionError::NotDisputed));
    assert_eq!(accounts.resolve(1, 1), Ok(()));
    assert_eq!(accounts.dispute(2, 1), Ok(()));
    assert_eq!(accounts.chargeback(2, 1), Ok(()));
    assert_eq!(accounts.chargeback(1, 1), Err(TransactionError::NotDisputed));
    assert_eq!(accounts.deposit(2, 7, 1), Err(TransactionError::AccountLocked));

    assert_eq!(accounts.client_account(1).available(), 100_000);
    assert_eq!(accounts.client_account(1).held(), 0);
    assert_eq!(accounts.client_account(1).total(), 100_000);
    assert!(!accounts.client_account(1).is_locked());
    assert_eq!(accounts.client_account(2).available(), -50_000);
    assert_eq!(accounts.client_account(2).held(), 0);
    assert_eq!(accounts.client_account(2).total(), -50_000);
    assert!(accounts.client_account(2).is_locked());
}

#[test]
fn insufficient_funds_scenario() {
    let mut accounts = Accounts::default();
    assert_eq!(accounts.deposit(5, 10, 100 * AMOUNT_SCALE), Ok(()));
    assert_eq!(
        accounts.withdraw(5, 150 * AMOUNT_SCALE),
        Err(TransactionError::InsufficientFunds)
    );
    let account = accounts.client_account(5);
    assert_eq!(account.available(), 1_000_000);
    assert_eq!(account.held(), 0);
    assert_eq!(account.total(), 1_000_000);
    assert!(!account.is_locked());
}

#[test]
fn into_vec_hands_out_every_account_once() {
    let mut accounts = Accounts::default();
    for client in 0..300u16 {
        accounts.deposit(client, 1, u64::from(client)).unwrap();
    }
    let mut all = accounts.into_vec();
    all.sort_by_key(|(id, _)| *id);
    assert_eq!(all.len(), 300);
    for (i, (client, account)) in all.iter().enumerate() {
        assert_eq!(usize::from(*client), i);
        assert_eq!(account.total(), i128::from(*client));
    }
}

#[test]
fn chargeback_scenario() {
    let mut accounts = Accounts::default();
    assert_eq!(accounts.deposit(1, 1, AMOUNT_SCALE), Ok(()));
    assert_eq!(accounts.deposit(1, 2, 2 * AMOUNT_SCALE), Ok(()));
    assert_eq!(accounts.dispute(1, 1), Ok(()));
    assert_eq!(accounts.chargeback(1, 1), Ok(()));
    let account = accounts.client_account(1);
    assert_eq!(account.available(), 20_000);
    assert_eq!(account.held(), 0);
    assert_eq!(account.total(), 20_000);
    assert!(account.is_locked());
}
