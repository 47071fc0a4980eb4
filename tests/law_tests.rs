use account::{
    Account, AccountId, Amount, IsLocked, Transaction, TransactionId, MAX_UNITS,
};

fn tx_for(step: u32) -> Transaction {
    let target = step % 7;
    match step % 5 {
        0 => Transaction::deposit(AccountId(0), TransactionId(step), Amount::from_u64(3 + (step % 4) as u64)).unwrap(),
        1 => Transaction::withdraw(AccountId(0), TransactionId(step), Amount::from_u64(2)).unwrap(),
        2 => Transaction::dispute(AccountId(0), TransactionId(target * 5)),
        3 => Transaction::resolve(AccountId(0), TransactionId(target * 5)),
        _ => Transaction::charge_back(AccountId(0), TransactionId((step / 3) * 5)),
    }
}

#[test]
fn balances_stay_in_range_along_a_run() {
    let mut account = Account::from_id(AccountId(0));
    for step in 0..200 {
        let _ = account.try_apply_transaction(tx_for(step));
        let state = account.state();
        assert!(state.available.units() <= MAX_UNITS);
        assert!(state.held.units() <= MAX_UNITS);
        assert!(state.available.units() + state.held.units() <= MAX_UNITS);
    }
}

#[test]
fn failed_transactions_leave_no_trace() {
    let mut account = Account::from_id(AccountId(0));
    for step in 0..200 {
        let before = *account.state();
        if account.try_apply_transaction(tx_for(step)).is_err() {
            assert_eq!(*account.state(), before);
        }
    }
}

#[test]
fn held_is_the_disputed_deposits() {
    let mut account = Account::from_id(AccountId(0));
    let deposits = [(1u32, 10u64), (2, 20), (3, 40)];
    for (id, units) in deposits {
        let tx = Transaction::deposit(AccountId(0), TransactionId(id), Amount::from_u64(units));
        account.try_apply_transaction(tx.unwrap()).unwrap();
    }
    account.try_apply_transaction(Transaction::dispute(AccountId(0), TransactionId(1))).unwrap();
    account.try_apply_transaction(Transaction::dispute(AccountId(0), TransactionId(3))).unwrap();
    assert_eq!(account.state().held, Amount::from_u64(50));
    account.try_apply_transaction(Transaction::resolve(AccountId(0), TransactionId(1))).unwrap();
    assert_eq!(account.state().held, Amount::from_u64(40));
    account.try_apply_transaction(Transaction::charge_back(AccountId(0), TransactionId(3))).unwrap();
    assert_eq!(account.state().held, Amount::zero());
    assert_eq!(account.state().available, Amount::from_u64(30));
    assert_eq!(account.state().is_locked, IsLocked::Locked);
}

#[test]
fn locked_account_stays_unchanged() {
    let mut account = Account::from_id(AccountId(0));
    let d = Transaction::deposit(AccountId(0), TransactionId(1), Amount::from_u64(10)).unwrap();
    account.try_apply_transaction(d).unwrap();
    account.try_apply_transaction(Transaction::dispute(AccountId(0), TransactionId(1))).unwrap();
    account.try_apply_transaction(Transaction::charge_back(AccountId(0), TransactionId(1))).unwrap();
    let frozen = *account.state();
    for step in 0..50 {
        assert!(account.try_apply_transaction(tx_for(step)).is_err());
        assert_eq!(*account.state(), frozen);
    }
}
