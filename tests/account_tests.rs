use account::{
    Account, AccountId, AccountState, Amount, ChargeBack, Dispute, Error, IsLocked, Resolve,
    Transaction, TransactionId, TransactionKind,
};

fn amount(units: u64) -> Amount {
    Amount::from_u64(units)
}

fn deposit(tx: u32, units: u64) -> Transaction {
    Transaction::deposit(AccountId(0), TransactionId(tx), amount(units)).unwrap()
}

fn deposit_max(tx: u32) -> Transaction {
    Transaction::deposit(AccountId(0), TransactionId(tx), Amount::maximum()).unwrap()
}

fn withdraw(tx: u32, units: u64) -> Transaction {
    Transaction::withdraw(AccountId(0), TransactionId(tx), amount(units)).unwrap()
}

fn dispute(target: u32) -> Transaction {
    Transaction {
        target_account_id: AccountId(0),
        kind: TransactionKind::Dispute(Dispute { target_tx_id: TransactionId(target) }),
    }
}

fn resolve(target: u32) -> Transaction {
    Transaction {
        target_account_id: AccountId(0),
        kind: TransactionKind::Resolve(Resolve { target_tx_id: TransactionId(target) }),
    }
}

fn charge_back(target: u32) -> Transaction {
    Transaction {
        target_account_id: AccountId(0),
        kind: TransactionKind::ChargeBack(ChargeBack { target_tx_id: TransactionId(target) }),
    }
}

/// An account of client 0 after applying `txs`, each of which must succeed.
fn account_after(txs: Vec<Transaction>) -> Account {
    let mut account = Account::from_id(AccountId(0));
    for tx in txs {
        account.try_apply_transaction(tx).unwrap();
    }
    account
}

fn state(available: Amount, held: Amount, is_locked: IsLocked) -> AccountState {
    AccountState { id: AccountId(0), available, held, is_locked }
}

fn test_success(mut account: Account, tx: Transaction, expected_state: AccountState) {
    account.try_apply_transaction(tx).expect("testing success");
    assert_eq!(account.state(), &expected_state);
}

fn test_failure(mut account: Account, tx: Transaction) -> Error {
    let expected_state = *account.state();
    let err = account.try_apply_transaction(tx).unwrap_err();
    assert_eq!(account.state(), &expected_state);
    err
}

#[test]
fn create_empty_account() {
    let target_account_id = AccountId(0);

    let new_account = Account::from_id(target_account_id);

    let state = new_account.state();

    assert_eq!(state.id, target_account_id);
    assert_eq!(state.available, Amount::from_u64(0));
    assert_eq!(state.held, Amount::from_u64(0));
    assert_eq!(state.is_locked, IsLocked::Unlocked);
}

#[test]
fn deposit_into_empty_account_ten() {
    test_success(
        Account::from_id(AccountId(0)),
        deposit(0, 10),
        state(amount(10), amount(0), IsLocked::Unlocked),
    );
}

#[test]
fn deposit_into_empty_account_u64_max() {
    test_success(
        Account::from_id(AccountId(0)),
        deposit(0, u64::MAX),
        state(amount(u64::MAX), amount(0), IsLocked::Unlocked),
    );
}

#[test]
fn deposit_into_empty_account_max() {
    test_success(
        Account::from_id(AccountId(0)),
        deposit_max(0),
        state(Amount::maximum(), amount(0), IsLocked::Unlocked),
    );
}

#[test]
fn deposit_with_no_held_amount() {
    test_success(
        Account::test_account(AccountId(0), amount(100), amount(0), IsLocked::Unlocked),
        deposit(0, 10),
        state(amount(110), amount(0), IsLocked::Unlocked),
    );
}

#[test]
fn deposit_with_some_held() {
    test_success(
        Account::test_account(AccountId(0), amount(100), Amount::maximum(), IsLocked::Unlocked),
        deposit(0, 10),
        state(amount(110), Amount::maximum(), IsLocked::Unlocked),
    );
}

#[test]
fn deposit_up_to_max() {
    let rest = Amount::maximum().checked_sub(&amount(100)).unwrap();
    test_success(
        Account::test_account(AccountId(0), amount(100), amount(0), IsLocked::Unlocked),
        Transaction::deposit(AccountId(0), TransactionId(0), rest).unwrap(),
        state(Amount::maximum(), amount(0), IsLocked::Unlocked),
    );
}

#[test]
fn deposit_with_overflow() {
    let err = test_failure(
        Account::test_account(AccountId(0), amount(1), amount(0), IsLocked::Unlocked),
        deposit_max(0),
    );
    assert_eq!(err, Error::DepositOverflow);
}

#[test]
fn withdraw_with_sufficient_funds() {
    test_success(
        Account::test_account(AccountId(0), amount(150), amount(0), IsLocked::Unlocked),
        withdraw(0, 149),
        state(amount(1), amount(0), IsLocked::Unlocked),
    );
}

#[test]
fn withdraw_with_some_funds_held() {
    test_success(
        Account::test_account(AccountId(0), amount(150), amount(10), IsLocked::Unlocked),
        withdraw(0, 149),
        state(amount(1), amount(10), IsLocked::Unlocked),
    );
}

#[test]
fn withdraw_everything() {
    test_success(
        Account::test_account(AccountId(0), amount(200), amount(0), IsLocked::Unlocked),
        withdraw(0, 200),
        state(amount(0), amount(0), IsLocked::Unlocked),
    );
}

#[test]
fn withdraw_from_empty_account() {
    let err = test_failure(Account::from_id(AccountId(0)), withdraw(0, 10));
    assert_eq!(err, Error::InsufficientFundsForWithdraw);
}

#[test]
fn withdraw_with_insufficient_funds() {
    let err = test_failure(
        Account::test_account(AccountId(0), amount(100), amount(0), IsLocked::Unlocked),
        withdraw(0, 101),
    );
    assert_eq!(err, Error::InsufficientFundsForWithdraw);
}

#[test]
fn dispute_non_existing_transaction() {
    let account = account_after(vec![deposit(0, 10), withdraw(1, 10), deposit(2, 5)]);
    assert_eq!(test_failure(account, dispute(3)), Error::InvalidDisputeTarget);
}

#[test]
fn dispute_withdraw() {
    let account = account_after(vec![deposit(0, 10), withdraw(1, 10), deposit(2, 5)]);
    assert_eq!(test_failure(account, dispute(1)), Error::InvalidDisputeTarget);
}

#[test]
fn dispute_dispute() {
    let account =
        account_after(vec![deposit(0, 10), withdraw(1, 10), deposit(2, 5), dispute(2)]);
    assert_eq!(test_failure(account, dispute(3)), Error::InvalidDisputeTarget);
}

#[test]
fn dispute_resolve() {
    let account = account_after(vec![
        deposit(0, 10),
        withdraw(1, 10),
        deposit(2, 5),
        dispute(2),
        resolve(2),
    ]);
    assert_eq!(test_failure(account, dispute(4)), Error::InvalidDisputeTarget);
}

#[test]
fn dispute_after_charge_back() {
    let account = account_after(vec![
        deposit(0, 10),
        withdraw(1, 10),
        deposit(2, 5),
        dispute(2),
        charge_back(2),
    ]);
    assert_eq!(test_failure(account, dispute(1)), Error::LockedAccount);
}

#[test]
fn dispute_with_insufficient_funds() {
    let account = account_after(vec![deposit(0, 10), withdraw(1, 10), deposit(2, 5)]);
    assert_eq!(test_failure(account, dispute(0)), Error::InsufficientFundsForDispute);
}

#[test]
fn dispute_with_overflow() {
    let account = account_after(vec![deposit(0, 1), dispute(0), deposit_max(2)]);
    assert_eq!(test_failure(account, dispute(2)), Error::DisputeOverflow);
}

#[test]
fn dispute_already_disputed() {
    let account = account_after(vec![deposit(0, 10), dispute(0)]);
    assert_eq!(test_failure(account, dispute(0)), Error::AlreadyDisputed);
}

#[test]
fn dispute_a_single_deposit() {
    test_success(
        account_after(vec![deposit(0, 15)]),
        dispute(0),
        state(amount(0), amount(15), IsLocked::Unlocked),
    );
}

#[test]
fn dispute_after_withdraws() {
    test_success(
        account_after(vec![deposit(0, 15), withdraw(1, 10), deposit(2, 10)]),
        dispute(0),
        state(amount(0), amount(15), IsLocked::Unlocked),
    );
}

#[test]
fn dispute_same_deposit_multiple_times() {
    test_success(
        account_after(vec![deposit(0, 15), dispute(0), resolve(0)]),
        dispute(0),
        state(amount(0), amount(15), IsLocked::Unlocked),
    );
}

#[test]
fn resolve_non_existing_transaction() {
    let account = account_after(vec![deposit(0, 10)]);
    assert_eq!(test_failure(account, resolve(1)), Error::InvalidResolveTarget);
}

#[test]
fn resolve_on_empty_account() {
    assert_eq!(
        test_failure(Account::from_id(AccountId(0)), resolve(0)),
        Error::InvalidResolveTarget
    );
}

#[test]
fn resolve_non_disputed_deposit() {
    let account = account_after(vec![deposit(0, 10)]);
    assert_eq!(test_failure(account, resolve(0)), Error::TargetNotDisputed);
}

#[test]
fn resolve_withdraw() {
    let account =
        account_after(vec![deposit(0, 20), deposit(1, 10), withdraw(2, 10), dispute(0)]);
    assert_eq!(test_failure(account, resolve(2)), Error::InvalidResolveTarget);
}

#[test]
fn resolve_after_charge_back() {
    let account = account_after(vec![deposit(0, 10), dispute(0), charge_back(0)]);
    assert_eq!(test_failure(account, resolve(2)), Error::LockedAccount);
}

#[test]
fn resolve_with_overflow() {
    let account = account_after(vec![deposit_max(0), dispute(0), deposit(2, 1)]);
    assert_eq!(test_failure(account, resolve(0)), Error::ResolveOverflow);
}

#[test]
fn resolve_once() {
    test_success(
        account_after(vec![deposit(0, 15), dispute(0)]),
        resolve(0),
        state(amount(15), amount(0), IsLocked::Unlocked),
    );
}

#[test]
fn resolve_many_times() {
    test_success(
        account_after(vec![deposit(0, 15), dispute(0), resolve(0), dispute(0)]),
        resolve(0),
        state(amount(15), amount(0), IsLocked::Unlocked),
    );
}

#[test]
fn charge_back_non_existing_transaction() {
    let account = account_after(vec![deposit(0, 10)]);
    assert_eq!(test_failure(account, charge_back(1)), Error::InvalidChargeBackTarget);
}

#[test]
fn charge_back_on_empty_account() {
    assert_eq!(
        test_failure(Account::from_id(AccountId(0)), charge_back(0)),
        Error::InvalidChargeBackTarget
    );
}

#[test]
fn charge_back_non_disputed_deposit() {
    let account = account_after(vec![deposit(0, 10)]);
    assert_eq!(test_failure(account, charge_back(0)), Error::TargetNotDisputed);
}

#[test]
fn charge_back_withdraw() {
    let account =
        account_after(vec![deposit(0, 20), deposit(1, 10), withdraw(2, 10), dispute(0)]);
    assert_eq!(test_failure(account, charge_back(2)), Error::InvalidChargeBackTarget);
}

#[test]
fn charge_back_twice() {
    let account = account_after(vec![deposit(0, 10), dispute(0), charge_back(0)]);
    assert_eq!(test_failure(account, charge_back(2)), Error::LockedAccount);
}

#[test]
fn charge_back_disputed_deposit() {
    test_success(
        account_after(vec![deposit(0, 15), dispute(0)]),
        charge_back(0),
        state(amount(0), amount(0), IsLocked::Locked),
    );
}

#[test]
fn locked_account_refuses_every_kind() {
    let mut account = account_after(vec![deposit(0, 15), deposit(1, 5), dispute(0), charge_back(0)]);
    let before = *account.state();
    for tx in [deposit(2, 1), withdraw(3, 1), dispute(1), resolve(1), charge_back(1)] {
        assert_eq!(account.try_apply_transaction(tx), Err(Error::LockedAccount));
        assert_eq!(account.state(), &before);
    }
}

#[test]
fn total_adds_available_and_held() {
    let account = account_after(vec![deposit(0, 10), deposit(1, 5), dispute(1)]);
    assert_eq!(account.state().total(), Ok(amount(15)));
    assert_eq!(account.into_state().total(), Ok(amount(15)));
}

#[test]
fn total_overflow() {
    let account = account_after(vec![deposit_max(0), dispute(0), deposit(2, 1)]);
    assert_eq!(account.state().total(), Err(Error::TotalOverflow));
}
