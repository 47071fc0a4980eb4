use account::{
    AccountId, AccountState, Amount, Dispatcher, Error, IsLocked, Transaction, TransactionId,
    transaction_broker_sync, Account,
};

fn amount(units: u64) -> Amount {
    Amount::from_u64(units)
}

fn deposit(client: u16, tx: u32, units: u64) -> Transaction {
    Transaction::deposit(AccountId(client), TransactionId(tx), amount(units)).unwrap()
}

fn withdraw(client: u16, tx: u32, units: u64) -> Transaction {
    Transaction::withdraw(AccountId(client), TransactionId(tx), amount(units)).unwrap()
}

fn dispute(client: u16, target: u32) -> Transaction {
    Transaction::dispute(AccountId(client), TransactionId(target))
}

fn resolve(client: u16, target: u32) -> Transaction {
    Transaction::resolve(AccountId(client), TransactionId(target))
}

fn charge_back(client: u16, target: u32) -> Transaction {
    Transaction::charge_back(AccountId(client), TransactionId(target))
}

fn only_state(txs: Vec<Transaction>) -> AccountState {
    let states = transaction_broker_sync(txs);
    assert_eq!(states.len(), 1);
    states[0]
}

fn expect(state: AccountState, client: u16, available: u64, held: u64, total: u64, locked: bool) {
    assert_eq!(state.id, AccountId(client));
    assert_eq!(state.available, amount(available));
    assert_eq!(state.held, amount(held));
    assert_eq!(state.total(), Ok(amount(total)));
    let expected_lock = if locked { IsLocked::Locked } else { IsLocked::Unlocked };
    assert_eq!(state.is_locked, expected_lock);
}

#[test]
fn deposit_then_withdraw() {
    let state = only_state(vec![deposit(1, 1, 10), withdraw(1, 2, 4)]);
    expect(state, 1, 6, 0, 6, false);
}

#[test]
fn insufficient_withdraw_is_a_no_op() {
    let state = only_state(vec![deposit(1, 1, 5), withdraw(1, 2, 100)]);
    expect(state, 1, 5, 0, 5, false);
}

#[test]
fn dispute_then_resolve_restores_availability() {
    let mid = only_state(vec![deposit(1, 1, 10), dispute(1, 1)]);
    expect(mid, 1, 0, 10, 10, false);
    let state = only_state(vec![deposit(1, 1, 10), dispute(1, 1), resolve(1, 1)]);
    expect(state, 1, 10, 0, 10, false);
}

#[test]
fn dispute_then_charge_back_locks() {
    let state = only_state(vec![deposit(1, 1, 10), dispute(1, 1), charge_back(1, 1)]);
    expect(state, 1, 0, 0, 0, true);

    let mut account = Account::from_id(AccountId(1));
    for tx in [deposit(1, 1, 10), dispute(1, 1), charge_back(1, 1)] {
        account.try_apply_transaction(tx).unwrap();
    }
    assert_eq!(account.try_apply_transaction(deposit(1, 3, 1)), Err(Error::LockedAccount));
    assert_eq!(account.try_apply_transaction(withdraw(1, 4, 1)), Err(Error::LockedAccount));
    let after = only_state(vec![
        deposit(1, 1, 10),
        dispute(1, 1),
        charge_back(1, 1),
        deposit(1, 3, 7),
        resolve(1, 1),
    ]);
    expect(after, 1, 0, 0, 0, true);
}

#[test]
fn dispute_of_withdrawn_deposit_fails() {
    let mut account = Account::from_id(AccountId(1));
    account.try_apply_transaction(deposit(1, 1, 10)).unwrap();
    account.try_apply_transaction(withdraw(1, 2, 10)).unwrap();
    assert_eq!(
        account.try_apply_transaction(dispute(1, 1)),
        Err(Error::InsufficientFundsForDispute)
    );
    let state = only_state(vec![deposit(1, 1, 10), withdraw(1, 2, 10), dispute(1, 1)]);
    expect(state, 1, 0, 0, 0, false);
}

#[test]
fn re_dispute_after_resolve_is_permitted() {
    let state =
        only_state(vec![deposit(1, 1, 10), dispute(1, 1), resolve(1, 1), dispute(1, 1)]);
    expect(state, 1, 0, 10, 10, false);
}

#[test]
fn cross_account_independence() {
    let one = vec![deposit(1, 1, 10), dispute(1, 1), resolve(1, 1), withdraw(1, 4, 3)];
    let two = vec![deposit(2, 2, 20), withdraw(2, 3, 5), dispute(2, 2), charge_back(2, 2)];
    let mixed = vec![one[0], two[0], two[1], one[1], two[2], one[2], one[3], two[3]];
    let mut states = transaction_broker_sync(mixed);
    states.sort_by_key(|s| s.id.0);
    assert_eq!(states.len(), 2);
    assert_eq!(states[0], only_state(one));
    assert_eq!(states[1], only_state(two));
    expect(states[0], 1, 7, 0, 7, false);
    expect(states[1], 2, 15, 0, 15, false);
}

#[test]
fn broker_on_empty_input() {
    assert!(transaction_broker_sync(Vec::new()).is_empty());
}

#[test]
fn broker_reports_each_account_once() {
    let txs = vec![deposit(3, 1, 1), deposit(1, 2, 1), deposit(3, 3, 1), withdraw(2, 4, 1)];
    let mut ids: Vec<u16> = transaction_broker_sync(txs).iter().map(|s| s.id.0).collect();
    ids.sort();
    assert_eq!(ids, vec![1, 2, 3]);
}

#[test]
fn dispatcher_routes_each_account_to_one_worker() {
    let mut dispatcher = Dispatcher::new();
    assert_eq!(dispatcher.route(&deposit(7, 1, 1)), (0, true));
    assert_eq!(dispatcher.route(&deposit(9, 2, 1)), (1, true));
    assert_eq!(dispatcher.route(&dispute(7, 1)), (0, false));
    assert_eq!(dispatcher.route(&deposit(4, 3, 1)), (2, true));
    assert_eq!(dispatcher.route(&withdraw(9, 4, 1)), (1, false));
}

#[test]
fn dispatcher_keeps_per_account_order() {
    let input = vec![
        deposit(1, 1, 10),
        deposit(2, 2, 20),
        dispute(1, 1),
        withdraw(2, 3, 5),
        resolve(1, 1),
    ];
    let mut dispatcher = Dispatcher::new();
    let mut queues: Vec<Vec<Transaction>> = Vec::new();
    for tx in &input {
        let (worker, fresh) = dispatcher.route(tx);
        if fresh {
            queues.push(Vec::new());
        }
        queues[worker].push(*tx);
    }
    assert_eq!(queues, vec![vec![input[0], input[2], input[4]], vec![input[1], input[3]]]);
}
