use account::{
    AccountId, AccountState, AccountStateRecord, Amount, Error, IsLocked, RecordType,
    Transaction, TransactionId, TransactionRecord,
};

#[test]
fn record_names() {
    assert_eq!(RecordType::Deposit.name(), "deposit");
    assert_eq!(RecordType::Withdraw.name(), "withdraw");
    assert_eq!(RecordType::Dispute.name(), "dispute");
    assert_eq!(RecordType::Resolve.name(), "resolve");
    assert_eq!(RecordType::ChargeBack.name(), "chargeback");
}

#[test]
fn record_names_parse() {
    assert_eq!(RecordType::from_name("deposit"), Some(RecordType::Deposit));
    assert_eq!(RecordType::from_name("withdraw"), Some(RecordType::Withdraw));
    assert_eq!(RecordType::from_name("dispute"), Some(RecordType::Dispute));
    assert_eq!(RecordType::from_name("resolve"), Some(RecordType::Resolve));
    assert_eq!(RecordType::from_name("chargeback"), Some(RecordType::ChargeBack));
    assert_eq!(RecordType::from_name("Deposit"), None);
    assert_eq!(RecordType::from_name("charge_back"), None);
    assert_eq!(RecordType::from_name(""), None);
}

#[test]
fn record_round_trip() {
    let txs = vec![
        Transaction::deposit(AccountId(1), TransactionId(5), Amount::from_u64(3)).unwrap(),
        Transaction::withdraw(AccountId(2), TransactionId(6), Amount::from_u64(1)).unwrap(),
        Transaction::dispute(AccountId(1), TransactionId(5)),
        Transaction::resolve(AccountId(1), TransactionId(5)),
        Transaction::charge_back(AccountId(1), TransactionId(5)),
    ];
    for tx in txs {
        let record = TransactionRecord::from_transaction(tx);
        assert_eq!(record.client, tx.target_account_id);
        assert_eq!(record.into_transaction(), Ok(tx));
    }
}

#[test]
fn record_fields() {
    let tx = Transaction::deposit(AccountId(4), TransactionId(9), Amount::from_u64(7)).unwrap();
    let record = TransactionRecord::from_transaction(tx);
    assert_eq!(record.record_type, RecordType::Deposit);
    assert_eq!(record.tx, TransactionId(9));
    assert_eq!(record.amount, Some(Amount::from_u64(7)));
    let dispute = TransactionRecord::from_transaction(Transaction::dispute(AccountId(4), TransactionId(9)));
    assert_eq!(dispute.record_type, RecordType::Dispute);
    assert_eq!(dispute.amount, None);
}

#[test]
fn record_with_zero_amount_is_refused() {
    let deposit = TransactionRecord {
        record_type: RecordType::Deposit,
        client: AccountId(1),
        tx: TransactionId(1),
        amount: Some(Amount::zero()),
    };
    assert_eq!(deposit.into_transaction(), Err(Error::InsufficientDepositAmount));
    let withdraw = TransactionRecord { record_type: RecordType::Withdraw, ..deposit };
    assert_eq!(withdraw.into_transaction(), Err(Error::InsufficientWithdrawAmount));
}

#[test]
fn zero_amount_constructors_are_refused() {
    assert_eq!(
        Transaction::deposit(AccountId(1), TransactionId(1), Amount::zero()),
        Err(Error::InsufficientDepositAmount)
    );
    assert_eq!(
        Transaction::withdraw(AccountId(1), TransactionId(1), Amount::zero()),
        Err(Error::InsufficientWithdrawAmount)
    );
}

#[test]
fn account_state_record_total() {
    let state = AccountState {
        id: AccountId(1),
        available: Amount::from_u64(6),
        held: Amount::from_u64(4),
        is_locked: IsLocked::Unlocked,
    };
    let record = AccountStateRecord::from_state(state).unwrap();
    assert_eq!(record.total, Amount::from_u64(10));
    assert_eq!(record.account_state, state);

    let full = AccountState { available: Amount::maximum(), held: Amount::from_u64(1), ..state };
    assert_eq!(AccountStateRecord::from_state(full), Err(Error::TotalOverflow));
}
