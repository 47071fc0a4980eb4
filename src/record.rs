use vstd::prelude::*;
use vstd::utf8::{encode_utf8, encode_utf8_decode_utf8};

use crate::account::AccountState;
use crate::amount::{Amount, MAX_UNITS};
use crate::error::Error;
use crate::invariants::tx_valid;
use crate::transaction::{
    AccountId, ChargeBack, Dispute, Resolve, Transaction, TransactionId, TransactionKind, lemma_deposit_view_injective,
    lemma_withdraw_view_injective,
};

verus! {

/// The kind of a transaction record, written in lower case in the record.
#[derive(Debug, Clone, Copy, PartialEq, Eq, Structural)]
pub enum RecordType {
    Deposit,
    Withdraw,
    Dispute,
    Resolve,
    ChargeBack,
}

/// The name a record gives each kind.
pub open spec fn record_name(t: RecordType) -> Seq<char> {
    match t {
        RecordType::Deposit => "deposit"@,
        RecordType::Withdraw => "withdraw"@,
        RecordType::Dispute => "dispute"@,
        RecordType::Resolve => "resolve"@,
        RecordType::ChargeBack => "chargeback"@,
    }
}

/// Whether two strings hold the same characters.
fn same_text(a: &str, b: &str) -> (r: bool)
    ensures
        r == (a@ == b@),
{
    let x = a.as_bytes();
    let y = b.as_bytes();
    proof {
        encode_utf8_decode_utf8(a@);
        encode_utf8_decode_utf8(b@);
    }
    if x.len() != y.len() {
        return false;
    }
    let mut i: usize = 0;
    while i < x.len()
        invariant
            x@ == encode_utf8(a@),
            y@ == encode_utf8(b@),
            x@.len() == y@.len(),
            i <= x@.len(),
            forall|j: int| 0 <= j < i ==> x@[j] == y@[j],
        decreases x@.len() - i,
    {
        if x[i] != y[i] {
            proof {
                if a@ == b@ {
                    assert(encode_utf8(a@) == encode_utf8(b@));
                }
            }
            return false;
        }
        i = i + 1;
    }
    assert(x@ =~= y@);
    true
}

impl RecordType {
    /// The record name of this kind.
    pub fn name(&self) -> (r: &'static str)
        ensures
            r@ == record_name(*self),
    {
        match self {
            RecordType::Deposit => {
                proof {
                    reveal_strlit("deposit");
                }
                "deposit"
            },
            RecordType::Withdraw => {
                proof {
                    reveal_strlit("withdraw");
                }
                "withdraw"
            },
            RecordType::Dispute => {
                proof {
                    reveal_strlit("dispute");
                }
                "dispute"
            },
            RecordType::Resolve => {
                proof {
                    reveal_strlit("resolve");
                }
                "resolve"
            },
            RecordType::ChargeBack => {
                proof {
                    reveal_strlit("chargeback");
                }
                "chargeback"
            },
        }
    }

    /// The kind that `name` names, or `None` when it names none.
    pub fn from_name(name: &str) -> (r: Option<RecordType>)
        ensures
            match r {
                Some(t) => name@ == record_name(t),
                None => forall|t: RecordType| name@ != #[trigger] record_name(t),
            },
    {
        let kinds = [
            RecordType::Deposit,
            RecordType::Withdraw,
            RecordType::Dispute,
            RecordType::Resolve,
            RecordType::ChargeBack,
        ];
        let mut i: usize = 0;
        while i < 5
            invariant
                i <= 5,
                kinds@ == seq![
                    RecordType::Deposit,
                    RecordType::Withdraw,
                    RecordType::Dispute,
                    RecordType::Resolve,
                    RecordType::ChargeBack,
                ],
                forall|j: int| 0 <= j < i ==> name@ != record_name(#[trigger] kinds@[j]),
            decreases 5 - i,
        {
            let kind = kinds[i];
            if same_text(name, kind.name()) {
                return Some(kind);
            }
            i = i + 1;
        }
        assert forall|t: RecordType| name@ != #[trigger] record_name(t) by {
            match t {
                RecordType::Deposit => assert(kinds@[0] == t),
                RecordType::Withdraw => assert(kinds@[1] == t),
                RecordType::Dispute => assert(kinds@[2] == t),
                RecordType::Resolve => assert(kinds@[3] == t),
                RecordType::ChargeBack => assert(kinds@[4] == t),
            }
        }
        None
    }
}

/// A transaction as a flat record: its kind, client, transaction id and, for
/// deposits and withdrawals, its amount. For disputes, resolves and
/// chargebacks the transaction id is the target deposit's.
#[derive(Debug, Clone, Copy, PartialEq, Eq)]
pub struct TransactionRecord {
    pub record_type: RecordType,
    pub client: AccountId,
    pub tx: TransactionId,
    pub amount: Option<Amount>,
}

/// `rec` is the record of `tx`.
pub open spec fn encodes(tx: Transaction, rec: TransactionRecord) -> bool {
    &&& rec.client == tx.target_account_id
    &&& match tx.kind {
        TransactionKind::Deposit(d) => rec.record_type == RecordType::Deposit && rec.tx.0
            == d@.0 && rec.amount is Some && rec.amount.unwrap()@ == d@.1,
        TransactionKind::Withdraw(w) => rec.record_type == RecordType::Withdraw && rec.tx.0
            == w@.0 && rec.amount is Some && rec.amount.unwrap()@ == w@.1,
        TransactionKind::Dispute(t) => rec.record_type == RecordType::Dispute && rec.tx
            == t.target_tx_id && rec.amount is None,
        TransactionKind::Resolve(t) => rec.record_type == RecordType::Resolve && rec.tx
            == t.target_tx_id && rec.amount is None,
        TransactionKind::ChargeBack(t) => rec.record_type == RecordType::ChargeBack && rec.tx
            == t.target_tx_id && rec.amount is None,
    }
}

/// A record that can be read back: deposits and withdrawals carry an amount.
pub open spec fn record_complete(rec: TransactionRecord) -> bool {
    (rec.record_type == RecordType::Deposit || rec.record_type == RecordType::Withdraw)
        ==> rec.amount is Some
}

/// `r` is what reading the record `rec` back gives: the transaction it
/// describes, or the error its construction gives for a zero amount.
pub open spec fn decodes(rec: TransactionRecord, r: Result<Transaction, Error>) -> bool {
    match rec.record_type {
        RecordType::Deposit => match r {
            Ok(t) => rec.amount.unwrap()@ > 0 && t.target_account_id == rec.client && match t.kind {
                TransactionKind::Deposit(d) => d@ == (rec.tx.0, rec.amount.unwrap()@),
                _ => false,
            },
            Err(e) => rec.amount.unwrap()@ == 0 && e == Error::InsufficientDepositAmount,
        },
        RecordType::Withdraw => match r {
            Ok(t) => rec.amount.unwrap()@ > 0 && t.target_account_id == rec.client && match t.kind {
                TransactionKind::Withdraw(w) => w@ == (rec.tx.0, rec.amount.unwrap()@),
                _ => false,
            },
            Err(e) => rec.amount.unwrap()@ == 0 && e == Error::InsufficientWithdrawAmount,
        },
        RecordType::Dispute => r == Ok::<Transaction, Error>(
            Transaction {
                target_account_id: rec.client,
                kind: TransactionKind::Dispute(Dispute { target_tx_id: rec.tx }),
            },
        ),
        RecordType::Resolve => r == Ok::<Transaction, Error>(
            Transaction {
                target_account_id: rec.client,
                kind: TransactionKind::Resolve(Resolve { target_tx_id: rec.tx }),
            },
        ),
        RecordType::ChargeBack => r == Ok::<Transaction, Error>(
            Transaction {
                target_account_id: rec.client,
                kind: TransactionKind::ChargeBack(ChargeBack { target_tx_id: rec.tx }),
            },
        ),
    }
}

impl TransactionRecord {
    /// The record of `tx`.
    pub fn from_transaction(tx: Transaction) -> (r: TransactionRecord)
        ensures
            encodes(tx, r),
            record_complete(r),
    {
        let client = tx.target_account_id;
        match tx.kind {
            TransactionKind::Deposit(deposit) => TransactionRecord {
                record_type: RecordType::Deposit,
                client,
                tx: deposit.to_tx_id(),
                amount: Some(deposit.to_amount()),
            },
            TransactionKind::Withdraw(withdraw) => TransactionRecord {
                record_type: RecordType::Withdraw,
                client,
                tx: withdraw.to_tx_id(),
                amount: Some(withdraw.to_amount()),
            },
            TransactionKind::Dispute(dispute) => TransactionRecord {
                record_type: RecordType::Dispute,
                client,
                tx: dispute.target_tx_id,
                amount: None,
            },
            TransactionKind::Resolve(resolve) => TransactionRecord {
                record_type: RecordType::Resolve,
                client,
                tx: resolve.target_tx_id,
                amount: None,
            },
            TransactionKind::ChargeBack(charge_back) => TransactionRecord {
                record_type: RecordType::ChargeBack,
                client,
                tx: charge_back.target_tx_id,
                amount: None,
            },
        }
    }

    /// The transaction the record describes, built through the checked
    /// constructors, so that a zero amount is refused. The amount of a
    /// dispute, resolve or chargeback record is ignored.
    pub fn into_transaction(self) -> (r: Result<Transaction, Error>)
        requires
            record_complete(self),
        ensures
            decodes(self, r),
    {
        match self.record_type {
            RecordType::Deposit => Transaction::deposit(self.client, self.tx, self.amount.unwrap()),
            RecordType::Withdraw => Transaction::withdraw(self.client, self.tx, self.amount.unwrap()),
            RecordType::Dispute => Ok(Transaction::dispute(self.client, self.tx)),
            RecordType::Resolve => Ok(Transaction::resolve(self.client, self.tx)),
            RecordType::ChargeBack => Ok(Transaction::charge_back(self.client, self.tx)),
        }
    }
}

/// Writing a transaction as a record and reading the record back gives the
/// same transaction.
pub proof fn lemma_record_round_trip(
    tx: Transaction,
    rec: TransactionRecord,
    r: Result<Transaction, Error>,
)
    requires
        tx_valid(tx),
        encodes(tx, rec),
        decodes(rec, r),
    ensures
        r == Ok::<Transaction, Error>(tx),
{
    match tx.kind {
        TransactionKind::Deposit(d) => {
            let t = r.unwrap();
            if let TransactionKind::Deposit(d2) = t.kind {
                lemma_deposit_view_injective(d, d2);
            }
        },
        TransactionKind::Withdraw(w) => {
            let t = r.unwrap();
            if let TransactionKind::Withdraw(w2) = t.kind {
                lemma_withdraw_view_injective(w, w2);
            }
        },
        _ => {},
    }
}

/// The final state of an account as an output record: its state and its
/// total funds.
#[derive(Debug, Clone, Copy, PartialEq, Eq)]
pub struct AccountStateRecord {
    pub account_state: AccountState,
    pub total: Amount,
}

impl AccountStateRecord {
    /// The record of `account_state`; `TotalOverflow` when available plus
    /// held funds exceed the maximum.
    pub fn from_state(account_state: AccountState) -> (r: Result<AccountStateRecord, Error>)
        ensures
            match r {
                Ok(rec) => rec.account_state == account_state && account_state.available@
                    + account_state.held@ <= MAX_UNITS && rec.total@ == account_state.available@
                    + account_state.held@,
                Err(e) => account_state.available@ + account_state.held@ > MAX_UNITS && e
                    == Error::TotalOverflow,
            },
    {
        match account_state.total() {
            Ok(total) => Ok(AccountStateRecord { account_state, total }),
            Err(e) => Err(e),
        }
    }
}

} // verus!
