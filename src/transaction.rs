use vstd::prelude::*;

use crate::amount::{Amount, lemma_amount_view_injective};
use crate::error::Error;

verus! {

/// A client account's identifier.
#[derive(Debug, Clone, Copy, PartialEq, Eq, Hash, Structural)]
pub struct AccountId(pub u16);

/// A transaction's identifier. Primary transactions (deposits and
/// withdrawals) are expected to carry distinct identifiers.
#[derive(Debug, Clone, Copy, PartialEq, Eq, Hash, Structural)]
pub struct TransactionId(pub u32);

/// A deposit: an identifier and an amount above zero.
#[derive(Debug, Clone, Copy, PartialEq, Eq)]
pub struct Deposit {
    tx_id: TransactionId,
    amount: Amount,
}

impl View for Deposit {
    /// The identifier and the amount in ten-thousandths.
    type V = (u32, nat);

    closed spec fn view(&self) -> (u32, nat) {
        (self.tx_id.0, self.amount@)
    }
}

impl Deposit {
    #[verifier::type_invariant]
    spec fn positive(self) -> bool {
        self.amount@ > 0
    }

    /// A deposit of `amount`; `InsufficientDepositAmount` when it is zero.
    pub fn new(tx_id: TransactionId, amount: Amount) -> (r: Result<Deposit, Error>)
        ensures
            match r {
                Ok(d) => amount@ > 0 && d@ == (tx_id.0, amount@),
                Err(e) => amount@ == 0 && e == Error::InsufficientDepositAmount,
            },
    {
        if amount.is_zero() {
            Err(Error::InsufficientDepositAmount)
        } else {
            Ok(Deposit { tx_id, amount })
        }
    }

    pub fn tx_id(&self) -> (r: &TransactionId)
        ensures
            r.0 == self@.0,
    {
        &self.tx_id
    }

    pub fn to_tx_id(&self) -> (r: TransactionId)
        ensures
            r.0 == self@.0,
    {
        self.tx_id
    }

    /// The amount, which is above zero.
    pub fn amount(&self) -> (r: &Amount)
        ensures
            r@ == self@.1,
            r@ > 0,
    {
        proof {
            use_type_invariant(self);
        }
        &self.amount
    }

    /// The amount, which is above zero.
    pub fn to_amount(&self) -> (r: Amount)
        ensures
            r@ == self@.1,
            r@ > 0,
    {
        proof {
            use_type_invariant(self);
        }
        self.amount
    }
}

/// Two deposits with the same identifier and amount are the same deposit.
pub proof fn lemma_deposit_view_injective(a: Deposit, b: Deposit)
    requires
        a@ == b@,
    ensures
        a == b,
{
    lemma_amount_view_injective(a.amount, b.amount);
}

/// Two withdrawals with the same identifier and amount are the same
/// withdrawal.
pub proof fn lemma_withdraw_view_injective(a: Withdraw, b: Withdraw)
    requires
        a@ == b@,
    ensures
        a == b,
{
    lemma_amount_view_injective(a.amount, b.amount);
}

/// A withdrawal: an identifier and an amount above zero.
#[derive(Debug, Clone, Copy, PartialEq, Eq)]
pub struct Withdraw {
    tx_id: TransactionId,
    amount: Amount,
}

impl View for Withdraw {
    /// The identifier and the amount in ten-thousandths.
    type V = (u32, nat);

    closed spec fn view(&self) -> (u32, nat) {
        (self.tx_id.0, self.amount@)
    }
}

impl Withdraw {
    #[verifier::type_invariant]
    spec fn positive(self) -> bool {
        self.amount@ > 0
    }

    /// A withdrawal of `amount`; `InsufficientWithdrawAmount` when it is zero.
    pub fn new(tx_id: TransactionId, amount: Amount) -> (r: Result<Withdraw, Error>)
        ensures
            match r {
                Ok(w) => amount@ > 0 && w@ == (tx_id.0, amount@),
                Err(e) => amount@ == 0 && e == Error::InsufficientWithdrawAmount,
            },
    {
        if amount.is_zero() {
            Err(Error::InsufficientWithdrawAmount)
        } else {
            Ok(Withdraw { tx_id, amount })
        }
    }

    pub fn tx_id(&self) -> (r: &TransactionId)
        ensures
            r.0 == self@.0,
    {
        &self.tx_id
    }

    pub fn to_tx_id(&self) -> (r: TransactionId)
        ensures
            r.0 == self@.0,
    {
        self.tx_id
    }

    /// The amount, which is above zero.
    pub fn amount(&self) -> (r: &Amount)
        ensures
            r@ == self@.1,
            r@ > 0,
    {
        proof {
            use_type_invariant(self);
        }
        &self.amount
    }

    /// The amount, which is above zero.
    pub fn to_amount(&self) -> (r: Amount)
        ensures
            r@ == self@.1,
            r@ > 0,
    {
        proof {
            use_type_invariant(self);
        }
        self.amount
    }
}

/// Disputes the deposit `target_tx_id`.
#[derive(Debug, Clone, Copy, PartialEq, Eq, Structural)]
pub struct Dispute {
    pub target_tx_id: TransactionId,
}

/// Settles the dispute on the deposit `target_tx_id` in the client's favour.
#[derive(Debug, Clone, Copy, PartialEq, Eq, Structural)]
pub struct Resolve {
    pub target_tx_id: TransactionId,
}

/// Settles the dispute on the deposit `target_tx_id` against the client.
#[derive(Debug, Clone, Copy, PartialEq, Eq, Structural)]
pub struct ChargeBack {
    pub target_tx_id: TransactionId,
}

/// What a transaction does.
#[derive(Debug, Clone, Copy, PartialEq, Eq)]
pub enum TransactionKind {
    Deposit(Deposit),
    Withdraw(Withdraw),
    Dispute(Dispute),
    Resolve(Resolve),
    ChargeBack(ChargeBack),
}

/// A transaction addressed to one client account.
#[derive(Debug, Clone, Copy, PartialEq, Eq)]
pub struct Transaction {
    pub target_account_id: AccountId,
    pub kind: TransactionKind,
}

impl Transaction {
    /// A deposit transaction; `InsufficientDepositAmount` when `amount` is zero.
    pub fn deposit(target_account_id: AccountId, tx_id: TransactionId, amount: Amount) -> (r:
        Result<Transaction, Error>)
        ensures
            match r {
                Ok(t) => amount@ > 0 && t.target_account_id == target_account_id && (
                match t.kind {
                    TransactionKind::Deposit(d) => d@ == (tx_id.0, amount@),
                    _ => false,
                }),
                Err(e) => amount@ == 0 && e == Error::InsufficientDepositAmount,
            },
    {
        match Deposit::new(tx_id, amount) {
            Ok(d) => Ok(Transaction { target_account_id, kind: TransactionKind::Deposit(d) }),
            Err(e) => Err(e),
        }
    }

    /// A withdrawal transaction; `InsufficientWithdrawAmount` when `amount` is zero.
    pub fn withdraw(target_account_id: AccountId, tx_id: TransactionId, amount: Amount) -> (r:
        Result<Transaction, Error>)
        ensures
            match r {
                Ok(t) => amount@ > 0 && t.target_account_id == target_account_id && (
                match t.kind {
                    TransactionKind::Withdraw(w) => w@ == (tx_id.0, amount@),
                    _ => false,
                }),
                Err(e) => amount@ == 0 && e == Error::InsufficientWithdrawAmount,
            },
    {
        match Withdraw::new(tx_id, amount) {
            Ok(w) => Ok(Transaction { target_account_id, kind: TransactionKind::Withdraw(w) }),
            Err(e) => Err(e),
        }
    }

    /// A dispute of the deposit `target_tx_id`.
    pub fn dispute(target_account_id: AccountId, target_tx_id: TransactionId) -> (r: Transaction)
        ensures
            r == (Transaction {
                target_account_id,
                kind: TransactionKind::Dispute(Dispute { target_tx_id }),
            }),
    {
        Transaction { target_account_id, kind: TransactionKind::Dispute(Dispute { target_tx_id }) }
    }

    /// A resolve of the dispute on the deposit `target_tx_id`.
    pub fn resolve(target_account_id: AccountId, target_tx_id: TransactionId) -> (r: Transaction)
        ensures
            r == (Transaction {
                target_account_id,
                kind: TransactionKind::Resolve(Resolve { target_tx_id }),
            }),
    {
        Transaction { target_account_id, kind: TransactionKind::Resolve(Resolve { target_tx_id }) }
    }

    /// A chargeback of the deposit `target_tx_id`.
    pub fn charge_back(target_account_id: AccountId, target_tx_id: TransactionId) -> (r:
        Transaction)
        ensures
            r == (Transaction {
                target_account_id,
                kind: TransactionKind::ChargeBack(ChargeBack { target_tx_id }),
            }),
    {
        Transaction {
            target_account_id,
            kind: TransactionKind::ChargeBack(ChargeBack { target_tx_id }),
        }
    }
}

} // verus!
