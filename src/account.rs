use std::collections::HashMap;

use vstd::prelude::*;

use crate::amount::{Amount, MAX_UNITS};
use crate::error::Error;
use crate::transaction::{
    AccountId, ChargeBack, Deposit, Dispute, Resolve, Transaction, TransactionKind, Withdraw,
};

verus! {

broadcast use vstd::std_specs::hash::group_hash_axioms;

/// Whether an account still accepts transactions.
#[derive(Debug, Clone, Copy, PartialEq, Eq, Structural)]
pub enum IsLocked {
    Locked,
    Unlocked,
}

/// Where a recorded deposit stands in its dispute lifecycle.
#[derive(Debug, Clone, Copy, PartialEq, Eq, Structural)]
pub enum DisputeState {
    /// Never disputed, or disputed and then resolved.
    NotDisputed,
    /// Under dispute: its amount is held.
    Disputed,
    /// Charged back; it can no longer be referenced.
    ChargedBack,
}

/// The observable state of an account.
#[derive(Debug, Clone, Copy, PartialEq, Eq)]
pub struct AccountState {
    pub id: AccountId,
    pub available: Amount,
    pub held: Amount,
    pub is_locked: IsLocked,
}

impl AccountState {
    /// An empty, unlocked account.
    pub fn from_id(id: AccountId) -> (r: AccountState)
        ensures
            r.id == id,
            r.available@ == 0,
            r.held@ == 0,
            r.is_locked == IsLocked::Unlocked,
    {
        AccountState {
            id,
            available: Amount::zero(),
            held: Amount::zero(),
            is_locked: IsLocked::Unlocked,
        }
    }

    /// `available + held`; `TotalOverflow` when the sum exceeds the maximum.
    pub fn total(&self) -> (r: Result<Amount, Error>)
        ensures
            match r {
                Ok(t) => self.available@ + self.held@ <= MAX_UNITS && t@ == self.available@
                    + self.held@,
                Err(e) => self.available@ + self.held@ > MAX_UNITS && e == Error::TotalOverflow,
            },
    {
        match self.available.checked_add(&self.held) {
            Some(t) => Ok(t),
            None => Err(Error::TotalOverflow),
        }
    }
}

/// The mathematical model of an account: its balances in ten-thousandths,
/// whether it is locked, and each recorded deposit's amount and dispute state.
pub struct AccountModel {
    pub id: u16,
    pub available: nat,
    pub held: nat,
    pub locked: bool,
    pub deposits: Map<u32, (nat, DisputeState)>,
}

/// What a recorded deposit currently adds to the held funds.
pub open spec fn held_part(entry: (nat, DisputeState)) -> nat {
    if entry.1 == DisputeState::Disputed {
        entry.0
    } else {
        0
    }
}

/// The sum of the amounts of the deposits under dispute.
pub open spec fn disputed_sum(m: Map<u32, (nat, DisputeState)>) -> nat
    decreases m.dom().len(),
{
    if m.dom().finite() && m.dom().len() > 0 {
        let k = m.dom().choose();
        held_part(m[k]) + disputed_sum(m.remove(k))
    } else {
        0
    }
}

/// The account invariant: finitely many deposits, each above zero, and held
/// funds that cover every deposit under dispute.
pub open spec fn model_wf(s: AccountModel) -> bool {
    &&& s.available <= MAX_UNITS
    &&& s.held <= MAX_UNITS
    &&& s.deposits.dom().finite()
    &&& forall|k: u32| #[trigger] s.deposits.contains_key(k) ==> s.deposits[k].0 > 0
    &&& disputed_sum(s.deposits) <= s.held
}

/// A new account: nothing available or held, unlocked, no deposits.
pub open spec fn empty_model(id: u16) -> AccountModel {
    AccountModel { id, available: 0, held: 0, locked: false, deposits: Map::empty() }
}

/// The model after the deposit `tx_id` of `amount`, or why it is refused.
pub open spec fn deposit_step(s: AccountModel, tx_id: u32, amount: nat) -> Result<AccountModel, Error> {
    if s.available + amount > MAX_UNITS {
        Err(Error::DepositOverflow)
    } else {
        Ok(
            AccountModel {
                available: s.available + amount,
                deposits: s.deposits.insert(tx_id, (amount, DisputeState::NotDisputed)),
                ..s
            },
        )
    }
}

/// The model after a withdrawal of `amount`, or why it is refused.
pub open spec fn withdraw_step(s: AccountModel, amount: nat) -> Result<AccountModel, Error> {
    if amount > s.available {
        Err(Error::InsufficientFundsForWithdraw)
    } else {
        Ok(AccountModel { available: (s.available - amount) as nat, ..s })
    }
}

/// The model after a dispute of the deposit `target`, or why it is refused.
pub open spec fn dispute_step(s: AccountModel, target: u32) -> Result<AccountModel, Error> {
    if !s.deposits.contains_key(target) {
        Err(Error::InvalidDisputeTarget)
    } else {
        let (amount, state) = s.deposits[target];
        match state {
            DisputeState::NotDisputed => if amount > s.available {
                Err(Error::InsufficientFundsForDispute)
            } else if s.held + amount > MAX_UNITS {
                Err(Error::DisputeOverflow)
            } else {
                Ok(
                    AccountModel {
                        available: (s.available - amount) as nat,
                        held: s.held + amount,
                        deposits: s.deposits.insert(target, (amount, DisputeState::Disputed)),
                        ..s
                    },
                )
            },
            DisputeState::Disputed => Err(Error::AlreadyDisputed),
            DisputeState::ChargedBack => Err(Error::AlreadyChargedBack),
        }
    }
}

/// The model after a resolve of the deposit `target`, or why it is refused.
pub open spec fn resolve_step(s: AccountModel, target: u32) -> Result<AccountModel, Error> {
    if !s.deposits.contains_key(target) {
        Err(Error::InvalidResolveTarget)
    } else {
        let (amount, state) = s.deposits[target];
        match state {
            DisputeState::Disputed => if s.available + amount > MAX_UNITS {
                Err(Error::ResolveOverflow)
            } else {
                Ok(
                    AccountModel {
                        available: s.available + amount,
                        held: (s.held - amount) as nat,
                        deposits: s.deposits.insert(target, (amount, DisputeState::NotDisputed)),
                        ..s
                    },
                )
            },
            DisputeState::NotDisputed => Err(Error::TargetNotDisputed),
            DisputeState::ChargedBack => Err(Error::AlreadyChargedBack),
        }
    }
}

/// The model after a chargeback of the deposit `target`, or why it is refused.
pub open spec fn charge_back_step(s: AccountModel, target: u32) -> Result<AccountModel, Error> {
    if !s.deposits.contains_key(target) {
        Err(Error::InvalidChargeBackTarget)
    } else {
        let (amount, state) = s.deposits[target];
        match state {
            DisputeState::Disputed => Ok(
                AccountModel {
                    held: (s.held - amount) as nat,
                    locked: true,
                    deposits: s.deposits.insert(target, (amount, DisputeState::ChargedBack)),
                    ..s
                },
            ),
            DisputeState::NotDisputed => Err(Error::TargetNotDisputed),
            DisputeState::ChargedBack => Err(Error::AlreadyChargedBack),
        }
    }
}

/// The model after applying `kind`, or why it is refused. A locked account
/// refuses everything.
pub open spec fn step(s: AccountModel, kind: TransactionKind) -> Result<AccountModel, Error> {
    if s.locked {
        Err(Error::LockedAccount)
    } else {
        match kind {
            TransactionKind::Deposit(d) => deposit_step(s, d@.0, d@.1),
            TransactionKind::Withdraw(w) => withdraw_step(s, w@.1),
            TransactionKind::Dispute(t) => dispute_step(s, t.target_tx_id.0),
            TransactionKind::Resolve(t) => resolve_step(s, t.target_tx_id.0),
            TransactionKind::ChargeBack(t) => charge_back_step(s, t.target_tx_id.0),
        }
    }
}

/// The model after applying `kind`; a refused transaction changes nothing.
pub open spec fn apply(s: AccountModel, kind: TransactionKind) -> AccountModel {
    match step(s, kind) {
        Ok(n) => n,
        Err(_) => s,
    }
}

/// The model after applying `txs` in order, starting from `s`.
pub open spec fn run(s: AccountModel, txs: Seq<Transaction>) -> AccountModel
    decreases txs.len(),
{
    if txs.len() == 0 {
        s
    } else {
        apply(run(s, txs.drop_last()), txs.last().kind)
    }
}

/// The amount and dispute state of a recorded deposit entry.
pub open spec fn entry_model(e: (Deposit, DisputeState)) -> (nat, DisputeState) {
    (e.0@.1, e.1)
}

/// The model once the observable state is `st` and the deposit `key` has
/// the entry `entry`.
spec fn committed(
    s: AccountModel,
    st: AccountState,
    key: u32,
    entry: (Deposit, DisputeState),
) -> AccountModel {
    AccountModel {
        id: st.id.0,
        available: st.available@,
        held: st.held@,
        locked: st.is_locked == IsLocked::Locked,
        deposits: s.deposits.insert(key, entry_model(entry)),
    }
}

/// A client account: its observable state and, for each accepted deposit, the
/// deposit and its dispute state.
#[derive(Debug)]
pub struct Account {
    state: AccountState,
    deposits: HashMap<u32, (Deposit, DisputeState)>,
}

impl View for Account {
    type V = AccountModel;

    closed spec fn view(&self) -> AccountModel {
        AccountModel {
            id: self.state.id.0,
            available: self.state.available@,
            held: self.state.held@,
            locked: self.state.is_locked == IsLocked::Locked,
            deposits: self.deposits@.map_values(|e: (Deposit, DisputeState)| entry_model(e)),
        }
    }
}

impl Account {
    #[verifier::type_invariant]
    spec fn consistent(self) -> bool {
        model_wf(self@)
    }

    /// Creates an empty account with the given id.
    pub fn from_id(id: AccountId) -> (r: Account)
        ensures
            r@ == empty_model(id.0),
    {
        let deposits = HashMap::new();
        assert(deposits@.map_values(|e: (Deposit, DisputeState)| entry_model(e)) =~= Map::empty());
        assert(disputed_sum(Map::empty()) == 0);
        Account { state: AccountState::from_id(id), deposits }
    }

    /// An account with the given balances and lock flag and no recorded
    /// deposits, so that nothing can be disputed.
    pub fn test_account(id: AccountId, available: Amount, held: Amount, is_locked: IsLocked) -> (r:
        Account)
        ensures
            r@ == (AccountModel {
                id: id.0,
                available: available@,
                held: held@,
                locked: is_locked == IsLocked::Locked,
                deposits: Map::empty(),
            }),
    {
        proof {
            use_type_invariant(&available);
            use_type_invariant(&held);
        }
        let deposits = HashMap::new();
        assert(deposits@.map_values(|e: (Deposit, DisputeState)| entry_model(e)) =~= Map::empty());
        assert(disputed_sum(Map::empty()) == 0);
        Account { state: AccountState { id, available, held, is_locked }, deposits }
    }

    /// The observable state.
    pub fn state(&self) -> (r: &AccountState)
        ensures
            r.id.0 == self@.id,
            r.available@ == self@.available,
            r.held@ == self@.held,
            (r.is_locked == IsLocked::Locked) == self@.locked,
    {
        &self.state
    }

    /// The observable state, consuming the account.
    pub fn into_state(self) -> (r: AccountState)
        ensures
            r.id.0 == self@.id,
            r.available@ == self@.available,
            r.held@ == self@.held,
            (r.is_locked == IsLocked::Locked) == self@.locked,
    {
        self.state
    }

    /// Replaces the observable state and writes one deposit entry, as one
    /// step that keeps the account invariant.
    fn commit(&mut self, new_state: AccountState, key: u32, entry: (Deposit, DisputeState))
        requires
            model_wf(committed(old(self)@, new_state, key, entry)),
        ensures
            final(self)@ == committed(old(self)@, new_state, key, entry),
    {
        let ghost old_deposits = self.deposits@;
        let mut taken = Account::from_id(new_state.id);
        core::mem::swap(self, &mut taken);
        let Account { state: _, deposits: mut deposits } = taken;
        deposits.insert(key, entry);
        assert(deposits@.map_values(|e: (Deposit, DisputeState)| entry_model(e))
            =~= old_deposits.map_values(|e: (Deposit, DisputeState)| entry_model(e)).insert(
            key,
            entry_model(entry),
        ));
        *self = Account { state: new_state, deposits };
    }

    fn try_apply_deposit(&mut self, deposit: Deposit) -> (r: Result<(), Error>)
        requires
            !old(self)@.locked,
        ensures
            match deposit_step(old(self)@, deposit@.0, deposit@.1) {
                Ok(n) => r is Ok && final(self)@ == n,
                Err(e) => r == Err::<(), Error>(e) && *final(self) == *old(self),
            },
    {
        proof {
            use_type_invariant(&*self);
        }
        let amount = deposit.to_amount();
        let new_available = match self.state.available.checked_add(&amount) {
            Some(a) => a,
            None => return Err(Error::DepositOverflow),
        };
        let key = deposit.tx_id().0;
        let new_state = AccountState { available: new_available, ..self.state };
        proof {
            lemma_disputed_sum_insert(self@.deposits, key, (deposit@.1, DisputeState::NotDisputed));
        }
        self.commit(new_state, key, (deposit, DisputeState::NotDisputed));
        Ok(())
    }

    fn try_apply_withdraw(&mut self, withdraw: &Withdraw) -> (r: Result<(), Error>)
        requires
            !old(self)@.locked,
        ensures
            match withdraw_step(old(self)@, withdraw@.1) {
                Ok(n) => r is Ok && final(self)@ == n,
                Err(e) => r == Err::<(), Error>(e) && *final(self) == *old(self),
            },
    {
        proof {
            use_type_invariant(&*self);
        }
        let amount = withdraw.to_amount();
        let new_available = match self.state.available.checked_sub(&amount) {
            Some(a) => a,
            None => return Err(Error::InsufficientFundsForWithdraw),
        };
        self.state = AccountState { available: new_available, ..self.state };
        Ok(())
    }

    fn try_apply_dispute(&mut self, dispute: &Dispute) -> (r: Result<(), Error>)
        requires
            !old(self)@.locked,
        ensures
            match dispute_step(old(self)@, dispute.target_tx_id.0) {
                Ok(n) => r is Ok && final(self)@ == n,
                Err(e) => r == Err::<(), Error>(e) && *final(self) == *old(self),
            },
    {
        proof {
            use_type_invariant(&*self);
        }
        let key = dispute.target_tx_id.0;
        let (deposit, dispute_state) = match self.deposits.get(&key) {
            Some(entry) => *entry,
            None => return Err(Error::InvalidDisputeTarget),
        };
        match dispute_state {
            DisputeState::NotDisputed => {
                let amount = deposit.to_amount();
                let new_available = match self.state.available.checked_sub(&amount) {
                    Some(a) => a,
                    None => return Err(Error::InsufficientFundsForDispute),
                };
                let new_held = match self.state.held.checked_add(&amount) {
                    Some(h) => h,
                    None => return Err(Error::DisputeOverflow),
                };
                let new_state = AccountState {
                    available: new_available,
                    held: new_held,
                    ..self.state
                };
                proof {
                    lemma_disputed_sum_insert(self@.deposits, key, (deposit@.1, DisputeState::Disputed));
                }
                self.commit(new_state, key, (deposit, DisputeState::Disputed));
                Ok(())
            },
            DisputeState::Disputed => Err(Error::AlreadyDisputed),
            DisputeState::ChargedBack => Err(Error::AlreadyChargedBack),
        }
    }

    fn try_apply_resolve(&mut self, resolve: &Resolve) -> (r: Result<(), Error>)
        requires
            !old(self)@.locked,
        ensures
            match resolve_step(old(self)@, resolve.target_tx_id.0) {
                Ok(n) => r is Ok && final(self)@ == n,
                Err(e) => r == Err::<(), Error>(e) && *final(self) == *old(self),
            },
    {
        proof {
            use_type_invariant(&*self);
        }
        let key = resolve.target_tx_id.0;
        let (deposit, dispute_state) = match self.deposits.get(&key) {
            Some(entry) => *entry,
            None => return Err(Error::InvalidResolveTarget),
        };
        match dispute_state {
            DisputeState::Disputed => {
                let amount = deposit.to_amount();
                let new_available = match self.state.available.checked_add(&amount) {
                    Some(a) => a,
                    None => return Err(Error::ResolveOverflow),
                };
                let ghost old_deposits = self@.deposits;
                proof {
                    lemma_disputed_sum_insert(old_deposits, key, old_deposits[key]);
                }
                // The held funds cover every deposit under dispute, this one
                // included, so this never goes below zero.
                let new_held = self.state.held.reduced_by(&amount);
                let new_state = AccountState {
                    available: new_available,
                    held: new_held,
                    ..self.state
                };
                proof {
                    lemma_disputed_sum_insert(old_deposits, key, (deposit@.1, DisputeState::NotDisputed));
                }
                self.commit(new_state, key, (deposit, DisputeState::NotDisputed));
                Ok(())
            },
            DisputeState::NotDisputed => Err(Error::TargetNotDisputed),
            DisputeState::ChargedBack => Err(Error::AlreadyChargedBack),
        }
    }

    fn try_apply_charge_back(&mut self, charge_back: &ChargeBack) -> (r: Result<(), Error>)
        requires
            !old(self)@.locked,
        ensures
            match charge_back_step(old(self)@, charge_back.target_tx_id.0) {
                Ok(n) => r is Ok && final(self)@ == n,
                Err(e) => r == Err::<(), Error>(e) && *final(self) == *old(self),
            },
    {
        proof {
            use_type_invariant(&*self);
        }
        let key = charge_back.target_tx_id.0;
        let (deposit, dispute_state) = match self.deposits.get(&key) {
            Some(entry) => *entry,
            None => return Err(Error::InvalidChargeBackTarget),
        };
        match dispute_state {
            DisputeState::Disputed => {
                let amount = deposit.to_amount();
                let ghost old_deposits = self@.deposits;
                proof {
                    lemma_disputed_sum_insert(old_deposits, key, old_deposits[key]);
                }
                // The held funds cover every deposit under dispute, this one
                // included, so this never goes below zero.
                let new_held = self.state.held.reduced_by(&amount);
                let new_state = AccountState {
                    held: new_held,
                    is_locked: IsLocked::Locked,
                    ..self.state
                };
                proof {
                    lemma_disputed_sum_insert(old_deposits, key, (deposit@.1, DisputeState::ChargedBack));
                }
                self.commit(new_state, key, (deposit, DisputeState::ChargedBack));
                Ok(())
            },
            DisputeState::NotDisputed => Err(Error::TargetNotDisputed),
            DisputeState::ChargedBack => Err(Error::AlreadyChargedBack),
        }
    }

    /// Applies one transaction atomically: on success the account moves to
    /// the state that `step` gives; on failure it returns the reason and the
    /// account, dispute records included, is left exactly as it was.
    pub fn try_apply_transaction(&mut self, transaction_request: Transaction) -> (r: Result<
        (),
        Error,
    >)
        ensures
            match step(old(self)@, transaction_request.kind) {
                Ok(n) => r is Ok && final(self)@ == n,
                Err(e) => r == Err::<(), Error>(e) && *final(self) == *old(self),
            },
            final(self)@ == apply(old(self)@, transaction_request.kind),
    {
        if let IsLocked::Locked = self.state.is_locked {
            return Err(Error::LockedAccount);
        }
        match transaction_request.kind {
            TransactionKind::Deposit(deposit) => self.try_apply_deposit(deposit),
            TransactionKind::Withdraw(withdraw) => self.try_apply_withdraw(&withdraw),
            TransactionKind::Dispute(dispute) => self.try_apply_dispute(&dispute),
            TransactionKind::Resolve(resolve) => self.try_apply_resolve(&resolve),
            TransactionKind::ChargeBack(charge_back) => self.try_apply_charge_back(&charge_back),
        }
    }
}

/// Applying transactions never changes an account's id.
pub proof fn lemma_run_keeps_id(s: AccountModel, txs: Seq<Transaction>)
    ensures
        run(s, txs).id == s.id,
    decreases txs.len(),
{
    if txs.len() > 0 {
        lemma_run_keeps_id(s, txs.drop_last());
    }
}

/// Removing one deposit from the sum removes exactly what it holds.
pub proof fn lemma_disputed_sum_remove(m: Map<u32, (nat, DisputeState)>, k: u32)
    requires
        m.dom().finite(),
        m.contains_key(k),
    ensures
        disputed_sum(m) == held_part(m[k]) + disputed_sum(m.remove(k)),
    decreases m.dom().len(),
{
    assert(m.dom().len() > 0);
    let c = m.dom().choose();
    if c != k {
        lemma_disputed_sum_remove(m.remove(c), k);
        lemma_disputed_sum_remove(m.remove(k), c);
        assert(m.remove(c).remove(k) =~= m.remove(k).remove(c));
    }
}

/// Writing one deposit's entry changes the sum by what the old and the new
/// entry hold.
pub proof fn lemma_disputed_sum_insert(
    m: Map<u32, (nat, DisputeState)>,
    k: u32,
    v: (nat, DisputeState),
)
    requires
        m.dom().finite(),
    ensures
        disputed_sum(m.insert(k, v)) == disputed_sum(m.remove(k)) + held_part(v),
        m.contains_key(k) ==> disputed_sum(m) == disputed_sum(m.remove(k)) + held_part(m[k]),
        !m.contains_key(k) ==> disputed_sum(m) == disputed_sum(m.remove(k)),
{
    lemma_disputed_sum_remove(m.insert(k, v), k);
    assert(m.insert(k, v).remove(k) =~= m.remove(k));
    if m.contains_key(k) {
        lemma_disputed_sum_remove(m, k);
    } else {
        assert(m.remove(k) =~= m);
    }
}

} // verus!
