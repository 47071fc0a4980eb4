use vstd::prelude::*;

use crate::account::{
    AccountModel, DisputeState, apply, disputed_sum, empty_model, held_part,
    lemma_disputed_sum_insert, model_wf, run, step,
};
use crate::amount::MAX_UNITS;
use crate::error::Error;
use crate::transaction::{Transaction, TransactionKind};

verus! {

/// What every transaction value satisfies: a deposit or withdrawal carries an
/// amount above zero and no larger than the maximum.
pub open spec fn tx_valid(tx: Transaction) -> bool {
    match tx.kind {
        TransactionKind::Deposit(d) => 0 < d@.1 <= MAX_UNITS,
        TransactionKind::Withdraw(w) => 0 < w@.1 <= MAX_UNITS,
        _ => true,
    }
}

/// Every transaction of `txs` is valid.
pub open spec fn all_valid(txs: Seq<Transaction>) -> bool {
    forall|i: int| 0 <= i < txs.len() ==> tx_valid(#[trigger] txs[i])
}

/// The amount a transaction deposits, zero for the other kinds.
pub open spec fn deposited(tx: Transaction) -> nat {
    match tx.kind {
        TransactionKind::Deposit(d) => d@.1,
        _ => 0,
    }
}

/// The sum of all amounts that `txs` deposits, accepted or not.
pub open spec fn deposited_total(txs: Seq<Transaction>) -> nat
    decreases txs.len(),
{
    if txs.len() == 0 {
        0
    } else {
        deposited_total(txs.drop_last()) + deposited(txs.last())
    }
}

/// The identifier of a deposit transaction.
pub open spec fn is_deposit_with_id(tx: Transaction, id: u32) -> bool {
    match tx.kind {
        TransactionKind::Deposit(d) => d@.0 == id,
        _ => false,
    }
}

/// No two deposits of `txs` share an identifier.
pub open spec fn deposit_ids_distinct(txs: Seq<Transaction>) -> bool {
    forall|i: int, j: int, id: u32|
        0 <= i < j < txs.len() && #[trigger] is_deposit_with_id(txs[i], id) ==> !#[trigger] is_deposit_with_id(
            txs[j],
            id,
        )
}

/// Applying one valid transaction keeps the account invariant, keeps the
/// account's id, and raises available plus held funds by no more than the
/// amount it deposits.
pub proof fn lemma_apply_keeps_wf(s: AccountModel, tx: Transaction)
    requires
        model_wf(s),
        tx_valid(tx),
    ensures
        model_wf(apply(s, tx.kind)),
        apply(s, tx.kind).id == s.id,
        apply(s, tx.kind).available + apply(s, tx.kind).held <= s.available + s.held + deposited(
            tx,
        ),
{
    if step(s, tx.kind) is Ok {
        let n = apply(s, tx.kind);
        match tx.kind {
            TransactionKind::Deposit(d) => {
                lemma_disputed_sum_insert(s.deposits, d@.0, (d@.1, DisputeState::NotDisputed));
            },
            TransactionKind::Withdraw(_) => {},
            TransactionKind::Dispute(t) => {
                let k = t.target_tx_id.0;
                lemma_disputed_sum_insert(s.deposits, k, (s.deposits[k].0, DisputeState::Disputed));
            },
            TransactionKind::Resolve(t) => {
                let k = t.target_tx_id.0;
                lemma_disputed_sum_insert(s.deposits, k, (s.deposits[k].0, DisputeState::NotDisputed));
            },
            TransactionKind::ChargeBack(t) => {
                let k = t.target_tx_id.0;
                lemma_disputed_sum_insert(s.deposits, k, (s.deposits[k].0, DisputeState::ChargedBack));
            },
        }
    }
}

/// Starting from any well-formed account, a run of valid transactions keeps
/// the account invariant and adds to available plus held funds no more than
/// the run deposits.
pub proof fn lemma_run_keeps_wf(s: AccountModel, txs: Seq<Transaction>)
    requires
        model_wf(s),
        all_valid(txs),
    ensures
        model_wf(run(s, txs)),
        run(s, txs).id == s.id,
        run(s, txs).available + run(s, txs).held <= s.available + s.held + deposited_total(txs),
    decreases txs.len(),
{
    if txs.len() > 0 {
        let prefix = txs.drop_last();
        assert(all_valid(prefix)) by {
            assert forall|i: int| 0 <= i < prefix.len() implies tx_valid(#[trigger] prefix[i]) by {
                assert(prefix[i] == txs[i]);
            }
        }
        lemma_run_keeps_wf(s, prefix);
        assert(tx_valid(txs[txs.len() - 1]));
        lemma_apply_keeps_wf(run(s, prefix), txs.last());
    }
}

/// For every sequence of transactions applied to a new account, the
/// balances stay within `0..=MAX_UNITS` (amounts are natural numbers), every
/// recorded deposit is above zero, and the held funds cover every deposit
/// under dispute.
pub proof fn lemma_balances_stay_in_range(id: u16, txs: Seq<Transaction>)
    requires
        all_valid(txs),
    ensures
        model_wf(run(empty_model(id), txs)),
        run(empty_model(id), txs).available >= 0,
        run(empty_model(id), txs).held >= 0,
{
    assert(disputed_sum(Map::<u32, (nat, DisputeState)>::empty()) == 0);
    lemma_run_keeps_wf(empty_model(id), txs);
}

/// For every sequence of transactions applied to a new account whose
/// deposits add up to no more than `MAX_UNITS`, available plus held funds
/// never exceed `MAX_UNITS`.  (Without that bound the sum can exceed it: a
/// deposit of the maximum, its dispute, then a deposit of one unit.)
pub proof fn lemma_total_within_max(id: u16, txs: Seq<Transaction>)
    requires
        all_valid(txs),
        deposited_total(txs) <= MAX_UNITS,
    ensures
        run(empty_model(id), txs).available + run(empty_model(id), txs).held <= MAX_UNITS,
{
    assert(disputed_sum(Map::<u32, (nat, DisputeState)>::empty()) == 0);
    lemma_run_keeps_wf(empty_model(id), txs);
}

/// One valid transaction that records no deposit twice keeps the held funds
/// equal to the sum over the deposits under dispute, and records no deposit
/// but its own.
pub proof fn lemma_apply_keeps_exact_held(s: AccountModel, tx: Transaction)
    requires
        model_wf(s),
        tx_valid(tx),
        s.held == disputed_sum(s.deposits),
        forall|id: u32| #[trigger] is_deposit_with_id(tx, id) ==> !s.deposits.contains_key(id),
    ensures
        apply(s, tx.kind).held == disputed_sum(apply(s, tx.kind).deposits),
        forall|k: u32| #[trigger]
            apply(s, tx.kind).deposits.contains_key(k) ==> s.deposits.contains_key(k)
                || is_deposit_with_id(tx, k),
{
    if step(s, tx.kind) is Ok {
        match tx.kind {
            TransactionKind::Deposit(d) => {
                assert(is_deposit_with_id(tx, d@.0));
                lemma_disputed_sum_insert(s.deposits, d@.0, (d@.1, DisputeState::NotDisputed));
            },
            TransactionKind::Withdraw(_) => {},
            TransactionKind::Dispute(t) => {
                let k = t.target_tx_id.0;
                lemma_disputed_sum_insert(s.deposits, k, (s.deposits[k].0, DisputeState::Disputed));
            },
            TransactionKind::Resolve(t) => {
                let k = t.target_tx_id.0;
                lemma_disputed_sum_insert(s.deposits, k, (s.deposits[k].0, DisputeState::NotDisputed));
            },
            TransactionKind::ChargeBack(t) => {
                let k = t.target_tx_id.0;
                lemma_disputed_sum_insert(s.deposits, k, (s.deposits[k].0, DisputeState::ChargedBack));
            },
        }
    }
}

/// A run from a new account records only deposits that it carries, and,
/// when no two deposits share an identifier, its held funds are exactly the
/// sum over the deposits under dispute.
proof fn lemma_run_exact_held(id: u16, txs: Seq<Transaction>)
    requires
        all_valid(txs),
        deposit_ids_distinct(txs),
    ensures
        run(empty_model(id), txs).held == disputed_sum(run(empty_model(id), txs).deposits),
        forall|k: u32| #[trigger]
            run(empty_model(id), txs).deposits.contains_key(k) ==> exists|i: int|
                0 <= i < txs.len() && #[trigger] is_deposit_with_id(txs[i], k),
    decreases txs.len(),
{
    assert(disputed_sum(Map::<u32, (nat, DisputeState)>::empty()) == 0);
    if txs.len() > 0 {
        let prefix = txs.drop_last();
        let last = txs.last();
        assert(all_valid(prefix)) by {
            assert forall|i: int| 0 <= i < prefix.len() implies tx_valid(#[trigger] prefix[i]) by {
                assert(prefix[i] == txs[i]);
            }
        }
        assert(deposit_ids_distinct(prefix)) by {
            assert forall|i: int, j: int, d: u32|
                0 <= i < j < prefix.len() && #[trigger] is_deposit_with_id(prefix[i], d) implies !#[trigger] is_deposit_with_id(
                prefix[j],
                d,
            ) by {
                assert(prefix[i] == txs[i] && prefix[j] == txs[j]);
            }
        }
        lemma_run_exact_held(id, prefix);
        lemma_run_keeps_wf(empty_model(id), prefix);
        let s = run(empty_model(id), prefix);
        assert(tx_valid(txs[txs.len() - 1]));
        assert forall|d: u32| #[trigger] is_deposit_with_id(last, d) implies !s.deposits.contains_key(d) by {
            if s.deposits.contains_key(d) {
                let i = choose|i: int| 0 <= i < prefix.len() && #[trigger] is_deposit_with_id(prefix[i], d);
                assert(prefix[i] == txs[i]);
                assert(is_deposit_with_id(txs[txs.len() - 1], d));
            }
        }
        lemma_apply_keeps_exact_held(s, last);
        assert forall|k: u32| #[trigger] run(empty_model(id), txs).deposits.contains_key(k) implies exists|i: int|
            0 <= i < txs.len() && #[trigger] is_deposit_with_id(txs[i], k) by {
            if s.deposits.contains_key(k) {
                let i = choose|i: int| 0 <= i < prefix.len() && #[trigger] is_deposit_with_id(prefix[i], k);
                assert(prefix[i] == txs[i]);
            } else {
                assert(is_deposit_with_id(txs[txs.len() - 1], k));
            }
        }
    }
}

/// When no two deposits share an identifier, the held funds of an account are
/// made of its deposits under dispute alone: each contributes its full
/// amount while under dispute and nothing before, after a resolve, or after a
/// chargeback.
pub proof fn lemma_held_is_disputed_deposits(id: u16, txs: Seq<Transaction>)
    requires
        all_valid(txs),
        deposit_ids_distinct(txs),
    ensures
        run(empty_model(id), txs).held == disputed_sum(run(empty_model(id), txs).deposits),
{
    lemma_run_exact_held(id, txs);
}

/// Once an account is locked, every transaction is refused with
/// `LockedAccount` and no run of transactions changes it.
pub proof fn lemma_locked_is_final(s: AccountModel, txs: Seq<Transaction>)
    requires
        s.locked,
    ensures
        forall|k: TransactionKind| #[trigger] step(s, k) == Err::<AccountModel, Error>(Error::LockedAccount),
        run(s, txs) == s,
    decreases txs.len(),
{
    if txs.len() > 0 {
        lemma_locked_is_final(s, txs.drop_last());
    }
}

} // verus!
