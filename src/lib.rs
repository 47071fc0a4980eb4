//! A ledger of client accounts: a fixed-point amount type, the transactions
//! that move funds, the per-account state machine that applies them, and the
//! dispatcher that fans an ordered stream of transactions out to accounts.
mod account;
mod amount;
mod broker;
mod error;
mod invariants;
mod patterns;
mod record;
mod transaction;

pub use crate::amount::{
    Amount, DECIMAL_POINTS, MAX_UNITS, lemma_amount_view_injective, parts_in_bounds,
    parts_outcome, rounded_decimal_parts, scale_factor,
};
pub use crate::error::Error;
pub use crate::transaction::{
    AccountId, ChargeBack, Deposit, Dispute, Resolve, Transaction, TransactionId,
    TransactionKind, Withdraw, lemma_deposit_view_injective, lemma_withdraw_view_injective,
};
pub use crate::account::{
    Account, AccountModel, AccountState, DisputeState, IsLocked, apply, charge_back_step,
    deposit_step, dispute_step, disputed_sum, empty_model, entry_model, held_part,
    lemma_disputed_sum_insert, lemma_disputed_sum_remove, lemma_run_keeps_id, model_wf,
    resolve_step, run, step, withdraw_step,
};
pub use crate::invariants::{
    all_valid, deposit_ids_distinct, deposited, deposited_total, is_deposit_with_id,
    lemma_apply_keeps_exact_held, lemma_apply_keeps_wf, lemma_balances_stay_in_range,
    lemma_held_is_disputed_deposits, lemma_locked_is_final,
    lemma_run_keeps_wf, lemma_total_within_max, tx_valid,
};
pub use crate::broker::{
    Dispatcher, for_account, lemma_account_subsequence_alone, lemma_for_account_push, lemma_workers_see_input_order, shows,
    transaction_broker_sync,
};
pub use crate::patterns::{
    TransactionRequestCompressed, TransposeFlatten, expands_to, generate_deposit_dispute_resolve,
    generate_deposit_withdraw, generate_deposits, generate_deposits_dispute_resolve_many_acc,
    generate_deposits_many_acc, generate_deposits_withdraw_many_acc, is_pattern_tx,
    pattern_iter, pattern_ok, round_robin_item,
};
pub use crate::record::{
    AccountStateRecord, RecordType, TransactionRecord, decodes, encodes, lemma_record_round_trip,
    record_complete, record_name,
};
