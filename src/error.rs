use vstd::prelude::*;

verus! {

/// Every way in which building an amount or a transaction, or applying a
/// transaction to an account, can be refused.
#[derive(Debug, Clone, Copy, PartialEq, Eq, Structural)]
pub enum Error {
    /// The account is locked and accepts no further transactions.
    LockedAccount,
    /// A deposit would take the available funds above `Amount`'s maximum.
    DepositOverflow,
    /// A resolve would take the available funds above `Amount`'s maximum.
    ResolveOverflow,
    /// A dispute would take the held funds above `Amount`'s maximum.
    DisputeOverflow,
    /// Available plus held funds exceed `Amount`'s maximum.
    TotalOverflow,
    /// A withdrawal asks for more than the available funds.
    InsufficientFundsForWithdraw,
    /// A dispute needs more than the available funds.
    InsufficientFundsForDispute,
    /// A dispute names no recorded deposit.
    InvalidDisputeTarget,
    /// A resolve names no recorded deposit.
    InvalidResolveTarget,
    /// A chargeback names no recorded deposit.
    InvalidChargeBackTarget,
    /// The deposit is already under dispute.
    AlreadyDisputed,
    /// The deposit was charged back and can no longer be referenced.
    AlreadyChargedBack,
    /// A resolve or chargeback names a deposit that is not under dispute.
    TargetNotDisputed,
    /// A deposit must carry an amount above zero.
    InsufficientDepositAmount,
    /// A withdrawal must carry an amount above zero.
    InsufficientWithdrawAmount,
    /// A decimal is negative or larger than `Amount`'s maximum.
    AmountOutOfBounds,
}

} // verus!
