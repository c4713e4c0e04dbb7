//! The closed set of failures that the service reports.

use icrc_ledger_types::icrc1::transfer::NumTokens;
use vstd::prelude::*;

verus! {

/// A transfer that the external ledger did not carry out, with everything the ledger
/// client said about it. The first nine cases are answers of the ledger; the last one
/// is a call that never got an answer.
#[derive(Clone, Debug, PartialEq, Eq)]
pub enum TransferFailure {
    /// The fee offered is not the one the ledger charges.
    BadFee { expected_fee: NumTokens },
    /// The amount is below what the ledger lets one burn.
    BadBurn { min_burn_amount: NumTokens },
    /// The debited account does not hold the amount.
    InsufficientFunds { balance: NumTokens },
    /// The allowance granted to the organization is below the amount.
    InsufficientAllowance { allowance: NumTokens },
    /// The request is older than the ledger accepts.
    TooOld,
    /// The request is dated later than the ledger's clock.
    CreatedInFuture { ledger_time: u64 },
    /// The ledger has seen the same request before.
    Duplicate { duplicate_of: NumTokens },
    /// The ledger cannot serve requests at the moment.
    TemporarilyUnavailable,
    /// Any other refusal of the ledger.
    GenericError { error_code: NumTokens, message: String },
    /// The call did not complete: it was rejected in transit or timed out.
    CallRejected { code: i32, message: String },
}

/// The reasons for a failed transfer that callers tell apart.
#[derive(Clone, Copy, Debug, PartialEq, Eq)]
pub enum TransferFailureKind {
    /// The debited account does not hold the amount.
    InsufficientBalance,
    /// The allowance granted to the organization is below the amount.
    InsufficientAllowance,
    /// The ledger answered and refused for another reason.
    Refused,
    /// The call did not complete.
    Transport,
}

/// The reason that a failed transfer falls under.
pub open spec fn failure_kind(failure: TransferFailure) -> TransferFailureKind {
    match failure {
        TransferFailure::InsufficientFunds { .. } => TransferFailureKind::InsufficientBalance,
        TransferFailure::InsufficientAllowance { .. } => TransferFailureKind::InsufficientAllowance,
        TransferFailure::CallRejected { .. } => TransferFailureKind::Transport,
        _ => TransferFailureKind::Refused,
    }
}

impl TransferFailure {
    /// The reason that this failure falls under.
    pub fn kind(&self) -> (r: TransferFailureKind)
        ensures
            r == failure_kind(*self),
    {
        match self {
            TransferFailure::InsufficientFunds { .. } => TransferFailureKind::InsufficientBalance,
            TransferFailure::InsufficientAllowance { .. } => TransferFailureKind::InsufficientAllowance,
            TransferFailure::CallRejected { .. } => TransferFailureKind::Transport,
            _ => TransferFailureKind::Refused,
        }
    }
}

/// Every way in which a request to the service can fail.
#[derive(Clone, Debug, PartialEq, Eq)]
pub enum DaoError {
    /// The caller has no member account.
    NotAMember,
    /// The caller already has a member account.
    AlreadyMember,
    /// The treasury cannot cover the amount.
    InsufficientFunds,
    /// The member holds fewer shares than the amount.
    InsufficientShares,
    /// No proposal has the given id.
    ProposalNotFound,
    /// The caller has already voted on the proposal.
    AlreadyVoted,
    /// The proposal no longer accepts votes.
    VotingClosed,
    /// The proposal's voting period has not passed yet.
    TooEarly,
    /// The proposal has already been finalized.
    AlreadyEnded,
    /// The external ledger did not carry out the transfer.
    TransferFailure { reason: TransferFailure },
}

} // verus!
