//! Request payloads of the service's operations, and the transfer requests it hands
//! back for the external ledger.

use candid::Principal;
use icrc_ledger_types::icrc1::transfer::NumTokens;
use crate::tokens::nat_value;
use vstd::prelude::*;

verus! {

/// Parameters set at deployment.
#[derive(Clone, Copy, Debug, PartialEq, Eq)]
pub struct InitPayload {
    /// How long a proposal accepts votes, in the time units of the clock.
    pub vote_duration: u64,
    /// The percentage of all shares that must have voted for a proposal to pass.
    pub quorum: u64,
}

/// An amount of tokens to deposit, or of shares to withdraw.
#[derive(Debug, PartialEq, Eq)]
pub struct SharesPayload {
    pub amount: NumTokens,
}

/// A transfer of shares to another identity.
#[derive(Debug, PartialEq, Eq)]
pub struct TransferSharesPayload {
    pub to: Principal,
    pub shares: NumTokens,
}

/// A reference to a proposal.
#[derive(Clone, Copy, Debug, PartialEq, Eq)]
pub struct QueryPayload {
    pub id: u32,
}

/// A new proposal: pay `amount` to `recipient`.
#[derive(Debug, PartialEq, Eq)]
pub struct ProposalPayload {
    pub title: String,
    pub amount: NumTokens,
    pub recipient: Principal,
}

/// A request to the external ledger: credit `amount` to `to` out of the
/// organization's custody.
#[derive(Debug, PartialEq, Eq)]
pub struct TransferPayload {
    pub to: Principal,
    pub amount: NumTokens,
}

/// A request to the external ledger: debit `amount` from `from` into the
/// organization's custody.
#[derive(Debug, PartialEq, Eq)]
pub struct DebitPayload {
    pub from: Principal,
    pub amount: NumTokens,
}

impl Clone for SharesPayload {
    fn clone(&self) -> (r: Self)
        ensures
            nat_value(r.amount) == nat_value(self.amount),
    {
        SharesPayload { amount: self.amount.clone() }
    }
}

impl Clone for TransferSharesPayload {
    fn clone(&self) -> (r: Self)
        ensures
            r.to == self.to,
            nat_value(r.shares) == nat_value(self.shares),
    {
        TransferSharesPayload { to: self.to.clone(), shares: self.shares.clone() }
    }
}

impl Clone for ProposalPayload {
    fn clone(&self) -> (r: Self)
        ensures
            r.title@ == self.title@,
            nat_value(r.amount) == nat_value(self.amount),
            r.recipient == self.recipient,
    {
        ProposalPayload {
            title: self.title.clone(),
            amount: self.amount.clone(),
            recipient: self.recipient.clone(),
        }
    }
}

impl Clone for TransferPayload {
    fn clone(&self) -> (r: Self)
        ensures
            r.to == self.to,
            nat_value(r.amount) == nat_value(self.amount),
    {
        TransferPayload { to: self.to.clone(), amount: self.amount.clone() }
    }
}

impl Clone for DebitPayload {
    fn clone(&self) -> (r: Self)
        ensures
            r.from == self.from,
            nat_value(r.amount) == nat_value(self.amount),
    {
        DebitPayload { from: self.from.clone(), amount: self.amount.clone() }
    }
}

} // verus!
