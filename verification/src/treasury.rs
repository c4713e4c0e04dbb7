//! The treasury: the organization's aggregate funds and its governance parameters.

use crate::payloads::InitPayload;
use crate::tokens::{nat_value, tokens_add_assign, tokens_div, tokens_from_u64, tokens_le, tokens_mul, tokens_sub_assign};
use icrc_ledger_types::icrc1::transfer::NumTokens;
use vstd::prelude::*;

verus! {

/// The aggregate record of the organization.
#[derive(Debug, PartialEq, Eq)]
pub struct DaoData {
    /// The percentage of all shares that must have voted for a proposal to pass.
    pub quorum: u64,
    /// How long a proposal accepts votes.
    pub vote_time: u64,
    /// The shares that back the treasury.
    pub total_shares: NumTokens,
    /// The funds that operations are checked against.
    pub available_funds: NumTokens,
    /// The funds reserved for proposals that are still open.
    pub locked_funds: NumTokens,
    /// The id that the next proposal receives.
    pub next_proposal_id: u32,
}

/// What a [`DaoData`] holds, with amounts as numbers.
pub struct DaoDataView {
    pub quorum: u64,
    pub vote_time: u64,
    pub total_shares: nat,
    pub available_funds: nat,
    pub locked_funds: nat,
    pub next_proposal_id: u32,
}

impl View for DaoData {
    type V = DaoDataView;

    open spec fn view(&self) -> DaoDataView {
        DaoDataView {
            quorum: self.quorum,
            vote_time: self.vote_time,
            total_shares: nat_value(self.total_shares),
            available_funds: nat_value(self.available_funds),
            locked_funds: nat_value(self.locked_funds),
            next_proposal_id: self.next_proposal_id,
        }
    }
}

/// The quorum test: the votes, as a percentage of all shares rounded down, reach the
/// quorum. With no shares at all there is no percentage, and the test fails.
pub open spec fn quorum_reached(votes: nat, total_shares: nat, quorum: u64) -> bool {
    total_shares > 0 && (votes * 100) / total_shares >= quorum
}

impl Default for DaoData {
    /// The treasury before deployment parameters are set: everything is zero.
    fn default() -> (r: Self)
        ensures
            r@ == (DaoDataView {
                quorum: 0,
                vote_time: 0,
                total_shares: 0,
                available_funds: 0,
                locked_funds: 0,
                next_proposal_id: 0,
            }),
    {
        DaoData {
            quorum: 0,
            vote_time: 0,
            total_shares: tokens_from_u64(0),
            available_funds: tokens_from_u64(0),
            locked_funds: tokens_from_u64(0),
            next_proposal_id: 0,
        }
    }
}

impl Clone for DaoData {
    fn clone(&self) -> (r: Self)
        ensures
            r@ == self@,
    {
        DaoData {
            quorum: self.quorum,
            vote_time: self.vote_time,
            total_shares: self.total_shares.clone(),
            available_funds: self.available_funds.clone(),
            locked_funds: self.locked_funds.clone(),
            next_proposal_id: self.next_proposal_id,
        }
    }
}

impl DaoData {
    /// Sets the governance parameters. Every call replaces both of them and leaves the
    /// funds and the proposal counter as they are.
    pub fn init_params(&mut self, payload: InitPayload)
        ensures
            final(self)@ == (DaoDataView {
                quorum: payload.quorum,
                vote_time: payload.vote_duration,
                ..old(self)@
            }),
    {
        self.vote_time = payload.vote_duration;
        self.quorum = payload.quorum;
    }

    /// Adds `amount` to the total shares.
    pub fn add_total_shares(&mut self, amount: &NumTokens)
        ensures
            final(self)@ == (DaoDataView {
                total_shares: old(self)@.total_shares + nat_value(*amount),
                ..old(self)@
            }),
    {
        tokens_add_assign(&mut self.total_shares, amount.clone());
    }

    /// Takes `amount` off the total shares, which must hold at least that much.
    pub fn sub_total_shares(&mut self, amount: &NumTokens)
        requires
            nat_value(*amount) <= old(self)@.total_shares,
        ensures
            final(self)@ == (DaoDataView {
                total_shares: (old(self)@.total_shares - nat_value(*amount)) as nat,
                ..old(self)@
            }),
    {
        tokens_sub_assign(&mut self.total_shares, amount.clone());
    }

    /// Adds `amount` to the available funds.
    pub fn add_available_shares(&mut self, amount: &NumTokens)
        ensures
            final(self)@ == (DaoDataView {
                available_funds: old(self)@.available_funds + nat_value(*amount),
                ..old(self)@
            }),
    {
        tokens_add_assign(&mut self.available_funds, amount.clone());
    }

    /// Takes `amount` off the available funds, which must hold at least that much.
    pub fn sub_available_shares(&mut self, amount: &NumTokens)
        requires
            nat_value(*amount) <= old(self)@.available_funds,
        ensures
            final(self)@ == (DaoDataView {
                available_funds: (old(self)@.available_funds - nat_value(*amount)) as nat,
                ..old(self)@
            }),
    {
        tokens_sub_assign(&mut self.available_funds, amount.clone());
    }

    /// Releases `amount` from the locked funds, which must hold at least that much.
    pub fn sub_locked_shares(&mut self, amount: &NumTokens)
        requires
            nat_value(*amount) <= old(self)@.locked_funds,
        ensures
            final(self)@ == (DaoDataView {
                locked_funds: (old(self)@.locked_funds - nat_value(*amount)) as nat,
                ..old(self)@
            }),
    {
        tokens_sub_assign(&mut self.locked_funds, amount.clone());
    }

    /// Reserves `amount` for a new proposal and assigns its id in one step: the
    /// available and the locked funds both grow by `amount`, the proposal counter
    /// advances, and the id returned is the counter's value before the call. The
    /// counter must not have reached the largest id.
    pub fn increment_proposal_n_lock_funds(&mut self, amount: &NumTokens) -> (id: u32)
        requires
            old(self).next_proposal_id < u32::MAX,
        ensures
            id == old(self)@.next_proposal_id,
            final(self)@ == (DaoDataView {
                available_funds: old(self)@.available_funds + nat_value(*amount),
                locked_funds: old(self)@.locked_funds + nat_value(*amount),
                next_proposal_id: (old(self)@.next_proposal_id + 1) as u32,
                ..old(self)@
            }),
    {
        let id: u32 = self.next_proposal_id;
        tokens_add_assign(&mut self.available_funds, amount.clone());
        tokens_add_assign(&mut self.locked_funds, amount.clone());
        self.next_proposal_id = id + 1;
        id
    }

    /// Whether `votes` reach the quorum of the current total shares.
    pub fn meets_quorum(&self, votes: &NumTokens) -> (r: bool)
        ensures
            r == quorum_reached(nat_value(*votes), self@.total_shares, self@.quorum),
    {
        let zero = tokens_from_u64(0);
        if tokens_le(&self.total_shares, &zero) {
            return false;
        }
        let scaled = tokens_mul(votes.clone(), tokens_from_u64(100));
        let percent = tokens_div(scaled, self.total_shares.clone());
        let needed = tokens_from_u64(self.quorum);
        tokens_le(&needed, &percent)
    }
}

} // verus!
