//! The service as a mathematical state machine.
//!
//! [`ServiceView`] is the state. For each operation a `*_refusal` function says which
//! error, if any, the operation answers in a state, and an `after_*` function says
//! which state a successful operation leaves. The contracts of the executable service
//! are written with these functions, and the laws of the service are proved about
//! them.

use crate::errors::{DaoError, TransferFailure};
use crate::ledger::{credited, debited, distinct_ids, is_member, shares_of, sum_shares, AccountView};
use crate::proposals::{
    amount_in, cast_ballot, distinct_proposal_ids, finalized, fresh_proposal, has_proposal, proposal_slot,
    proposal_wf, ProposalState, ProposalView,
};
use crate::treasury::{quorum_reached, DaoDataView};
use candid::Principal;
use vstd::prelude::*;

verus! {

/// The state of the service: the treasury, the accounts in the order in which they
/// were opened, and the proposals in the order of their ids.
pub struct ServiceView {
    pub treasury: DaoDataView,
    pub accounts: Seq<AccountView>,
    pub proposals: Seq<ProposalView>,
}

/// The invariant of the service.
///
/// - No identity has two accounts.
/// - The proposals are numbered without gaps: the record at position `i` has the id
///   `i`, and the next id is the number of records. So an id is in use exactly if a
///   lock was recorded for it.
/// - In each proposal nobody voted twice, and only a finalized proposal is executed.
/// - The locked funds are the amounts of the open proposals.
/// - The shares of all accounts are the total shares plus what was paid out.
/// - The available funds are the shares of all accounts, plus the locked funds, plus
///   twice the amounts of the rejected proposals.
pub open spec fn service_wf(s: ServiceView) -> bool {
    &&& distinct_ids(s.accounts)
    &&& s.proposals.len() == s.treasury.next_proposal_id
    &&& forall|i: int|
        0 <= i < s.proposals.len() ==> (#[trigger] s.proposals[i]).id == i && proposal_wf(s.proposals[i])
    &&& s.treasury.locked_funds == amount_in(s.proposals, ProposalState::Open)
    &&& sum_shares(s.accounts) == s.treasury.total_shares + amount_in(
        s.proposals,
        ProposalState::PassedExecuted,
    )
    &&& s.treasury.available_funds == sum_shares(s.accounts) + s.treasury.locked_funds + 2 * amount_in(
        s.proposals,
        ProposalState::FailedOrRejected,
    )
}

/// The state before anything has happened.
pub open spec fn initial_state() -> ServiceView {
    ServiceView {
        treasury: DaoDataView {
            quorum: 0,
            vote_time: 0,
            total_shares: 0,
            available_funds: 0,
            locked_funds: 0,
            next_proposal_id: 0,
        },
        accounts: Seq::empty(),
        proposals: Seq::empty(),
    }
}

/// The state after the governance parameters are set.
pub open spec fn after_init(s: ServiceView, quorum: u64, vote_duration: u64) -> ServiceView {
    ServiceView { treasury: DaoDataView { quorum, vote_time: vote_duration, ..s.treasury }, ..s }
}

/// The error that wraps a failed transfer.
pub open spec fn transfer_failed(failure: TransferFailure) -> DaoError {
    DaoError::TransferFailure { reason: failure }
}

/// The answer `r` is the error `e`.
pub open spec fn refused<T>(r: Result<T, DaoError>, e: DaoError) -> bool {
    r == Err::<T, DaoError>(e)
}

/// Why `caller` cannot join, if anything.
pub open spec fn join_refusal(s: ServiceView, caller: Principal) -> Option<DaoError> {
    if is_member(s.accounts, caller) {
        Some(DaoError::AlreadyMember)
    } else {
        None
    }
}

/// The state after `caller` has joined with `amount`.
pub open spec fn after_join(s: ServiceView, caller: Principal, amount: nat) -> ServiceView {
    ServiceView {
        treasury: DaoDataView {
            total_shares: s.treasury.total_shares + amount,
            available_funds: s.treasury.available_funds + amount,
            ..s.treasury
        },
        accounts: s.accounts.push(AccountView { id: caller, shares: amount }),
        proposals: s.proposals,
    }
}

/// Why `caller` cannot withdraw `amount`, if anything. The treasury's available funds
/// are tested before the member's shares, and the total shares last.
pub open spec fn withdraw_refusal(s: ServiceView, caller: Principal, amount: nat) -> Option<DaoError> {
    if !is_member(s.accounts, caller) {
        Some(DaoError::NotAMember)
    } else if s.treasury.available_funds < amount {
        Some(DaoError::InsufficientFunds)
    } else if shares_of(s.accounts, caller) < amount {
        Some(DaoError::InsufficientShares)
    } else if s.treasury.total_shares < amount {
        Some(DaoError::InsufficientFunds)
    } else {
        None
    }
}

/// The state after `caller` has withdrawn `amount`.
pub open spec fn after_withdraw(s: ServiceView, caller: Principal, amount: nat) -> ServiceView {
    ServiceView {
        treasury: DaoDataView {
            total_shares: (s.treasury.total_shares - amount) as nat,
            available_funds: (s.treasury.available_funds - amount) as nat,
            ..s.treasury
        },
        accounts: debited(s.accounts, caller, amount),
        proposals: s.proposals,
    }
}

/// Why `caller` cannot hand `amount` shares to someone, if anything.
pub open spec fn transfer_refusal(s: ServiceView, caller: Principal, amount: nat) -> Option<DaoError> {
    if !is_member(s.accounts, caller) {
        Some(DaoError::NotAMember)
    } else if shares_of(s.accounts, caller) < amount {
        Some(DaoError::InsufficientShares)
    } else {
        None
    }
}

/// The state after `caller` has handed `amount` shares to `to`.
pub open spec fn after_transfer(s: ServiceView, caller: Principal, to: Principal, amount: nat) -> ServiceView {
    ServiceView { accounts: credited(debited(s.accounts, caller, amount), to, amount), ..s }
}

/// Why `caller` cannot create a proposal over `amount`, if anything.
pub open spec fn create_refusal(s: ServiceView, caller: Principal, amount: nat) -> Option<DaoError> {
    if !is_member(s.accounts, caller) {
        Some(DaoError::NotAMember)
    } else if s.treasury.available_funds < amount {
        Some(DaoError::InsufficientFunds)
    } else {
        None
    }
}

/// The proposal that is created at time `now` in state `s`.
pub open spec fn created_proposal(
    s: ServiceView,
    title: Seq<char>,
    amount: nat,
    recipient: Principal,
    now: u64,
) -> ProposalView {
    fresh_proposal(
        s.treasury.next_proposal_id,
        title,
        amount,
        recipient,
        (now + s.treasury.vote_time) as u64,
    )
}

/// The state after a proposal is created.
pub open spec fn after_create(
    s: ServiceView,
    title: Seq<char>,
    amount: nat,
    recipient: Principal,
    now: u64,
) -> ServiceView {
    ServiceView {
        treasury: DaoDataView {
            available_funds: s.treasury.available_funds + amount,
            locked_funds: s.treasury.locked_funds + amount,
            next_proposal_id: (s.treasury.next_proposal_id + 1) as u32,
            ..s.treasury
        },
        accounts: s.accounts,
        proposals: s.proposals.push(created_proposal(s, title, amount, recipient, now)),
    }
}

/// Why `caller` cannot vote on proposal `id` at time `now`, if anything. A finalized
/// proposal accepts no vote, whatever the time.
pub open spec fn vote_refusal(s: ServiceView, caller: Principal, id: u32, now: u64) -> Option<DaoError> {
    if !is_member(s.accounts, caller) {
        Some(DaoError::NotAMember)
    } else if id >= s.proposals.len() {
        Some(DaoError::ProposalNotFound)
    } else if now > s.proposals[id as int].ends || s.proposals[id as int].ended {
        Some(DaoError::VotingClosed)
    } else if s.proposals[id as int].voters.contains(caller) {
        Some(DaoError::AlreadyVoted)
    } else {
        None
    }
}

/// The state after `caller` has voted on proposal `id` with the shares held at that
/// moment.
pub open spec fn after_vote(s: ServiceView, caller: Principal, id: u32) -> ServiceView {
    ServiceView {
        proposals: s.proposals.update(
            id as int,
            cast_ballot(s.proposals[id as int], caller, shares_of(s.accounts, caller)),
        ),
        ..s
    }
}

/// Proposal `id` has the quorum in state `s`.
pub open spec fn passes(s: ServiceView, id: u32) -> bool {
    quorum_reached(s.proposals[id as int].votes, s.treasury.total_shares, s.treasury.quorum)
}

/// The treasury can carry the payment of proposal `id`.
pub open spec fn payout_covered(s: ServiceView, id: u32) -> bool {
    s.proposals[id as int].amount <= s.treasury.available_funds && s.proposals[id as int].amount
        <= s.treasury.total_shares
}

/// Why `caller` cannot execute proposal `id` at time `now`, if anything.
pub open spec fn execute_refusal(s: ServiceView, caller: Principal, id: u32, now: u64) -> Option<DaoError> {
    if !is_member(s.accounts, caller) {
        Some(DaoError::NotAMember)
    } else if id >= s.proposals.len() {
        Some(DaoError::ProposalNotFound)
    } else if now <= s.proposals[id as int].ends {
        Some(DaoError::TooEarly)
    } else if s.proposals[id as int].ended {
        Some(DaoError::AlreadyEnded)
    } else if passes(s, id) && !payout_covered(s, id) {
        Some(DaoError::InsufficientFunds)
    } else {
        None
    }
}

/// Why the payment of proposal `id`, once made, cannot be committed, if anything:
/// what may have changed while the transfer was under way is tested again.
pub open spec fn payout_refusal(s: ServiceView, caller: Principal, id: u32) -> Option<DaoError> {
    if !is_member(s.accounts, caller) {
        Some(DaoError::NotAMember)
    } else if id >= s.proposals.len() {
        Some(DaoError::ProposalNotFound)
    } else if s.proposals[id as int].ended {
        Some(DaoError::AlreadyEnded)
    } else if !payout_covered(s, id) {
        Some(DaoError::InsufficientFunds)
    } else {
        None
    }
}

/// The state after proposal `id` is rejected: its amount is unlocked and added to the
/// available funds.
pub open spec fn after_rejection(s: ServiceView, id: u32) -> ServiceView {
    ServiceView {
        treasury: DaoDataView {
            locked_funds: (s.treasury.locked_funds - s.proposals[id as int].amount) as nat,
            available_funds: s.treasury.available_funds + s.proposals[id as int].amount,
            ..s.treasury
        },
        accounts: s.accounts,
        proposals: s.proposals.update(id as int, finalized(s.proposals[id as int], false)),
    }
}

/// The state after proposal `id` is paid out: its amount is unlocked and taken off
/// the available funds and the total shares.
pub open spec fn after_payout(s: ServiceView, id: u32) -> ServiceView {
    ServiceView {
        treasury: DaoDataView {
            locked_funds: (s.treasury.locked_funds - s.proposals[id as int].amount) as nat,
            available_funds: (s.treasury.available_funds - s.proposals[id as int].amount) as nat,
            total_shares: (s.treasury.total_shares - s.proposals[id as int].amount) as nat,
            ..s.treasury
        },
        accounts: s.accounts,
        proposals: s.proposals.update(id as int, finalized(s.proposals[id as int], true)),
    }
}

/// Where the records are numbered without gaps, the record of an id is found at the
/// position of that id, and nowhere else.
pub proof fn lemma_numbered(proposals: Seq<ProposalView>)
    requires
        forall|i: int| 0 <= i < proposals.len() ==> (#[trigger] proposals[i]).id == i,
    ensures
        distinct_proposal_ids(proposals),
        forall|id: u32| has_proposal(proposals, id) <==> id < proposals.len(),
        forall|id: u32| id < proposals.len() ==> proposal_slot(proposals, id) == id,
{
    assert forall|id: u32| has_proposal(proposals, id) <==> id < proposals.len() by {
        if id < proposals.len() {
            assert(proposals[id as int].id == id);
        }
    }
    assert forall|id: u32| id < proposals.len() implies proposal_slot(proposals, id) == id by {
        assert(proposals[id as int].id == id);
        let j = proposal_slot(proposals, id);
        assert(0 <= j < proposals.len() && proposals[j].id == id);
    }
}

} // verus!
