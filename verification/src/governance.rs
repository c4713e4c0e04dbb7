//! The governance service: every member-facing operation.
//!
//! The service owns the treasury, the membership ledger and the proposal store. An
//! operation that needs no transfer is one call. An operation that moves funds is two
//! calls with the external transfer between them: the first validates and returns the
//! request for the ledger, the second takes the ledger's answer, validates again what
//! may have changed in the meantime, and only then commits. Other operations may run
//! between the two calls.

use crate::errors::{DaoError, TransferFailure};
use crate::ledger::{
    is_member, lemma_credited, lemma_debited, lemma_sum_push, slot_of, DaoAccount, MembershipLedger,
};
use crate::model::{
    after_create, after_init, after_join, after_payout, after_rejection, after_transfer, after_vote,
    after_withdraw, create_refusal, created_proposal, execute_refusal, initial_state, join_refusal,
    lemma_numbered, passes, payout_refusal, refused, service_wf, transfer_failed, transfer_refusal,
    vote_refusal, withdraw_refusal, ServiceView,
};
use crate::payloads::{
    DebitPayload, InitPayload, ProposalPayload, QueryPayload, SharesPayload, TransferPayload,
    TransferSharesPayload,
};
use crate::proposals::{
    has_voted, lemma_append, lemma_new_voter, lemma_replace, Proposal, ProposalState, ProposalStore,
};
use crate::tokens::{nat_value, tokens_add_assign, tokens_from_u64, tokens_le};
use crate::treasury::DaoData;
use candid::Principal;
use icrc_ledger_types::icrc1::transfer::NumTokens;
use vstd::prelude::*;

verus! {

/// How the execution of a proposal ended.
#[derive(Clone, Copy, Debug, PartialEq, Eq)]
pub enum ExecutionOutcome {
    /// The quorum was reached and the payment was made.
    Passed,
    /// The quorum was not reached; nothing was paid.
    Failed,
}

/// What the first step of an execution asks of the host.
#[derive(Debug, PartialEq, Eq)]
pub enum ExecutionStep {
    /// The quorum is reached: make this payment, then commit its outcome.
    Payout(TransferPayload),
    /// The execution is over; nothing is to be paid.
    Finished(ExecutionOutcome),
}

/// Whether two amounts are the same number.
fn same_amount(a: &NumTokens, b: &NumTokens) -> (r: bool)
    ensures
        r == (nat_value(*a) == nat_value(*b)),
{
    tokens_le(a, b) && tokens_le(b, a)
}

/// The service and all of its state.
pub struct GovernanceService {
    treasury: DaoData,
    accounts: MembershipLedger,
    proposals: ProposalStore,
}

impl View for GovernanceService {
    type V = ServiceView;

    closed spec fn view(&self) -> ServiceView {
        ServiceView { treasury: self.treasury@, accounts: self.accounts@, proposals: self.proposals@ }
    }
}

impl GovernanceService {
    /// The service's state satisfies the invariant of the service.
    pub open spec fn wf(&self) -> bool {
        service_wf(self@)
    }

    /// A service without members, proposals or funds, with both parameters at zero.
    pub fn new() -> (r: Self)
        ensures
            r.wf(),
            r@ == initial_state(),
    {
        GovernanceService {
            treasury: DaoData::default(),
            accounts: MembershipLedger::new(),
            proposals: ProposalStore::new(),
        }
    }

    /// A service over a treasury, a ledger and a store that were kept elsewhere. The
    /// invariant of the service is tested on them; where it does not hold, the
    /// result is `None`.
    pub fn restore(
        treasury: DaoData,
        accounts: MembershipLedger,
        proposals: ProposalStore,
    ) -> (r: Option<Self>)
        requires
            accounts.wf(),
            proposals.wf(),
        ensures
            r is Some <==> service_wf(
                ServiceView { treasury: treasury@, accounts: accounts@, proposals: proposals@ },
            ),
            r matches Some(service) ==> service.wf() && service@ == (ServiceView {
                treasury: treasury@,
                accounts: accounts@,
                proposals: proposals@,
            }),
    {
        if proposals.len() as u64 != treasury.next_proposal_id as u64 {
            return None;
        }
        if !proposals.is_numbered() {
            return None;
        }
        let open = proposals.total_in(ProposalState::Open);
        let paid = proposals.total_in(ProposalState::PassedExecuted);
        let rejected = proposals.total_in(ProposalState::FailedOrRejected);
        let shares = accounts.total_shares();
        if !same_amount(&treasury.locked_funds, &open) {
            return None;
        }
        let mut backed = treasury.total_shares.clone();
        tokens_add_assign(&mut backed, paid);
        if !same_amount(&shares, &backed) {
            return None;
        }
        let mut covered = shares;
        tokens_add_assign(&mut covered, open);
        tokens_add_assign(&mut covered, rejected.clone());
        tokens_add_assign(&mut covered, rejected);
        if !same_amount(&treasury.available_funds, &covered) {
            return None;
        }
        Some(GovernanceService { treasury, accounts, proposals })
    }

    /// Sets the governance parameters. Every call replaces both of them; accounts,
    /// proposals and funds stay as they are.
    pub fn init(&mut self, payload: InitPayload)
        requires
            old(self).wf(),
        ensures
            final(self).wf(),
            final(self)@ == after_init(old(self)@, payload.quorum, payload.vote_duration),
    {
        self.treasury.init_params(payload);
    }

    /// A snapshot of the treasury.
    pub fn get_dao_data(&self) -> (r: DaoData)
        ensures
            r@ == self@.treasury,
    {
        self.treasury.clone()
    }

    /// The account of `member`, or `NotAMember`.
    pub fn get_shares(&self, member: &Principal) -> (r: Result<DaoAccount, DaoError>)
        requires
            self.wf(),
        ensures
            is_member(self@.accounts, *member) ==> (r matches Ok(account)
                && account@ == self@.accounts[slot_of(self@.accounts, *member)]),
            !is_member(self@.accounts, *member) ==> refused(r, DaoError::NotAMember),
    {
        match self.accounts.get(member) {
            Some(account) => Ok(account),
            None => Err(DaoError::NotAMember),
        }
    }

    /// The proposal that `payload` refers to, or `ProposalNotFound`.
    pub fn get_proposal(&self, payload: &QueryPayload) -> (r: Result<Proposal, DaoError>)
        requires
            self.wf(),
        ensures
            payload.id < self@.proposals.len() ==> (r matches Ok(proposal)
                && proposal@ == self@.proposals[payload.id as int]),
            payload.id >= self@.proposals.len() ==> refused(r, DaoError::ProposalNotFound),
    {
        proof {
            lemma_numbered(self@.proposals);
        }
        match self.proposals.get(payload.id) {
            Some(proposal) => Ok(proposal),
            None => Err(DaoError::ProposalNotFound),
        }
    }

    /// First step of joining: refuses a caller who is a member already, and otherwise
    /// returns the debit to request from the ledger. The state does not change.
    pub fn join_validate(
        &self,
        caller: &Principal,
        payload: &SharesPayload,
    ) -> (r: Result<DebitPayload, DaoError>)
        requires
            self.wf(),
        ensures
            join_refusal(self@, *caller) matches Some(e) ==> refused(r, e),
            join_refusal(self@, *caller) is None ==> (r matches Ok(request)
                && request.from == *caller
                && nat_value(request.amount) == nat_value(payload.amount)),
    {
        if self.accounts.contains(caller) {
            return Err(DaoError::AlreadyMember);
        }
        Ok(DebitPayload { from: *caller, amount: payload.amount.clone() })
    }

    /// Second step of joining, with the ledger's answer to the debit.
    ///
    /// A failed debit is reported and changes nothing. After a debit that succeeded,
    /// membership is tested again: a caller who became a member in the meantime is
    /// refused and nothing changes. Otherwise the caller's account is opened with
    /// `amount` shares, the total shares and the available funds grow by `amount`, and
    /// the new share balance is returned.
    pub fn join_commit(
        &mut self,
        caller: &Principal,
        payload: &SharesPayload,
        outcome: Result<NumTokens, TransferFailure>,
    ) -> (r: Result<NumTokens, DaoError>)
        requires
            old(self).wf(),
        ensures
            final(self).wf(),
            outcome matches Err(failure) ==> refused(r, transfer_failed(failure))
                && final(self)@ == old(self)@,
            outcome is Ok ==> (join_refusal(old(self)@, *caller) matches Some(e) ==> refused(r, e)
                && final(self)@ == old(self)@),
            outcome is Ok && join_refusal(old(self)@, *caller) is None ==> (r matches Ok(balance)
                && nat_value(balance) == nat_value(payload.amount)
                && final(self)@ == after_join(old(self)@, *caller, nat_value(payload.amount))),
    {
        match outcome {
            Err(failure) => {
                return Err(DaoError::TransferFailure { reason: failure });
            },
            Ok(_) => {},
        }
        if self.accounts.contains(caller) {
            return Err(DaoError::AlreadyMember);
        }
        let account = DaoAccount { id: *caller, shares: payload.amount.clone() };
        proof {
            lemma_sum_push(self@.accounts, account@);
        }
        self.accounts.upsert(account);
        self.treasury.add_total_shares(&payload.amount);
        self.treasury.add_available_shares(&payload.amount);
        Ok(payload.amount.clone())
    }

    /// The tests that a withdrawal must pass, and the caller's account if it passes.
    fn withdraw_check(&self, caller: &Principal, amount: &NumTokens) -> (r: Result<DaoAccount, DaoError>)
        requires
            self.wf(),
        ensures
            withdraw_refusal(self@, *caller, nat_value(*amount)) matches Some(e) ==> refused(r, e),
            withdraw_refusal(self@, *caller, nat_value(*amount)) is None ==> (r matches Ok(account)
                && account@ == self@.accounts[slot_of(self@.accounts, *caller)]),
    {
        let account = match self.accounts.get(caller) {
            Some(account) => account,
            None => {
                return Err(DaoError::NotAMember);
            },
        };
        if !tokens_le(amount, &self.treasury.available_funds) {
            return Err(DaoError::InsufficientFunds);
        }
        if !tokens_le(amount, &account.shares) {
            return Err(DaoError::InsufficientShares);
        }
        if !tokens_le(amount, &self.treasury.total_shares) {
            return Err(DaoError::InsufficientFunds);
        }
        Ok(account)
    }

    /// First step of a withdrawal: refuses a caller who is no member, an amount above
    /// the available funds, above the caller's shares or above the total shares, and
    /// otherwise returns the credit to request from the ledger. The state does not
    /// change.
    pub fn withdraw_validate(
        &self,
        caller: &Principal,
        payload: &SharesPayload,
    ) -> (r: Result<TransferPayload, DaoError>)
        requires
            self.wf(),
        ensures
            withdraw_refusal(self@, *caller, nat_value(payload.amount)) matches Some(e) ==> refused(r, e),
            withdraw_refusal(self@, *caller, nat_value(payload.amount)) is None ==> (r matches Ok(request)
                && request.to == *caller
                && nat_value(request.amount) == nat_value(payload.amount)),
    {
        match self.withdraw_check(caller, &payload.amount) {
            Err(e) => Err(e),
            Ok(_) => Ok(TransferPayload { to: *caller, amount: payload.amount.clone() }),
        }
    }

    /// Second step of a withdrawal, with the ledger's answer to the credit.
    ///
    /// A failed credit is reported and changes nothing. After a credit that succeeded,
    /// the tests of the first step are made again on the current state: if one fails,
    /// its error is returned and nothing changes. Otherwise `amount` is taken off the
    /// caller's shares, the available funds and the total shares, and the ledger's
    /// receipt is returned.
    pub fn withdraw_commit(
        &mut self,
        caller: &Principal,
        payload: &SharesPayload,
        outcome: Result<NumTokens, TransferFailure>,
    ) -> (r: Result<NumTokens, DaoError>)
        requires
            old(self).wf(),
        ensures
            final(self).wf(),
            outcome matches Err(failure) ==> refused(r, transfer_failed(failure))
                && final(self)@ == old(self)@,
            outcome is Ok ==> (withdraw_refusal(old(self)@, *caller, nat_value(payload.amount)) matches Some(e)
                ==> refused(r, e) && final(self)@ == old(self)@),
            outcome matches Ok(receipt) ==> (withdraw_refusal(old(self)@, *caller, nat_value(payload.amount)) is None
                ==> r == Ok::<NumTokens, DaoError>(receipt)
                && final(self)@ == after_withdraw(old(self)@, *caller, nat_value(payload.amount))),
    {
        let receipt = match outcome {
            Err(failure) => {
                return Err(DaoError::TransferFailure { reason: failure });
            },
            Ok(receipt) => receipt,
        };
        let mut account = match self.withdraw_check(caller, &payload.amount) {
            Err(e) => {
                return Err(e);
            },
            Ok(account) => account,
        };
        account.sub_shares(&payload.amount);
        proof {
            lemma_debited(self@.accounts, *caller, nat_value(payload.amount));
        }
        self.accounts.upsert(account);
        self.treasury.sub_available_shares(&payload.amount);
        self.treasury.sub_total_shares(&payload.amount);
        Ok(receipt)
    }

    /// Hands `shares` of the caller to `to`, whose account is opened if there was
    /// none. Refuses a caller who is no member or holds fewer shares. The treasury
    /// does not change: the shares are only redistributed.
    pub fn transfer_shares(
        &mut self,
        caller: &Principal,
        payload: &TransferSharesPayload,
    ) -> (r: Result<(), DaoError>)
        requires
            old(self).wf(),
        ensures
            final(self).wf(),
            transfer_refusal(old(self)@, *caller, nat_value(payload.shares)) matches Some(e) ==> refused(r, e)
                && final(self)@ == old(self)@,
            transfer_refusal(old(self)@, *caller, nat_value(payload.shares)) is None ==> r is Ok
                && final(self)@ == after_transfer(old(self)@, *caller, payload.to, nat_value(payload.shares)),
    {
        let mut source = match self.accounts.get(caller) {
            Some(account) => account,
            None => {
                return Err(DaoError::NotAMember);
            },
        };
        if !tokens_le(&payload.shares, &source.shares) {
            return Err(DaoError::InsufficientShares);
        }
        source.sub_shares(&payload.shares);
        proof {
            lemma_debited(self@.accounts, *caller, nat_value(payload.shares));
        }
        self.accounts.upsert(source);
        let mut target = match self.accounts.get(&payload.to) {
            Some(account) => account,
            None => DaoAccount { id: payload.to, shares: tokens_from_u64(0) },
        };
        target.add_shares(&payload.shares);
        proof {
            lemma_credited(self@.accounts, payload.to, nat_value(payload.shares));
        }
        self.accounts.upsert(target);
        Ok(())
    }

    /// Creates a proposal to pay `amount` to `recipient`, open for votes until `now`
    /// plus the vote duration. Refuses a caller who is no member and an amount above
    /// the available funds. On success the amount is reserved and the id assigned in
    /// one step, and the new record is returned.
    ///
    /// The ids and the clock are machine integers: the next id must not be the
    /// largest one, and the end of the voting period must fit the clock's type.
    pub fn create_proposal(
        &mut self,
        caller: &Principal,
        payload: ProposalPayload,
        now: u64,
    ) -> (r: Result<Proposal, DaoError>)
        requires
            old(self).wf(),
            old(self)@.treasury.next_proposal_id < u32::MAX,
            now + old(self)@.treasury.vote_time <= u64::MAX,
        ensures
            final(self).wf(),
            create_refusal(old(self)@, *caller, nat_value(payload.amount)) matches Some(e) ==> refused(r, e)
                && final(self)@ == old(self)@,
            create_refusal(old(self)@, *caller, nat_value(payload.amount)) is None ==> (r matches Ok(proposal)
                && proposal@ == created_proposal(
                    old(self)@,
                    payload.title@,
                    nat_value(payload.amount),
                    payload.recipient,
                    now,
                )
                && final(self)@ == after_create(
                    old(self)@,
                    payload.title@,
                    nat_value(payload.amount),
                    payload.recipient,
                    now,
                )),
    {
        if !self.accounts.contains(caller) {
            return Err(DaoError::NotAMember);
        }
        if !tokens_le(&payload.amount, &self.treasury.available_funds) {
            return Err(DaoError::InsufficientFunds);
        }
        let ends: u64 = now + self.treasury.vote_time;
        let id: u32 = self.treasury.increment_proposal_n_lock_funds(&payload.amount);
        let proposal = Proposal {
            id,
            title: payload.title,
            amount: payload.amount,
            recipient: payload.recipient,
            votes: tokens_from_u64(0),
            ends,
            executed: false,
            ended: false,
            voters: Vec::new(),
        };
        let record = proposal.clone();
        proof {
            lemma_numbered(self@.proposals);
            lemma_append(self@.proposals, proposal@);
        }
        self.proposals.put(proposal);
        Ok(record)
    }

    /// Records the caller's vote on a proposal, with the weight of the shares that
    /// the caller holds now. Refuses a caller who is no member, an unknown id, a
    /// proposal whose voting period has passed or that is finalized, and a second
    /// vote of the same caller.
    pub fn vote_proposal(
        &mut self,
        caller: &Principal,
        payload: &QueryPayload,
        now: u64,
    ) -> (r: Result<(), DaoError>)
        requires
            old(self).wf(),
        ensures
            final(self).wf(),
            vote_refusal(old(self)@, *caller, payload.id, now) matches Some(e) ==> refused(r, e)
                && final(self)@ == old(self)@,
            vote_refusal(old(self)@, *caller, payload.id, now) is None ==> r is Ok
                && final(self)@ == after_vote(old(self)@, *caller, payload.id),
    {
        proof {
            lemma_numbered(self@.proposals);
        }
        let account = match self.accounts.get(caller) {
            Some(account) => account,
            None => {
                return Err(DaoError::NotAMember);
            },
        };
        let mut proposal = match self.proposals.get(payload.id) {
            Some(proposal) => proposal,
            None => {
                return Err(DaoError::ProposalNotFound);
            },
        };
        if now > proposal.ends || proposal.ended {
            return Err(DaoError::VotingClosed);
        }
        if has_voted(&proposal.voters, caller) {
            return Err(DaoError::AlreadyVoted);
        }
        let ghost before = proposal@;
        tokens_add_assign(&mut proposal.votes, account.shares);
        proposal.voters.push(*caller);
        proof {
            lemma_replace(self@.proposals, payload.id as int, proposal@);
            lemma_new_voter(before.voters, *caller);
        }
        self.proposals.put(proposal);
        Ok(())
    }

    /// First step of executing a proposal at time `now`.
    ///
    /// Refuses a caller who is no member, an unknown id, a proposal whose voting
    /// period has not passed, and one that is finalized; nothing changes then. Where
    /// the quorum is reached, the payment to request from the ledger is returned and
    /// the state does not change; if the treasury cannot carry the payment, the call
    /// is refused instead and the proposal stays open. Where the quorum is not
    /// reached, the proposal is rejected for good: its amount is unlocked and added to
    /// the available funds, and no payment is requested.
    pub fn execute_proposal(
        &mut self,
        caller: &Principal,
        payload: &QueryPayload,
        now: u64,
    ) -> (r: Result<ExecutionStep, DaoError>)
        requires
            old(self).wf(),
        ensures
            final(self).wf(),
            execute_refusal(old(self)@, *caller, payload.id, now) matches Some(e) ==> refused(r, e)
                && final(self)@ == old(self)@,
            execute_refusal(old(self)@, *caller, payload.id, now) is None && passes(old(self)@, payload.id)
                ==> (r matches Ok(ExecutionStep::Payout(request))
                && request.to == old(self)@.proposals[payload.id as int].recipient
                && nat_value(request.amount) == old(self)@.proposals[payload.id as int].amount
                && final(self)@ == old(self)@),
            execute_refusal(old(self)@, *caller, payload.id, now) is None && !passes(old(self)@, payload.id)
                ==> r == Ok::<ExecutionStep, DaoError>(ExecutionStep::Finished(ExecutionOutcome::Failed))
                && final(self)@ == after_rejection(old(self)@, payload.id),
    {
        proof {
            lemma_numbered(self@.proposals);
        }
        if !self.accounts.contains(caller) {
            return Err(DaoError::NotAMember);
        }
        let mut proposal = match self.proposals.get(payload.id) {
            Some(proposal) => proposal,
            None => {
                return Err(DaoError::ProposalNotFound);
            },
        };
        if now <= proposal.ends {
            return Err(DaoError::TooEarly);
        }
        if proposal.ended {
            return Err(DaoError::AlreadyEnded);
        }
        if self.treasury.meets_quorum(&proposal.votes) {
            if !tokens_le(&proposal.amount, &self.treasury.available_funds) || !tokens_le(
                &proposal.amount,
                &self.treasury.total_shares,
            ) {
                return Err(DaoError::InsufficientFunds);
            }
            return Ok(ExecutionStep::Payout(TransferPayload { to: proposal.recipient, amount: proposal.amount }));
        }
        proposal.ended = true;
        proof {
            lemma_replace(self@.proposals, payload.id as int, proposal@);
        }
        self.treasury.sub_locked_shares(&proposal.amount);
        self.treasury.add_available_shares(&proposal.amount);
        self.proposals.put(proposal);
        Ok(ExecutionStep::Finished(ExecutionOutcome::Failed))
    }

    /// Second step of executing a proposal, with the ledger's answer to the payment.
    ///
    /// A failed payment is reported and changes nothing: the proposal stays open and
    /// may be executed again. After a payment that succeeded, what may have changed
    /// in the meantime is tested again: the caller's membership, that the proposal
    /// exists and is not finalized, and that the treasury can carry the amount; if a
    /// test fails, its error is returned and nothing changes. Otherwise the amount is
    /// unlocked and taken off the available funds and the total shares, and the
    /// proposal is finalized as executed.
    pub fn execute_commit(
        &mut self,
        caller: &Principal,
        payload: &QueryPayload,
        outcome: Result<NumTokens, TransferFailure>,
    ) -> (r: Result<ExecutionOutcome, DaoError>)
        requires
            old(self).wf(),
        ensures
            final(self).wf(),
            outcome matches Err(failure) ==> refused(r, transfer_failed(failure))
                && final(self)@ == old(self)@,
            outcome is Ok ==> (payout_refusal(old(self)@, *caller, payload.id) matches Some(e)
                ==> refused(r, e) && final(self)@ == old(self)@),
            outcome is Ok && payout_refusal(old(self)@, *caller, payload.id) is None
                ==> r == Ok::<ExecutionOutcome, DaoError>(ExecutionOutcome::Passed)
                && final(self)@ == after_payout(old(self)@, payload.id),
    {
        proof {
            lemma_numbered(self@.proposals);
        }
        match outcome {
            Err(failure) => {
                return Err(DaoError::TransferFailure { reason: failure });
            },
            Ok(_) => {},
        }
        if !self.accounts.contains(caller) {
            return Err(DaoError::NotAMember);
        }
        let mut proposal = match self.proposals.get(payload.id) {
            Some(proposal) => proposal,
            None => {
                return Err(DaoError::ProposalNotFound);
            },
        };
        if proposal.ended {
            return Err(DaoError::AlreadyEnded);
        }
        if !tokens_le(&proposal.amount, &self.treasury.available_funds) || !tokens_le(
            &proposal.amount,
            &self.treasury.total_shares,
        ) {
            return Err(DaoError::InsufficientFunds);
        }
        proposal.ended = true;
        proposal.executed = true;
        proof {
            lemma_replace(self@.proposals, payload.id as int, proposal@);
        }
        self.treasury.sub_locked_shares(&proposal.amount);
        self.treasury.sub_available_shares(&proposal.amount);
        self.treasury.sub_total_shares(&proposal.amount);
        self.proposals.put(proposal);
        Ok(ExecutionOutcome::Passed)
    }
}

} // verus!

