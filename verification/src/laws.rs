//! Laws of the service, proved about the state machine of the model.
//!
//! The contracts of the executable operations say that each call either leaves the
//! state as it was or moves it by one of the `after_*` functions. [`apply`] collects
//! these moves as one step function over [`Event`]s, and [`run`] is a history of such
//! steps. The laws below hold of every step and of every history.

use crate::errors::DaoError;
use crate::ledger::{
    debited, is_member, lemma_credited, lemma_debited, lemma_stored_distinct, lemma_sum_push, shares_of,
    sum_shares, AccountView,
};
use crate::model::{
    after_create, after_init, after_join, after_payout, after_rejection, after_transfer, after_vote,
    after_withdraw, create_refusal, created_proposal, execute_refusal, initial_state, join_refusal, passes,
    payout_refusal, service_wf, transfer_refusal, vote_refusal, withdraw_refusal, ServiceView,
};
use crate::proposals::{
    amount_in, cast_ballot, finalized, lemma_amount_bounds, lemma_append, lemma_new_voter, lemma_replace,
    state_of, ProposalState, ProposalView,
};
use candid::Principal;
use vstd::prelude::*;

verus! {

/// One committed step of the service. A fund-moving operation appears here as the
/// commit of a transfer that succeeded; its first step and a failed transfer change
/// nothing and need no event.
pub enum Event {
    /// The governance parameters are set.
    Init { quorum: u64, vote_duration: u64 },
    /// `caller` joins with `amount`, after the debit succeeded.
    Join { caller: Principal, amount: nat },
    /// `caller` withdraws `amount`, after the credit succeeded.
    Withdraw { caller: Principal, amount: nat },
    /// `caller` hands `amount` shares to `to`.
    TransferShares { caller: Principal, to: Principal, amount: nat },
    /// `caller` creates a proposal at time `now`.
    Create { caller: Principal, title: Seq<char>, amount: nat, recipient: Principal, now: u64 },
    /// `caller` votes on proposal `id` at time `now`.
    Vote { caller: Principal, id: u32, now: u64 },
    /// `caller` starts the execution of proposal `id` at time `now`.
    Execute { caller: Principal, id: u32, now: u64 },
    /// The payment of proposal `id` succeeded and `caller` commits it.
    Payout { caller: Principal, id: u32 },
}

/// The state after one event: the move of the operation where it is accepted, the
/// same state where it is refused.
pub open spec fn apply(s: ServiceView, e: Event) -> ServiceView {
    match e {
        Event::Init { quorum, vote_duration } => after_init(s, quorum, vote_duration),
        Event::Join { caller, amount } => if join_refusal(s, caller) is None {
            after_join(s, caller, amount)
        } else {
            s
        },
        Event::Withdraw { caller, amount } => if withdraw_refusal(s, caller, amount) is None {
            after_withdraw(s, caller, amount)
        } else {
            s
        },
        Event::TransferShares { caller, to, amount } => if transfer_refusal(s, caller, amount) is None {
            after_transfer(s, caller, to, amount)
        } else {
            s
        },
        Event::Create { caller, title, amount, recipient, now } => if create_refusal(s, caller, amount) is None
            && s.treasury.next_proposal_id < u32::MAX && now + s.treasury.vote_time <= u64::MAX {
            after_create(s, title, amount, recipient, now)
        } else {
            s
        },
        Event::Vote { caller, id, now } => if vote_refusal(s, caller, id, now) is None {
            after_vote(s, caller, id)
        } else {
            s
        },
        Event::Execute { caller, id, now } => if execute_refusal(s, caller, id, now) is None && !passes(
            s,
            id,
        ) {
            after_rejection(s, id)
        } else {
            s
        },
        Event::Payout { caller, id } => if payout_refusal(s, caller, id) is None {
            after_payout(s, id)
        } else {
            s
        },
    }
}

/// The state after a history of events, the oldest first.
pub open spec fn run(s: ServiceView, events: Seq<Event>) -> ServiceView
    decreases events.len(),
{
    if events.len() == 0 {
        s
    } else {
        apply(run(s, events.drop_last()), events.last())
    }
}

/// No proposal of `s` has been paid out.
pub open spec fn nothing_paid_out(s: ServiceView) -> bool {
    forall|i: int| 0 <= i < s.proposals.len() ==> !(#[trigger] s.proposals[i]).executed
}

/// The ballots that a history casts on proposal `id`, the oldest first: for each
/// accepted vote, the voter and the shares that the voter held at that moment.
pub open spec fn ballots_cast(s: ServiceView, events: Seq<Event>, id: u32) -> Seq<(Principal, nat)>
    decreases events.len(),
{
    if events.len() == 0 {
        Seq::empty()
    } else {
        let before = run(s, events.drop_last());
        let earlier = ballots_cast(s, events.drop_last(), id);
        match events.last() {
            Event::Vote { caller, id: voted, now } => if voted == id && vote_refusal(before, caller, voted, now)
                is None {
                earlier.push((caller, shares_of(before.accounts, caller)))
            } else {
                earlier
            },
            _ => earlier,
        }
    }
}

/// The sum of the weights of a series of ballots.
pub open spec fn weight_sum(ballots: Seq<(Principal, nat)>) -> nat
    decreases ballots.len(),
{
    if ballots.len() == 0 {
        0
    } else {
        weight_sum(ballots.drop_last()) + ballots.last().1
    }
}

/// The voters of a series of ballots, in order.
pub open spec fn voters_of(ballots: Seq<(Principal, nat)>) -> Seq<Principal> {
    ballots.map_values(|b: (Principal, nat)| b.0)
}

/// Every step keeps the invariant of the service.
pub proof fn step_keeps_invariant(s: ServiceView, e: Event)
    requires
        service_wf(s),
    ensures
        service_wf(apply(s, e)),
{
    if apply(s, e) != s {
        match e {
            Event::Init { quorum, vote_duration } => {},
            Event::Join { caller, amount } => {
                let account = AccountView { id: caller, shares: amount };
                lemma_stored_distinct(s.accounts, account);
                lemma_sum_push(s.accounts, account);
            },
            Event::Withdraw { caller, amount } => {
                lemma_debited(s.accounts, caller, amount);
            },
            Event::TransferShares { caller, to, amount } => {
                lemma_debited(s.accounts, caller, amount);
                lemma_credited(debited(s.accounts, caller, amount), to, amount);
            },
            Event::Create { caller, title, amount, recipient, now } => {
                lemma_append(s.proposals, created_proposal(s, title, amount, recipient, now));
            },
            Event::Vote { caller, id, now } => {
                let p = cast_ballot(s.proposals[id as int], caller, shares_of(s.accounts, caller));
                lemma_replace(s.proposals, id as int, p);
                lemma_new_voter(s.proposals[id as int].voters, caller);
            },
            Event::Execute { caller, id, now } => {
                lemma_replace(s.proposals, id as int, finalized(s.proposals[id as int], false));
            },
            Event::Payout { caller, id } => {
                lemma_replace(s.proposals, id as int, finalized(s.proposals[id as int], true));
            },
        }
    }
}

/// The invariant holds after every history that starts from the initial state: it
/// holds whenever no operation is in the middle of a step.
pub proof fn invariant_holds_after_every_history(events: Seq<Event>)
    ensures
        service_wf(run(initial_state(), events)),
    decreases events.len(),
{
    if events.len() > 0 {
        invariant_holds_after_every_history(events.drop_last());
        step_keeps_invariant(run(initial_state(), events.drop_last()), events.last());
    }
}

/// The shares of all accounts are the total shares plus the amounts that executed
/// proposals paid out.
pub proof fn member_shares_are_total_plus_payouts(s: ServiceView)
    requires
        service_wf(s),
    ensures
        sum_shares(s.accounts) == s.treasury.total_shares + amount_in(
            s.proposals,
            ProposalState::PassedExecuted,
        ),
{
}

/// As long as no proposal has been paid out, the total shares are the sum of the
/// shares of all accounts.
pub proof fn total_shares_are_sum_of_member_shares(s: ServiceView)
    requires
        service_wf(s),
        nothing_paid_out(s),
    ensures
        s.treasury.total_shares == sum_shares(s.accounts),
{
    lemma_nothing_in_state(s.proposals, ProposalState::PassedExecuted);
}

proof fn lemma_nothing_in_state(proposals: Seq<ProposalView>, state: ProposalState)
    requires
        forall|i: int|
            0 <= i < proposals.len() ==> state_of(#[trigger] proposals[i]) != state,
    ensures
        amount_in(proposals, state) == 0,
    decreases proposals.len(),
{
    if proposals.len() > 0 {
        let rest = proposals.drop_last();
        assert forall|i: int| 0 <= i < rest.len() implies state_of(#[trigger] rest[i])
            != state by {
            assert(rest[i] == proposals[i]);
        }
        lemma_nothing_in_state(rest, state);
        assert(state_of(proposals[proposals.len() - 1]) != state);
    }
}

/// Neither fund is undercounted: the locked funds are exactly the amounts of the open
/// proposals, and the available funds cover the locked funds and the shares of all
/// members together.
pub proof fn funds_are_never_undercounted(s: ServiceView)
    requires
        service_wf(s),
    ensures
        s.treasury.locked_funds == amount_in(s.proposals, ProposalState::Open),
        s.treasury.available_funds == sum_shares(s.accounts) + s.treasury.locked_funds + 2 * amount_in(
            s.proposals,
            ProposalState::FailedOrRejected,
        ),
        s.treasury.available_funds >= s.treasury.locked_funds + sum_shares(s.accounts),
        s.treasury.available_funds >= s.treasury.total_shares,
{
}

/// No accepted operation subtracts more than a fund or an account holds.
pub proof fn accepted_operations_never_overdraw(s: ServiceView, caller: Principal, amount: nat, id: u32, now: u64)
    requires
        service_wf(s),
    ensures
        withdraw_refusal(s, caller, amount) is None ==> amount <= shares_of(s.accounts, caller) && amount
            <= s.treasury.available_funds && amount <= s.treasury.total_shares,
        transfer_refusal(s, caller, amount) is None ==> amount <= shares_of(s.accounts, caller),
        execute_refusal(s, caller, id, now) is None ==> s.proposals[id as int].amount
            <= s.treasury.locked_funds,
        payout_refusal(s, caller, id) is None ==> s.proposals[id as int].amount <= s.treasury.locked_funds
            && s.proposals[id as int].amount <= s.treasury.available_funds && s.proposals[id as int].amount
            <= s.treasury.total_shares,
{
    if 0 <= id < s.proposals.len() {
        lemma_amount_bounds(s.proposals, id as int, ProposalState::Open);
    }
}

/// A finalized proposal never changes again, and no proposal is ever removed.
pub proof fn finalized_proposal_is_immutable(s: ServiceView, e: Event, id: u32)
    requires
        service_wf(s),
        id < s.proposals.len(),
        s.proposals[id as int].ended,
    ensures
        id < apply(s, e).proposals.len(),
        apply(s, e).proposals[id as int] == s.proposals[id as int],
{
}

/// A member stays a member.
pub proof fn members_stay_members(s: ServiceView, e: Event, who: Principal)
    requires
        service_wf(s),
        is_member(s.accounts, who),
    ensures
        is_member(apply(s, e).accounts, who),
{
    if apply(s, e).accounts != s.accounts {
        match e {
            Event::Join { caller, amount } => {
                let account = AccountView { id: caller, shares: amount };
                lemma_stored_distinct(s.accounts, account);
            },
            Event::Withdraw { caller, amount } => {
                lemma_debited(s.accounts, caller, amount);
                lemma_stored_distinct(
                    s.accounts,
                    AccountView { id: caller, shares: (shares_of(s.accounts, caller) - amount) as nat },
                );
            },
            Event::TransferShares { caller, to, amount } => {
                lemma_debited(s.accounts, caller, amount);
                lemma_stored_distinct(
                    s.accounts,
                    AccountView { id: caller, shares: (shares_of(s.accounts, caller) - amount) as nat },
                );
                let mid = debited(s.accounts, caller, amount);
                lemma_stored_distinct(
                    mid,
                    AccountView {
                        id: to,
                        shares: if is_member(mid, to) {
                            shares_of(mid, to) + amount
                        } else {
                            amount
                        },
                    },
                );
            },
            _ => {},
        }
    }
}

/// A payment that is committed finalizes its proposal as executed.
pub proof fn payout_finalizes_the_proposal(s: ServiceView, caller: Principal, id: u32)
    requires
        service_wf(s),
        payout_refusal(s, caller, id) is None,
    ensures
        after_payout(s, id).proposals[id as int].ended,
        after_payout(s, id).proposals[id as int].executed,
{
}

/// Once a proposal is finalized, every later attempt to execute it is refused, after
/// whatever history: the first step requests no payment, the commit step changes
/// nothing, and a member who calls after the voting period is told `AlreadyEnded`.
pub proof fn finalized_proposal_is_never_executed_again(
    s: ServiceView,
    id: u32,
    events: Seq<Event>,
    who: Principal,
    now: u64,
)
    requires
        service_wf(s),
        id < s.proposals.len(),
        s.proposals[id as int].ended,
    ensures
        service_wf(run(s, events)),
        id < run(s, events).proposals.len(),
        run(s, events).proposals[id as int] == s.proposals[id as int],
        execute_refusal(run(s, events), who, id, now) is Some,
        payout_refusal(run(s, events), who, id) is Some,
        apply(run(s, events), Event::Execute { caller: who, id, now }) == run(s, events),
        apply(run(s, events), Event::Payout { caller: who, id }) == run(s, events),
        is_member(run(s, events).accounts, who) && now > s.proposals[id as int].ends ==> execute_refusal(
            run(s, events),
            who,
            id,
            now,
        ) == Some(DaoError::AlreadyEnded),
        is_member(run(s, events).accounts, who) ==> payout_refusal(run(s, events), who, id) == Some(
            DaoError::AlreadyEnded,
        ),
    decreases events.len(),
{
    if events.len() > 0 {
        let before = run(s, events.drop_last());
        finalized_proposal_is_never_executed_again(s, id, events.drop_last(), who, now);
        step_keeps_invariant(before, events.last());
        finalized_proposal_is_immutable(before, events.last(), id);
    }
}

/// In every proposal, no identity occurs twice among the voters.
pub proof fn nobody_votes_twice(s: ServiceView, id: u32)
    requires
        service_wf(s),
        id < s.proposals.len(),
    ensures
        s.proposals[id as int].voters.no_duplicates(),
{
}

/// An accepted vote adds the caller, who had not voted, and the shares that the
/// caller holds at that moment.
pub proof fn vote_counts_current_shares(s: ServiceView, caller: Principal, id: u32, now: u64)
    requires
        service_wf(s),
        vote_refusal(s, caller, id, now) is None,
    ensures
        !s.proposals[id as int].voters.contains(caller),
        after_vote(s, caller, id).proposals[id as int] == cast_ballot(
            s.proposals[id as int],
            caller,
            shares_of(s.accounts, caller),
        ),
{
}

/// After whatever history, the votes of a proposal have grown by the sum of the
/// shares that each voter held at the moment of voting, the voters are those who
/// cast these ballots, in order, and nobody is among them twice. A proposal starts
/// without votes and voters, so its votes are always the sum of the shares that its
/// voters held when they voted.
pub proof fn votes_are_shares_held_when_voting(s: ServiceView, events: Seq<Event>, id: u32)
    requires
        service_wf(s),
        id < s.proposals.len(),
    ensures
        service_wf(run(s, events)),
        id < run(s, events).proposals.len(),
        run(s, events).proposals[id as int].votes == s.proposals[id as int].votes + weight_sum(
            ballots_cast(s, events, id),
        ),
        run(s, events).proposals[id as int].voters == s.proposals[id as int].voters + voters_of(
            ballots_cast(s, events, id),
        ),
        run(s, events).proposals[id as int].voters.no_duplicates(),
    decreases events.len(),
{
    let voters = s.proposals[id as int].voters;
    if events.len() == 0 {
        assert(voters + voters_of(ballots_cast(s, events, id)) =~= voters);
    } else {
        let before = run(s, events.drop_last());
        let earlier = ballots_cast(s, events.drop_last(), id);
        votes_are_shares_held_when_voting(s, events.drop_last(), id);
        step_keeps_invariant(before, events.last());
        match events.last() {
            Event::Vote { caller, id: voted, now } => {
                if voted == id && vote_refusal(before, caller, voted, now) is None {
                    let ballot = (caller, shares_of(before.accounts, caller));
                    assert(ballots_cast(s, events, id) == earlier.push(ballot));
                    assert(earlier.push(ballot).drop_last() =~= earlier);
                    assert(voters + voters_of(earlier.push(ballot)) =~= (voters + voters_of(earlier)).push(
                        caller,
                    ));
                }
            },
            _ => {},
        }
    }
}

/// A new proposal has no votes and no voters.
pub proof fn new_proposal_has_no_votes(
    s: ServiceView,
    title: Seq<char>,
    amount: nat,
    recipient: Principal,
    now: u64,
)
    ensures
        created_proposal(s, title, amount, recipient, now).votes == 0,
        created_proposal(s, title, amount, recipient, now).voters == Seq::<Principal>::empty(),
        after_create(s, title, amount, recipient, now).proposals[s.proposals.len() as int]
            == created_proposal(s, title, amount, recipient, now),
{
}

} // verus!
