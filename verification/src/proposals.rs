//! Proposals and the store that keeps them.
//!
//! A proposal is open until it is executed. Execution finalizes it either way: as
//! paid out, or as rejected. The store keeps the records in the order in which they
//! were first stored, one per id.

use crate::identity::same_principal;
use crate::tokens::{nat_value, tokens_add_assign, tokens_from_u64};
use candid::Principal;
use icrc_ledger_types::icrc1::transfer::NumTokens;
use vstd::prelude::*;

verus! {

/// A proposal to pay `amount` to `recipient`.
#[derive(Debug, PartialEq, Eq)]
pub struct Proposal {
    pub id: u32,
    pub title: String,
    pub amount: NumTokens,
    pub recipient: Principal,
    /// The sum of the shares that the voters held when they voted.
    pub votes: NumTokens,
    /// The last moment at which a vote is accepted.
    pub ends: u64,
    /// The payment was made.
    pub executed: bool,
    /// The proposal is finalized.
    pub ended: bool,
    /// Who has voted, in the order of the votes.
    pub voters: Vec<Principal>,
}

/// What a [`Proposal`] holds, with amounts as numbers.
pub struct ProposalView {
    pub id: u32,
    pub title: Seq<char>,
    pub amount: nat,
    pub recipient: Principal,
    pub votes: nat,
    pub ends: u64,
    pub executed: bool,
    pub ended: bool,
    pub voters: Seq<Principal>,
}

impl View for Proposal {
    type V = ProposalView;

    open spec fn view(&self) -> ProposalView {
        ProposalView {
            id: self.id,
            title: self.title@,
            amount: nat_value(self.amount),
            recipient: self.recipient,
            votes: nat_value(self.votes),
            ends: self.ends,
            executed: self.executed,
            ended: self.ended,
            voters: self.voters@,
        }
    }
}

impl Clone for Proposal {
    fn clone(&self) -> (r: Self)
        ensures
            r@ == self@,
    {
        let mut voters: Vec<Principal> = Vec::new();
        let mut i: usize = 0;
        while i < self.voters.len()
            invariant
                i <= self.voters.len(),
                voters@ == self.voters@.subrange(0, i as int),
            decreases self.voters.len() - i,
        {
            voters.push(self.voters[i]);
            i += 1;
        }
        assert(voters@ == self.voters@);
        Proposal {
            id: self.id,
            title: self.title.clone(),
            amount: self.amount.clone(),
            recipient: self.recipient,
            votes: self.votes.clone(),
            ends: self.ends,
            executed: self.executed,
            ended: self.ended,
            voters,
        }
    }
}

/// The three states of a proposal's life.
#[derive(Clone, Copy, Debug, PartialEq, Eq)]
pub enum ProposalState {
    /// Votes are counted; nothing is decided.
    Open,
    /// Finalized, and the payment was made.
    PassedExecuted,
    /// Finalized without payment.
    FailedOrRejected,
}

/// The state that a proposal is in.
pub open spec fn state_of(p: ProposalView) -> ProposalState {
    if !p.ended {
        ProposalState::Open
    } else if p.executed {
        ProposalState::PassedExecuted
    } else {
        ProposalState::FailedOrRejected
    }
}

/// A proposal record is valid: nobody voted twice, and only a finalized proposal is
/// marked as executed.
pub open spec fn proposal_wf(p: ProposalView) -> bool {
    p.voters.no_duplicates() && (p.executed ==> p.ended)
}

/// The proposal that a create request produces: open, without votes.
pub open spec fn fresh_proposal(
    id: u32,
    title: Seq<char>,
    amount: nat,
    recipient: Principal,
    ends: u64,
) -> ProposalView {
    ProposalView {
        id,
        title,
        amount,
        recipient,
        votes: 0,
        ends,
        executed: false,
        ended: false,
        voters: Seq::empty(),
    }
}

/// The proposal after `voter` has voted with `weight` shares.
pub open spec fn cast_ballot(p: ProposalView, voter: Principal, weight: nat) -> ProposalView {
    ProposalView { votes: p.votes + weight, voters: p.voters.push(voter), ..p }
}

/// The proposal after it is finalized, with or without payment.
pub open spec fn finalized(p: ProposalView, paid: bool) -> ProposalView {
    ProposalView { ended: true, executed: paid, ..p }
}

/// The sum of the amounts of the proposals that are in state `state`.
pub open spec fn amount_in(proposals: Seq<ProposalView>, state: ProposalState) -> nat
    decreases proposals.len(),
{
    if proposals.len() == 0 {
        0
    } else {
        amount_in(proposals.drop_last(), state) + counted(proposals.last(), state)
    }
}

/// The amount of `p` if it is in state `state`, else nothing.
pub open spec fn counted(p: ProposalView, state: ProposalState) -> nat {
    if state_of(p) == state {
        p.amount
    } else {
        0
    }
}

/// Some record in `proposals` has the id `id`.
pub open spec fn has_proposal(proposals: Seq<ProposalView>, id: u32) -> bool {
    exists|i: int| 0 <= i < proposals.len() && (#[trigger] proposals[i]).id == id
}

/// The position of the record with the id `id`, where there is one.
pub open spec fn proposal_slot(proposals: Seq<ProposalView>, id: u32) -> int {
    choose|i: int| 0 <= i < proposals.len() && (#[trigger] proposals[i]).id == id
}

/// No id has two records.
pub open spec fn distinct_proposal_ids(proposals: Seq<ProposalView>) -> bool {
    forall|i: int, j: int|
        0 <= i < j < proposals.len() ==> (#[trigger] proposals[i]).id != (#[trigger] proposals[j]).id
}

/// The records after `proposal` is stored: it replaces the record of the same id, or
/// comes last if there was none.
pub open spec fn placed(proposals: Seq<ProposalView>, proposal: ProposalView) -> Seq<ProposalView> {
    if has_proposal(proposals, proposal.id) {
        proposals.update(proposal_slot(proposals, proposal.id), proposal)
    } else {
        proposals.push(proposal)
    }
}

/// In a store without duplicates, the record at position `i` is the record of its id.
pub proof fn lemma_proposal_slot(proposals: Seq<ProposalView>, i: int)
    requires
        distinct_proposal_ids(proposals),
        0 <= i < proposals.len(),
    ensures
        has_proposal(proposals, proposals[i].id),
        proposal_slot(proposals, proposals[i].id) == i,
{
    let id = proposals[i].id;
    let j = proposal_slot(proposals, id);
    assert(0 <= j < proposals.len() && proposals[j].id == id);
    if j < i {
        assert(proposals[j].id != proposals[i].id);
    } else if i < j {
        assert(proposals[i].id != proposals[j].id);
    }
}

/// Storing a record keeps the store free of duplicates.
pub proof fn lemma_placed_distinct(proposals: Seq<ProposalView>, proposal: ProposalView)
    requires
        distinct_proposal_ids(proposals),
    ensures
        distinct_proposal_ids(placed(proposals, proposal)),
{
    let after = placed(proposals, proposal);
    let k = if has_proposal(proposals, proposal.id) {
        proposal_slot(proposals, proposal.id)
    } else {
        proposals.len() as int
    };
    assert(0 <= k < after.len() && after[k] == proposal);
    assert forall|i: int| 0 <= i < proposals.len() && i != k implies (#[trigger] proposals[i]).id
        != proposal.id by {
        if proposals[i].id == proposal.id {
            lemma_proposal_slot(proposals, i);
        }
    }
    assert forall|i: int, j: int| 0 <= i < j < after.len() implies (#[trigger] after[i]).id != (
    #[trigger] after[j]).id by {
        if i != k && j != k {
            assert(after[i] == proposals[i] && after[j] == proposals[j]);
            assert(proposals[i].id != proposals[j].id);
        } else if i == k {
            assert(after[j] == proposals[j]);
            assert(proposals[j].id != proposal.id);
        } else {
            assert(after[i] == proposals[i]);
            assert(proposals[i].id != proposal.id);
        }
    }
}

/// Appending a record adds its amount to the sum of its state.
pub proof fn lemma_amount_push(proposals: Seq<ProposalView>, proposal: ProposalView, state: ProposalState)
    ensures
        amount_in(proposals.push(proposal), state) == amount_in(proposals, state) + counted(
            proposal,
            state,
        ),
{
    assert(proposals.push(proposal).drop_last() =~= proposals);
}

/// Replacing a record moves its amount from the sum of its old state to the sum of
/// its new state.
pub proof fn lemma_amount_update(
    proposals: Seq<ProposalView>,
    i: int,
    proposal: ProposalView,
    state: ProposalState,
)
    requires
        0 <= i < proposals.len(),
    ensures
        amount_in(proposals.update(i, proposal), state) + counted(proposals[i], state) == amount_in(
            proposals,
            state,
        ) + counted(proposal, state),
    decreases proposals.len(),
{
    let after = proposals.update(i, proposal);
    if i == proposals.len() - 1 {
        assert(after.drop_last() =~= proposals.drop_last());
    } else {
        lemma_amount_update(proposals.drop_last(), i, proposal, state);
        assert(after.drop_last() =~= proposals.drop_last().update(i, proposal));
    }
}

/// Replacing a record moves its amount between the sums of the three states
/// accordingly, and the sum of the open proposals covers the record if it was open.
pub proof fn lemma_replace(proposals: Seq<ProposalView>, i: int, proposal: ProposalView)
    requires
        0 <= i < proposals.len(),
    ensures
        amount_in(proposals.update(i, proposal), ProposalState::Open) + counted(
            proposals[i],
            ProposalState::Open,
        ) == amount_in(proposals, ProposalState::Open) + counted(proposal, ProposalState::Open),
        amount_in(proposals.update(i, proposal), ProposalState::PassedExecuted) + counted(
            proposals[i],
            ProposalState::PassedExecuted,
        ) == amount_in(proposals, ProposalState::PassedExecuted) + counted(
            proposal,
            ProposalState::PassedExecuted,
        ),
        amount_in(proposals.update(i, proposal), ProposalState::FailedOrRejected) + counted(
            proposals[i],
            ProposalState::FailedOrRejected,
        ) == amount_in(proposals, ProposalState::FailedOrRejected) + counted(
            proposal,
            ProposalState::FailedOrRejected,
        ),
        counted(proposals[i], ProposalState::Open) <= amount_in(proposals, ProposalState::Open),
{
    lemma_amount_update(proposals, i, proposal, ProposalState::Open);
    lemma_amount_update(proposals, i, proposal, ProposalState::PassedExecuted);
    lemma_amount_update(proposals, i, proposal, ProposalState::FailedOrRejected);
    lemma_amount_bounds(proposals, i, ProposalState::Open);
}

/// Appending a record adds its amount to the sum of its state and to no other.
pub proof fn lemma_append(proposals: Seq<ProposalView>, proposal: ProposalView)
    ensures
        amount_in(proposals.push(proposal), ProposalState::Open) == amount_in(
            proposals,
            ProposalState::Open,
        ) + counted(proposal, ProposalState::Open),
        amount_in(proposals.push(proposal), ProposalState::PassedExecuted) == amount_in(
            proposals,
            ProposalState::PassedExecuted,
        ) + counted(proposal, ProposalState::PassedExecuted),
        amount_in(proposals.push(proposal), ProposalState::FailedOrRejected) == amount_in(
            proposals,
            ProposalState::FailedOrRejected,
        ) + counted(proposal, ProposalState::FailedOrRejected),
{
    lemma_amount_push(proposals, proposal, ProposalState::Open);
    lemma_amount_push(proposals, proposal, ProposalState::PassedExecuted);
    lemma_amount_push(proposals, proposal, ProposalState::FailedOrRejected);
}

/// A voter who has not voted can be added without making anyone occur twice.
pub proof fn lemma_new_voter(voters: Seq<Principal>, voter: Principal)
    requires
        voters.no_duplicates(),
        !voters.contains(voter),
    ensures
        voters.push(voter).no_duplicates(),
{
    let after = voters.push(voter);
    assert forall|a: int, b: int| 0 <= a < after.len() && 0 <= b < after.len() && a != b implies after[a]
        != after[b] by {
        if a < voters.len() && b < voters.len() {
            assert(voters[a] != voters[b]);
        } else if a < voters.len() {
            assert(voters.contains(voters[a]));
        } else {
            assert(voters.contains(voters[b]));
        }
    }
}

/// The sum of a state covers the amount of each record in that state.
pub proof fn lemma_amount_bounds(proposals: Seq<ProposalView>, i: int, state: ProposalState)
    requires
        0 <= i < proposals.len(),
    ensures
        counted(proposals[i], state) <= amount_in(proposals, state),
    decreases proposals.len(),
{
    if i < proposals.len() - 1 {
        lemma_amount_bounds(proposals.drop_last(), i, state);
    }
}

/// Whether `voter` is among `voters`.
pub fn has_voted(voters: &Vec<Principal>, voter: &Principal) -> (r: bool)
    ensures
        r == voters@.contains(*voter),
{
    let mut i: usize = 0;
    while i < voters.len()
        invariant
            i <= voters.len(),
            forall|j: int| 0 <= j < i ==> voters@[j] != *voter,
        decreases voters.len() - i,
    {
        if same_principal(&voters[i], voter) {
            return true;
        }
        i += 1;
    }
    false
}

impl Proposal {
    /// The state that the proposal is in.
    pub fn state(&self) -> (r: ProposalState)
        ensures
            r == state_of(self@),
    {
        if !self.ended {
            ProposalState::Open
        } else if self.executed {
            ProposalState::PassedExecuted
        } else {
            ProposalState::FailedOrRejected
        }
    }

    /// Whether the proposal is in state `state`.
    pub fn is_in(&self, state: ProposalState) -> (r: bool)
        ensures
            r == (state_of(self@) == state),
    {
        match (self.state(), state) {
            (ProposalState::Open, ProposalState::Open) => true,
            (ProposalState::PassedExecuted, ProposalState::PassedExecuted) => true,
            (ProposalState::FailedOrRejected, ProposalState::FailedOrRejected) => true,
            _ => false,
        }
    }

    /// Whether the record is valid: nobody voted twice, and it is marked as executed
    /// only if it is finalized.
    pub fn is_valid(&self) -> (r: bool)
        ensures
            r == proposal_wf(self@),
    {
        if self.executed && !self.ended {
            return false;
        }
        let mut i: usize = 0;
        while i < self.voters.len()
            invariant
                i <= self.voters.len(),
                self.voters@.subrange(0, i as int).no_duplicates(),
            decreases self.voters.len() - i,
        {
            let mut j: usize = 0;
            while j < i
                invariant
                    j <= i < self.voters.len(),
                    forall|k: int| 0 <= k < j ==> self.voters@[k] != self.voters@[i as int],
                decreases i - j,
            {
                if same_principal(&self.voters[j], &self.voters[i]) {
                    return false;
                }
                j += 1;
            }
            proof {
                let next = self.voters@.subrange(0, i + 1);
                let prev = self.voters@.subrange(0, i as int);
                assert forall|a: int, b: int| 0 <= a < next.len() && 0 <= b < next.len() && a != b implies next[a]
                    != next[b] by {
                    if a < i && b < i {
                        assert(prev[a] != prev[b]);
                    }
                }
            }
            i += 1;
        }
        assert(self.voters@.subrange(0, i as int) =~= self.voters@);
        true
    }
}

/// The proposal records, keyed by id.
pub struct ProposalStore {
    proposals: Vec<Proposal>,
}

impl View for ProposalStore {
    type V = Seq<ProposalView>;

    closed spec fn view(&self) -> Seq<ProposalView> {
        self.proposals@.map_values(|p: Proposal| p@)
    }
}

impl ProposalStore {
    /// The store's invariant: no id has two records.
    pub open spec fn wf(&self) -> bool {
        distinct_proposal_ids(self@)
    }

    /// A store without records.
    pub fn new() -> (r: Self)
        ensures
            r.wf(),
            r@ == Seq::<ProposalView>::empty(),
    {
        ProposalStore { proposals: Vec::new() }
    }

    /// The number of records.
    pub fn len(&self) -> (n: usize)
        ensures
            n == self@.len(),
    {
        self.proposals.len()
    }

    /// The sum of the amounts of the records that are in state `state`.
    pub fn total_in(&self, state: ProposalState) -> (r: NumTokens)
        ensures
            nat_value(r) == amount_in(self@, state),
    {
        let mut sum = tokens_from_u64(0);
        let mut i: usize = 0;
        while i < self.proposals.len()
            invariant
                i <= self.proposals.len(),
                nat_value(sum) == amount_in(self@.subrange(0, i as int), state),
            decreases self.proposals.len() - i,
        {
            proof {
                assert(self@.subrange(0, i + 1).drop_last() =~= self@.subrange(0, i as int));
            }
            if self.proposals[i].is_in(state) {
                tokens_add_assign(&mut sum, self.proposals[i].amount.clone());
            }
            i += 1;
        }
        assert(self@.subrange(0, i as int) =~= self@);
        sum
    }

    /// Whether the records are numbered without gaps and each of them is valid: the
    /// record at position `i` has the id `i`.
    pub fn is_numbered(&self) -> (r: bool)
        ensures
            r == (forall|i: int|
                0 <= i < self@.len() ==> (#[trigger] self@[i]).id == i && proposal_wf(self@[i])),
    {
        let mut i: usize = 0;
        while i < self.proposals.len()
            invariant
                i <= self.proposals.len(),
                forall|k: int| 0 <= k < i ==> (#[trigger] self@[k]).id == k && proposal_wf(self@[k]),
            decreases self.proposals.len() - i,
        {
            if i > u32::MAX as usize || self.proposals[i].id != i as u32 || !self.proposals[i].is_valid() {
                assert(!(self@[i as int].id == i && proposal_wf(self@[i as int])));
                return false;
            }
            i += 1;
        }
        true
    }

    /// The position of the record with the id `id`, if there is one.
    fn find(&self, id: u32) -> (r: Option<usize>)
        requires
            self.wf(),
        ensures
            r is Some <==> has_proposal(self@, id),
            r matches Some(i) ==> i == proposal_slot(self@, id) && i < self@.len(),
    {
        let mut i: usize = 0;
        while i < self.proposals.len()
            invariant
                self.wf(),
                i <= self.proposals.len(),
                forall|j: int| 0 <= j < i ==> (#[trigger] self@[j]).id != id,
            decreases self.proposals.len() - i,
        {
            if self.proposals[i].id == id {
                proof {
                    assert(self@[i as int].id == id);
                    lemma_proposal_slot(self@, i as int);
                }
                return Some(i);
            }
            i += 1;
        }
        None
    }

    /// The record with the id `id`: a copy of it, or `None` if there is none.
    pub fn get(&self, id: u32) -> (r: Option<Proposal>)
        requires
            self.wf(),
        ensures
            r is Some <==> has_proposal(self@, id),
            r matches Some(proposal) ==> proposal@ == self@[proposal_slot(self@, id)],
    {
        match self.find(id) {
            Some(i) => Some(self.proposals[i].clone()),
            None => None,
        }
    }

    /// Stores `proposal`: it replaces the record of the same id, or is added if there
    /// was none. Other records are left as they are.
    pub fn put(&mut self, proposal: Proposal)
        requires
            old(self).wf(),
        ensures
            final(self).wf(),
            final(self)@ == placed(old(self)@, proposal@),
    {
        proof {
            lemma_placed_distinct(self@, proposal@);
        }
        match self.find(proposal.id) {
            Some(i) => {
                self.proposals.set(i, proposal);
                assert(self@ =~= placed(old(self)@, proposal@));
            },
            None => {
                self.proposals.push(proposal);
                assert(self@ =~= placed(old(self)@, proposal@));
            },
        }
    }
}

} // verus!
