use candid::{Nat, Principal};
use icp_dao::proposals::{has_voted, Proposal, ProposalState, ProposalStore};

fn n(x: u64) -> Nat {
    Nat::from(x)
}

fn who(tag: u8) -> Principal {
    Principal::from_slice(&[tag])
}

fn proposal(id: u32, amount: u64, ended: bool, executed: bool) -> Proposal {
    Proposal {
        id,
        title: String::from("pay"),
        amount: n(amount),
        recipient: who(9),
        votes: n(0),
        ends: 100,
        executed,
        ended,
        voters: Vec::new(),
    }
}

#[test]
fn proposal_state_follows_the_two_flags() {
    assert_eq!(proposal(0, 1, false, false).state(), ProposalState::Open);
    assert_eq!(proposal(0, 1, true, true).state(), ProposalState::PassedExecuted);
    assert_eq!(proposal(0, 1, true, false).state(), ProposalState::FailedOrRejected);
}

#[test]
fn proposal_is_in_exactly_one_state() {
    let p = proposal(0, 1, true, false);
    assert!(p.is_in(ProposalState::FailedOrRejected));
    assert!(!p.is_in(ProposalState::Open));
    assert!(!p.is_in(ProposalState::PassedExecuted));
}

#[test]
fn proposal_with_a_double_vote_is_not_valid() {
    let mut p = proposal(0, 1, false, false);
    assert!(p.is_valid());
    p.voters = vec![who(1), who(2), who(3)];
    assert!(p.is_valid());
    p.voters = vec![who(1), who(2), who(1)];
    assert!(!p.is_valid());
    p.voters = vec![who(2), who(2)];
    assert!(!p.is_valid());
}

#[test]
fn proposal_executed_but_not_ended_is_not_valid() {
    assert!(!proposal(0, 1, false, true).is_valid());
    assert!(proposal(0, 1, true, true).is_valid());
}

#[test]
fn proposal_clone_is_equal() {
    let mut p = proposal(4, 77, true, false);
    p.voters = vec![who(1), who(2)];
    p.votes = n(5);
    let c = p.clone();
    assert_eq!(c, p);
    assert_eq!(c.voters, vec![who(1), who(2)]);
    assert_eq!(c.title, "pay");
}

#[test]
fn has_voted_finds_only_listed_voters() {
    let voters = vec![who(1), who(2)];
    assert!(has_voted(&voters, &who(1)));
    assert!(has_voted(&voters, &who(2)));
    assert!(!has_voted(&voters, &who(3)));
    assert!(!has_voted(&Vec::new(), &who(1)));
}

#[test]
fn new_store_has_no_records() {
    let store = ProposalStore::new();
    assert_eq!(store.len(), 0);
    assert_eq!(store.get(0), None);
    assert!(store.is_numbered());
    assert_eq!(store.total_in(ProposalState::Open), n(0));
}

#[test]
fn put_creates_then_replaces_by_id() {
    let mut store = ProposalStore::new();
    store.put(proposal(0, 10, false, false));
    store.put(proposal(1, 20, false, false));
    assert_eq!(store.len(), 2);
    assert_eq!(store.get(1), Some(proposal(1, 20, false, false)));
    store.put(proposal(0, 10, true, true));
    assert_eq!(store.len(), 2);
    assert_eq!(store.get(0), Some(proposal(0, 10, true, true)));
    assert_eq!(store.get(1), Some(proposal(1, 20, false, false)));
    assert_eq!(store.get(2), None);
}

#[test]
fn store_sums_amounts_by_state() {
    let mut store = ProposalStore::new();
    store.put(proposal(0, 10, false, false));
    store.put(proposal(1, 20, true, true));
    store.put(proposal(2, 30, true, false));
    store.put(proposal(3, 40, false, false));
    assert_eq!(store.total_in(ProposalState::Open), n(50));
    assert_eq!(store.total_in(ProposalState::PassedExecuted), n(20));
    assert_eq!(store.total_in(ProposalState::FailedOrRejected), n(30));
}

#[test]
fn store_numbering_is_checked() {
    let mut store = ProposalStore::new();
    store.put(proposal(0, 10, false, false));
    store.put(proposal(1, 10, false, false));
    assert!(store.is_numbered());
    let mut gap = ProposalStore::new();
    gap.put(proposal(0, 10, false, false));
    gap.put(proposal(2, 10, false, false));
    assert!(!gap.is_numbered());
    let mut swapped = ProposalStore::new();
    swapped.put(proposal(1, 10, false, false));
    swapped.put(proposal(0, 10, false, false));
    assert!(!swapped.is_numbered());
    let mut invalid = ProposalStore::new();
    invalid.put(proposal(0, 10, false, true));
    assert!(!invalid.is_numbered());
}
