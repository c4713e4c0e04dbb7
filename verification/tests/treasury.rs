use candid::Nat;
use icp_dao::payloads::InitPayload;
use icp_dao::treasury::DaoData;

fn n(x: u64) -> Nat {
    Nat::from(x)
}

fn treasury(quorum: u64, total: u64, available: u64, locked: u64, next: u32) -> DaoData {
    DaoData {
        quorum,
        vote_time: 0,
        total_shares: n(total),
        available_funds: n(available),
        locked_funds: n(locked),
        next_proposal_id: next,
    }
}

#[test]
fn default_treasury_is_empty() {
    let dao = DaoData::default();
    assert_eq!(dao, treasury(0, 0, 0, 0, 0));
}

#[test]
fn init_params_sets_both_parameters() {
    let mut dao = DaoData::default();
    dao.init_params(InitPayload { vote_duration: 3600, quorum: 50 });
    assert_eq!(dao.vote_time, 3600);
    assert_eq!(dao.quorum, 50);
}

#[test]
fn init_params_again_replaces_parameters_and_keeps_funds() {
    let mut dao = treasury(10, 7, 8, 9, 3);
    dao.init_params(InitPayload { vote_duration: 5, quorum: 60 });
    dao.init_params(InitPayload { vote_duration: 6, quorum: 70 });
    assert_eq!(
        dao,
        DaoData {
            quorum: 70,
            vote_time: 6,
            total_shares: n(7),
            available_funds: n(8),
            locked_funds: n(9),
            next_proposal_id: 3,
        }
    );
}

#[test]
fn add_total_shares_adds_exactly() {
    let mut dao = treasury(0, 5, 0, 0, 0);
    dao.add_total_shares(&n(7));
    assert_eq!(dao, treasury(0, 12, 0, 0, 0));
}

#[test]
fn sub_total_shares_subtracts_exactly() {
    let mut dao = treasury(0, 12, 0, 0, 0);
    dao.sub_total_shares(&n(5));
    assert_eq!(dao, treasury(0, 7, 0, 0, 0));
    dao.sub_total_shares(&n(7));
    assert_eq!(dao, treasury(0, 0, 0, 0, 0));
}

#[test]
fn add_available_shares_adds_exactly() {
    let mut dao = treasury(0, 0, 1, 0, 0);
    dao.add_available_shares(&n(41));
    assert_eq!(dao, treasury(0, 0, 42, 0, 0));
}

#[test]
fn sub_available_shares_subtracts_exactly() {
    let mut dao = treasury(0, 0, 42, 0, 0);
    dao.sub_available_shares(&n(40));
    assert_eq!(dao, treasury(0, 0, 2, 0, 0));
}

#[test]
fn sub_locked_shares_subtracts_exactly() {
    let mut dao = treasury(0, 0, 0, 400, 0);
    dao.sub_locked_shares(&n(150));
    assert_eq!(dao, treasury(0, 0, 0, 250, 0));
}

#[test]
fn amounts_are_not_bounded_by_machine_integers() {
    let big = Nat::from(u128::MAX);
    let mut dao = DaoData::default();
    dao.add_total_shares(&big);
    dao.add_total_shares(&big);
    assert!(dao.total_shares > big);
    dao.sub_total_shares(&big);
    assert_eq!(dao.total_shares, big);
}

#[test]
fn lock_reserves_funds_and_returns_the_id_before_the_increment() {
    let mut dao = treasury(0, 1000, 1000, 0, 0);
    let first = dao.increment_proposal_n_lock_funds(&n(400));
    assert_eq!(first, 0);
    assert_eq!(dao, treasury(0, 1000, 1400, 400, 1));
    let second = dao.increment_proposal_n_lock_funds(&n(100));
    assert_eq!(second, 1);
    assert_eq!(dao, treasury(0, 1000, 1500, 500, 2));
}

#[test]
fn lock_does_not_change_the_amount_passed() {
    let mut dao = DaoData::default();
    let amount = n(9);
    dao.increment_proposal_n_lock_funds(&amount);
    assert_eq!(amount, n(9));
}

#[test]
fn quorum_boundary_fifty_of_hundred_passes() {
    let dao = treasury(50, 100, 0, 0, 0);
    assert!(dao.meets_quorum(&n(50)));
}

#[test]
fn quorum_boundary_forty_nine_of_hundred_fails() {
    let dao = treasury(50, 100, 0, 0, 0);
    assert!(!dao.meets_quorum(&n(49)));
}

#[test]
fn quorum_percentage_is_rounded_down() {
    // 1 * 100 / 3 = 33
    assert!(treasury(33, 3, 0, 0, 0).meets_quorum(&n(1)));
    assert!(!treasury(34, 3, 0, 0, 0).meets_quorum(&n(1)));
    // 2 * 100 / 3 = 66
    assert!(treasury(66, 3, 0, 0, 0).meets_quorum(&n(2)));
    assert!(!treasury(67, 3, 0, 0, 0).meets_quorum(&n(2)));
}

#[test]
fn quorum_of_zero_needs_no_votes_but_needs_shares() {
    assert!(treasury(0, 10, 0, 0, 0).meets_quorum(&n(0)));
    assert!(!treasury(0, 0, 0, 0, 0).meets_quorum(&n(0)));
    assert!(!treasury(0, 0, 0, 0, 0).meets_quorum(&n(5)));
}

#[test]
fn quorum_above_hundred_needs_more_votes_than_shares() {
    assert!(!treasury(101, 10, 0, 0, 0).meets_quorum(&n(10)));
    assert!(treasury(101, 100, 0, 0, 0).meets_quorum(&n(101)));
}

#[test]
fn treasury_clone_holds_the_same_values() {
    let dao = DaoData {
        quorum: 1,
        vote_time: 2,
        total_shares: n(3),
        available_funds: n(4),
        locked_funds: n(5),
        next_proposal_id: 6,
    };
    let copy = dao.clone();
    assert_eq!(copy, dao);
    assert_eq!(copy.total_shares, n(3));
    assert_eq!(copy.available_funds, n(4));
    assert_eq!(copy.locked_funds, n(5));
}
