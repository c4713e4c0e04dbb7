use candid::{Nat, Principal};
use icp_dao::ledger::{DaoAccount, MembershipLedger};

fn n(x: u64) -> Nat {
    Nat::from(x)
}

fn who(tag: u8) -> Principal {
    Principal::from_slice(&[tag])
}

fn account(tag: u8, shares: u64) -> DaoAccount {
    DaoAccount { id: who(tag), shares: n(shares) }
}

#[test]
fn account_add_shares_adds_exactly() {
    let mut a = account(1, 10);
    a.add_shares(&n(5));
    assert_eq!(a, account(1, 15));
}

#[test]
fn account_sub_shares_subtracts_exactly() {
    let mut a = account(1, 10);
    a.sub_shares(&n(4));
    assert_eq!(a, account(1, 6));
    a.sub_shares(&n(6));
    assert_eq!(a, account(1, 0));
}

#[test]
fn account_clone_is_equal() {
    let a = account(7, 123);
    assert_eq!(a.clone(), a);
}

#[test]
fn new_ledger_has_no_accounts() {
    let ledger = MembershipLedger::new();
    assert_eq!(ledger.len(), 0);
    assert_eq!(ledger.get(&who(1)), None);
    assert!(!ledger.contains(&who(1)));
    assert_eq!(ledger.total_shares(), n(0));
}

#[test]
fn upsert_creates_then_replaces() {
    let mut ledger = MembershipLedger::new();
    ledger.upsert(account(1, 10));
    ledger.upsert(account(2, 20));
    assert_eq!(ledger.len(), 2);
    assert_eq!(ledger.get(&who(1)), Some(account(1, 10)));
    assert_eq!(ledger.get(&who(2)), Some(account(2, 20)));
    ledger.upsert(account(1, 99));
    assert_eq!(ledger.len(), 2);
    assert_eq!(ledger.get(&who(1)), Some(account(1, 99)));
    assert_eq!(ledger.get(&who(2)), Some(account(2, 20)));
    assert_eq!(ledger.get(&who(3)), None);
}

#[test]
fn accounts_keep_the_order_in_which_they_were_opened() {
    let mut ledger = MembershipLedger::new();
    ledger.upsert(account(5, 1));
    ledger.upsert(account(3, 2));
    ledger.upsert(account(5, 7));
    assert_eq!(ledger.account_at(0), account(5, 7));
    assert_eq!(ledger.account_at(1), account(3, 2));
}

#[test]
fn zero_share_account_is_still_a_member() {
    let mut ledger = MembershipLedger::new();
    ledger.upsert(account(1, 0));
    assert!(ledger.contains(&who(1)));
    assert_eq!(ledger.get(&who(1)), Some(account(1, 0)));
}

#[test]
fn ledger_total_is_the_sum_of_all_shares() {
    let mut ledger = MembershipLedger::new();
    ledger.upsert(account(1, 10));
    ledger.upsert(account(2, 20));
    ledger.upsert(account(3, 12));
    assert_eq!(ledger.total_shares(), n(42));
    ledger.upsert(account(2, 0));
    assert_eq!(ledger.total_shares(), n(22));
}

#[test]
fn identities_are_told_apart_by_their_bytes() {
    let mut ledger = MembershipLedger::new();
    ledger.upsert(DaoAccount { id: Principal::from_slice(&[1, 2]), shares: n(1) });
    assert!(ledger.contains(&Principal::from_slice(&[1, 2])));
    assert!(!ledger.contains(&Principal::from_slice(&[1])));
    assert!(!ledger.contains(&Principal::from_slice(&[1, 2, 0])));
    assert!(!ledger.contains(&Principal::anonymous()));
}
