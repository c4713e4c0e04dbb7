use candid::{Nat, Principal};
use icp_dao::errors::DaoError;
use icp_dao::governance::{ExecutionOutcome, ExecutionStep, GovernanceService};
use icp_dao::ledger::DaoAccount;
use icp_dao::payloads::{
    DebitPayload, InitPayload, ProposalPayload, QueryPayload, SharesPayload, TransferPayload,
    TransferSharesPayload,
};
use icp_dao::treasury::DaoData;

fn n(x: u64) -> Nat {
    Nat::from(x)
}

fn alice() -> Principal {
    Principal::from_slice(&[0xA])
}

fn bob() -> Principal {
    Principal::from_slice(&[0xB])
}

fn treasury(total: u64, available: u64, locked: u64, next: u32) -> DaoData {
    DaoData {
        quorum: 50,
        vote_time: 100,
        total_shares: n(total),
        available_funds: n(available),
        locked_funds: n(locked),
        next_proposal_id: next,
    }
}

fn started() -> GovernanceService {
    let mut svc = GovernanceService::new();
    svc.init(InitPayload { vote_duration: 100, quorum: 50 });
    svc
}

fn sum_of_shares(svc: &GovernanceService, members: &[Principal]) -> Nat {
    let mut sum = n(0);
    for m in members {
        sum += svc.get_shares(m).unwrap().shares;
    }
    sum
}

#[test]
fn member_joins_proposes_votes_and_the_proposal_is_paid() {
    let mut svc = started();
    let amount = SharesPayload { amount: n(1000) };

    assert_eq!(svc.join_validate(&alice(), &amount), Ok(DebitPayload { from: alice(), amount: n(1000) }));
    assert_eq!(svc.join_commit(&alice(), &amount, Ok(n(1))), Ok(n(1000)));
    assert_eq!(svc.get_dao_data(), treasury(1000, 1000, 0, 0));

    let payload = ProposalPayload { title: String::from("pay bob"), amount: n(400), recipient: bob() };
    let proposal = svc.create_proposal(&alice(), payload, 1_000).unwrap();
    assert_eq!(proposal.id, 0);
    assert!(!proposal.ended);
    assert!(!proposal.executed);
    assert_eq!(proposal.ends, 1_100);
    assert_eq!(svc.get_dao_data(), treasury(1000, 1400, 400, 1));

    let q = QueryPayload { id: 0 };
    assert_eq!(svc.vote_proposal(&alice(), &q, 1_050), Ok(()));
    let voted = svc.get_proposal(&q).unwrap();
    assert_eq!(voted.votes, n(1000));
    assert_eq!(voted.voters, vec![alice()]);

    assert_eq!(
        svc.execute_proposal(&alice(), &q, 1_101),
        Ok(ExecutionStep::Payout(TransferPayload { to: bob(), amount: n(400) }))
    );
    assert_eq!(svc.execute_commit(&alice(), &q, Ok(n(2))), Ok(ExecutionOutcome::Passed));
    assert_eq!(svc.get_dao_data(), treasury(600, 1000, 0, 1));
    let done = svc.get_proposal(&q).unwrap();
    assert!(done.executed);
    assert!(done.ended);
}

#[test]
fn withdraw_above_available_funds_requests_no_transfer() {
    let mut svc = started();
    assert_eq!(svc.join_commit(&alice(), &SharesPayload { amount: n(1000) }, Ok(n(1))), Ok(n(1000)));
    let before = svc.get_dao_data();
    let r = svc.withdraw_validate(&alice(), &SharesPayload { amount: n(1001) });
    assert_eq!(r, Err(DaoError::InsufficientFunds));
    assert_eq!(svc.get_dao_data(), before);
    assert_eq!(svc.get_shares(&alice()), Ok(DaoAccount { id: alice(), shares: n(1000) }));
}

#[test]
fn second_of_two_concurrent_executions_observes_the_first() {
    let mut svc = started();
    assert_eq!(svc.join_commit(&alice(), &SharesPayload { amount: n(1000) }, Ok(n(1))), Ok(n(1000)));
    assert_eq!(svc.join_commit(&bob(), &SharesPayload { amount: n(1000) }, Ok(n(2))), Ok(n(1000)));
    let payload = ProposalPayload { title: String::from("grant"), amount: n(300), recipient: bob() };
    svc.create_proposal(&alice(), payload, 0).unwrap();
    let q = QueryPayload { id: 0 };
    assert_eq!(svc.vote_proposal(&alice(), &q, 1), Ok(()));

    // both calls pass their first step while the payment of the first is under way
    let request = TransferPayload { to: bob(), amount: n(300) };
    assert_eq!(svc.execute_proposal(&alice(), &q, 101), Ok(ExecutionStep::Payout(request.clone())));
    assert_eq!(svc.execute_proposal(&bob(), &q, 101), Ok(ExecutionStep::Payout(request)));

    // the first resumes and commits
    assert_eq!(svc.execute_commit(&alice(), &q, Ok(n(3))), Ok(ExecutionOutcome::Passed));
    let after_first = svc.get_dao_data();
    assert_eq!(after_first, treasury(1700, 2000, 0, 1));

    // the second resumes: it sees the proposal finalized, and nothing is counted twice
    assert_eq!(svc.execute_commit(&bob(), &q, Ok(n(4))), Err(DaoError::AlreadyEnded));
    assert_eq!(svc.get_dao_data(), after_first);

    // a call that starts after the first has committed requests no payment
    assert_eq!(svc.execute_proposal(&bob(), &q, 102), Err(DaoError::AlreadyEnded));
    assert_eq!(svc.execute_proposal(&alice(), &q, 500), Err(DaoError::AlreadyEnded));
    assert_eq!(svc.get_dao_data(), after_first);
}

#[test]
fn total_shares_are_the_sum_of_the_accounts_while_nothing_is_paid_out() {
    let mut svc = started();
    let members = [alice(), bob(), Principal::from_slice(&[0xC])];
    assert_eq!(svc.join_commit(&alice(), &SharesPayload { amount: n(700) }, Ok(n(1))), Ok(n(700)));
    assert_eq!(svc.join_commit(&bob(), &SharesPayload { amount: n(300) }, Ok(n(1))), Ok(n(300)));
    assert_eq!(svc.join_commit(&members[2], &SharesPayload { amount: n(5) }, Ok(n(1))), Ok(n(5)));
    assert_eq!(svc.get_dao_data().total_shares, sum_of_shares(&svc, &members));
    assert_eq!(svc.withdraw_commit(&bob(), &SharesPayload { amount: n(120) }, Ok(n(1))), Ok(n(1)));
    assert_eq!(svc.get_dao_data().total_shares, sum_of_shares(&svc, &members));
    assert_eq!(svc.transfer_shares(&alice(), &TransferSharesPayload { to: bob(), shares: n(77) }), Ok(()));
    assert_eq!(svc.get_dao_data().total_shares, sum_of_shares(&svc, &members));
    assert_eq!(svc.get_dao_data().total_shares, n(885));
    // a rejected proposal pays nothing out
    let payload = ProposalPayload { title: String::from("x"), amount: n(10), recipient: bob() };
    svc.create_proposal(&alice(), payload, 0).unwrap();
    assert_eq!(
        svc.execute_proposal(&alice(), &QueryPayload { id: 0 }, 101),
        Ok(ExecutionStep::Finished(ExecutionOutcome::Failed))
    );
    assert_eq!(svc.get_dao_data().total_shares, sum_of_shares(&svc, &members));
}

#[test]
fn shares_are_total_plus_payouts_after_a_payment() {
    let mut svc = started();
    let members = [alice(), bob()];
    assert_eq!(svc.join_commit(&alice(), &SharesPayload { amount: n(700) }, Ok(n(1))), Ok(n(700)));
    assert_eq!(svc.join_commit(&bob(), &SharesPayload { amount: n(300) }, Ok(n(1))), Ok(n(300)));
    let payload = ProposalPayload { title: String::from("x"), amount: n(250), recipient: bob() };
    svc.create_proposal(&alice(), payload, 0).unwrap();
    let q = QueryPayload { id: 0 };
    assert_eq!(svc.vote_proposal(&alice(), &q, 1), Ok(()));
    assert!(svc.execute_proposal(&alice(), &q, 101).is_ok());
    assert_eq!(svc.execute_commit(&alice(), &q, Ok(n(1))), Ok(ExecutionOutcome::Passed));
    assert_eq!(svc.get_dao_data().total_shares + n(250), sum_of_shares(&svc, &members));
    assert_eq!(svc.get_dao_data().total_shares, n(750));
}

#[test]
fn available_funds_cover_locked_funds_and_shares() {
    let mut svc = started();
    let members = [alice(), bob()];
    assert_eq!(svc.join_commit(&alice(), &SharesPayload { amount: n(700) }, Ok(n(1))), Ok(n(700)));
    assert_eq!(svc.join_commit(&bob(), &SharesPayload { amount: n(300) }, Ok(n(1))), Ok(n(300)));
    for (amount, vote) in [(100u64, true), (200, false), (300, true)] {
        let payload = ProposalPayload { title: String::from("x"), amount: n(amount), recipient: bob() };
        let p = svc.create_proposal(&alice(), payload, 0).unwrap();
        if vote {
            assert_eq!(svc.vote_proposal(&alice(), &QueryPayload { id: p.id }, 1), Ok(()));
        }
    }
    assert_eq!(svc.get_dao_data().locked_funds, n(600));
    assert_eq!(svc.get_dao_data().available_funds, n(1600));
    // the first is paid, the second rejected, the third stays open
    assert!(svc.execute_proposal(&alice(), &QueryPayload { id: 0 }, 101).is_ok());
    assert_eq!(svc.execute_commit(&alice(), &QueryPayload { id: 0 }, Ok(n(1))), Ok(ExecutionOutcome::Passed));
    assert_eq!(
        svc.execute_proposal(&alice(), &QueryPayload { id: 1 }, 101),
        Ok(ExecutionStep::Finished(ExecutionOutcome::Failed))
    );
    let dao = svc.get_dao_data();
    assert_eq!(dao.locked_funds, n(300));
    // shares 1000, locked 300, twice the rejected 200
    assert_eq!(dao.available_funds, sum_of_shares(&svc, &members) + n(300) + n(400));
    assert_eq!(dao.available_funds, n(1700));
    assert_eq!(dao.total_shares, n(900));
}
