use lemipay::address::Address;
use lemipay::errors::Error;
use lemipay::group::GroupContract;
use lemipay::treasury::TreasuryContract;

/// A registry of `count` groups in which every given address is a member,
/// filled up to four members, each group asking for one approval.
fn registry(count: u64, members: &[Address]) -> GroupContract {
    let mut groups = GroupContract::new();
    for _ in 0..count {
        let mut list = members.to_vec();
        let mut filler = 1000u64;
        while list.len() < 4 {
            list.push(Address::new(filler));
            filler += 1;
        }
        groups.create_group(list, 1);
    }
    groups
}
use lemipay::types::{FundRound, ReleaseProposal};

/// A treasury for group 1, whose members are `members` (filled up to four),
/// funded with `funds` through a round of target `funds`.
fn funded(members: &[Address], funds: i128) -> (GroupContract, TreasuryContract) {
    let groups = registry(1, members);
    let group = groups.get_group(1);
    let mut treasury = TreasuryContract::new();
    treasury.create_treasury(&group, 1, members[0]).unwrap();
    if funds > 0 {
        let round = treasury.propose_fund_round(&group, 1, funds, members[0]).unwrap();
        treasury.contribute_to_fund_round(&group, round, funds, members[0]).unwrap();
    }
    (groups, treasury)
}

#[test]
fn treasury_is_created_once() {
    let user = Address::new(1);
    let other = Address::new(2);
    let (groups, mut treasury) = funded(&[user, other], 0);
    let group = groups.get_group(1);
    assert_eq!(treasury.create_treasury(&group, 1, other), Err(Error::GroupIdAlreadyInUse));
    assert_eq!(treasury.get_group_balance(1), 0);
}

#[test]
fn non_member_is_refused_everywhere() {
    let user = Address::new(1);
    let dest = Address::new(2);
    let outsider = Address::new(99);
    let (groups, mut treasury) = funded(&[user, dest], 1000);
    let group = groups.get_group(1);
    assert_eq!(treasury.create_treasury(&group, 5, outsider), Err(Error::NotMember));
    assert_eq!(treasury.propose_release(&group, dest, 10, 1, outsider), Err(Error::NotMember));
    assert_eq!(treasury.propose_release(&group, outsider, 10, 1, user), Err(Error::NotMember));
    assert_eq!(treasury.propose_fund_round(&group, 1, 10, outsider), Err(Error::NotMember));
    let id = treasury.propose_release(&group, dest, 10, 1, user).unwrap();
    assert_eq!(treasury.approve_release(&group, id, outsider), Err(Error::NotMember));
    assert_eq!(treasury.cancel_release_proposal(&group, id, outsider), Err(Error::NotMember));
    let round = treasury.propose_fund_round(&group, 1, 100, user).unwrap();
    assert_eq!(treasury.contribute_to_fund_round(&group, round, 10, outsider), Err(Error::NotMember));
    assert_eq!(treasury.withdraw_contribution(&group, round, outsider, 1000), Err(Error::NotMember));
}

#[test]
fn missing_treasury_is_refused() {
    let user = Address::new(1);
    let groups = registry(1, &[user]);
    let group = groups.get_group(1);
    let mut treasury = TreasuryContract::new();
    assert!(!treasury.check_treasury_id(1));
    assert_eq!(treasury.get_group_balance(1), 0);
    assert_eq!(treasury.propose_release(&group, user, 10, 1, user), Err(Error::TreasuryNotInitialized));
    assert_eq!(treasury.propose_fund_round(&group, 1, 10, user), Err(Error::TreasuryNotInitialized));
}

#[test]
fn missing_records_are_reported() {
    let user = Address::new(1);
    let (groups, mut treasury) = funded(&[user], 100);
    let group = groups.get_group(1);
    assert_eq!(treasury.get_release_proposal(1), Err(Error::ProposalNotFound));
    assert_eq!(treasury.get_release_proposal(0), Err(Error::ProposalNotFound));
    assert_eq!(treasury.approve_release(&group, 7, user), Err(Error::ProposalNotFound));
    assert_eq!(treasury.execute_release(1, 7, 100), Err(Error::ProposalNotFound));
    assert_eq!(treasury.cancel_release_proposal(&group, 7, user), Err(Error::ProposalNotFound));
    assert_eq!(treasury.get_fund_round(2), Err(Error::RoundNotFound));
    assert_eq!(treasury.contribute_to_fund_round(&group, 2, 10, user), Err(Error::RoundNotFound));
    assert_eq!(treasury.withdraw_contribution(&group, 2, user, 100), Err(Error::RoundNotFound));
    assert_eq!(treasury.get_user_contribution(2, user), 0);
}

#[test]
fn invalid_amounts_are_refused() {
    let user = Address::new(1);
    let dest = Address::new(2);
    let (groups, mut treasury) = funded(&[user, dest], 100);
    let group = groups.get_group(1);
    assert_eq!(treasury.propose_release(&group, dest, 0, 1, user), Err(Error::InvalidAmount));
    assert_eq!(treasury.propose_release(&group, dest, -5, 1, user), Err(Error::InvalidAmount));
    assert_eq!(treasury.propose_fund_round(&group, 1, 0, user), Err(Error::InvalidAmount));
    let round = treasury.propose_fund_round(&group, 1, 50, user).unwrap();
    assert_eq!(treasury.contribute_to_fund_round(&group, round, -1, user), Err(Error::InvalidAmount));
}

#[test]
fn approval_is_counted_once() {
    let user = Address::new(1);
    let dest = Address::new(2);
    let third = Address::new(3);
    let (groups, mut treasury) = funded(&[user, dest, third], 1000);
    let group = groups.get_group(1);
    let id = treasury.propose_release(&group, dest, 400, 1, user).unwrap();
    treasury.approve_release(&group, id, user).unwrap();
    assert_eq!(treasury.approve_release(&group, id, user), Err(Error::AlreadyApproved));
    treasury.approve_release(&group, id, third).unwrap();
    let p = treasury.get_release_proposal(id).unwrap();
    assert_eq!(p.approvals, 2);
    assert!(!p.executed);
}

#[test]
fn approval_rule_of_group_decides_execution() {
    let a = Address::new(1);
    let b = Address::new(2);
    let c = Address::new(3);
    let dest = Address::new(4);
    let mut groups = GroupContract::new();
    let gid = groups.create_group(vec![a, b, c, dest], 2);
    let group = groups.get_group(gid);
    let mut treasury = TreasuryContract::new();
    treasury.create_treasury(&group, gid, a).unwrap();
    let round = treasury.propose_fund_round(&group, gid, 500, a).unwrap();
    treasury.contribute_to_fund_round(&group, round, 500, b).unwrap();
    let id = treasury.propose_release(&group, dest, 200, gid, c).unwrap();
    treasury.approve_release(&group, id, a).unwrap();
    assert_eq!(treasury.execute_release(group.approvals_required, id, 500), Err(Error::NotEnoughApprovals));
    treasury.approve_release(&group, id, b).unwrap();
    treasury.execute_release(group.approvals_required, id, 500).unwrap();
    assert_eq!(treasury.get_group_balance(gid), 300);
}

#[test]
fn executed_proposal_is_closed() {
    let user = Address::new(1);
    let dest = Address::new(2);
    let (groups, mut treasury) = funded(&[user, dest], 1000);
    let group = groups.get_group(1);
    let id = treasury.propose_release(&group, dest, 600, 1, user).unwrap();
    treasury.approve_release(&group, id, user).unwrap();
    treasury.execute_release(1, id, 1000).unwrap();
    assert_eq!(treasury.execute_release(1, id, 1000), Err(Error::AlreadyExecuted));
    assert_eq!(treasury.approve_release(&group, id, Address::new(1000)), Err(Error::AlreadyExecuted));
    assert_eq!(treasury.cancel_release_proposal(&group, id, user), Err(Error::AlreadyExecuted));
    assert_eq!(treasury.get_group_balance(1), 400);
}

#[test]
fn canceled_proposal_is_closed() {
    let user = Address::new(1);
    let dest = Address::new(2);
    let (groups, mut treasury) = funded(&[user, dest], 1000);
    let group = groups.get_group(1);
    let id = treasury.propose_release(&group, dest, 600, 1, user).unwrap();
    treasury.approve_release(&group, id, user).unwrap();
    treasury.cancel_release_proposal(&group, id, dest).unwrap();
    assert_eq!(treasury.execute_release(1, id, 1000), Err(Error::ProposalCanceled));
    assert_eq!(treasury.cancel_release_proposal(&group, id, user), Err(Error::ProposalCanceled));
    let p = treasury.get_release_proposal(id).unwrap();
    assert!(p.canceled);
    assert!(!p.executed);
    assert_eq!(treasury.get_group_balance(1), 1000);
}

#[test]
fn execute_needs_the_tokens() {
    let user = Address::new(1);
    let dest = Address::new(2);
    let (groups, mut treasury) = funded(&[user, dest], 1000);
    let group = groups.get_group(1);
    let id = treasury.propose_release(&group, dest, 600, 1, user).unwrap();
    treasury.approve_release(&group, id, user).unwrap();
    assert_eq!(treasury.execute_release(1, id, 599), Err(Error::InsufficientTreasuryBalance));
    assert_eq!(treasury.get_group_balance(1), 1000);
    assert!(!treasury.get_release_proposal(id).unwrap().executed);
    treasury.execute_release(1, id, 600).unwrap();
    assert_eq!(treasury.get_group_balance(1), 400);
}

#[test]
fn stored_proposal_without_treasury_has_no_balance() {
    let user = Address::new(1);
    let mut treasury = TreasuryContract::new();
    treasury.release_proposals.push(ReleaseProposal {
        group_id: 9,
        destination: user,
        amount: 5,
        approvals: 3,
        executed: false,
        canceled: false,
    });
    assert_eq!(treasury.execute_release(1, 1, 100), Err(Error::GroupBalanceNotFound));
}

#[test]
fn stored_negative_release_underflows() {
    let user = Address::new(1);
    let mut treasury = TreasuryContract::new();
    treasury.group_balances.push((9, i128::MAX));
    treasury.release_proposals.push(ReleaseProposal {
        group_id: 9,
        destination: user,
        amount: -1,
        approvals: 3,
        executed: false,
        canceled: false,
    });
    assert_eq!(treasury.execute_release(1, 1, 100), Err(Error::BalanceUnderflow));
}

#[test]
fn round_completes_at_its_target_and_then_closes() {
    let user = Address::new(1);
    let other = Address::new(2);
    let (groups, mut treasury) = funded(&[user, other], 0);
    let group = groups.get_group(1);
    let round = treasury.propose_fund_round(&group, 1, 300, user).unwrap();
    treasury.contribute_to_fund_round(&group, round, 100, user).unwrap();
    assert_eq!(treasury.contribute_to_fund_round(&group, round, 201, other), Err(Error::ContributionExceedsRemaining));
    assert!(!treasury.get_fund_round(round).unwrap().completed);
    treasury.contribute_to_fund_round(&group, round, 200, other).unwrap();
    let r = treasury.get_fund_round(round).unwrap();
    assert!(r.completed);
    assert_eq!(r.funded_amount, 300);
    assert_eq!(treasury.get_user_contribution(round, user), 100);
    assert_eq!(treasury.get_user_contribution(round, other), 200);
    assert_eq!(treasury.contribute_to_fund_round(&group, round, 1, user), Err(Error::RoundAlreadyCompleted));
    assert_eq!(treasury.withdraw_contribution(&group, round, user, 300), Err(Error::RoundAlreadyCompleted));
    assert_eq!(treasury.get_group_balance(1), 300);
}

#[test]
fn withdraw_undoes_a_contribution() {
    let user = Address::new(1);
    let other = Address::new(2);
    let (groups, mut treasury) = funded(&[user, other], 0);
    let group = groups.get_group(1);
    let round = treasury.propose_fund_round(&group, 1, 1000, user).unwrap();
    treasury.contribute_to_fund_round(&group, round, 300, other).unwrap();
    treasury.contribute_to_fund_round(&group, round, 250, user).unwrap();
    assert_eq!(treasury.withdraw_contribution(&group, round, user, 249), Err(Error::InsufficientTreasuryBalance));
    treasury.withdraw_contribution(&group, round, user, 550).unwrap();
    assert_eq!(treasury.get_user_contribution(round, user), 0);
    assert_eq!(treasury.get_user_contribution(round, other), 300);
    assert_eq!(treasury.get_fund_round(round).unwrap().funded_amount, 300);
    assert_eq!(treasury.get_group_balance(1), 300);
    assert_eq!(treasury.withdraw_contribution(&group, round, user, 300), Err(Error::NoContributionToWithdraw));
}

#[test]
fn withdraw_cannot_take_released_funds() {
    let user = Address::new(1);
    let dest = Address::new(2);
    let (groups, mut treasury) = funded(&[user, dest], 0);
    let group = groups.get_group(1);
    let round = treasury.propose_fund_round(&group, 1, 1000, user).unwrap();
    treasury.contribute_to_fund_round(&group, round, 500, user).unwrap();
    let id = treasury.propose_release(&group, dest, 400, 1, user).unwrap();
    treasury.approve_release(&group, id, user).unwrap();
    treasury.execute_release(1, id, 500).unwrap();
    assert_eq!(treasury.get_group_balance(1), 100);
    // Even with other groups' tokens in the contract, the refund of 500 is
    // more than the group has left.
    assert_eq!(treasury.withdraw_contribution(&group, round, user, 1000), Err(Error::InsufficientGroupBalance));
    assert_eq!(treasury.get_group_balance(1), 100);
    assert_eq!(treasury.get_user_contribution(round, user), 500);
}

#[test]
fn overflowing_records_are_refused() {
    let user = Address::new(1);
    let groups = registry(1, &[user]);
    let group = groups.get_group(1);
    let mut treasury = TreasuryContract::new();
    treasury.group_balances.push((1, i128::MAX));
    treasury.fund_rounds.push(FundRound {
        group_id: 1,
        total_amount: 100,
        amount_of_members: 4,
        funded_amount: 0,
        completed: false,
    });
    assert_eq!(treasury.contribute_to_fund_round(&group, 1, 10, user), Err(Error::BalanceOverflow));

    let mut treasury = TreasuryContract::new();
    treasury.group_balances.push((1, 0));
    treasury.fund_rounds.push(FundRound {
        group_id: 1,
        total_amount: 100,
        amount_of_members: 4,
        funded_amount: 0,
        completed: false,
    });
    treasury.fund_contributions.push(((1, user), i128::MAX));
    assert_eq!(treasury.contribute_to_fund_round(&group, 1, 10, user), Err(Error::ContributionOverflow));

    let mut treasury = TreasuryContract::new();
    treasury.group_balances.push((1, 0));
    treasury.fund_rounds.push(FundRound {
        group_id: 1,
        total_amount: 100,
        amount_of_members: 4,
        funded_amount: i128::MIN,
        completed: false,
    });
    assert_eq!(treasury.contribute_to_fund_round(&group, 1, 10, user), Err(Error::FundedExceedsTotal));
}

#[test]
fn lists_follow_creation_order() {
    let user = Address::new(1);
    let groups = registry(2, &[user]);
    let g1 = groups.get_group(1);
    let g2 = groups.get_group(2);
    let mut treasury = TreasuryContract::new();
    treasury.create_treasury(&g1, 1, user).unwrap();
    treasury.create_treasury(&g2, 2, user).unwrap();
    let r1 = treasury.propose_fund_round(&g1, 1, 1000, user).unwrap();
    let r2 = treasury.propose_fund_round(&g2, 2, 1000, user).unwrap();
    let r3 = treasury.propose_fund_round(&g1, 1, 1000, user).unwrap();
    assert_eq!((r1, r2, r3), (1, 2, 3));
    assert_eq!(treasury.get_group_rounds(1), vec![1, 3]);
    assert_eq!(treasury.get_group_rounds(2), vec![2]);
    assert_eq!(treasury.get_group_rounds(3), Vec::<u64>::new());
    treasury.contribute_to_fund_round(&g1, r1, 1000, user).unwrap();
    treasury.contribute_to_fund_round(&g2, r2, 1000, user).unwrap();
    let p1 = treasury.propose_release(&g2, user, 10, 2, user).unwrap();
    let p2 = treasury.propose_release(&g1, user, 10, 1, user).unwrap();
    let p3 = treasury.propose_release(&g2, user, 10, 2, user).unwrap();
    assert_eq!((p1, p2, p3), (1, 2, 3));
    assert_eq!(treasury.get_release_proposals_of_group(2), vec![1, 3]);
    assert_eq!(treasury.get_release_proposals_of_group(1), vec![2]);
}

#[test]
fn holdings_track_the_total_of_balances() {
    let a = Address::new(1);
    let b = Address::new(2);
    let groups = registry(2, &[a, b]);
    let g1 = groups.get_group(1);
    let g2 = groups.get_group(2);
    let mut treasury = TreasuryContract::new();
    treasury.create_treasury(&g1, 1, a).unwrap();
    treasury.create_treasury(&g2, 2, b).unwrap();
    let total = |t: &TreasuryContract| t.get_group_balance(1) + t.get_group_balance(2);
    let mut held: i128 = 0;

    let r1 = treasury.propose_fund_round(&g1, 1, 500, a).unwrap();
    let r2 = treasury.propose_fund_round(&g2, 2, 800, b).unwrap();
    treasury.contribute_to_fund_round(&g1, r1, 300, a).unwrap();
    held += 300;
    treasury.contribute_to_fund_round(&g2, r2, 800, b).unwrap();
    held += 800;
    treasury.contribute_to_fund_round(&g1, r1, 150, b).unwrap();
    held += 150;
    assert_eq!(total(&treasury), held);

    let p = treasury.propose_release(&g2, a, 700, 2, b).unwrap();
    treasury.approve_release(&g2, p, b).unwrap();
    treasury.execute_release(1, p, held).unwrap();
    held -= 700;
    assert_eq!(total(&treasury), held);

    treasury.withdraw_contribution(&g1, r1, b, held).unwrap();
    held -= 150;
    assert_eq!(total(&treasury), held);
    assert_eq!(held, 400);
    assert_eq!(treasury.get_fund_round(r1).unwrap().funded_amount, 300);
}

#[test]
fn refused_proposal_uses_no_id() {
    let user = Address::new(1);
    let dest = Address::new(2);
    let (groups, mut treasury) = funded(&[user, dest], 100);
    let group = groups.get_group(1);
    assert_eq!(treasury.propose_release(&group, dest, 500, 1, user), Err(Error::InsufficientGroupBalance));
    assert_eq!(treasury.get_release_proposals_of_group(1), Vec::<u64>::new());
    assert_eq!(treasury.propose_release(&group, dest, 50, 1, user), Ok(1));
    assert_eq!(treasury.get_release_proposals_of_group(1), vec![1]);
}
