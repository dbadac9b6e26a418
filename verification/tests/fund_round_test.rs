use lemipay::address::Address;
use lemipay::errors::Error;
use lemipay::group::GroupContract;
use lemipay::treasury::TreasuryContract;

/// A registry of `count` groups in which every given address is a member,
/// filled up to four members, each group asking for one approval.
fn registry(count: u64, members: &[Address]) -> GroupContract {
    let mut groups = GroupContract::new();
    for _ in 0..count {
        let mut list = members.to_vec();
        let mut filler = 1000u64;
        while list.len() < 4 {
            list.push(Address::new(filler));
            filler += 1;
        }
        groups.create_group(list, 1);
    }
    groups
}

#[test]
fn test_propose_found_round() {
    let user1 = Address::new(1);
    let groups = registry(2, &[user1]);
    let mut treasury = TreasuryContract::new();

    let group_id: u64 = 2;
    let group = groups.get_group(group_id);

    treasury.create_treasury(&group, group_id, user1).unwrap();

    let fund_round_id = treasury.propose_fund_round(&group, group_id, 1000, user1).unwrap();
    let group_fund_rounds = treasury.get_group_rounds(group_id);

    assert_eq!(group_fund_rounds.len(), 1);
    assert!(group_fund_rounds.contains(&fund_round_id));

    let fund_round = treasury.get_fund_round(fund_round_id).unwrap();
    assert_eq!(fund_round.total_amount, 1000);
    assert_eq!(fund_round.amount_of_members, 4);
    assert_eq!(fund_round.funded_amount, 0);
    assert_eq!(fund_round.completed, false);
}

#[test]
fn test_test_propose_fund_round() {
    let user = Address::new(1);
    let groups = registry(1, &[user]);
    let mut treasury = TreasuryContract::new();
    let group_id = 1;
    let group = groups.get_group(group_id);

    treasury.create_treasury(&group, group_id, user).unwrap();
    let round_id = treasury.propose_fund_round(&group, group_id, 1000, user).unwrap();

    assert_eq!(round_id, 1);

    let round = treasury.get_fund_round(round_id).unwrap();

    assert_eq!(round.total_amount, 1000);
    assert_eq!(round.funded_amount, 0);
    assert!(!round.completed);
}

#[test]
fn test_test_contribute_rejects_invalid_amount() {
    let user = Address::new(1);
    let groups = registry(1, &[user]);
    let mut treasury = TreasuryContract::new();
    let group_id = 1;
    let group = groups.get_group(group_id);

    treasury.create_treasury(&group, group_id, user).unwrap();
    let round_id = treasury.propose_fund_round(&group, group_id, 1000, user).unwrap();

    let result = treasury.contribute_to_fund_round(&group, round_id, 0, user);
    assert_eq!(result, Err(Error::InvalidAmount));
}

#[test]
fn test_test_contribute_to_fund_round() {
    let user = Address::new(1);
    let groups = registry(1, &[user]);
    let mut treasury = TreasuryContract::new();
    let group_id = 1;
    let group = groups.get_group(group_id);

    treasury.create_treasury(&group, group_id, user).unwrap();
    let round_id = treasury.propose_fund_round(&group, group_id, 1000, user).unwrap();

    treasury.contribute_to_fund_round(&group, round_id, 250, user).unwrap();

    let round = treasury.get_fund_round(round_id).unwrap();
    assert_eq!(round.funded_amount, 250);

    let user_contrib = treasury.get_user_contribution(round_id, user);
    assert_eq!(user_contrib, 250);
}

#[test]
fn test_test_propose_expense_rejects_negative() {
    let user = Address::new(1);
    let groups = registry(1, &[user]);
    let mut treasury = TreasuryContract::new();
    let group_id: u64 = 1;
    let group = groups.get_group(group_id);

    treasury.create_treasury(&group, group_id, user).unwrap();
    let result = treasury.propose_fund_round(&group, group_id, -1000, user);
    assert_eq!(result, Err(Error::InvalidAmount));
}

#[test]
fn test_propose_fund_round_creates_round() {
    let user1 = Address::new(1);
    let groups = registry(2, &[user1]);
    let mut treasury = TreasuryContract::new();
    let group_id: u64 = 2;
    let group = groups.get_group(group_id);

    treasury.create_treasury(&group, group_id, user1).unwrap();

    let fund_round_id = treasury.propose_fund_round(&group, group_id, 1000, user1).unwrap();
    let group_fund_rounds = treasury.get_group_rounds(group_id);

    assert_eq!(group_fund_rounds.len(), 1);
    assert!(group_fund_rounds.contains(&fund_round_id));

    let fund_round = treasury.get_fund_round(fund_round_id).unwrap();
    assert_eq!(fund_round.total_amount, 1000);
    assert_eq!(fund_round.amount_of_members, 4);
    assert_eq!(fund_round.funded_amount, 0);
    assert_eq!(fund_round.completed, false);
}

#[test]
fn fund_round_test_test_propose_fund_round() {
    let user = Address::new(1);
    let groups = registry(1, &[user]);
    let mut treasury = TreasuryContract::new();
    let group_id = 1;
    let group = groups.get_group(group_id);

    treasury.create_treasury(&group, group_id, user).unwrap();
    let round_id = treasury.propose_fund_round(&group, group_id, 1000, user).unwrap();

    assert_eq!(round_id, 1);

    let round = treasury.get_fund_round(round_id).unwrap();
    assert_eq!(round.total_amount, 1000);
    assert_eq!(round.funded_amount, 0);
    assert!(!round.completed);
}

#[test]
fn fund_round_test_test_contribute_rejects_invalid_amount() {
    let user = Address::new(1);
    let groups = registry(1, &[user]);
    let mut treasury = TreasuryContract::new();
    let group_id = 1;
    let group = groups.get_group(group_id);

    treasury.create_treasury(&group, group_id, user).unwrap();
    let round_id = treasury.propose_fund_round(&group, group_id, 1000, user).unwrap();

    let result = treasury.contribute_to_fund_round(&group, round_id, 0, user);
    assert_eq!(result, Err(Error::InvalidAmount));
}

#[test]
fn fund_round_test_test_contribute_to_fund_round() {
    let user = Address::new(1);
    let groups = registry(1, &[user]);
    let mut treasury = TreasuryContract::new();
    let group_id = 1;
    let group = groups.get_group(group_id);

    treasury.create_treasury(&group, group_id, user).unwrap();
    let round_id = treasury.propose_fund_round(&group, group_id, 1000, user).unwrap();

    treasury.contribute_to_fund_round(&group, round_id, 250, user).unwrap();

    let round = treasury.get_fund_round(round_id).unwrap();
    assert_eq!(round.funded_amount, 250);

    let user_contrib = treasury.get_user_contribution(round_id, user);
    assert_eq!(user_contrib, 250);
}

#[test]
fn fund_round_test_test_propose_expense_rejects_negative() {
    let user = Address::new(1);
    let groups = registry(1, &[user]);
    let mut treasury = TreasuryContract::new();
    let group_id: u64 = 1;
    let group = groups.get_group(group_id);

    treasury.create_treasury(&group, group_id, user).unwrap();
    let result = treasury.propose_fund_round(&group, group_id, -1000, user);
    assert_eq!(result, Err(Error::InvalidAmount));
}
