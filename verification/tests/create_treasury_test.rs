use lemipay::address::Address;
use lemipay::group::GroupContract;
use lemipay::treasury::TreasuryContract;

/// A registry of `count` groups in which every given address is a member,
/// filled up to four members, each group asking for one approval.
fn registry(count: u64, members: &[Address]) -> GroupContract {
    let mut groups = GroupContract::new();
    for _ in 0..count {
        let mut list = members.to_vec();
        let mut filler = 1000u64;
        while list.len() < 4 {
            list.push(Address::new(filler));
            filler += 1;
        }
        groups.create_group(list, 1);
    }
    groups
}

#[test]
#[should_panic]
fn test_test_duped_group_id() {
    let user1 = Address::new(1);
    let groups = registry(1, &[user1]);
    let mut treasury = TreasuryContract::new();

    let group_id: u64 = 1;
    let group = groups.get_group(group_id);

    // First creation should succeed
    treasury.create_treasury(&group, group_id, user1).unwrap();

    // Second creation with same group ID should panic
    treasury.create_treasury(&group, group_id, user1).unwrap();
}

#[test]
fn test_test_create_treasury() {
    let user = Address::new(1);
    let groups = registry(1, &[user]);
    let group_id = 1;
    let mut treasury = TreasuryContract::new();

    treasury.create_treasury(&groups.get_group(group_id), group_id, user).unwrap();

    let exists = treasury.check_treasury_id(group_id);
    assert!(exists);
}

#[test]
#[should_panic]
fn create_treasury_test_test_duped_group_id() {
    let user1 = Address::new(1);
    let groups = registry(1, &[user1]);
    let mut treasury = TreasuryContract::new();
    let group_id: u64 = 1;
    let group = groups.get_group(group_id);

    treasury.create_treasury(&group, group_id, user1).unwrap();
    treasury.create_treasury(&group, group_id, user1).unwrap();
}

#[test]
fn create_treasury_test_test_create_treasury() {
    let user = Address::new(1);
    let groups = registry(1, &[user]);
    let group_id = 1;
    let mut treasury = TreasuryContract::new();

    treasury.create_treasury(&groups.get_group(group_id), group_id, user).unwrap();

    let exists = treasury.check_treasury_id(group_id);
    assert!(exists);
}
