use lemipay::address::Address;
use lemipay::group::{is_valid_group_rule, GroupContract};

#[test]
fn test_create_group() {
    let user1 = Address::new(1);
    let user2 = Address::new(2);

    let members = vec![user1, user2];

    let mut contract = GroupContract::new();

    let group_id = contract.create_group(members, 2);

    let group = contract.get_group(group_id);

    assert_eq!(group.approvals_required, 2);
    assert_eq!(group.members.len(), 2);
}

#[test]
fn group_ids_are_sequential_from_one() {
    let mut contract = GroupContract::new();
    assert!(!contract.has_group(1));
    let a = contract.create_group(vec![Address::new(1)], 1);
    let b = contract.create_group(vec![Address::new(2), Address::new(3)], 2);
    assert_eq!(a, 1);
    assert_eq!(b, 2);
    assert!(contract.has_group(1));
    assert!(contract.has_group(2));
    assert!(!contract.has_group(0));
    assert!(!contract.has_group(3));
}

#[test]
fn group_reads_back_what_was_created() {
    let mut contract = GroupContract::new();
    let members = vec![Address::new(7), Address::new(8), Address::new(9)];
    let id = contract.create_group(members.clone(), 2);
    assert_eq!(contract.get_members(id), members);
    assert_eq!(contract.get_approval_rule(id), 2);
    let group = contract.get_group(id);
    assert_eq!(group.members, members);
    assert!(group.is_member(Address::new(8)));
    assert!(!group.is_member(Address::new(10)));
}

#[test]
fn group_rule_validation() {
    let two = vec![Address::new(1), Address::new(2)];
    assert!(is_valid_group_rule(&two, 1));
    assert!(is_valid_group_rule(&two, 2));
    // no approvals required
    assert!(!is_valid_group_rule(&two, 0));
    // more approvals than members
    assert!(!is_valid_group_rule(&two, 3));
    // duplicate members
    let dup = vec![Address::new(1), Address::new(2), Address::new(1)];
    assert!(!is_valid_group_rule(&dup, 1));
    // no members at all
    assert!(!is_valid_group_rule(&vec![], 1));
}
