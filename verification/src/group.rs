//! The group registry: groups of members with an approval rule.

use vstd::prelude::*;
use crate::address::{Address, contains_address};

verus! {

/// A group: its members and how many approvals a release needs.
#[derive(Debug)]
pub struct Group {
    pub members: Vec<Address>,
    pub approvals_required: u32,
}

/// A group may be created when its rule asks for at least one approval and
/// no more approvals than it has members, and no member is listed twice.
pub open spec fn valid_group_rule(members: Seq<Address>, approvals_required: u32) -> bool {
    &&& approvals_required > 0
    &&& members.no_duplicates()
    &&& approvals_required <= members.len()
}

/// A copy of a list of addresses.
pub fn copy_addresses(v: &Vec<Address>) -> (r: Vec<Address>)
    ensures
        r@ == v@,
{
    let n: usize = v.len();
    let mut r: Vec<Address> = Vec::new();
    let mut i: usize = 0;
    while i < n
        invariant
            n == v@.len(),
            i <= n,
            r@ == v@.take(i as int),
        decreases n - i,
    {
        r.push(v[i]);
        i = i + 1;
        assert(r@ =~= v@.take(i as int));
    }
    assert(v@.take(n as int) =~= v@);
    r
}

/// Whether some address occurs twice in `members`.
pub fn has_duplicates(members: &Vec<Address>) -> (dup: bool)
    ensures
        dup == !members@.no_duplicates(),
{
    let n: usize = members.len();
    let mut i: usize = 0;
    while i < n
        invariant
            n == members@.len(),
            i <= n,
            forall|a: int, b: int| 0 <= a < i && a < b < n ==> members@[a] != members@[b],
        decreases n - i,
    {
        let mut j: usize = i + 1;
        while j < n
            invariant
                n == members@.len(),
                i < n,
                i + 1 <= j <= n,
                forall|a: int, b: int| 0 <= a < i && a < b < n ==> members@[a] != members@[b],
                forall|b: int| i < b < j ==> members@[i as int] != members@[b],
            decreases n - j,
        {
            if members[i] == members[j] {
                return true;
            }
            j = j + 1;
        }
        i = i + 1;
    }
    assert forall|a: int, b: int| 0 <= a < n && 0 <= b < n && a != b implies members@[a] != members@[b] by {
        if b < a {
            assert(members@[b] != members@[a]);
        }
    }
    false
}

/// Whether a group with these members and this rule may be created.
pub fn is_valid_group_rule(members: &Vec<Address>, approvals_required: u32) -> (ok: bool)
    ensures
        ok == valid_group_rule(members@, approvals_required),
{
    if approvals_required == 0 {
        return false;
    }
    if has_duplicates(members) {
        return false;
    }
    let len: usize = members.len();
    (approvals_required as u64) <= (len as u64)
}

/// The registry of groups. Group `id` is `groups[id - 1]`: identifiers are
/// handed out in order, starting at 1.
#[derive(Debug)]
pub struct GroupContract {
    pub groups: Vec<Group>,
}

impl GroupContract {
    /// The number of groups created so far, which is also the last identifier
    /// handed out.
    pub open spec fn group_count(&self) -> nat {
        self.groups@.len()
    }

    /// Whether a group with identifier `id` exists.
    pub open spec fn spec_has_group(&self, id: u64) -> bool {
        1 <= id <= self.groups@.len()
    }

    /// The members of group `id`.
    pub open spec fn members_of(&self, id: u64) -> Seq<Address> {
        self.groups@[id - 1].members@
    }

    /// The approval rule of group `id`.
    pub open spec fn rule_of(&self, id: u64) -> u32 {
        self.groups@[id - 1].approvals_required
    }

    /// Every group in the registry has a valid rule.
    pub open spec fn all_valid(&self) -> bool {
        forall|id: u64| #[trigger] self.spec_has_group(id) ==> valid_group_rule(self.members_of(id), self.rule_of(id))
    }

    /// Whether `self` holds every group of `before`, unchanged.
    pub open spec fn extends(&self, before: &GroupContract) -> bool {
        &&& before.group_count() <= self.group_count()
        &&& forall|id: u64| #[trigger] before.spec_has_group(id) ==> {
            &&& self.members_of(id) == before.members_of(id)
            &&& self.rule_of(id) == before.rule_of(id)
        }
    }

    /// An empty registry.
    pub fn new() -> (c: GroupContract)
        ensures
            c.group_count() == 0,
            c.all_valid(),
    {
        GroupContract { groups: Vec::new() }
    }

    /// Creates a group and returns its identifier.
    pub fn create_group(&mut self, members: Vec<Address>, approvals_required: u32) -> (id: u64)
        requires
            valid_group_rule(members@, approvals_required),
            members@.len() <= u32::MAX,
            old(self).group_count() < u64::MAX,
        ensures
            id == old(self).group_count() + 1,
            final(self).group_count() == id,
            final(self).extends(&*old(self)),
            final(self).members_of(id) == members@,
            final(self).rule_of(id) == approvals_required,
            old(self).all_valid() ==> final(self).all_valid(),
    {
        let ghost m = members@;
        let count: usize = self.groups.len();
        self.groups.push(Group { members, approvals_required });
        let id: u64 = (count as u64) + 1;
        assert(self.groups@[count as int].members@ == m);
        assert forall|j: u64| #[trigger] self.spec_has_group(j) && old(self).all_valid()
            implies valid_group_rule(self.members_of(j), self.rule_of(j)) by {
            if j <= count {
                assert(old(self).spec_has_group(j));
                assert(self.groups@[j - 1] == old(self).groups@[j - 1]);
            }
        }
        id
    }

    /// Whether a group with identifier `group_id` exists.
    pub fn has_group(&self, group_id: u64) -> (b: bool)
        ensures
            b == self.spec_has_group(group_id),
    {
        let count: usize = self.groups.len();
        1 <= group_id && group_id <= (count as u64)
    }

    /// The group with identifier `group_id`.
    pub fn get_group(&self, group_id: u64) -> (g: Group)
        requires
            self.spec_has_group(group_id),
        ensures
            g.members@ == self.members_of(group_id),
            g.approvals_required == self.rule_of(group_id),
    {
        let count: usize = self.groups.len();
        assert(group_id - 1 < count);
        let idx: usize = (group_id - 1) as usize;
        let g: &Group = &self.groups[idx];
        Group { members: copy_addresses(&g.members), approvals_required: g.approvals_required }
    }

    /// The members of group `group_id`.
    pub fn get_members(&self, group_id: u64) -> (members: Vec<Address>)
        requires
            self.spec_has_group(group_id),
        ensures
            members@ == self.members_of(group_id),
    {
        let group = self.get_group(group_id);
        group.members
    }

    /// The approval rule of group `group_id`.
    pub fn get_approval_rule(&self, group_id: u64) -> (rule: u32)
        requires
            self.spec_has_group(group_id),
        ensures
            rule == self.rule_of(group_id),
    {
        let group = self.get_group(group_id);
        group.approvals_required
    }
}

impl Group {
    /// Whether `user` is a member of the group.
    pub fn is_member(&self, user: Address) -> (b: bool)
        ensures
            b == self.members@.contains(user),
    {
        contains_address(&self.members, user)
    }
}

} // verus!
