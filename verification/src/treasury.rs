//! The treasury contract: per-group balances, release proposals and fund
//! rounds.

use vstd::prelude::*;
use crate::address::Address;
use crate::model::TreasuryState;
use crate::table::{table_map, lemma_table_first_entry, lemma_table_absent, lemma_table_update_first, lemma_table_push_new};
use crate::types::{FundRound, ReleaseProposal};

verus! {

/// The stored state of a treasury contract.
///
/// Release proposal `id` is `release_proposals[id - 1]` and fund round `id`
/// is `fund_rounds[id - 1]`. Balances and contributions are keyed tables:
/// the first entry of a key holds its value.
#[derive(Debug)]
pub struct TreasuryContract {
    /// `(group id, balance)` for each group that has a treasury.
    pub group_balances: Vec<(u64, i128)>,
    pub release_proposals: Vec<ReleaseProposal>,
    /// `(proposal id, approver)` for each approval given.
    pub release_approvals: Vec<(u64, Address)>,
    pub fund_rounds: Vec<FundRound>,
    /// `((round id, user), total paid in)`.
    pub fund_contributions: Vec<((u64, Address), i128)>,
}

impl View for TreasuryContract {
    type V = TreasuryState;

    open spec fn view(&self) -> TreasuryState {
        TreasuryState {
            balances: table_map(self.group_balances@),
            proposals: self.release_proposals@,
            approvals: Set::new(|a: (u64, Address)| self.release_approvals@.contains(a)),
            rounds: self.fund_rounds@,
            contributions: table_map(self.fund_contributions@),
        }
    }
}

/// The position of record `id` in a list of `len` records numbered from 1.
pub(crate) fn index_of_id(id: u64, len: usize) -> (r: Option<usize>)
    ensures
        match r {
            Some(i) => 1 <= id <= len && i == id - 1,
            None => !(1 <= id <= len),
        },
{
    if 1 <= id && id <= (len as u64) {
        assert(id - 1 < len);
        Some((id - 1) as usize)
    } else {
        None
    }
}

impl TreasuryContract {
    /// A treasury contract with nothing in it.
    pub fn new() -> (t: TreasuryContract)
        ensures
            t@.balances.is_empty(),
            t@.proposals.len() == 0,
            t@.approvals.is_empty(),
            t@.rounds.len() == 0,
            t@.contributions.is_empty(),
            t@.sound(),
    {
        let t = TreasuryContract {
            group_balances: Vec::new(),
            release_proposals: Vec::new(),
            release_approvals: Vec::new(),
            fund_rounds: Vec::new(),
            fund_contributions: Vec::new(),
        };
        assert(t@.balances =~= Map::empty());
        assert(t@.approvals =~= Set::empty());
        assert(t@.contributions =~= Map::empty());
        t
    }

    /// The position of the first entry for `group_id` in the balance table.
    pub(crate) fn balance_index(&self, group_id: u64) -> (r: Option<usize>)
        ensures
            match r {
                Some(i) => {
                    &&& i < self.group_balances@.len()
                    &&& self.group_balances@[i as int].0 == group_id
                    &&& forall|j: int| 0 <= j < i ==> (#[trigger] self.group_balances@[j]).0 != group_id
                },
                None => forall|j: int| 0 <= j < self.group_balances@.len()
                    ==> (#[trigger] self.group_balances@[j]).0 != group_id,
            },
    {
        let n: usize = self.group_balances.len();
        let mut i: usize = 0;
        while i < n
            invariant
                n == self.group_balances@.len(),
                i <= n,
                forall|j: int| 0 <= j < i ==> (#[trigger] self.group_balances@[j]).0 != group_id,
            decreases n - i,
        {
            if self.group_balances[i].0 == group_id {
                return Some(i);
            }
            i = i + 1;
        }
        None
    }

    /// The balance of `group_id`, if it has a treasury.
    pub(crate) fn find_balance(&self, group_id: u64) -> (r: Option<i128>)
        ensures
            match r {
                Some(b) => self@.has_treasury(group_id) && b == self@.balances[group_id],
                None => !self@.has_treasury(group_id),
            },
    {
        match self.balance_index(group_id) {
            Some(i) => {
                proof {
                    lemma_table_first_entry(self.group_balances@, i as int, group_id);
                }
                Some(self.group_balances[i].1)
            },
            None => {
                proof {
                    lemma_table_absent(self.group_balances@, group_id);
                }
                None
            },
        }
    }

    /// Sets the balance of `group_id` to `balance`.
    pub(crate) fn set_balance(&mut self, group_id: u64, balance: i128)
        ensures
            final(self)@ == (TreasuryState {
                balances: old(self)@.balances.insert(group_id, balance),
                ..old(self)@
            }),
    {
        match self.balance_index(group_id) {
            Some(i) => {
                proof {
                    lemma_table_update_first(self.group_balances@, i as int, group_id, balance);
                }
                self.group_balances.set(i, (group_id, balance));
            },
            None => {
                proof {
                    lemma_table_push_new(self.group_balances@, group_id, balance);
                }
                self.group_balances.push((group_id, balance));
            },
        }
        assert(self@.approvals =~= old(self)@.approvals);
    }

    /// The position of the first entry for `(round_id, user)` in the
    /// contribution table.
    pub(crate) fn contribution_index(&self, round_id: u64, user: Address) -> (r: Option<usize>)
        ensures
            match r {
                Some(i) => {
                    &&& i < self.fund_contributions@.len()
                    &&& self.fund_contributions@[i as int].0 == (round_id, user)
                    &&& forall|j: int| 0 <= j < i
                        ==> (#[trigger] self.fund_contributions@[j]).0 != (round_id, user)
                },
                None => forall|j: int| 0 <= j < self.fund_contributions@.len()
                    ==> (#[trigger] self.fund_contributions@[j]).0 != (round_id, user),
            },
    {
        let n: usize = self.fund_contributions.len();
        let mut i: usize = 0;
        while i < n
            invariant
                n == self.fund_contributions@.len(),
                i <= n,
                forall|j: int| 0 <= j < i ==> (#[trigger] self.fund_contributions@[j]).0 != (round_id, user),
            decreases n - i,
        {
            let key: (u64, Address) = self.fund_contributions[i].0;
            if key.0 == round_id && key.1 == user {
                return Some(i);
            }
            i = i + 1;
        }
        None
    }

    /// What `user` has paid into round `round_id`, 0 where nothing was
    /// recorded.
    pub(crate) fn find_contribution(&self, round_id: u64, user: Address) -> (c: i128)
        ensures
            c == self@.contribution(round_id, user),
    {
        match self.contribution_index(round_id, user) {
            Some(i) => {
                proof {
                    lemma_table_first_entry(self.fund_contributions@, i as int, (round_id, user));
                }
                self.fund_contributions[i].1
            },
            None => {
                proof {
                    lemma_table_absent(self.fund_contributions@, (round_id, user));
                }
                0
            },
        }
    }

    /// Sets what `user` has paid into round `round_id` to `amount`.
    pub(crate) fn set_contribution(&mut self, round_id: u64, user: Address, amount: i128)
        ensures
            final(self)@ == (TreasuryState {
                contributions: old(self)@.contributions.insert((round_id, user), amount),
                ..old(self)@
            }),
    {
        match self.contribution_index(round_id, user) {
            Some(i) => {
                proof {
                    lemma_table_update_first(self.fund_contributions@, i as int, (round_id, user), amount);
                }
                self.fund_contributions.set(i, ((round_id, user), amount));
            },
            None => {
                proof {
                    lemma_table_push_new(self.fund_contributions@, (round_id, user), amount);
                }
                self.fund_contributions.push(((round_id, user), amount));
            },
        }
        assert(self@.approvals =~= old(self)@.approvals);
    }

    /// Whether `user` has approved release proposal `id`.
    pub(crate) fn has_approved(&self, id: u64, user: Address) -> (b: bool)
        ensures
            b == self@.approvals.contains((id, user)),
    {
        let n: usize = self.release_approvals.len();
        let mut i: usize = 0;
        while i < n
            invariant
                n == self.release_approvals@.len(),
                i <= n,
                forall|j: int| 0 <= j < i ==> self.release_approvals@[j] != (id, user),
            decreases n - i,
        {
            let entry: (u64, Address) = self.release_approvals[i];
            if entry.0 == id && entry.1 == user {
                assert(self.release_approvals@[i as int] == (id, user));
                return true;
            }
            i = i + 1;
        }
        false
    }
}

} // verus!
