//! Treasuries and release proposals.

use vstd::prelude::*;
use crate::address::Address;
use crate::errors::Error;
use crate::model::{lemma_tally_kept, lemma_tally_after_propose, lemma_tally_after_approve, lemma_paid_in_kept};
use crate::group::Group;
use crate::treasury::{TreasuryContract, index_of_id};
use crate::types::ReleaseProposal;

verus! {

impl TreasuryContract {
    /// Creates the treasury of a group, with a balance of 0.
    ///
    /// `group` is the group `group_id` as the group registry holds it.
    pub fn create_treasury(&mut self, group: &Group, group_id: u64, user: Address) -> (r: Result<(), Error>)
        ensures
            match old(self)@.create_treasury_outcome(group.members@, group_id, user) {
                Ok(s) => r is Ok && final(self)@ == s,
                Err(e) => r == Err::<(), Error>(e) && final(self)@ == old(self)@,
            },
            old(self)@.sound() ==> final(self)@.sound(),
            old(self)@.balances_nonnegative() ==> final(self)@.balances_nonnegative(),
    {
        if !group.is_member(user) {
            return Err(Error::NotMember);
        }
        if self.find_balance(group_id).is_some() {
            return Err(Error::GroupIdAlreadyInUse);
        }
        self.set_balance(group_id, 0);
        proof {
            if old(self)@.sound() {
                lemma_tally_kept(old(self)@, self@);
                lemma_paid_in_kept(old(self)@, self@);
            }
        }
        Ok(())
    }

    /// Proposes to pay `amount` of the group's balance to `destination`, and
    /// returns the new proposal's identifier.
    ///
    /// `group` is the group `group_id` as the group registry holds it.
    pub fn propose_release(
        &mut self,
        group: &Group,
        destination: Address,
        amount: i128,
        group_id: u64,
        user: Address,
    ) -> (r: Result<u64, Error>)
        requires
            old(self)@.proposals.len() < u64::MAX,
        ensures
            match old(self)@.propose_release_outcome(group.members@, destination, amount, group_id, user) {
                Ok(s) => r == Ok::<u64, Error>((old(self)@.proposals.len() + 1) as u64) && final(self)@ == s,
                Err(e) => r == Err::<u64, Error>(e) && final(self)@ == old(self)@,
            },
            old(self)@.sound() ==> final(self)@.sound(),
            old(self)@.balances_nonnegative() ==> final(self)@.balances_nonnegative(),
    {
        if !group.is_member(user) || !group.is_member(destination) {
            return Err(Error::NotMember);
        }
        let balance: i128 = match self.find_balance(group_id) {
            Some(b) => b,
            None => {
                return Err(Error::TreasuryNotInitialized);
            },
        };
        if amount <= 0 {
            return Err(Error::InvalidAmount);
        }
        if balance < amount {
            return Err(Error::InsufficientGroupBalance);
        }
        let count: usize = self.release_proposals.len();
        self.release_proposals.push(ReleaseProposal {
            group_id,
            destination,
            amount,
            approvals: 0,
            executed: false,
            canceled: false,
        });
        assert(self@.approvals =~= old(self)@.approvals);
        proof {
            if old(self)@.sound() {
                lemma_tally_after_propose(old(self)@, group.members@, destination, amount, group_id, user);
                lemma_paid_in_kept(old(self)@, self@);
            }
        }
        Ok((count as u64) + 1)
    }

    /// Records the approval of release proposal `release_proposal_id` by
    /// `user`.
    ///
    /// `group` is the proposal's group as the group registry holds it.
    pub fn approve_release(&mut self, group: &Group, release_proposal_id: u64, user: Address) -> (r: Result<(), Error>)
        requires
            old(self)@.has_proposal(release_proposal_id)
                ==> old(self)@.proposal(release_proposal_id).approvals < u32::MAX,
        ensures
            match old(self)@.approve_release_outcome(group.members@, release_proposal_id, user) {
                Ok(s) => r is Ok && final(self)@ == s,
                Err(e) => r == Err::<(), Error>(e) && final(self)@ == old(self)@,
            },
            old(self)@.sound() ==> final(self)@.sound(),
            old(self)@.balances_nonnegative() ==> final(self)@.balances_nonnegative(),
    {
        let idx: usize = match index_of_id(release_proposal_id, self.release_proposals.len()) {
            Some(i) => i,
            None => {
                return Err(Error::ProposalNotFound);
            },
        };
        let p: ReleaseProposal = self.release_proposals[idx];
        if p.executed {
            return Err(Error::AlreadyExecuted);
        }
        if p.canceled {
            return Err(Error::ProposalCanceled);
        }
        if p.destination == user {
            return Err(Error::DestinationCannotApprove);
        }
        if !group.is_member(user) {
            return Err(Error::NotMember);
        }
        if self.has_approved(release_proposal_id, user) {
            return Err(Error::AlreadyApproved);
        }
        self.release_approvals.push((release_proposal_id, user));
        let updated = ReleaseProposal {
            group_id: p.group_id,
            destination: p.destination,
            amount: p.amount,
            approvals: p.approvals + 1,
            executed: p.executed,
            canceled: p.canceled,
        };
        self.release_proposals.set(idx, updated);
        proof {
            let a = (release_proposal_id, user);
            assert forall|x: (u64, Address)| #[trigger] self.release_approvals@.contains(x)
                <==> (old(self).release_approvals@.contains(x) || x == a) by {
                if old(self).release_approvals@.contains(x) {
                    let j = choose|j: int| 0 <= j < old(self).release_approvals@.len()
                        && old(self).release_approvals@[j] == x;
                    assert(self.release_approvals@[j] == x);
                }
                if x == a {
                    assert(self.release_approvals@[old(self).release_approvals@.len() as int] == x);
                }
                if self.release_approvals@.contains(x) {
                    let j = choose|j: int| 0 <= j < self.release_approvals@.len()
                        && self.release_approvals@[j] == x;
                    if j < old(self).release_approvals@.len() {
                        assert(old(self).release_approvals@[j] == x);
                    }
                }
            }
            assert(self@.approvals =~= old(self)@.approvals.insert(a));
        }
        proof {
            if old(self)@.sound() {
                lemma_tally_after_approve(old(self)@, group.members@, release_proposal_id, user);
                lemma_paid_in_kept(old(self)@, self@);
            }
        }
        Ok(())
    }

    /// Pays out release proposal `release_proposal_id`: takes its amount off
    /// the group's balance and marks it executed. The amount is then to be
    /// transferred to the proposal's destination.
    ///
    /// `approvals_required` is the approval rule of the proposal's group,
    /// and `treasury_token_balance` is what the contract holds of the token.
    pub fn execute_release(
        &mut self,
        approvals_required: u32,
        release_proposal_id: u64,
        treasury_token_balance: i128,
    ) -> (r: Result<(), Error>)
        ensures
            match old(self)@.execute_release_outcome(approvals_required, release_proposal_id, treasury_token_balance) {
                Ok(s) => r is Ok && final(self)@ == s,
                Err(e) => r == Err::<(), Error>(e) && final(self)@ == old(self)@,
            },
            old(self)@.sound() ==> final(self)@.sound(),
            old(self)@.balances_nonnegative() ==> final(self)@.balances_nonnegative(),
    {
        let idx: usize = match index_of_id(release_proposal_id, self.release_proposals.len()) {
            Some(i) => i,
            None => {
                return Err(Error::ProposalNotFound);
            },
        };
        let p: ReleaseProposal = self.release_proposals[idx];
        if p.executed {
            return Err(Error::AlreadyExecuted);
        }
        if p.canceled {
            return Err(Error::ProposalCanceled);
        }
        if p.approvals < approvals_required {
            return Err(Error::NotEnoughApprovals);
        }
        let balance: i128 = match self.find_balance(p.group_id) {
            Some(b) => b,
            None => {
                return Err(Error::GroupBalanceNotFound);
            },
        };
        if balance < p.amount {
            return Err(Error::InsufficientGroupBalance);
        }
        let new_balance: i128 = match balance.checked_sub(p.amount) {
            Some(b) => b,
            None => {
                return Err(Error::BalanceUnderflow);
            },
        };
        if treasury_token_balance < p.amount {
            return Err(Error::InsufficientTreasuryBalance);
        }
        self.set_balance(p.group_id, new_balance);
        let updated = ReleaseProposal {
            group_id: p.group_id,
            destination: p.destination,
            amount: p.amount,
            approvals: p.approvals,
            executed: true,
            canceled: p.canceled,
        };
        self.release_proposals.set(idx, updated);
        assert(self@.approvals =~= old(self)@.approvals);
        proof {
            if old(self)@.sound() {
                lemma_tally_kept(old(self)@, self@);
                lemma_paid_in_kept(old(self)@, self@);
            }
        }
        Ok(())
    }

    /// Cancels release proposal `release_proposal_id`.
    ///
    /// `group` is the proposal's group as the group registry holds it.
    pub fn cancel_release_proposal(
        &mut self,
        group: &Group,
        release_proposal_id: u64,
        user: Address,
    ) -> (r: Result<(), Error>)
        ensures
            match old(self)@.cancel_release_outcome(group.members@, release_proposal_id, user) {
                Ok(s) => r is Ok && final(self)@ == s,
                Err(e) => r == Err::<(), Error>(e) && final(self)@ == old(self)@,
            },
            old(self)@.sound() ==> final(self)@.sound(),
            old(self)@.balances_nonnegative() ==> final(self)@.balances_nonnegative(),
    {
        let idx: usize = match index_of_id(release_proposal_id, self.release_proposals.len()) {
            Some(i) => i,
            None => {
                return Err(Error::ProposalNotFound);
            },
        };
        let p: ReleaseProposal = self.release_proposals[idx];
        if p.executed {
            return Err(Error::AlreadyExecuted);
        }
        if p.canceled {
            return Err(Error::ProposalCanceled);
        }
        if !group.is_member(user) {
            return Err(Error::NotMember);
        }
        let updated = ReleaseProposal {
            group_id: p.group_id,
            destination: p.destination,
            amount: p.amount,
            approvals: p.approvals,
            executed: p.executed,
            canceled: true,
        };
        self.release_proposals.set(idx, updated);
        assert(self@.approvals =~= old(self)@.approvals);
        proof {
            if old(self)@.sound() {
                lemma_tally_kept(old(self)@, self@);
                lemma_paid_in_kept(old(self)@, self@);
            }
        }
        Ok(())
    }
}

} // verus!
