//! Read-only queries on a treasury.

use vstd::prelude::*;
use crate::address::Address;
use crate::errors::Error;
use crate::treasury::{TreasuryContract, index_of_id};
use crate::types::{FundRound, ReleaseProposal};

verus! {

impl TreasuryContract {
    /// The identifiers of the fund rounds of a group, oldest first.
    pub fn get_group_rounds(&self, group_id: u64) -> (ids: Vec<u64>)
        ensures
            ids@ == self@.round_ids_of_group(group_id),
    {
        let n: usize = self.fund_rounds.len();
        let mut ids: Vec<u64> = Vec::new();
        let mut i: usize = 0;
        while i < n
            invariant
                n == self.fund_rounds@.len(),
                i <= n,
                ids@ == self@.round_ids_among(i as nat, group_id),
            decreases n - i,
        {
            if self.fund_rounds[i].group_id == group_id {
                ids.push((i as u64) + 1);
            }
            i = i + 1;
        }
        ids
    }

    /// Fund round `round_id`.
    pub fn get_fund_round(&self, round_id: u64) -> (r: Result<FundRound, Error>)
        ensures
            r == (if self@.has_round(round_id) {
                Ok::<FundRound, Error>(self@.round(round_id))
            } else {
                Err::<FundRound, Error>(Error::RoundNotFound)
            }),
    {
        match index_of_id(round_id, self.fund_rounds.len()) {
            Some(i) => Ok(self.fund_rounds[i]),
            None => Err(Error::RoundNotFound),
        }
    }

    /// What `user` has paid into round `round_id` (0 if nothing).
    pub fn get_user_contribution(&self, round_id: u64, user: Address) -> (c: i128)
        ensures
            c == self@.contribution(round_id, user),
    {
        self.find_contribution(round_id, user)
    }

    /// The identifiers of the release proposals of a group, oldest first.
    pub fn get_release_proposals_of_group(&self, group_id: u64) -> (ids: Vec<u64>)
        ensures
            ids@ == self@.proposal_ids_of_group(group_id),
    {
        let n: usize = self.release_proposals.len();
        let mut ids: Vec<u64> = Vec::new();
        let mut i: usize = 0;
        while i < n
            invariant
                n == self.release_proposals@.len(),
                i <= n,
                ids@ == self@.proposal_ids_among(i as nat, group_id),
            decreases n - i,
        {
            if self.release_proposals[i].group_id == group_id {
                ids.push((i as u64) + 1);
            }
            i = i + 1;
        }
        ids
    }

    /// Release proposal `proposal_id`.
    pub fn get_release_proposal(&self, proposal_id: u64) -> (r: Result<ReleaseProposal, Error>)
        ensures
            r == (if self@.has_proposal(proposal_id) {
                Ok::<ReleaseProposal, Error>(self@.proposal(proposal_id))
            } else {
                Err::<ReleaseProposal, Error>(Error::ProposalNotFound)
            }),
    {
        match index_of_id(proposal_id, self.release_proposals.len()) {
            Some(i) => Ok(self.release_proposals[i]),
            None => Err(Error::ProposalNotFound),
        }
    }

    /// Whether the group has a treasury.
    pub fn check_treasury_id(&self, group_id: u64) -> (b: bool)
        ensures
            b == self@.has_treasury(group_id),
    {
        self.find_balance(group_id).is_some()
    }

    /// The group's balance (0 if it has no treasury).
    pub fn get_group_balance(&self, group_id: u64) -> (b: i128)
        ensures
            b == self@.balance(group_id),
    {
        match self.find_balance(group_id) {
            Some(b) => b,
            None => 0,
        }
    }

    /// Whether the group's balance is at least `amount`.
    pub fn has_sufficient_group_balance(&self, group_id: u64, amount: i128) -> (b: bool)
        ensures
            b == (self@.balance(group_id) >= amount),
    {
        self.get_group_balance(group_id) >= amount
    }
}

} // verus!
