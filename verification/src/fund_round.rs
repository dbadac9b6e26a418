//! Fund rounds: targets that the members of a group pay into.

use vstd::prelude::*;
use crate::address::Address;
use crate::errors::Error;
use crate::model::{lemma_tally_kept, lemma_paid_in_after_propose_round, lemma_paid_in_update};
use crate::group::Group;
use crate::treasury::{TreasuryContract, index_of_id};
use crate::types::FundRound;

verus! {

impl TreasuryContract {
    /// Opens a fund round of `total_amount` for a group, and returns the new
    /// round's identifier.
    ///
    /// `group` is the group `group_id` as the group registry holds it.
    pub fn propose_fund_round(
        &mut self,
        group: &Group,
        group_id: u64,
        total_amount: i128,
        user: Address,
    ) -> (r: Result<u64, Error>)
        requires
            old(self)@.rounds.len() < u64::MAX,
        ensures
            match old(self)@.propose_fund_round_outcome(group.members@, group_id, total_amount, user) {
                Ok(s) => r == Ok::<u64, Error>((old(self)@.rounds.len() + 1) as u64) && final(self)@ == s,
                Err(e) => r == Err::<u64, Error>(e) && final(self)@ == old(self)@,
            },
            old(self)@.sound() ==> final(self)@.sound(),
            old(self)@.balances_nonnegative() ==> final(self)@.balances_nonnegative(),
    {
        if !group.is_member(user) {
            return Err(Error::NotMember);
        }
        if self.find_balance(group_id).is_none() {
            return Err(Error::TreasuryNotInitialized);
        }
        if total_amount <= 0 {
            return Err(Error::InvalidAmount);
        }
        let n: usize = group.members.len();
        if (n as u64) > (u32::MAX as u64) {
            return Err(Error::TooManyMembers);
        }
        if n == 0 {
            return Err(Error::NoMembers);
        }
        let count: usize = self.fund_rounds.len();
        self.fund_rounds.push(FundRound {
            group_id,
            total_amount,
            amount_of_members: n as u32,
            funded_amount: 0,
            completed: false,
        });
        assert(self@.approvals =~= old(self)@.approvals);
        proof {
            if old(self)@.sound() {
                lemma_tally_kept(old(self)@, self@);
                lemma_paid_in_after_propose_round(old(self)@, group.members@, group_id, total_amount, user);
            }
        }
        Ok((count as u64) + 1)
    }

    /// Records that `user` pays `amount` into round `round_id`: the round's
    /// funded amount, the group's balance and the user's contribution each
    /// grow by `amount`, and the round is completed once its target is met.
    /// The amount is to be transferred from `user` to the contract.
    ///
    /// `group` is the round's group as the group registry holds it.
    pub fn contribute_to_fund_round(
        &mut self,
        group: &Group,
        round_id: u64,
        amount: i128,
        user: Address,
    ) -> (r: Result<(), Error>)
        ensures
            match old(self)@.contribute_outcome(group.members@, round_id, amount, user) {
                Ok(s) => r is Ok && final(self)@ == s,
                Err(e) => r == Err::<(), Error>(e) && final(self)@ == old(self)@,
            },
            old(self)@.sound() ==> final(self)@.sound(),
            old(self)@.balances_nonnegative() ==> final(self)@.balances_nonnegative(),
    {
        if amount <= 0 {
            return Err(Error::InvalidAmount);
        }
        let idx: usize = match index_of_id(round_id, self.fund_rounds.len()) {
            Some(i) => i,
            None => {
                return Err(Error::RoundNotFound);
            },
        };
        let round: FundRound = self.fund_rounds[idx];
        let current: i128 = match self.find_balance(round.group_id) {
            Some(b) => b,
            None => {
                return Err(Error::TreasuryNotInitialized);
            },
        };
        if !group.is_member(user) {
            return Err(Error::NotMember);
        }
        if round.completed {
            return Err(Error::RoundAlreadyCompleted);
        }
        let remaining: i128 = match round.total_amount.checked_sub(round.funded_amount) {
            Some(v) => v,
            None => {
                return Err(Error::FundedExceedsTotal);
            },
        };
        if amount > remaining {
            return Err(Error::ContributionExceedsRemaining);
        }
        let new_balance: i128 = match current.checked_add(amount) {
            Some(v) => v,
            None => {
                return Err(Error::BalanceOverflow);
            },
        };
        let previous: i128 = self.find_contribution(round_id, user);
        let new_total_user: i128 = match previous.checked_add(amount) {
            Some(v) => v,
            None => {
                return Err(Error::ContributionOverflow);
            },
        };
        self.set_balance(round.group_id, new_balance);
        self.set_contribution(round_id, user, new_total_user);
        let funded: i128 = round.funded_amount + amount;
        let updated = FundRound {
            group_id: round.group_id,
            total_amount: round.total_amount,
            amount_of_members: round.amount_of_members,
            funded_amount: funded,
            completed: funded >= round.total_amount,
        };
        self.fund_rounds.set(idx, updated);
        proof {
            if old(self)@.sound() {
                lemma_tally_kept(old(self)@, self@);
                lemma_paid_in_update(old(self)@, self@, round_id, user, new_total_user);
            }
        }
        Ok(())
    }

    /// Gives `user` back what they paid into round `round_id`, which must not
    /// be completed: the round's funded amount and the group's balance shrink
    /// by it and the user's contribution returns to 0. The amount is to be
    /// transferred from the contract back to `user`.
    ///
    /// A refund larger than the group's balance (once releases have spent
    /// the group's funds) is refused with `InsufficientGroupBalance`, so that
    /// no group's balance goes below 0 and no group pays another's refund.
    ///
    /// `group` is the round's group as the group registry holds it, and
    /// `treasury_token_balance` is what the contract holds of the token.
    pub fn withdraw_contribution(
        &mut self,
        group: &Group,
        round_id: u64,
        user: Address,
        treasury_token_balance: i128,
    ) -> (r: Result<(), Error>)
        ensures
            match old(self)@.withdraw_outcome(group.members@, round_id, user, treasury_token_balance) {
                Ok(s) => r is Ok && final(self)@ == s,
                Err(e) => r == Err::<(), Error>(e) && final(self)@ == old(self)@,
            },
            old(self)@.sound() ==> final(self)@.sound(),
            old(self)@.balances_nonnegative() ==> final(self)@.balances_nonnegative(),
    {
        let idx: usize = match index_of_id(round_id, self.fund_rounds.len()) {
            Some(i) => i,
            None => {
                return Err(Error::RoundNotFound);
            },
        };
        let round: FundRound = self.fund_rounds[idx];
        if round.completed {
            return Err(Error::RoundAlreadyCompleted);
        }
        let balance: i128 = match self.find_balance(round.group_id) {
            Some(b) => b,
            None => {
                return Err(Error::TreasuryNotInitialized);
            },
        };
        if !group.is_member(user) {
            return Err(Error::NotMember);
        }
        let contributed: i128 = self.find_contribution(round_id, user);
        if contributed <= 0 {
            return Err(Error::NoContributionToWithdraw);
        }
        if balance < contributed {
            return Err(Error::InsufficientGroupBalance);
        }
        let new_balance: i128 = balance - contributed;
        let new_funded: i128 = match round.funded_amount.checked_sub(contributed) {
            Some(v) => v,
            None => {
                return Err(Error::BalanceUnderflow);
            },
        };
        if treasury_token_balance < contributed {
            return Err(Error::InsufficientTreasuryBalance);
        }
        self.set_balance(round.group_id, new_balance);
        self.set_contribution(round_id, user, 0);
        let updated = FundRound {
            group_id: round.group_id,
            total_amount: round.total_amount,
            amount_of_members: round.amount_of_members,
            funded_amount: new_funded,
            completed: round.completed,
        };
        self.fund_rounds.set(idx, updated);
        proof {
            if old(self)@.sound() {
                lemma_tally_kept(old(self)@, self@);
                lemma_paid_in_update(old(self)@, self@, round_id, user, 0);
            }
        }
        Ok(())
    }
}

} // verus!
