//! The abstract state of a treasury and what each operation does to it.

use vstd::prelude::*;
use crate::address::Address;
use crate::errors::Error;
use crate::types::{FundRound, ReleaseProposal};
use crate::totals::{sum_of, lemma_sum_insert, lemma_sum_agree};

verus! {

/// Whether `x` is a value of `i128`.
pub open spec fn fits_i128(x: int) -> bool {
    i128::MIN <= x <= i128::MAX
}

/// The identifiers `k + 1`, for `k` in `0..n` in increasing order, of the
/// records `k` that `selected` picks.
pub open spec fn selected_ids(n: nat, selected: spec_fn(int) -> bool) -> Seq<u64>
    decreases n,
{
    if n == 0 {
        Seq::empty()
    } else {
        let rest = selected_ids((n - 1) as nat, selected);
        if selected(n - 1) {
            rest.push(n as u64)
        } else {
            rest
        }
    }
}

/// The state of a treasury contract.
///
/// Release proposal `id` is `proposals[id - 1]` and fund round `id` is
/// `rounds[id - 1]`: identifiers are handed out in order, starting at 1.
#[verifier::ext_equal]
pub struct TreasuryState {
    /// The balance of each group that has a treasury.
    pub balances: Map<u64, i128>,
    pub proposals: Seq<ReleaseProposal>,
    /// The approvals given: `(proposal id, approver)`.
    pub approvals: Set<(u64, Address)>,
    pub rounds: Seq<FundRound>,
    /// What each user has paid into each round: `(round id, user)`.
    pub contributions: Map<(u64, Address), i128>,
}

impl TreasuryState {
    pub open spec fn has_treasury(self, group_id: u64) -> bool {
        self.balances.contains_key(group_id)
    }

    /// The balance of a group, 0 where it has no treasury.
    pub open spec fn balance(self, group_id: u64) -> i128 {
        if self.balances.contains_key(group_id) {
            self.balances[group_id]
        } else {
            0
        }
    }

    pub open spec fn has_proposal(self, id: u64) -> bool {
        1 <= id <= self.proposals.len()
    }

    pub open spec fn proposal(self, id: u64) -> ReleaseProposal {
        self.proposals[id - 1]
    }

    pub open spec fn has_round(self, id: u64) -> bool {
        1 <= id <= self.rounds.len()
    }

    pub open spec fn round(self, id: u64) -> FundRound {
        self.rounds[id - 1]
    }

    /// What `user` has paid into round `round_id`, 0 where nothing.
    pub open spec fn contribution(self, round_id: u64, user: Address) -> i128 {
        if self.contributions.contains_key((round_id, user)) {
            self.contributions[(round_id, user)]
        } else {
            0
        }
    }

    /// The identifiers of the release proposals of a group among the first
    /// `n` proposals, oldest first.
    pub open spec fn proposal_ids_among(self, n: nat, group_id: u64) -> Seq<u64> {
        selected_ids(n, |k: int| self.proposals[k].group_id == group_id)
    }

    /// The identifiers of the release proposals of a group, oldest first.
    pub open spec fn proposal_ids_of_group(self, group_id: u64) -> Seq<u64> {
        self.proposal_ids_among(self.proposals.len(), group_id)
    }

    /// The identifiers of the fund rounds of a group among the first `n`
    /// rounds, oldest first.
    pub open spec fn round_ids_among(self, n: nat, group_id: u64) -> Seq<u64> {
        selected_ids(n, |k: int| self.rounds[k].group_id == group_id)
    }

    /// The identifiers of the fund rounds of a group, oldest first.
    pub open spec fn round_ids_of_group(self, group_id: u64) -> Seq<u64> {
        self.round_ids_among(self.rounds.len(), group_id)
    }

    /// No group balance is negative.
    pub open spec fn balances_nonnegative(self) -> bool {
        forall|g: u64| #[trigger] self.balances.contains_key(g) ==> self.balances[g] >= 0
    }

    /// No round has been funded beyond its target.
    pub open spec fn rounds_within_target(self) -> bool {
        forall|k: int| 0 <= k < self.rounds.len() ==> (#[trigger] self.rounds[k]).funded_amount
            <= self.rounds[k].total_amount
    }

    /// The number of approvals recorded for proposal `id`.
    pub open spec fn approval_tally(self, id: u64) -> nat {
        self.approvals.filter(|a: (u64, Address)| a.0 == id).len()
    }

    /// Every approval concerns an existing proposal, and each proposal's
    /// approval count is the number of distinct approvals recorded for it.
    pub open spec fn approvals_tallied(self) -> bool {
        &&& self.approvals.finite()
        &&& forall|a: (u64, Address)| #[trigger] self.approvals.contains(a) ==> self.has_proposal(a.0)
        &&& forall|id: u64| #[trigger] self.has_proposal(id) ==> self.proposal(id).approvals == self.approval_tally(id)
    }

    /// The contributions recorded for round `round_id`.
    pub open spec fn contribution_keys(self, round_id: u64) -> Set<(u64, Address)> {
        self.contributions.dom().filter(|k: (u64, Address)| k.0 == round_id)
    }

    /// What has been paid into round `round_id` and not withdrawn: the sum
    /// of its contributions.
    pub open spec fn paid_in(self, round_id: u64) -> int {
        sum_of(self.contribution_keys(round_id), self.contributions)
    }

    /// Every contribution concerns an existing round, and each round's
    /// funded amount is what has been paid into it.
    pub open spec fn rounds_paid_in(self) -> bool {
        &&& self.contributions.dom().finite()
        &&& forall|k: (u64, Address)| #[trigger] self.contributions.contains_key(k) ==> self.has_round(k.0)
        &&& forall|id: u64| #[trigger] self.has_round(id) ==> self.round(id).funded_amount == self.paid_in(id)
    }

    /// The properties that every operation keeps: finitely many groups
    /// have a treasury, no balance is negative, no round is funded beyond
    /// its target, approval counts match the approvals recorded, and funded
    /// amounts match what was paid in.
    pub open spec fn sound(self) -> bool {
        &&& self.balances.dom().finite()
        &&& self.balances_nonnegative()
        &&& self.rounds_within_target()
        &&& self.approvals_tallied()
        &&& self.rounds_paid_in()
    }

    /// The state after `user` creates the treasury of `group_id`, whose
    /// members are `members`, or the error that refuses it.
    pub open spec fn create_treasury_outcome(self, members: Seq<Address>, group_id: u64, user: Address)
        -> Result<TreasuryState, Error>
    {
        if !members.contains(user) {
            Err(Error::NotMember)
        } else if self.has_treasury(group_id) {
            Err(Error::GroupIdAlreadyInUse)
        } else {
            Ok(TreasuryState { balances: self.balances.insert(group_id, 0), ..self })
        }
    }

    /// The state after `user` proposes to pay `amount` of group
    /// `group_id`'s balance to `destination`, or the error that refuses it.
    pub open spec fn propose_release_outcome(
        self,
        members: Seq<Address>,
        destination: Address,
        amount: i128,
        group_id: u64,
        user: Address,
    ) -> Result<TreasuryState, Error> {
        if !members.contains(user) || !members.contains(destination) {
            Err(Error::NotMember)
        } else if !self.has_treasury(group_id) {
            Err(Error::TreasuryNotInitialized)
        } else if amount <= 0 {
            Err(Error::InvalidAmount)
        } else if self.balance(group_id) < amount {
            Err(Error::InsufficientGroupBalance)
        } else {
            Ok(TreasuryState {
                proposals: self.proposals.push(ReleaseProposal {
                    group_id,
                    destination,
                    amount,
                    approvals: 0,
                    executed: false,
                    canceled: false,
                }),
                ..self
            })
        }
    }

    /// The state after `user` approves proposal `id`, whose group has
    /// `members`, or the error that refuses it.
    pub open spec fn approve_release_outcome(self, members: Seq<Address>, id: u64, user: Address)
        -> Result<TreasuryState, Error>
    {
        if !self.has_proposal(id) {
            Err(Error::ProposalNotFound)
        } else if self.proposal(id).executed {
            Err(Error::AlreadyExecuted)
        } else if self.proposal(id).canceled {
            Err(Error::ProposalCanceled)
        } else if self.proposal(id).destination == user {
            Err(Error::DestinationCannotApprove)
        } else if !members.contains(user) {
            Err(Error::NotMember)
        } else if self.approvals.contains((id, user)) {
            Err(Error::AlreadyApproved)
        } else {
            let p = self.proposal(id);
            Ok(TreasuryState {
                proposals: self.proposals.update(
                    id - 1,
                    ReleaseProposal { approvals: (p.approvals + 1) as u32, ..p },
                ),
                approvals: self.approvals.insert((id, user)),
                ..self
            })
        }
    }

    /// The state after proposal `id` is paid out, with `approvals_required`
    /// the rule of its group and `token_balance` what the contract holds,
    /// or the error that refuses it.
    pub open spec fn execute_release_outcome(self, approvals_required: u32, id: u64, token_balance: i128)
        -> Result<TreasuryState, Error>
    {
        if !self.has_proposal(id) {
            Err(Error::ProposalNotFound)
        } else if self.proposal(id).executed {
            Err(Error::AlreadyExecuted)
        } else if self.proposal(id).canceled {
            Err(Error::ProposalCanceled)
        } else if self.proposal(id).approvals < approvals_required {
            Err(Error::NotEnoughApprovals)
        } else if !self.has_treasury(self.proposal(id).group_id) {
            Err(Error::GroupBalanceNotFound)
        } else if self.balance(self.proposal(id).group_id) < self.proposal(id).amount {
            Err(Error::InsufficientGroupBalance)
        } else if !fits_i128(self.balance(self.proposal(id).group_id) - self.proposal(id).amount) {
            Err(Error::BalanceUnderflow)
        } else if token_balance < self.proposal(id).amount {
            Err(Error::InsufficientTreasuryBalance)
        } else {
            let p = self.proposal(id);
            Ok(TreasuryState {
                balances: self.balances.insert(p.group_id, (self.balance(p.group_id) - p.amount) as i128),
                proposals: self.proposals.update(id - 1, ReleaseProposal { executed: true, ..p }),
                ..self
            })
        }
    }

    /// The state after `user` cancels proposal `id`, whose group has
    /// `members`, or the error that refuses it.
    pub open spec fn cancel_release_outcome(self, members: Seq<Address>, id: u64, user: Address)
        -> Result<TreasuryState, Error>
    {
        if !self.has_proposal(id) {
            Err(Error::ProposalNotFound)
        } else if self.proposal(id).executed {
            Err(Error::AlreadyExecuted)
        } else if self.proposal(id).canceled {
            Err(Error::ProposalCanceled)
        } else if !members.contains(user) {
            Err(Error::NotMember)
        } else {
            let p = self.proposal(id);
            Ok(TreasuryState {
                proposals: self.proposals.update(id - 1, ReleaseProposal { canceled: true, ..p }),
                ..self
            })
        }
    }

    /// The state after `user` opens a round of `total_amount` for group
    /// `group_id`, whose members are `members`, or the error that refuses it.
    pub open spec fn propose_fund_round_outcome(
        self,
        members: Seq<Address>,
        group_id: u64,
        total_amount: i128,
        user: Address,
    ) -> Result<TreasuryState, Error> {
        if !members.contains(user) {
            Err(Error::NotMember)
        } else if !self.has_treasury(group_id) {
            Err(Error::TreasuryNotInitialized)
        } else if total_amount <= 0 {
            Err(Error::InvalidAmount)
        } else if members.len() > u32::MAX {
            Err(Error::TooManyMembers)
        } else if members.len() == 0 {
            Err(Error::NoMembers)
        } else {
            Ok(TreasuryState {
                rounds: self.rounds.push(FundRound {
                    group_id,
                    total_amount,
                    amount_of_members: members.len() as u32,
                    funded_amount: 0,
                    completed: false,
                }),
                ..self
            })
        }
    }

    /// The state after `user` pays `amount` into round `round_id`, whose
    /// group has `members`, or the error that refuses it.
    pub open spec fn contribute_outcome(
        self,
        members: Seq<Address>,
        round_id: u64,
        amount: i128,
        user: Address,
    ) -> Result<TreasuryState, Error> {
        if amount <= 0 {
            Err(Error::InvalidAmount)
        } else if !self.has_round(round_id) {
            Err(Error::RoundNotFound)
        } else if !self.has_treasury(self.round(round_id).group_id) {
            Err(Error::TreasuryNotInitialized)
        } else if !members.contains(user) {
            Err(Error::NotMember)
        } else if self.round(round_id).completed {
            Err(Error::RoundAlreadyCompleted)
        } else if !fits_i128(self.round(round_id).total_amount - self.round(round_id).funded_amount) {
            Err(Error::FundedExceedsTotal)
        } else if amount > self.round(round_id).total_amount - self.round(round_id).funded_amount {
            Err(Error::ContributionExceedsRemaining)
        } else if !fits_i128(self.balance(self.round(round_id).group_id) + amount) {
            Err(Error::BalanceOverflow)
        } else if !fits_i128(self.contribution(round_id, user) + amount) {
            Err(Error::ContributionOverflow)
        } else {
            let r = self.round(round_id);
            let funded = (r.funded_amount + amount) as i128;
            Ok(TreasuryState {
                balances: self.balances.insert(r.group_id, (self.balance(r.group_id) + amount) as i128),
                rounds: self.rounds.update(
                    round_id - 1,
                    FundRound { funded_amount: funded, completed: funded >= r.total_amount, ..r },
                ),
                contributions: self.contributions.insert(
                    (round_id, user),
                    (self.contribution(round_id, user) + amount) as i128,
                ),
                ..self
            })
        }
    }

    /// The state after `user` takes back what they paid into round
    /// `round_id`, whose group has `members`, with `token_balance` what the
    /// contract holds, or the error that refuses it.
    pub open spec fn withdraw_outcome(
        self,
        members: Seq<Address>,
        round_id: u64,
        user: Address,
        token_balance: i128,
    ) -> Result<TreasuryState, Error> {
        if !self.has_round(round_id) {
            Err(Error::RoundNotFound)
        } else if self.round(round_id).completed {
            Err(Error::RoundAlreadyCompleted)
        } else if !self.has_treasury(self.round(round_id).group_id) {
            Err(Error::TreasuryNotInitialized)
        } else if !members.contains(user) {
            Err(Error::NotMember)
        } else if self.contribution(round_id, user) <= 0 {
            Err(Error::NoContributionToWithdraw)
        } else if self.balance(self.round(round_id).group_id) < self.contribution(round_id, user) {
            Err(Error::InsufficientGroupBalance)
        } else if !fits_i128(self.round(round_id).funded_amount - self.contribution(round_id, user)) {
            Err(Error::BalanceUnderflow)
        } else if token_balance < self.contribution(round_id, user) {
            Err(Error::InsufficientTreasuryBalance)
        } else {
            let r = self.round(round_id);
            let c = self.contribution(round_id, user);
            Ok(TreasuryState {
                balances: self.balances.insert(r.group_id, (self.balance(r.group_id) - c) as i128),
                rounds: self.rounds.update(
                    round_id - 1,
                    FundRound { funded_amount: (r.funded_amount - c) as i128, ..r },
                ),
                contributions: self.contributions.insert((round_id, user), 0),
                ..self
            })
        }
    }
}

/// Approval counts are unaffected by a change that keeps the approvals and
/// every proposal's count.
pub proof fn lemma_tally_kept(s: TreasuryState, s2: TreasuryState)
    requires
        s.approvals_tallied(),
        s2.approvals == s.approvals,
        s2.proposals.len() == s.proposals.len(),
        forall|k: int| 0 <= k < s.proposals.len() ==> (#[trigger] s2.proposals[k]).approvals == s.proposals[k].approvals,
    ensures
        s2.approvals_tallied(),
{
    assert forall|id: u64| #[trigger] s2.has_proposal(id) implies s2.proposal(id).approvals == s2.approval_tally(id) by {
        assert(s.has_proposal(id));
        assert(s2.proposals[id - 1].approvals == s.proposals[id - 1].approvals);
    }
}

/// A new proposal starts with no approvals recorded.
pub proof fn lemma_tally_after_propose(
    s: TreasuryState,
    members: Seq<Address>,
    destination: Address,
    amount: i128,
    group_id: u64,
    user: Address,
)
    requires
        s.approvals_tallied(),
        s.propose_release_outcome(members, destination, amount, group_id, user) is Ok,
    ensures
        s.propose_release_outcome(members, destination, amount, group_id, user)->Ok_0.approvals_tallied(),
{
    let s2 = s.propose_release_outcome(members, destination, amount, group_id, user)->Ok_0;
    let n = s.proposals.len();
    assert forall|id: u64| #[trigger] s2.has_proposal(id) implies s2.proposal(id).approvals == s2.approval_tally(id) by {
        if id == n + 1 {
            let f = |a: (u64, Address)| a.0 == id;
            assert forall|a: (u64, Address)| !(#[trigger] s2.approvals.filter(f).contains(a)) by {
                if s.approvals.contains(a) {
                    assert(s.has_proposal(a.0));
                }
            }
            assert(s2.approvals.filter(f) =~= Set::<(u64, Address)>::empty());
        } else {
            assert(s.has_proposal(id));
            assert(s2.proposals[id - 1] == s.proposals[id - 1]);
        }
    }
}

/// An approval adds one to its proposal's count and one to its tally.
pub proof fn lemma_tally_after_approve(s: TreasuryState, members: Seq<Address>, id: u64, user: Address)
    requires
        s.approvals_tallied(),
        s.approve_release_outcome(members, id, user) is Ok,
        s.proposal(id).approvals < u32::MAX,
    ensures
        s.approve_release_outcome(members, id, user)->Ok_0.approvals_tallied(),
{
    let s2 = s.approve_release_outcome(members, id, user)->Ok_0;
    let a = (id, user);
    assert forall|i: u64| #[trigger] s2.has_proposal(i) implies s2.proposal(i).approvals == s2.approval_tally(i) by {
        let f = |x: (u64, Address)| x.0 == i;
        s.approvals.lemma_len_filter(f);
        assert(s.has_proposal(i));
        if i == id {
            assert(!s.approvals.filter(f).contains(a));
            assert(s2.approvals.filter(f) =~= s.approvals.filter(f).insert(a));
            assert(s2.approvals.filter(f).len() == s.approvals.filter(f).len() + 1);
        } else {
            assert(s2.approvals.filter(f) =~= s.approvals.filter(f));
            assert(s2.proposals[i - 1] == s.proposals[i - 1]);
        }
    }
}

/// Funded amounts still match what was paid in after a change that keeps
/// the contributions and every round's funded amount.
pub proof fn lemma_paid_in_kept(s: TreasuryState, s2: TreasuryState)
    requires
        s.rounds_paid_in(),
        s2.contributions == s.contributions,
        s2.rounds.len() == s.rounds.len(),
        forall|k: int| 0 <= k < s.rounds.len() ==> (#[trigger] s2.rounds[k]).funded_amount == s.rounds[k].funded_amount,
    ensures
        s2.rounds_paid_in(),
{
    assert forall|id: u64| #[trigger] s2.has_round(id) implies s2.round(id).funded_amount == s2.paid_in(id) by {
        assert(s.has_round(id));
        assert(s2.rounds[id - 1].funded_amount == s.rounds[id - 1].funded_amount);
        assert(s2.contribution_keys(id) == s.contribution_keys(id));
    }
}

/// A new round starts with nothing paid in.
pub proof fn lemma_paid_in_after_propose_round(
    s: TreasuryState,
    members: Seq<Address>,
    group_id: u64,
    total_amount: i128,
    user: Address,
)
    requires
        s.rounds_paid_in(),
        s.propose_fund_round_outcome(members, group_id, total_amount, user) is Ok,
    ensures
        s.propose_fund_round_outcome(members, group_id, total_amount, user)->Ok_0.rounds_paid_in(),
{
    let s2 = s.propose_fund_round_outcome(members, group_id, total_amount, user)->Ok_0;
    let n = s.rounds.len();
    assert forall|id: u64| #[trigger] s2.has_round(id) implies s2.round(id).funded_amount == s2.paid_in(id) by {
        if id == n + 1 {
            assert forall|k: (u64, Address)| !(#[trigger] s2.contribution_keys(id).contains(k)) by {
                if s.contributions.contains_key(k) {
                    assert(s.has_round(k.0));
                }
            }
            assert(s2.contribution_keys(id) =~= Set::<(u64, Address)>::empty());
        } else {
            assert(s.has_round(id));
            assert(s2.rounds[id - 1] == s.rounds[id - 1]);
        }
    }
}

/// Setting one contribution of a round, and changing that round's funded
/// amount by the same difference, keeps funded amounts matching what was
/// paid in.
pub proof fn lemma_paid_in_update(s: TreasuryState, s2: TreasuryState, round_id: u64, user: Address, v: i128)
    requires
        s.rounds_paid_in(),
        s.has_round(round_id),
        s2.contributions == s.contributions.insert((round_id, user), v),
        s2.rounds.len() == s.rounds.len(),
        forall|id: u64| s.has_round(id) && id != round_id ==> (#[trigger] s2.round(id)).funded_amount == s.round(id).funded_amount,
        s2.round(round_id).funded_amount == s.round(round_id).funded_amount + v - s.contribution(round_id, user),
    ensures
        s2.rounds_paid_in(),
{
    let key = (round_id, user);
    assert forall|id: u64| #[trigger] s2.has_round(id) implies s2.round(id).funded_amount == s2.paid_in(id) by {
        assert(s.has_round(id));
        let f = |k: (u64, Address)| k.0 == id;
        s.contributions.dom().lemma_len_filter(f);
        if id == round_id {
            assert(s2.contribution_keys(id) =~= s.contribution_keys(id).insert(key));
            lemma_sum_insert(s.contribution_keys(id), s.contributions, key, v);
        } else {
            assert(s2.contribution_keys(id) =~= s.contribution_keys(id));
            lemma_sum_agree(s.contribution_keys(id), s.contributions, s2.contributions);
        }
    }
}

} // verus!
