//! What each treasury operation is for: when it must succeed and what it
//! then does, and, when it refuses, which documented reason holds.

use vstd::prelude::*;
use crate::address::Address;
use crate::errors::Error;
use crate::model::{TreasuryState, fits_i128, selected_ids};

verus! {

/// A member creates the treasury of a group that has none: it succeeds, and
/// the group's balance starts at 0 with nothing else changed.
pub proof fn guarantee_create_treasury(s: TreasuryState, members: Seq<Address>, group_id: u64, user: Address)
    requires
        members.contains(user),
        !s.has_treasury(group_id),
    ensures
        s.create_treasury_outcome(members, group_id, user) is Ok,
        ({
            let t = s.create_treasury_outcome(members, group_id, user)->Ok_0;
            &&& t.has_treasury(group_id)
            &&& t.balance(group_id) == 0
            &&& forall|g: u64| g != group_id ==> #[trigger] t.has_treasury(g) == s.has_treasury(g) && t.balance(g) == s.balance(g)
            &&& t.proposals == s.proposals
            &&& t.rounds == s.rounds
            &&& t.approvals == s.approvals
            &&& t.contributions == s.contributions
        }),
{
}

/// `create_treasury` refuses only a non-member or a group that already has a
/// treasury.
pub proof fn refusals_of_create_treasury(s: TreasuryState, members: Seq<Address>, group_id: u64, user: Address)
    ensures
        s.create_treasury_outcome(members, group_id, user) matches Err(e) ==> match e {
            Error::NotMember => !members.contains(user),
            Error::GroupIdAlreadyInUse => s.has_treasury(group_id),
            _ => false,
        },
{
}

/// A member proposes a positive amount, which the group's balance covers,
/// to a member of a group with a treasury: it succeeds and adds one
/// proposal, with the next identifier, as asked and with no approvals.
pub proof fn guarantee_propose_release(
    s: TreasuryState,
    members: Seq<Address>,
    destination: Address,
    amount: i128,
    group_id: u64,
    user: Address,
)
    requires
        members.contains(user),
        members.contains(destination),
        s.has_treasury(group_id),
        0 < amount <= s.balance(group_id),
        s.proposals.len() < u64::MAX,
    ensures
        s.propose_release_outcome(members, destination, amount, group_id, user) is Ok,
        ({
            let t = s.propose_release_outcome(members, destination, amount, group_id, user)->Ok_0;
            let id = (s.proposals.len() + 1) as u64;
            &&& t.proposals.len() == s.proposals.len() + 1
            &&& forall|k: int| 0 <= k < s.proposals.len() ==> #[trigger] t.proposals[k] == s.proposals[k]
            &&& t.proposal(id).group_id == group_id
            &&& t.proposal(id).destination == destination
            &&& t.proposal(id).amount == amount
            &&& t.proposal(id).approvals == 0
            &&& !t.proposal(id).executed
            &&& !t.proposal(id).canceled
            &&& t.balances == s.balances
            &&& t.rounds == s.rounds
            &&& t.approvals == s.approvals
            &&& t.contributions == s.contributions
        }),
{
}

/// `propose_release` refuses only for the documented reasons.
pub proof fn refusals_of_propose_release(
    s: TreasuryState,
    members: Seq<Address>,
    destination: Address,
    amount: i128,
    group_id: u64,
    user: Address,
)
    ensures
        s.propose_release_outcome(members, destination, amount, group_id, user) matches Err(e) ==> match e {
            Error::NotMember => !members.contains(user) || !members.contains(destination),
            Error::TreasuryNotInitialized => !s.has_treasury(group_id),
            Error::InvalidAmount => amount <= 0,
            Error::InsufficientGroupBalance => s.balance(group_id) < amount,
            _ => false,
        },
{
}

/// A member who is not the destination and has not approved an open
/// proposal yet approves it: it succeeds, adds one to its approvals and
/// records the approval, whatever the group's balance; nothing else changes.
pub proof fn guarantee_approve_release(s: TreasuryState, members: Seq<Address>, id: u64, user: Address)
    requires
        s.has_proposal(id),
        !s.proposal(id).executed,
        !s.proposal(id).canceled,
        s.proposal(id).destination != user,
        members.contains(user),
        !s.approvals.contains((id, user)),
        s.proposal(id).approvals < u32::MAX,
    ensures
        s.approve_release_outcome(members, id, user) is Ok,
        ({
            let t = s.approve_release_outcome(members, id, user)->Ok_0;
            &&& t.proposals.len() == s.proposals.len()
            &&& t.proposal(id).approvals == s.proposal(id).approvals + 1
            &&& t.proposal(id).group_id == s.proposal(id).group_id
            &&& t.proposal(id).destination == s.proposal(id).destination
            &&& t.proposal(id).amount == s.proposal(id).amount
            &&& !t.proposal(id).executed
            &&& !t.proposal(id).canceled
            &&& forall|k: int| 0 <= k < s.proposals.len() && k != id - 1 ==> #[trigger] t.proposals[k] == s.proposals[k]
            &&& t.approvals == s.approvals.insert((id, user))
            &&& t.balances == s.balances
            &&& t.rounds == s.rounds
            &&& t.contributions == s.contributions
        }),
{
}

/// `approve_release` refuses only for the documented reasons.
pub proof fn refusals_of_approve_release(s: TreasuryState, members: Seq<Address>, id: u64, user: Address)
    ensures
        s.approve_release_outcome(members, id, user) matches Err(e) ==> match e {
            Error::ProposalNotFound => !s.has_proposal(id),
            Error::AlreadyExecuted => s.has_proposal(id) && s.proposal(id).executed,
            Error::ProposalCanceled => s.has_proposal(id) && s.proposal(id).canceled,
            Error::DestinationCannotApprove => s.has_proposal(id) && s.proposal(id).destination == user,
            Error::NotMember => !members.contains(user),
            Error::AlreadyApproved => s.approvals.contains((id, user)),
            _ => false,
        },
{
}

/// An open proposal with at least as many approvals as the group's rule,
/// whose positive amount both the group's balance and the contract's tokens
/// cover, is executed: it succeeds, takes the amount off its group's balance
/// and marks the proposal executed; nothing else changes.
pub proof fn guarantee_execute_release(s: TreasuryState, approvals_required: u32, id: u64, token_balance: i128)
    requires
        s.has_proposal(id),
        !s.proposal(id).executed,
        !s.proposal(id).canceled,
        s.proposal(id).approvals >= approvals_required,
        s.has_treasury(s.proposal(id).group_id),
        0 < s.proposal(id).amount <= s.balance(s.proposal(id).group_id),
        s.proposal(id).amount <= token_balance,
    ensures
        s.execute_release_outcome(approvals_required, id, token_balance) is Ok,
        ({
            let t = s.execute_release_outcome(approvals_required, id, token_balance)->Ok_0;
            let g = s.proposal(id).group_id;
            &&& t.balance(g) == s.balance(g) - s.proposal(id).amount
            &&& forall|h: u64| h != g ==> #[trigger] t.balance(h) == s.balance(h) && t.has_treasury(h) == s.has_treasury(h)
            &&& t.has_treasury(g)
            &&& t.proposals.len() == s.proposals.len()
            &&& t.proposal(id).executed
            &&& t.proposal(id).approvals == s.proposal(id).approvals
            &&& t.proposal(id).amount == s.proposal(id).amount
            &&& t.proposal(id).group_id == g
            &&& t.proposal(id).destination == s.proposal(id).destination
            &&& !t.proposal(id).canceled
            &&& forall|k: int| 0 <= k < s.proposals.len() && k != id - 1 ==> #[trigger] t.proposals[k] == s.proposals[k]
            &&& t.approvals == s.approvals
            &&& t.rounds == s.rounds
            &&& t.contributions == s.contributions
        }),
{
}

/// `execute_release` refuses only for the documented reasons; in
/// particular it refuses for approvals only when there are fewer than the
/// rule asks.
pub proof fn refusals_of_execute_release(s: TreasuryState, approvals_required: u32, id: u64, token_balance: i128)
    ensures
        s.execute_release_outcome(approvals_required, id, token_balance) matches Err(e) ==> match e {
            Error::ProposalNotFound => !s.has_proposal(id),
            Error::AlreadyExecuted => s.has_proposal(id) && s.proposal(id).executed,
            Error::ProposalCanceled => s.has_proposal(id) && s.proposal(id).canceled,
            Error::NotEnoughApprovals => s.has_proposal(id) && s.proposal(id).approvals < approvals_required,
            Error::GroupBalanceNotFound => s.has_proposal(id) && !s.has_treasury(s.proposal(id).group_id),
            Error::InsufficientGroupBalance => s.has_proposal(id)
                && s.balance(s.proposal(id).group_id) < s.proposal(id).amount,
            Error::BalanceUnderflow => s.has_proposal(id)
                && !fits_i128(s.balance(s.proposal(id).group_id) - s.proposal(id).amount),
            Error::InsufficientTreasuryBalance => s.has_proposal(id) && token_balance < s.proposal(id).amount,
            _ => false,
        },
{
}

/// Any member of a proposal's group cancels it while it is open: it
/// succeeds and marks it canceled, whatever approvals were given; nothing
/// else changes.
pub proof fn guarantee_cancel_release(s: TreasuryState, members: Seq<Address>, id: u64, user: Address)
    requires
        s.has_proposal(id),
        !s.proposal(id).executed,
        !s.proposal(id).canceled,
        members.contains(user),
    ensures
        s.cancel_release_outcome(members, id, user) is Ok,
        ({
            let t = s.cancel_release_outcome(members, id, user)->Ok_0;
            &&& t.proposals.len() == s.proposals.len()
            &&& t.proposal(id).canceled
            &&& !t.proposal(id).executed
            &&& t.proposal(id).approvals == s.proposal(id).approvals
            &&& t.proposal(id).amount == s.proposal(id).amount
            &&& t.proposal(id).group_id == s.proposal(id).group_id
            &&& t.proposal(id).destination == s.proposal(id).destination
            &&& forall|k: int| 0 <= k < s.proposals.len() && k != id - 1 ==> #[trigger] t.proposals[k] == s.proposals[k]
            &&& t.approvals == s.approvals
            &&& t.balances == s.balances
            &&& t.rounds == s.rounds
            &&& t.contributions == s.contributions
        }),
{
}

/// `cancel_release_proposal` refuses only for the documented reasons.
pub proof fn refusals_of_cancel_release(s: TreasuryState, members: Seq<Address>, id: u64, user: Address)
    ensures
        s.cancel_release_outcome(members, id, user) matches Err(e) ==> match e {
            Error::ProposalNotFound => !s.has_proposal(id),
            Error::AlreadyExecuted => s.has_proposal(id) && s.proposal(id).executed,
            Error::ProposalCanceled => s.has_proposal(id) && s.proposal(id).canceled,
            Error::NotMember => !members.contains(user),
            _ => false,
        },
{
}

/// A member opens a round with a positive target for a group with a
/// treasury: it succeeds and adds one round, with the next identifier, the
/// target asked for, as many members as the group has, and nothing paid in.
pub proof fn guarantee_propose_fund_round(
    s: TreasuryState,
    members: Seq<Address>,
    group_id: u64,
    total_amount: i128,
    user: Address,
)
    requires
        members.contains(user),
        members.len() <= u32::MAX,
        s.has_treasury(group_id),
        total_amount > 0,
        s.rounds.len() < u64::MAX,
    ensures
        s.propose_fund_round_outcome(members, group_id, total_amount, user) is Ok,
        ({
            let t = s.propose_fund_round_outcome(members, group_id, total_amount, user)->Ok_0;
            let id = (s.rounds.len() + 1) as u64;
            &&& t.rounds.len() == s.rounds.len() + 1
            &&& forall|k: int| 0 <= k < s.rounds.len() ==> #[trigger] t.rounds[k] == s.rounds[k]
            &&& t.round(id).group_id == group_id
            &&& t.round(id).total_amount == total_amount
            &&& t.round(id).amount_of_members == members.len()
            &&& t.round(id).funded_amount == 0
            &&& !t.round(id).completed
            &&& t.balances == s.balances
            &&& t.proposals == s.proposals
            &&& t.approvals == s.approvals
            &&& t.contributions == s.contributions
        }),
{
}

/// `propose_fund_round` refuses only for the documented reasons.
pub proof fn refusals_of_propose_fund_round(
    s: TreasuryState,
    members: Seq<Address>,
    group_id: u64,
    total_amount: i128,
    user: Address,
)
    ensures
        s.propose_fund_round_outcome(members, group_id, total_amount, user) matches Err(e) ==> match e {
            Error::NotMember => !members.contains(user),
            Error::TreasuryNotInitialized => !s.has_treasury(group_id),
            Error::InvalidAmount => total_amount <= 0,
            Error::TooManyMembers => members.len() > u32::MAX,
            Error::NoMembers => members.len() == 0,
            _ => false,
        },
{
}

/// A member pays a positive amount, no more than remains to the target,
/// into an open round of a group with a treasury: it succeeds, whatever
/// the member paid in or withdrew before, and the round's funded amount,
/// the group's balance and the member's contribution each grow by the
/// amount; the round is completed exactly when its target is met.
pub proof fn guarantee_contribute(s: TreasuryState, members: Seq<Address>, round_id: u64, amount: i128, user: Address)
    requires
        s.has_round(round_id),
        !s.round(round_id).completed,
        s.has_treasury(s.round(round_id).group_id),
        members.contains(user),
        fits_i128(s.round(round_id).total_amount - s.round(round_id).funded_amount),
        0 < amount <= s.round(round_id).total_amount - s.round(round_id).funded_amount,
        fits_i128(s.balance(s.round(round_id).group_id) + amount),
        fits_i128(s.contribution(round_id, user) + amount),
    ensures
        s.contribute_outcome(members, round_id, amount, user) is Ok,
        ({
            let t = s.contribute_outcome(members, round_id, amount, user)->Ok_0;
            let g = s.round(round_id).group_id;
            &&& t.balance(g) == s.balance(g) + amount
            &&& forall|h: u64| h != g ==> #[trigger] t.balance(h) == s.balance(h) && t.has_treasury(h) == s.has_treasury(h)
            &&& t.contribution(round_id, user) == s.contribution(round_id, user) + amount
            &&& forall|r: u64, u: Address| (r, u) != (round_id, user) ==> #[trigger] t.contribution(r, u) == s.contribution(r, u)
            &&& t.rounds.len() == s.rounds.len()
            &&& t.round(round_id).funded_amount == s.round(round_id).funded_amount + amount
            &&& t.round(round_id).completed == (t.round(round_id).funded_amount >= s.round(round_id).total_amount)
            &&& t.round(round_id).total_amount == s.round(round_id).total_amount
            &&& t.round(round_id).group_id == g
            &&& t.round(round_id).amount_of_members == s.round(round_id).amount_of_members
            &&& forall|k: int| 0 <= k < s.rounds.len() && k != round_id - 1 ==> #[trigger] t.rounds[k] == s.rounds[k]
            &&& t.proposals == s.proposals
            &&& t.approvals == s.approvals
        }),
{
}

/// `contribute_to_fund_round` refuses only for the documented reasons, and
/// never for a member's earlier payments or withdrawals beyond an overflow.
pub proof fn refusals_of_contribute(s: TreasuryState, members: Seq<Address>, round_id: u64, amount: i128, user: Address)
    ensures
        s.contribute_outcome(members, round_id, amount, user) matches Err(e) ==> match e {
            Error::InvalidAmount => amount <= 0,
            Error::RoundNotFound => !s.has_round(round_id),
            Error::TreasuryNotInitialized => s.has_round(round_id) && !s.has_treasury(s.round(round_id).group_id),
            Error::NotMember => !members.contains(user),
            Error::RoundAlreadyCompleted => s.has_round(round_id) && s.round(round_id).completed,
            Error::FundedExceedsTotal => s.has_round(round_id)
                && !fits_i128(s.round(round_id).total_amount - s.round(round_id).funded_amount),
            Error::ContributionExceedsRemaining => s.has_round(round_id)
                && amount > s.round(round_id).total_amount - s.round(round_id).funded_amount,
            Error::BalanceOverflow => s.has_round(round_id)
                && !fits_i128(s.balance(s.round(round_id).group_id) + amount),
            Error::ContributionOverflow => !fits_i128(s.contribution(round_id, user) + amount),
            _ => false,
        },
{
}

/// A member takes back a positive contribution from an open round of a
/// group with a treasury, where the group's balance and the contract's
/// tokens cover it: it succeeds, the round's funded amount and the group's
/// balance shrink by it, and the contribution returns to 0.
pub proof fn guarantee_withdraw(s: TreasuryState, members: Seq<Address>, round_id: u64, user: Address, token_balance: i128)
    requires
        s.has_round(round_id),
        !s.round(round_id).completed,
        s.has_treasury(s.round(round_id).group_id),
        members.contains(user),
        0 < s.contribution(round_id, user) <= s.balance(s.round(round_id).group_id),
        s.contribution(round_id, user) <= token_balance,
        fits_i128(s.round(round_id).funded_amount - s.contribution(round_id, user)),
    ensures
        s.withdraw_outcome(members, round_id, user, token_balance) is Ok,
        ({
            let t = s.withdraw_outcome(members, round_id, user, token_balance)->Ok_0;
            let g = s.round(round_id).group_id;
            let c = s.contribution(round_id, user);
            &&& t.balance(g) == s.balance(g) - c
            &&& forall|h: u64| h != g ==> #[trigger] t.balance(h) == s.balance(h) && t.has_treasury(h) == s.has_treasury(h)
            &&& t.contribution(round_id, user) == 0
            &&& forall|r: u64, u: Address| (r, u) != (round_id, user) ==> #[trigger] t.contribution(r, u) == s.contribution(r, u)
            &&& t.rounds.len() == s.rounds.len()
            &&& t.round(round_id).funded_amount == s.round(round_id).funded_amount - c
            &&& !t.round(round_id).completed
            &&& t.round(round_id).total_amount == s.round(round_id).total_amount
            &&& t.round(round_id).group_id == g
            &&& forall|k: int| 0 <= k < s.rounds.len() && k != round_id - 1 ==> #[trigger] t.rounds[k] == s.rounds[k]
            &&& t.proposals == s.proposals
            &&& t.approvals == s.approvals
        }),
{
}

/// `withdraw_contribution` refuses only for the documented reasons.
pub proof fn refusals_of_withdraw(s: TreasuryState, members: Seq<Address>, round_id: u64, user: Address, token_balance: i128)
    ensures
        s.withdraw_outcome(members, round_id, user, token_balance) matches Err(e) ==> match e {
            Error::RoundNotFound => !s.has_round(round_id),
            Error::RoundAlreadyCompleted => s.has_round(round_id) && s.round(round_id).completed,
            Error::TreasuryNotInitialized => s.has_round(round_id) && !s.has_treasury(s.round(round_id).group_id),
            Error::NotMember => !members.contains(user),
            Error::NoContributionToWithdraw => s.contribution(round_id, user) <= 0,
            Error::InsufficientGroupBalance => s.has_round(round_id)
                && s.balance(s.round(round_id).group_id) < s.contribution(round_id, user),
            Error::BalanceUnderflow => s.has_round(round_id)
                && !fits_i128(s.round(round_id).funded_amount - s.contribution(round_id, user)),
            Error::InsufficientTreasuryBalance => token_balance < s.contribution(round_id, user),
            _ => false,
        },
{
}

/// `selected_ids` lists, in increasing order, exactly the identifiers
/// `k + 1` of the records `k < n` that it selects.
pub proof fn lemma_selected_ids_exact(n: nat, f: spec_fn(int) -> bool)
    requires
        n <= u64::MAX,
    ensures
        forall|x: u64| #[trigger] selected_ids(n, f).contains(x) <==> 1 <= x <= n && f(x - 1),
        forall|i: int, j: int| 0 <= i < j < selected_ids(n, f).len() ==> selected_ids(n, f)[i] < selected_ids(n, f)[j],
        forall|i: int| 0 <= i < selected_ids(n, f).len() ==> 1 <= #[trigger] selected_ids(n, f)[i] <= n,
    decreases n,
{
    if n > 0 {
        let m = (n - 1) as nat;
        lemma_selected_ids_exact(m, f);
        let rest = selected_ids(m, f);
        if f(n - 1) {
            let r = rest.push(n as u64);
            assert forall|x: u64| #[trigger] r.contains(x) <==> 1 <= x <= n && f(x - 1) by {
                if x == n {
                    assert(r[r.len() - 1] == x);
                } else if r.contains(x) {
                    let i = choose|i: int| 0 <= i < r.len() && r[i] == x;
                    assert(i < rest.len());
                    assert(rest[i] == x);
                    assert(rest.contains(x));
                } else if 1 <= x <= m && f(x - 1) {
                    assert(rest.contains(x));
                    let i = choose|i: int| 0 <= i < rest.len() && rest[i] == x;
                    assert(r[i] == x);
                }
            }
        }
    }
}

/// A group's list of release proposals holds exactly the identifiers of
/// the proposals made for that group, in increasing order; likewise its
/// list of fund rounds.
pub proof fn law_group_lists_are_exact(s: TreasuryState, group_id: u64)
    requires
        s.proposals.len() <= u64::MAX,
        s.rounds.len() <= u64::MAX,
    ensures
        forall|x: u64| #[trigger] s.proposal_ids_of_group(group_id).contains(x)
            <==> s.has_proposal(x) && s.proposal(x).group_id == group_id,
        forall|i: int, j: int| 0 <= i < j < s.proposal_ids_of_group(group_id).len()
            ==> s.proposal_ids_of_group(group_id)[i] < s.proposal_ids_of_group(group_id)[j],
        forall|x: u64| #[trigger] s.round_ids_of_group(group_id).contains(x)
            <==> s.has_round(x) && s.round(x).group_id == group_id,
        forall|i: int, j: int| 0 <= i < j < s.round_ids_of_group(group_id).len()
            ==> s.round_ids_of_group(group_id)[i] < s.round_ids_of_group(group_id)[j],
{
    lemma_selected_ids_exact(s.proposals.len(), |k: int| s.proposals[k].group_id == group_id);
    lemma_selected_ids_exact(s.rounds.len(), |k: int| s.rounds[k].group_id == group_id);
}

} // verus!
