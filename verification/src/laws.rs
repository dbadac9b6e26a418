//! Properties that relate several treasury operations.

use vstd::prelude::*;
use crate::address::Address;
use crate::errors::Error;
use crate::model::{TreasuryState, selected_ids};
use crate::totals::{total, lemma_total_insert, lemma_sum_nonnegative};

verus! {

/// A group has at most one treasury: once a treasury is created for a
/// group, creating it again is refused for any member.
pub proof fn law_treasury_created_once(
    s: TreasuryState,
    s2: TreasuryState,
    members: Seq<Address>,
    group_id: u64,
    user: Address,
    members2: Seq<Address>,
    user2: Address,
)
    requires
        s.create_treasury_outcome(members, group_id, user) == Ok::<TreasuryState, Error>(s2),
        members2.contains(user2),
    ensures
        s2.create_treasury_outcome(members2, group_id, user2) == Err::<TreasuryState, Error>(Error::GroupIdAlreadyInUse),
{
}

/// A new treasury starts with a balance of 0, and creating it leaves every
/// other group's balance as it was.
pub proof fn law_new_treasury_is_empty(
    s: TreasuryState,
    s2: TreasuryState,
    members: Seq<Address>,
    group_id: u64,
    user: Address,
    other: u64,
)
    requires
        s.create_treasury_outcome(members, group_id, user) == Ok::<TreasuryState, Error>(s2),
        other != group_id,
    ensures
        s2.has_treasury(group_id),
        s2.balance(group_id) == 0,
        s2.balance(other) == s.balance(other),
        s2.has_treasury(other) == s.has_treasury(other),
{
}

/// Each member approves a proposal at most once: an approval adds one to
/// the count, leaves the proposal unexecuted, and a second approval by the
/// same member is refused.
pub proof fn law_approval_counted_once(
    s: TreasuryState,
    s2: TreasuryState,
    members: Seq<Address>,
    id: u64,
    user: Address,
)
    requires
        s.approve_release_outcome(members, id, user) == Ok::<TreasuryState, Error>(s2),
        s.proposal(id).approvals < u32::MAX,
    ensures
        s2.proposal(id).approvals == s.proposal(id).approvals + 1,
        !s2.proposal(id).executed,
        s2.proposal(id).destination != user,
        s2.approve_release_outcome(members, id, user) == Err::<TreasuryState, Error>(Error::AlreadyApproved),
{
}

/// A canceled proposal can no longer be approved, executed or canceled.
pub proof fn law_canceled_proposal_is_closed(
    s: TreasuryState,
    s2: TreasuryState,
    members: Seq<Address>,
    id: u64,
    user: Address,
    members2: Seq<Address>,
    user2: Address,
    approvals_required: u32,
    token_balance: i128,
)
    requires
        s.cancel_release_outcome(members, id, user) == Ok::<TreasuryState, Error>(s2),
    ensures
        s2.approve_release_outcome(members2, id, user2) == Err::<TreasuryState, Error>(Error::ProposalCanceled),
        s2.execute_release_outcome(approvals_required, id, token_balance) == Err::<TreasuryState, Error>(Error::ProposalCanceled),
        s2.cancel_release_outcome(members2, id, user2) == Err::<TreasuryState, Error>(Error::ProposalCanceled),
{
}

/// A proposal is paid out at most once: once executed it can no longer be
/// approved, executed or canceled.
pub proof fn law_executed_proposal_is_closed(
    s: TreasuryState,
    s2: TreasuryState,
    approvals_required: u32,
    id: u64,
    token_balance: i128,
    members2: Seq<Address>,
    user2: Address,
    approvals_required2: u32,
    token_balance2: i128,
)
    requires
        s.execute_release_outcome(approvals_required, id, token_balance) == Ok::<TreasuryState, Error>(s2),
    ensures
        s2.approve_release_outcome(members2, id, user2) == Err::<TreasuryState, Error>(Error::AlreadyExecuted),
        s2.execute_release_outcome(approvals_required2, id, token_balance2) == Err::<TreasuryState, Error>(Error::AlreadyExecuted),
        s2.cancel_release_outcome(members2, id, user2) == Err::<TreasuryState, Error>(Error::AlreadyExecuted),
{
}

/// Executing a release needs as many approvals as the group's rule asks,
/// takes exactly the released amount off its own group's balance, and
/// leaves every other group's balance as it was.
pub proof fn law_release_debits_its_group(
    s: TreasuryState,
    s2: TreasuryState,
    approvals_required: u32,
    id: u64,
    token_balance: i128,
    other: u64,
)
    requires
        s.execute_release_outcome(approvals_required, id, token_balance) == Ok::<TreasuryState, Error>(s2),
        other != s.proposal(id).group_id,
    ensures
        s.proposal(id).approvals >= approvals_required,
        s2.balance(s.proposal(id).group_id) == s.balance(s.proposal(id).group_id) - s.proposal(id).amount,
        s2.balance(s.proposal(id).group_id) >= 0,
        s2.balance(other) == s.balance(other),
{
}

/// A contribution credits the round, the contributor and its own group by
/// exactly the amount paid, completes the round exactly when its target is
/// met, and leaves every other group's balance as it was.
pub proof fn law_contribution_credits_its_group(
    s: TreasuryState,
    s2: TreasuryState,
    members: Seq<Address>,
    round_id: u64,
    amount: i128,
    user: Address,
    other: u64,
)
    requires
        s.contribute_outcome(members, round_id, amount, user) == Ok::<TreasuryState, Error>(s2),
        other != s.round(round_id).group_id,
    ensures
        s2.balance(s.round(round_id).group_id) == s.balance(s.round(round_id).group_id) + amount,
        s2.round(round_id).funded_amount == s.round(round_id).funded_amount + amount,
        s2.round(round_id).funded_amount <= s2.round(round_id).total_amount,
        s2.round(round_id).completed == (s2.round(round_id).funded_amount >= s2.round(round_id).total_amount),
        s2.contribution(round_id, user) == s.contribution(round_id, user) + amount,
        s2.balance(other) == s.balance(other),
{
}

/// A completed round takes no more contributions and no withdrawals.
pub proof fn law_completed_round_is_closed(
    s: TreasuryState,
    members: Seq<Address>,
    round_id: u64,
    amount: i128,
    user: Address,
    token_balance: i128,
)
    requires
        s.has_round(round_id),
        s.round(round_id).completed,
        s.has_treasury(s.round(round_id).group_id),
        members.contains(user),
        amount > 0,
    ensures
        s.contribute_outcome(members, round_id, amount, user) == Err::<TreasuryState, Error>(Error::RoundAlreadyCompleted),
        s.withdraw_outcome(members, round_id, user, token_balance) == Err::<TreasuryState, Error>(Error::RoundAlreadyCompleted),
{
}

/// Withdrawing undoes a first contribution to a round that it did not
/// complete: balances and rounds return to what they were, and the
/// contributor's contribution is 0 again.
pub proof fn law_withdraw_undoes_contribution(
    s: TreasuryState,
    s2: TreasuryState,
    members: Seq<Address>,
    round_id: u64,
    amount: i128,
    user: Address,
    token_balance: i128,
)
    requires
        s.balances_nonnegative(),
        s.contribution(round_id, user) == 0,
        s.contribute_outcome(members, round_id, amount, user) == Ok::<TreasuryState, Error>(s2),
        !s2.round(round_id).completed,
        token_balance >= amount,
    ensures
        s2.withdraw_outcome(members, round_id, user, token_balance) is Ok,
        ({
            let s3 = s2.withdraw_outcome(members, round_id, user, token_balance)->Ok_0;
            &&& s3.balances == s.balances
            &&& s3.rounds == s.rounds
            &&& s3.proposals == s.proposals
            &&& s3.approvals == s.approvals
            &&& s3.contribution(round_id, user) == 0
            &&& forall|k: (u64, Address)| k != (round_id, user) ==> #[trigger] s3.contributions.contains_key(k)
                == s.contributions.contains_key(k) && s3.contributions[k] == s.contributions[k]
        }),
{
    let s3 = s2.withdraw_outcome(members, round_id, user, token_balance)->Ok_0;
    assert(s3.balances =~= s.balances);
    assert(s3.rounds =~= s.rounds);
}

/// `selected_ids` only looks at the records it is asked about.
pub proof fn lemma_selected_ids_agree(n: nat, f: spec_fn(int) -> bool, h: spec_fn(int) -> bool)
    requires
        forall|k: int| 0 <= k < n ==> #[trigger] f(k) == h(k),
    ensures
        selected_ids(n, f) == selected_ids(n, h),
    decreases n,
{
    if n > 0 {
        lemma_selected_ids_agree((n - 1) as nat, f, h);
    }
}

/// A new release proposal gets the next identifier, leaves earlier
/// proposals as they were, and is listed last among its group's proposals;
/// the lists of other groups do not change.
pub proof fn law_proposal_listed_last(
    s: TreasuryState,
    s2: TreasuryState,
    members: Seq<Address>,
    destination: Address,
    amount: i128,
    group_id: u64,
    user: Address,
    other: u64,
)
    requires
        s.propose_release_outcome(members, destination, amount, group_id, user) == Ok::<TreasuryState, Error>(s2),
        s.proposals.len() < u64::MAX,
        other != group_id,
    ensures
        s2.proposals.len() == s.proposals.len() + 1,
        s2.proposals.take(s.proposals.len() as int) == s.proposals,
        s2.proposal((s.proposals.len() + 1) as u64).group_id == group_id,
        s2.proposal_ids_of_group(group_id) == s.proposal_ids_of_group(group_id).push((s.proposals.len() + 1) as u64),
        s2.proposal_ids_of_group(other) == s.proposal_ids_of_group(other),
{
    let n = s.proposals.len();
    assert(s2.proposals.take(n as int) =~= s.proposals);
    lemma_selected_ids_agree(n, |k: int| s2.proposals[k].group_id == group_id, |k: int| s.proposals[k].group_id == group_id);
    lemma_selected_ids_agree(n, |k: int| s2.proposals[k].group_id == other, |k: int| s.proposals[k].group_id == other);
}

/// A new fund round gets the next identifier, leaves earlier rounds as they
/// were, and is listed last among its group's rounds; the lists of other
/// groups do not change.
pub proof fn law_round_listed_last(
    s: TreasuryState,
    s2: TreasuryState,
    members: Seq<Address>,
    group_id: u64,
    total_amount: i128,
    user: Address,
    other: u64,
)
    requires
        s.propose_fund_round_outcome(members, group_id, total_amount, user) == Ok::<TreasuryState, Error>(s2),
        s.rounds.len() < u64::MAX,
        other != group_id,
    ensures
        s2.rounds.len() == s.rounds.len() + 1,
        s2.rounds.take(s.rounds.len() as int) == s.rounds,
        s2.round((s.rounds.len() + 1) as u64).group_id == group_id,
        s2.round((s.rounds.len() + 1) as u64).funded_amount == 0,
        !s2.round((s.rounds.len() + 1) as u64).completed,
        s2.round_ids_of_group(group_id) == s.round_ids_of_group(group_id).push((s.rounds.len() + 1) as u64),
        s2.round_ids_of_group(other) == s.round_ids_of_group(other),
{
    let n = s.rounds.len();
    assert(s2.rounds.take(n as int) =~= s.rounds);
    lemma_selected_ids_agree(n, |k: int| s2.rounds[k].group_id == group_id, |k: int| s.rounds[k].group_id == group_id);
    lemma_selected_ids_agree(n, |k: int| s2.rounds[k].group_id == other, |k: int| s.rounds[k].group_id == other);
}

/// Creating a treasury leaves the total of all group balances as it was.
pub proof fn law_new_treasury_keeps_total(
    s: TreasuryState,
    s2: TreasuryState,
    members: Seq<Address>,
    group_id: u64,
    user: Address,
)
    requires
        s.sound(),
        s.create_treasury_outcome(members, group_id, user) == Ok::<TreasuryState, Error>(s2),
    ensures
        total(s2.balances) == total(s.balances),
{
    lemma_total_insert(s.balances, group_id, 0);
}

/// A contribution adds exactly the amount paid in to the total of all group
/// balances.
pub proof fn law_contribution_adds_to_total(
    s: TreasuryState,
    s2: TreasuryState,
    members: Seq<Address>,
    round_id: u64,
    amount: i128,
    user: Address,
)
    requires
        s.sound(),
        s.contribute_outcome(members, round_id, amount, user) == Ok::<TreasuryState, Error>(s2),
    ensures
        total(s2.balances) == total(s.balances) + amount,
{
    let g = s.round(round_id).group_id;
    lemma_total_insert(s.balances, g, (s.balance(g) + amount) as i128);
}

/// Executing a release takes exactly the amount paid out off the total of
/// all group balances.
pub proof fn law_release_takes_from_total(
    s: TreasuryState,
    s2: TreasuryState,
    approvals_required: u32,
    id: u64,
    token_balance: i128,
)
    requires
        s.sound(),
        s.execute_release_outcome(approvals_required, id, token_balance) == Ok::<TreasuryState, Error>(s2),
    ensures
        total(s2.balances) == total(s.balances) - s.proposal(id).amount,
{
    let p = s.proposal(id);
    lemma_total_insert(s.balances, p.group_id, (s.balance(p.group_id) - p.amount) as i128);
}

/// A withdrawal takes exactly the amount refunded off the total of all
/// group balances.
pub proof fn law_withdraw_takes_from_total(
    s: TreasuryState,
    s2: TreasuryState,
    members: Seq<Address>,
    round_id: u64,
    user: Address,
    token_balance: i128,
)
    requires
        s.sound(),
        s.withdraw_outcome(members, round_id, user, token_balance) == Ok::<TreasuryState, Error>(s2),
    ensures
        total(s2.balances) == total(s.balances) - s.contribution(round_id, user),
{
    let g = s.round(round_id).group_id;
    lemma_total_insert(s.balances, g, (s.balance(g) - s.contribution(round_id, user)) as i128);
}

/// While the contract holds at least the total of all group balances (as it
/// does when tokens move only through contributions, releases and
/// withdrawals), no release and no withdrawal is refused for want of
/// tokens.
pub proof fn law_holdings_cover_payouts(
    s: TreasuryState,
    approvals_required: u32,
    id: u64,
    members: Seq<Address>,
    round_id: u64,
    user: Address,
    held: i128,
)
    requires
        s.sound(),
        held >= total(s.balances),
    ensures
        s.execute_release_outcome(approvals_required, id, held) != Err::<TreasuryState, Error>(Error::InsufficientTreasuryBalance),
        s.withdraw_outcome(members, round_id, user, held) != Err::<TreasuryState, Error>(Error::InsufficientTreasuryBalance),
{
    if s.has_proposal(id) {
        lemma_sum_nonnegative(s.balances.dom(), s.balances, s.proposal(id).group_id);
    }
    if s.has_round(round_id) {
        lemma_sum_nonnegative(s.balances.dom(), s.balances, s.round(round_id).group_id);
    }
}

} // verus!
