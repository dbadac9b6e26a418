//! Runs of treasury operations, and what a run never undoes.

use vstd::prelude::*;
use crate::address::Address;
use crate::errors::Error;
use crate::model::{TreasuryState, selected_ids};
use crate::laws::lemma_selected_ids_agree;

verus! {

/// One call of a treasury operation, with the arguments it was given.
pub enum Operation {
    CreateTreasury { members: Seq<Address>, group_id: u64, user: Address },
    ProposeRelease { members: Seq<Address>, destination: Address, amount: i128, group_id: u64, user: Address },
    ApproveRelease { members: Seq<Address>, id: u64, user: Address },
    ExecuteRelease { approvals_required: u32, id: u64, token_balance: i128 },
    CancelRelease { members: Seq<Address>, id: u64, user: Address },
    ProposeFundRound { members: Seq<Address>, group_id: u64, total_amount: i128, user: Address },
    Contribute { members: Seq<Address>, round_id: u64, amount: i128, user: Address },
    Withdraw { members: Seq<Address>, round_id: u64, user: Address, token_balance: i128 },
}

impl TreasuryState {
    /// The outcome of one operation.
    pub open spec fn apply(self, op: Operation) -> Result<TreasuryState, Error> {
        match op {
            Operation::CreateTreasury { members, group_id, user } =>
                self.create_treasury_outcome(members, group_id, user),
            Operation::ProposeRelease { members, destination, amount, group_id, user } =>
                self.propose_release_outcome(members, destination, amount, group_id, user),
            Operation::ApproveRelease { members, id, user } => self.approve_release_outcome(members, id, user),
            Operation::ExecuteRelease { approvals_required, id, token_balance } =>
                self.execute_release_outcome(approvals_required, id, token_balance),
            Operation::CancelRelease { members, id, user } => self.cancel_release_outcome(members, id, user),
            Operation::ProposeFundRound { members, group_id, total_amount, user } =>
                self.propose_fund_round_outcome(members, group_id, total_amount, user),
            Operation::Contribute { members, round_id, amount, user } =>
                self.contribute_outcome(members, round_id, amount, user),
            Operation::Withdraw { members, round_id, user, token_balance } =>
                self.withdraw_outcome(members, round_id, user, token_balance),
        }
    }

    /// The state after one operation: a refused operation changes nothing.
    pub open spec fn after(self, op: Operation) -> TreasuryState {
        match self.apply(op) {
            Ok(s) => s,
            Err(_) => self,
        }
    }

    /// What `later` keeps of `self`: every treasury, every approval, every
    /// proposal and round with what it was made with, the executed,
    /// canceled and completed marks, and each group's lists of proposals and
    /// rounds as a prefix of the later ones.
    pub open spec fn kept_by(self, later: TreasuryState) -> bool {
        &&& forall|g: u64| #[trigger] self.has_treasury(g) ==> later.has_treasury(g)
        &&& forall|a: (u64, Address)| #[trigger] self.approvals.contains(a) ==> later.approvals.contains(a)
        &&& self.proposals.len() <= later.proposals.len()
        &&& forall|k: int| 0 <= k < self.proposals.len() ==> {
            &&& (#[trigger] later.proposals[k]).group_id == self.proposals[k].group_id
            &&& later.proposals[k].destination == self.proposals[k].destination
            &&& later.proposals[k].amount == self.proposals[k].amount
            &&& (self.proposals[k].executed ==> later.proposals[k].executed)
            &&& (self.proposals[k].canceled ==> later.proposals[k].canceled)
        }
        &&& self.rounds.len() <= later.rounds.len()
        &&& forall|k: int| 0 <= k < self.rounds.len() ==> {
            &&& (#[trigger] later.rounds[k]).group_id == self.rounds[k].group_id
            &&& later.rounds[k].total_amount == self.rounds[k].total_amount
            &&& (self.rounds[k].completed ==> later.rounds[k].completed)
        }
    }
}

/// The state after running `ops` in order from `s`.
pub open spec fn run(s: TreasuryState, ops: Seq<Operation>) -> TreasuryState
    decreases ops.len(),
{
    if ops.len() == 0 {
        s
    } else {
        run(s, ops.drop_last()).after(ops.last())
    }
}

/// One operation keeps what `kept_by` names.
pub proof fn lemma_step_keeps(s: TreasuryState, op: Operation)
    ensures
        s.kept_by(s.after(op)),
{
}

/// `kept_by` carries over from one state to a later one.
pub proof fn lemma_kept_transitive(a: TreasuryState, b: TreasuryState, c: TreasuryState)
    requires
        a.kept_by(b),
        b.kept_by(c),
    ensures
        a.kept_by(c),
{
    assert forall|k: int| 0 <= k < a.proposals.len() implies {
        &&& (#[trigger] c.proposals[k]).group_id == a.proposals[k].group_id
        &&& c.proposals[k].destination == a.proposals[k].destination
        &&& c.proposals[k].amount == a.proposals[k].amount
        &&& (a.proposals[k].executed ==> c.proposals[k].executed)
        &&& (a.proposals[k].canceled ==> c.proposals[k].canceled)
    } by {
        assert(b.proposals[k].group_id == a.proposals[k].group_id);
    }
    assert forall|k: int| 0 <= k < a.rounds.len() implies {
        &&& (#[trigger] c.rounds[k]).group_id == a.rounds[k].group_id
        &&& c.rounds[k].total_amount == a.rounds[k].total_amount
        &&& (a.rounds[k].completed ==> c.rounds[k].completed)
    } by {
        assert(b.rounds[k].group_id == a.rounds[k].group_id);
    }
}

/// A run of operations never undoes anything: treasuries, approvals,
/// proposals and rounds stay, with what they were made with, and once
/// executed, canceled or completed they stay so.
pub proof fn law_run_keeps_records(s: TreasuryState, ops: Seq<Operation>)
    ensures
        s.kept_by(run(s, ops)),
    decreases ops.len(),
{
    if ops.len() > 0 {
        law_run_keeps_records(s, ops.drop_last());
        lemma_step_keeps(run(s, ops.drop_last()), ops.last());
        lemma_kept_transitive(s, run(s, ops.drop_last()), run(s, ops));
    }
}

/// `selected_ids` over a shorter range is a prefix of `selected_ids` over a
/// longer one with the same selection.
proof fn lemma_selected_ids_prefix(n: nat, m: nat, f: spec_fn(int) -> bool, h: spec_fn(int) -> bool)
    requires
        n <= m,
        forall|k: int| 0 <= k < n ==> #[trigger] f(k) == h(k),
    ensures
        selected_ids(n, f).len() <= selected_ids(m, h).len(),
        selected_ids(m, h).take(selected_ids(n, f).len() as int) == selected_ids(n, f),
    decreases m,
{
    if n == m {
        lemma_selected_ids_agree(n, f, h);
        assert(selected_ids(m, h).take(selected_ids(n, f).len() as int) =~= selected_ids(m, h));
    } else {
        lemma_selected_ids_prefix(n, (m - 1) as nat, f, h);
        let a = selected_ids(n, f);
        let b = selected_ids((m - 1) as nat, h);
        if h(m - 1) {
            assert(b.push(m as u64).take(a.len() as int) =~= b.take(a.len() as int));
        }
    }
}

/// A run of operations only adds to each group's lists of proposals and
/// rounds: the lists before the run are prefixes of the lists after it.
pub proof fn law_run_extends_lists(s: TreasuryState, ops: Seq<Operation>, group_id: u64)
    ensures
        ({
            let t = run(s, ops);
            &&& t.proposal_ids_of_group(group_id).take(s.proposal_ids_of_group(group_id).len() as int)
                == s.proposal_ids_of_group(group_id)
            &&& t.round_ids_of_group(group_id).take(s.round_ids_of_group(group_id).len() as int)
                == s.round_ids_of_group(group_id)
        }),
{
    let t = run(s, ops);
    law_run_keeps_records(s, ops);
    lemma_selected_ids_prefix(
        s.proposals.len(),
        t.proposals.len(),
        |k: int| s.proposals[k].group_id == group_id,
        |k: int| t.proposals[k].group_id == group_id,
    );
    lemma_selected_ids_prefix(
        s.rounds.len(),
        t.rounds.len(),
        |k: int| s.rounds[k].group_id == group_id,
        |k: int| t.rounds[k].group_id == group_id,
    );
}

/// A proposal is paid out at most once over any run: once executed, every
/// later execution of it is refused with `AlreadyExecuted`.
pub proof fn law_run_executes_once(
    s: TreasuryState,
    ops: Seq<Operation>,
    id: u64,
    approvals_required: u32,
    token_balance: i128,
)
    requires
        s.has_proposal(id),
        s.proposal(id).executed,
    ensures
        run(s, ops).execute_release_outcome(approvals_required, id, token_balance)
            == Err::<TreasuryState, Error>(Error::AlreadyExecuted),
{
    law_run_keeps_records(s, ops);
    assert(run(s, ops).proposals[id - 1].executed);
}

/// The limit that `approve_release` asks for: the count of a proposal
/// being approved is below `u32::MAX`.
pub open spec fn within_limit(st: TreasuryState, op: Operation) -> bool {
    match op {
        Operation::ApproveRelease { id, .. } => st.has_proposal(id) ==> st.proposal(id).approvals < u32::MAX,
        _ => true,
    }
}

/// Every operation of the run is within its limit when it is made.
pub open spec fn run_within_limits(s: TreasuryState, ops: Seq<Operation>) -> bool
    decreases ops.len(),
{
    if ops.len() == 0 {
        true
    } else {
        run_within_limits(s, ops.drop_last()) && within_limit(run(s, ops.drop_last()), ops.last())
    }
}

/// What `user` has paid into round `round_id` over a run: the contribution
/// at the start plus every successful contribution of theirs to the round,
/// counted again from 0 after each successful withdrawal.
pub open spec fn paid_since_withdrawal(s: TreasuryState, ops: Seq<Operation>, round_id: u64, user: Address) -> int
    decreases ops.len(),
{
    if ops.len() == 0 {
        s.contribution(round_id, user) as int
    } else {
        let prev = paid_since_withdrawal(s, ops.drop_last(), round_id, user);
        if run(s, ops.drop_last()).apply(ops.last()) is Ok {
            match ops.last() {
                Operation::Contribute { round_id: r, amount, user: u, .. } =>
                    if r == round_id && u == user { prev + amount } else { prev },
                Operation::Withdraw { round_id: r, user: u, .. } =>
                    if r == round_id && u == user { 0 } else { prev },
                _ => prev,
            }
        } else {
            prev
        }
    }
}

/// How one operation changes a contribution.
proof fn lemma_step_contribution(st: TreasuryState, op: Operation, round_id: u64, user: Address)
    ensures
        st.after(op).contribution(round_id, user) == (if st.apply(op) is Ok {
            match op {
                Operation::Contribute { round_id: r, amount, user: u, .. } =>
                    if r == round_id && u == user { st.contribution(round_id, user) + amount } else { st.contribution(round_id, user) as int },
                Operation::Withdraw { round_id: r, user: u, .. } =>
                    if r == round_id && u == user { 0 } else { st.contribution(round_id, user) as int },
                _ => st.contribution(round_id, user) as int,
            }
        } else {
            st.contribution(round_id, user) as int
        }),
        st.apply(op) is Ok ==> match op {
            Operation::Contribute { amount, .. } => amount > 0,
            _ => true,
        },
{
    match op {
        Operation::Contribute { members, round_id: r, amount, user: u } => {
            if st.apply(op) is Ok {
                let t = st.contribute_outcome(members, r, amount, u)->Ok_0;
                assert(t.contributions == st.contributions.insert((r, u), (st.contribution(r, u) + amount) as i128));
            }
        },
        Operation::Withdraw { members, round_id: r, user: u, token_balance } => {
            if st.apply(op) is Ok {
                let t = st.withdraw_outcome(members, r, u, token_balance)->Ok_0;
                assert(t.contributions == st.contributions.insert((r, u), 0));
            }
        },
        _ => {},
    }
}

/// A contribution is what its contributor paid in since their last
/// withdrawal, and it is never negative where it was not at the start.
pub proof fn law_run_contribution_is_paid_in(s: TreasuryState, ops: Seq<Operation>, round_id: u64, user: Address)
    ensures
        run(s, ops).contribution(round_id, user) == paid_since_withdrawal(s, ops, round_id, user),
        s.contribution(round_id, user) >= 0 ==> run(s, ops).contribution(round_id, user) >= 0,
    decreases ops.len(),
{
    if ops.len() > 0 {
        law_run_contribution_is_paid_in(s, ops.drop_last(), round_id, user);
        lemma_step_contribution(run(s, ops.drop_last()), ops.last(), round_id, user);
    }
}

/// The number of successful approvals of proposal `id` over a run, added to
/// its count at the start.
pub open spec fn approvals_counted(s: TreasuryState, ops: Seq<Operation>, id: u64) -> int
    decreases ops.len(),
{
    if ops.len() == 0 {
        if s.has_proposal(id) { s.proposal(id).approvals as int } else { 0 }
    } else {
        let prev = approvals_counted(s, ops.drop_last(), id);
        match ops.last() {
            Operation::ApproveRelease { id: p, .. } =>
                if p == id && run(s, ops.drop_last()).apply(ops.last()) is Ok { prev + 1 } else { prev },
            _ => prev,
        }
    }
}

/// Whether proposal `id` was executed at the start or some execution of it
/// in the run succeeded.
pub open spec fn executed_by(s: TreasuryState, ops: Seq<Operation>, id: u64) -> bool
    decreases ops.len(),
{
    if ops.len() == 0 {
        s.has_proposal(id) && s.proposal(id).executed
    } else {
        executed_by(s, ops.drop_last(), id) || match ops.last() {
            Operation::ExecuteRelease { id: p, .. } => p == id && run(s, ops.drop_last()).apply(ops.last()) is Ok,
            _ => false,
        }
    }
}

/// A proposal's approval count is the number of its successful approvals,
/// and it is executed exactly when an execution of it succeeded; before a
/// proposal exists no approval or execution of it succeeds.
pub proof fn law_run_counts_approvals(s: TreasuryState, ops: Seq<Operation>, id: u64)
    requires
        run_within_limits(s, ops),
    ensures
        run(s, ops).has_proposal(id) ==> {
            &&& run(s, ops).proposal(id).approvals == approvals_counted(s, ops, id)
            &&& run(s, ops).proposal(id).executed == executed_by(s, ops, id)
        },
        !run(s, ops).has_proposal(id) ==> approvals_counted(s, ops, id) == 0 && !executed_by(s, ops, id),
    decreases ops.len(),
{
    if ops.len() > 0 {
        law_run_counts_approvals(s, ops.drop_last(), id);
    }
}

/// Whether group `group_id` had a treasury at the start or some creation
/// of it in the run succeeded.
pub open spec fn created_by(s: TreasuryState, ops: Seq<Operation>, group_id: u64) -> bool
    decreases ops.len(),
{
    if ops.len() == 0 {
        s.has_treasury(group_id)
    } else {
        created_by(s, ops.drop_last(), group_id) || match ops.last() {
            Operation::CreateTreasury { group_id: g, .. } =>
                g == group_id && run(s, ops.drop_last()).apply(ops.last()) is Ok,
            _ => false,
        }
    }
}

/// A group has a treasury exactly when it had one at the start or a
/// creation of it succeeded: no other operation makes one, and none
/// removes one.
pub proof fn law_run_treasury_made_by_creation(s: TreasuryState, ops: Seq<Operation>, group_id: u64)
    ensures
        run(s, ops).has_treasury(group_id) == created_by(s, ops, group_id),
    decreases ops.len(),
{
    if ops.len() > 0 {
        law_run_treasury_made_by_creation(s, ops.drop_last(), group_id);
    }
}

/// How much one successful operation moves the balance of `group_id`: a
/// contribution to one of its rounds adds the amount paid, an execution of
/// one of its proposals takes off the amount paid out, and a withdrawal
/// from one of its rounds takes off the amount refunded.
pub open spec fn balance_change(st: TreasuryState, op: Operation, group_id: u64) -> int {
    if st.apply(op) is Ok {
        match op {
            Operation::Contribute { round_id, amount, .. } =>
                if st.round(round_id).group_id == group_id { amount as int } else { 0 },
            Operation::ExecuteRelease { id, .. } =>
                if st.proposal(id).group_id == group_id { -st.proposal(id).amount } else { 0 },
            Operation::Withdraw { round_id, user, .. } =>
                if st.round(round_id).group_id == group_id { -st.contribution(round_id, user) } else { 0 },
            _ => 0,
        }
    } else {
        0
    }
}

/// The balance of `group_id` at the start plus what the run paid in minus
/// what it paid out and refunded.
pub open spec fn balance_flow(s: TreasuryState, ops: Seq<Operation>, group_id: u64) -> int
    decreases ops.len(),
{
    if ops.len() == 0 {
        s.balance(group_id) as int
    } else {
        balance_flow(s, ops.drop_last(), group_id) + balance_change(run(s, ops.drop_last()), ops.last(), group_id)
    }
}

/// A group's balance is what was paid into its rounds minus what its
/// releases paid out and its refunds gave back, and no balance goes below 0
/// where none was at the start.
pub proof fn law_run_balance_is_flow(s: TreasuryState, ops: Seq<Operation>, group_id: u64)
    ensures
        run(s, ops).balance(group_id) == balance_flow(s, ops, group_id),
        s.balances_nonnegative() ==> run(s, ops).balances_nonnegative(),
    decreases ops.len(),
{
    if ops.len() > 0 {
        law_run_balance_is_flow(s, ops.drop_last(), group_id);
    }
}

} // verus!
