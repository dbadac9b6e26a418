use vstd::prelude::*;

verus! {

/// The ways in which a treasury operation can be refused.
#[derive(Clone, Copy, Debug, PartialEq, Eq, Structural, PartialOrd, Ord)]
pub enum Error {
    NotMember,
    TreasuryNotInitialized,
    GroupIdAlreadyInUse,
    InvalidAmount,
    ProposalNotFound,
    AlreadyExecuted,
    DestinationCannotApprove,
    AlreadyApproved,
    NotEnoughApprovals,
    InsufficientTreasuryBalance,
    GroupBalanceNotFound,
    InsufficientGroupBalance,
    BalanceUnderflow,
    NoMembers,
    RoundNotFound,
    RoundAlreadyCompleted,
    FundedExceedsTotal,
    ContributionExceedsRemaining,
    BalanceOverflow,
    ContributionOverflow,
    TooManyMembers,
    NoContributionToWithdraw,
    ProposalCanceled,
}

} // verus!
