//! The records a treasury keeps.

use vstd::prelude::*;
use crate::address::Address;

verus! {

/// A proposal to pay `amount` out of a group's balance to `destination`.
#[derive(Clone, Copy, Debug, PartialEq, Eq, Structural)]
pub struct ReleaseProposal {
    pub group_id: u64,
    pub destination: Address,
    pub amount: i128,
    pub approvals: u32,
    pub executed: bool,
    pub canceled: bool,
}

/// A fund round: a target amount that the members of a group pay in.
#[derive(Clone, Copy, Debug, PartialEq, Eq, Structural)]
pub struct FundRound {
    pub group_id: u64,
    pub total_amount: i128,
    pub amount_of_members: u32,
    pub funded_amount: i128,
    pub completed: bool,
}

} // verus!
