use vstd::prelude::*;

verus! {

/// An account or contract that takes part in a group treasury.
///
/// Addresses are only ever compared for equality, so an address is
/// represented by an opaque identifier.
#[derive(Clone, Copy, Debug, PartialEq, Eq, Structural)]
pub struct Address(pub u64);

impl Address {
    /// The address with the given identifier.
    pub fn new(id: u64) -> (a: Address)
        ensures
            a.0 == id,
    {
        Address(id)
    }
}

/// Whether `a` occurs in `members`.
pub fn contains_address(members: &Vec<Address>, a: Address) -> (found: bool)
    ensures
        found == members@.contains(a),
{
    let n: usize = members.len();
    let mut i: usize = 0;
    while i < n
        invariant
            n == members@.len(),
            i <= n,
            forall|j: int| 0 <= j < i ==> members@[j] != a,
        decreases n - i,
    {
        if members[i] == a {
            return true;
        }
        i = i + 1;
    }
    false
}

} // verus!
