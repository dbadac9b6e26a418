# lemipay

Group treasuries, verified with Verus.

Members of a group pool funds in *fund rounds* and pay them out through
*release proposals* that the group approves. The library keeps, per group,
a balance, and per proposal and round the records that decide what may
happen next; every operation has a contract that states exactly how the
state changes or which error it returns.

A withdrawal gives a contributor back what they paid into a round that is
not yet completed, as long as the group's balance still covers it: no
group's balance goes below 0, and no group pays another group's refund.

Layout:

- `src/` — the verified library.
  - `group.rs`: the group registry (members and approval rule).
  - `model.rs`: the abstract treasury state and the outcome of every operation.
  - `treasury.rs`, `release.rs`, `fund_round.rs`, `queries.rs`: the treasury itself.
  - `table.rs`, `totals.rs`: keyed tables and sums used by the proofs.
  - `laws.rs`: properties relating several operations.
  - `history.rs`: runs of operations, and what a run never undoes.
- `tests/` — scenario tests.
- `app/` — the Soroban contracts: storage, authorization, calls to the group
  contract and the token, and events, around the library.
