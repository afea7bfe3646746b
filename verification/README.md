# crowdfund

A crowdfunding campaign whose rules are proved with Verus: contributions toward a goal
before a deadline, withdrawal by the creator once the goal is met (less an optional platform
fee, after an optional vesting cliff), refunds when the goal is missed or the campaign is
cancelled, partial refunds, recurring contributions, deadline extension by contributor vote,
and reward tiers.

## Layout

- `src/` — the verified library.
  - `spec.rs`: the mathematical model of a campaign (`ContractView`), its invariant, and for
    each operation the error it returns on a given state and input and the state it leaves.
  - `contract.rs`: `CrowdfundContract`, the executable state, with one method per operation.
    Each method takes the ledger time as an argument and returns an `Outcome`: the address
    whose authorization the call demands, and either the error or the result, including the
    token transfers to carry out. Its contract states both exactly over the model.
  - `laws.rs`: properties that relate operations (pause and resume undo each other, a
    cancelled campaign refunds every contributor exactly once, a withdrawal splits the total
    into fee and payout, the tier reached is the highest one met, ...).
  - `state.rs`, `types.rs`, `address.rs`, `errors.rs`: the data and its views.
- `tests/` — the behaviour on concrete scenarios, with the token transfers simulated.
- `app/` — the Soroban contract around the library: storage, authorization, token transfers,
  events and the ledger clock.
