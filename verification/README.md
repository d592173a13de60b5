# astroid

Verified ledgers for Astroid's on-chain financial governance on Stellar:
budgets with recurring allowances, escrows with vesting and milestone
release, proposals with quorum / majority / dependency gates, transfer
policies with composable rule trees, and a weighted multisignature.

Each contract's state and rules live in `src/` as ordinary Rust checked by
Verus: every public operation states in its contract exactly what it returns
and how it changes the ledger, errors leave the ledger untouched, and the
properties that span calls are proved as lemmas in the `*_laws` modules.

## Layout

```
src/shared.rs        error codes, addresses, asset amounts, checked arithmetic
src/table.rs         a string-keyed table with a map model
src/budget.rs        budgets: caps, windows, rollover, deficits, per-asset sub-budgets
src/escrow.rs        escrows: funding, vesting, milestones, release, refund, override
src/proposal.rs      proposals: approval, quorum and majority, timelock, dependencies
src/policy.rs        policies: scalar gates, deny lists, whitelists, allowances, rule trees
src/policy_rules.rs  first-match conditional rules with wildcard destinations
src/multisig.rs      weighted signers, proposals, threshold checks, batch authorization
src/*_laws.rs        properties across calls
tests/               scenario tests
app/                 the Soroban host edge: clock, authorization, token transfers,
                     signature checks, contract calls and events
```

The ledgers never touch the host. Time is passed in as `now`, callers as
their strkey text, and token transfers come back as `Movement` values that
`app/` carries out.
