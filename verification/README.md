# resolve

Binary YES/NO prediction markets for Stellar (Soroban), with the market rules
proved correct in Verus.

- `src/` is the verified library: market creation, staking, resolution,
  invalidation and claims (`contract.rs`), settlement and payout arithmetic
  (`payout.rs`), the records they work on (`types.rs`), and properties of the
  contract as a whole (`laws.rs`): claims, in any order, never pay out more
  than the pool and lose under one unit per winner to rounding, refunds return
  it whole, pools always equal the deposits, finalization is final, and a
  position claims once.
- `app/` is the Soroban contract: it reads and writes ledger storage, checks
  authorization, moves tokens and publishes events around the library's rules.
- `tests/` runs the contract's scenarios against an in-memory host.

Payout for a resolved market with a non-empty winning pool:

```text
payout = floor(user_winning_stake * (yes_pool + no_pool) / winning_pool)
```

Dust from flooring stays in the contract. A market resolved to a side nobody
staked on, or declared invalid, refunds every deposit.
