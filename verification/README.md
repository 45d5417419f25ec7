# amulet

Amulet is a protocol of yield-bearing vaults and a hub that lends synthetic assets against vault shares. This crate
is its core logic, verified with Verus: every operation states in its contract what it returns and which commands it
issues, and the properties that relate operations are proved as lemmas.

## Layout

- `src/` — the verified library.
  - `num.rs`, `rate.rs`: 256/512-bit integers (backed by `primitive-types`), fixed point decimals and rates.
  - `admin.rs`: the two-step transfer of a contract's admin role.
  - `mint.rs`: the synthetic mint: tickers, whitelisted minters, mint and burn commands.
  - `vault.rs`, `vault/`: the share-issuing vault over a yield strategy, its batched unbonding log, the claim walk,
    the unbonding queries and the event attributes of its commands.
  - `hub.rs`, `hub/`: the hub: vault settings, balance sheets, collateralised debt positions, the rebalancing of
    vault yield (`positions.rs`) and the hub operations (`operations.rs`).
  - `fsm.rs`, `fsm/`: the reconciliation state machine of a proof-of-stake vault: delegation weights, slashing
    detection, and the phases that delegate, undelegate and transfer funds.
  - `query.rs`: page bounds of paginated queries.
  - `token_factory.rs`, `ibc_fee.rs`: token factory denoms, message types and bank metadata; interchain fees.
- `tests/` — tests that run the library on concrete values.
- `app/` — the CosmWasm contract glue (messages, storage, command execution) around the library.

Each operation that reads contract state takes it through a repository trait (`UnbondingLog`, `Strategy`,
`Vaults`, `BalanceSheet`, ...), whose methods are specified by spec functions; the library returns commands that the
contract glue applies to storage.
