# carbonchain

A verified model of the CarbonChain carbon-credit contracts, written in Verus.

- `src/registry/` — the credit registry: administrator, verifiers, submitted
  credits and their status (pending, active, flagged, retired), and each
  verifier's count of approvals and disputes.
- `src/marketplace.rs` — offers to sell active credits; cancelling; pausing.
- `src/oracle.rs` — MRV readings per project, anomaly detection, bounded
  history, nonces against replay, administrator hand-over.
- `src/retirement.rs` — retirement records, indexed by buyer, that retire the
  credit in the registry.
- `src/table.rs` — a keyed table seen as a map; `src/ids.rs` — addresses and
  identifiers; `src/host.rs` — the calls into the Soroban host (ledger time,
  XDR encoding, SHA-256).
- `app/` — the Soroban contracts around the library: storage, authorization,
  events and calls between contracts.

Each contract's state has a view (`RegistryModel`, `MarketModel`,
`OracleModel`, `RetirementModel`); every operation states its result and the
new state over that view, and a refused request leaves the state unchanged.

Functions that stamp a record with the ledger time have a companion ending in
`_at` that takes the time as an argument and states it exactly.
