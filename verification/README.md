# kampus_loan

A campus lending service — an inventory of campus assets (projectors,
balls, halls, cameras) and the loans of their units to students and
staff — written in Verus, with its rules proved.

- `src/types.rs`: items, loans, addresses, statistics, replies and aborts.
- `src/model.rs`: the state of the service as a mathematical value, and
  what every request does to it.
- `src/lending.rs`: `CampusLending`, the executable service; each request
  is proved to do exactly what `model.rs` says.
- `src/consistency.rs`, `src/laws.rs`: the consistency of a service (each
  unit is available or out on exactly one active loan, ids are fresh, ...)
  and the proofs that every request keeps it, with the other laws.
- `app/lib.rs`: the Soroban contract, which keeps the state in contract
  storage, checks authorizations and reads the ledger time.
