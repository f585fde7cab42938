# height_contracts

Two CosmWasm contracts driven by block height, with their logic verified in
Verus:

- `announcements`: owner-managed announcements that expire at a chosen
  height, can be archived, and are listed with an active-only filter.
- `reminders`: reminders anyone can create, only their creator can cancel,
  and anyone can complete once the due height is reached.

Layout:

- `src/` is the verified library. Each contract module holds its messages,
  state, errors, the `instantiate` / `execute` / `query` state machine
  (`contract.rs`) and the properties proved over it (`laws.rs`). Shared
  pieces: `store` (a key-ordered record map, the model of contract storage),
  `ordering` (byte order of keys), `text` (trimming, decimal numerals) and
  `chain` (the `cosmwasm_std` responses and errors, behind trusted wrappers).
- `app/` is the chain side: serde message types, `cw-storage-plus` storage,
  `cw2` versioning and the entry points. An entry point loads the state,
  lets the library decide, and performs the one storage write the library
  returns.
- `tests/` runs the library on concrete scenarios.
