# meteroid_store

The decision logic of a billing store, written in Verus with its contracts
proved: entitlement resolution and usage windows, payment-transaction
bookkeeping, credit notes and their tax breakdown, quotes (and the emails
that send them) and checkout (its checks and the draft invoice and pending
charge it records), plan-version copies, MRR series, organization invites, API key
texts and the choice of a subscription's payment method.

Layout:

- `src/` — the verified library. Each module states what its functions
  return as spec functions over plain values; modules whose names end in
  `_laws` (and `entitlement_priority`) hold proof functions stating
  properties that span several calls or all inputs.
- `tests/` — executable tests of the library on concrete values.
- `app/` — the unverified edge: conversions from `chrono` and
  `rust_decimal` values, computations in floating point, and the random
  part and salt of API keys (from `nanoid` and the system's random source).

Outside calls (`chrono`, `rust_decimal`, `base62`, `argon2`, std's `to_lowercase`)
go through small trusted wrappers whose contracts are documented where
they are declared.
