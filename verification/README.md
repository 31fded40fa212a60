# sol_usd_minter

A verified library for a SOL/USD price oracle and a token minter that charges a
USD-denominated fee in lamports, plus a thin backend binary.

- `src/fee.rs` — fee conversion (USD fee → lamports at the oracle price), supply scaling.
- `src/oracle.rs` — oracle state, its instructions (create, update, staleness check, reset)
  and their account constraints.
- `src/minter.rs` — minter configuration, its instructions, the token creation decision.
- `src/pda.rs` — derived-address and signer/has-one constraints.
- `src/codec.rs` — account data layout (type tag + little-endian fields) with round-trip proofs.
- `src/decimal.rs` — decimal text parsing (`u64`, six-place fixed point).
- `src/config.rs` — backend settings from environment values, price source choice, log lines.
- `app/` — the backend process: environment, HTTP price fetching, polling loop.
