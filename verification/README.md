# cobuild_otx

A verified core for a CKB lock script that follows the Cobuild protocol with
open transactions (OTX). The library decodes Cobuild witnesses and the
transaction, lays out the OTX run, computes the signing-hash preimages, plans
which signatures a lock must check and which actions concern a script, and
decides the lock's outcome. Every function in `src/` carries a contract.
Verus proves them all but those of three small wrappers around the BLAKE2b
and secp256k1 crates, whose results the contracts name rather than compute.

## Layout

- `src/lazy_reader/`: molecule readers for the Cobuild schema and the CKB
  transaction types, with the validity of each structure stated as a spec.
- `src/view.rs`, `src/witness.rs`, `src/layout.rs`: decoded witness views, the
  witness scan and the OTX run.
- `src/hash.rs`, `src/plan.rs`, `src/seal.rs`: signing-hash preimages, action
  references and hashes, plan types and seal lookup.
- `src/context.rs`, `src/source.rs`, `src/engine.rs`, `src/loader.rs`: the
  current script's cells, transaction data, context building and the lock and
  type validation plans.
- `src/lock/`: the lock's arguments, exit codes, seal verification and run.
- `app/main.rs`: the script entry point, which loads the transaction through
  syscalls and hands the library plain values.
- `tests/`: scenarios on concrete transactions and witnesses.
