# inheritx_access

Access control, governance and plan upkeep for inheritance contracts on Soroban,
verified with Verus.

- `src/` is the library. Its functions work on an `Env`, which holds as plain
  values the ledger entries, authorizations, events and token transfers of one
  contract call.
  - `access`, `reentrancy`, `pause`, `version`: roles, address lists, the
    reentrancy lock, the pause switch, and version checks of peer contracts.
  - `governance`, with its laws in `accounting`: voting power and delegation.
  - `plan`, `plan_maintenance`, with its laws in `cleanup_laws`: plans, and the
    release of a closed plan's storage.
  - `zk`, `genetic_proof`, with its laws in `proof_laws`, and `mock_verifier`:
    hashed record keys, and proofs of genetic kinship.
- `app/` runs the library on a ledger: it loads the entries that a call works on,
  calls the library, and writes the entries back. Where a decision needs the
  reply of another contract, the library says which call to make and takes the
  reply.
- `tests/` runs the library on concrete values.

One thing is trusted: the SHA-256 of `soroban_sdk` (`sha256`), of which only that
the digest is a function of the hashed bytes. Laws about hashed keys hold unless
SHA-256 collides on the pre-images that they name.
