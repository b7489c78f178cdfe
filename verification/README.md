# ckb_vtx

Virtual transactions (VTx) for CKB: partial transactions that are composed
into one complete transaction, with a mock syscall layer that serves a VTx's
data to the scripts that verify it.

- `src/` is the library. Its functions carry `requires`/`ensures`
  contracts that Verus proves; laws that relate several functions are public
  proof functions (`lemma_*`). Transaction components are plain values
  (`src/cell.rs`); their molecule encodings, their hashes and the final
  `TransactionView` are computed by `ckb-types` behind the trusted functions
  at the end of that file, whose contracts are believed, not proved.
- `app/` holds what the library cannot: serde (JSON witness bytes for
  `VtxSpec` and `Intent`), the error's display text, and conversions from
  packed `ckb-types` values into the library's plain values.
- `tests/` runs the library against the real `ckb-types`.
