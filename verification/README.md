# secp256k1_zkp (verified core)

Rust bindings to libsecp256k1 for ECDSA signatures, with the parsing,
encoding and bookkeeping logic verified by Verus.

- `src/` — the verified library:
  - `hex` — hexadecimal encoding/decoding into caller buffers, with round-trip lemmas;
  - `scalar_bytes` — 256-bit big-endian numbers: comparison, subtraction, the group order;
  - `der` — the DER encoding of a signature;
  - `ecdsa` — `Signature` (compact/DER/lax-DER parsing, low-S normalization,
    serialization, hex form) and `SerializedSignature`;
  - `message`, `key`, `context`, `error`, `constants`;
  - `backend`, `std_wrappers` — the trusted calls into the `secp256k1` crate
    (DER parsing, key validity, verification) and into `core::str`.
- `app/` — random number generation, serde support, raw context sizing and
  conversions to the `secp256k1` crate's key types.
- `tests/` — tests of the library, including comparisons with the
  `secp256k1` crate.
