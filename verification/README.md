# Runt

Runt is a verification runtime for Ethereum proofs: verifiers for state
proofs (EIP-1186 Merkle Patricia Trie proofs), receipt proofs, Groth16 proofs
over BN254 and Altair sync-committee updates, the host services they rely on
(hashing, BLS signatures, pairing checks, key storage), and the registry that
routes a proof to the verifier of its type.

The library in `src/` is written in Verus: every function carries a contract,
and Verus proves that the code meets it.

## Layout

- `src/rlp.rs`, `src/encode.rs` — RLP decoding and encoding, with their
  specifications.
- `src/trie.rs` — walking a Merkle Patricia Trie through the nodes of a proof.
- `src/state_verifier.rs`, `src/tx_verifier.rs`, `src/groth16_verifier.rs`,
  `src/consensus_verifier.rs`, `src/hello_verifier.rs` — the verifiers, each
  with the outcome it gives stated as a function of its input.
- `src/crypto.rs`, `src/hashing.rs`, `src/curves.rs` — the host's primitives;
  the hash functions and curve arithmetic are computed by `sha3`, `sha2`,
  the arkworks BN254 crates and `blst`.
- `src/registry.rs`, `src/composition.rs`, `src/storage.rs`, `src/host.rs`,
  `src/keyed.rs` — the registry of verifiers, the dependency graph, key
  storage and the host state.
- `src/json.rs`, `src/proof_input.rs` — reading proof files: JSON values as
  `serde_json` parses them, hex text, and which bytes a file holds.
- `src/routing.rs`, `src/listing.rs` — choosing a verifier for a request, and
  the text of the verifier listing.
- `src/types.rs`, `src/text.rs`, `src/fuel.rs`,
  `src/sandbox.rs`, `src/abi.rs`, `src/demo.rs` — verdicts, text rendering,
  resource accounting, the shared codes, and sample proofs.
- `src/laws.rs` — properties that span several functions: round trips of the
  encoders and decoders, the one key or index a single-leaf proof is
  accepted for, what the registry, storage and dependency graph give back.
- `app/` — the `runt` command: wasmtime engine and stores, loading verifier
  modules, the command line, and the demonstrations.
- `tests/` — tests of the library.
