# bitvm3

Garbled gates over big natural numbers, verified with Verus.

- `src/bignum.rs` — big naturals as little-endian byte strings (`le_value`,
  `le_bytes`), signed values (`SignedNum`), and the `num-bigint` operations
  behind trusted wrappers whose contracts state their exact results.
- `src/math.rs` — modular addition, subtraction, multiplication,
  exponentiation, inversion (extended Euclid, verified), invertibility and
  random labels; laws on inverses and on subtraction undoing addition.
- `src/circuit.rs` — labels, gate kinds, circuits, `garble` and
  `evaluate_gate`, with the garbled-gate correctness law
  `lemma_garbled_gate_evaluation`.
- `src/lit_circuit.rs` — a literal boolean-circuit model (wires set once,
  named gates, per-kind gate counts); wires live in a caller-owned store and
  are referred to by index.
- `app/` — `BigUint` adapters, and copies of the circuit types that carry the
  serde and strum derives.
