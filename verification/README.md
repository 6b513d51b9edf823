# zkvm_recursion

Host-side pieces of the zkVM recursion prover, verified with Verus.

- `src/protos/` — the protobuf message types of proofs, receipts and receipt claims
  (`base`, `messages`, and the `oneof` variants in `inner_receipt` and `maybe_pruned`).
- `src/recursion/` — the recursion prover:
  - `digest`, `field`, `hash`: digests, the BabyBear Montgomery encoding of input words,
    and the pair hashes of the hash suites;
  - `merkle`: Merkle groups of control IDs, their roots and inclusion proofs, with the
    proof that an inclusion proof leads back to the group's root;
  - `control_id`, `program`: published control IDs, the recursion programs by name, and the
    prover options;
  - `claim`: receipt claims — their SHA-256 digests, their word encoding on a program's
    tape, the decoding of a program's output and its merge with the expected claim, and
    the resolution of a conditional claim's head assumption;
  - `error`: why a request is refused, with the message that reports it;
  - `prover`: the input tape of each recursion program (lift, join, resolve, identity);
  - `prove`: `lift`, `join`, `resolve` and `identity_p254`, which prepare a prover, hand
    it to a proving step, decode and merge the claim the run proved, and pack the run
    with the prover's control ID into a succinct receipt.
- Not in the library: the proving step. Running the recursion circuit on a prover — the
  preflight pass over the program, the STARK prover on a hardware abstraction layer (HAL)
  and the HAL pairs that pick one per hash function — drives implementations of the proof
  system's hardware traits, draws random noise, and runs the zkVM's executor, none of which
  is part of this crate. `lift`, `join`, `resolve` and `identity_p254` take it as a closure
  that returns the seal and the output words of the run.
- `app/` — the same messages with their protobuf encoding (`prost`), the serde form of a
  recursion receipt, and conversions.
- `tests/` — tests of the library against the circuit crates' published constants.
