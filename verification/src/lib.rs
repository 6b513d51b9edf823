//! Host-side pieces of the zkVM recursion prover: the protobuf message types of
//! receipts and the verified construction of recursion-program inputs, Merkle
//! inclusion proofs over control IDs, and the assembly of succinct receipts.

pub mod protos;
pub mod recursion;
