//! Receipts as the recursion prover reads and writes them.

use vstd::prelude::*;

use super::digest::Digest;
use super::merkle::MerkleProof;
use super::claim::ReceiptClaim;

verus! {

/// A receipt for one segment of an rv32im execution.
#[derive(Clone, Debug)]
pub struct SegmentReceipt {
    /// The rv32im STARK proof, as words.
    pub seal: Vec<u32>,
    /// The index of the segment in its session.
    pub index: u32,
    /// The name of the hash function the seal was made with.
    pub hashfn: String,
    /// What the receipt attests to.
    pub claim: ReceiptClaim,
}

/// A receipt produced by a recursion program.
#[derive(Clone, Debug)]
pub struct SuccinctReceipt {
    /// The recursion STARK proof, as words.
    pub seal: Vec<u32>,
    /// The control ID of the recursion program that produced the receipt.
    pub control_id: Digest,
    /// A proof that `control_id` belongs to a Merkle group of allowed control IDs.
    pub control_inclusion_proof: MerkleProof,
    /// What the receipt attests to.
    pub claim: ReceiptClaim,
    /// The name of the hash function the seal was made with.
    pub hashfn: String,
}

/// What running a recursion program yields: its control ID, the seal and the words
/// that the program wrote to its output.
#[derive(Clone, Debug)]
pub struct RecursionReceipt {
    pub control_id: Digest,
    pub seal: Vec<u32>,
    pub output: Vec<u32>,
}

} // verus!
