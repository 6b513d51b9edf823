//! Receipt messages of the zkVM.

use vstd::prelude::*;

use super::base::{CompatVersion, ExitCode};
use super::inner_receipt;
use super::maybe_pruned;

verus! {

/// A receipt together with the statistics of the session that produced it.
#[derive(Debug, PartialEq, Eq, Default)]
pub struct ProveInfo {
    pub receipt: Option<Receipt>,
    pub stats: Option<SessionStats>,
}

/// Statistics of a proving session.
#[derive(Clone, Debug, PartialEq, Eq, Default)]
pub struct SessionStats {
    pub segments: u64,
    pub total_cycles: u64,
    pub user_cycles: u64,
}

/// A receipt attesting to the execution of a guest program.
#[derive(Debug, PartialEq, Eq, Default)]
pub struct Receipt {
    pub version: Option<CompatVersion>,
    pub inner: Option<InnerReceipt>,
    pub journal: Vec<u8>,
    pub metadata: Option<ReceiptMetadata>,
}

/// Metadata attached to a receipt.
#[derive(Clone, Debug, PartialEq, Eq, Default)]
pub struct ReceiptMetadata {
    pub verifier_parameters: Option<Digest>,
}

/// The proof part of a receipt, in one of several forms.
#[derive(Debug, PartialEq, Eq, Default)]
pub struct InnerReceipt {
    pub kind: Option<inner_receipt::Kind>,
}

/// A receipt made of one receipt per segment, plus the receipts of its assumptions.
#[derive(Debug, PartialEq, Eq, Default)]
pub struct CompositeReceipt {
    pub segments: Vec<SegmentReceipt>,
    pub assumptions: Vec<InnerReceipt>,
    pub journal_digest: Option<Digest>,
}

/// A receipt for one segment of an execution.
#[derive(Clone, Debug, PartialEq, Eq, Default)]
pub struct SegmentReceipt {
    pub version: Option<CompatVersion>,
    pub seal: Vec<u8>,
    pub index: u32,
    pub hashfn: String,
    pub claim: Option<ReceiptClaim>,
}

/// A receipt produced by the recursion programs.
#[derive(Clone, Debug, PartialEq, Eq, Default)]
pub struct SuccinctReceipt {
    pub version: Option<CompatVersion>,
    pub seal: Vec<u8>,
    pub control_id: Option<Digest>,
    pub claim: Option<ReceiptClaim>,
}

/// A receipt whose seal is a Groth16 proof.
#[derive(Clone, Debug, PartialEq, Eq, Default)]
pub struct Groth16Receipt {
    pub version: Option<CompatVersion>,
    pub seal: Vec<u8>,
    pub claim: Option<ReceiptClaim>,
}

/// What a receipt attests to: the states before and after, the exit code,
/// the input and the output.
#[derive(Clone, Debug, PartialEq, Eq, Default)]
pub struct ReceiptClaim {
    /// MaybePruned<SystemState>
    pub pre: Option<MaybePruned>,
    /// MaybePruned<SystemState>
    pub post: Option<MaybePruned>,
    pub exit_code: Option<ExitCode>,
    /// Option<MaybePruned<Input>>
    pub input: Option<MaybePruned>,
    /// Option<MaybePruned<Output>>
    pub output: Option<MaybePruned>,
}

/// A value that is either present or replaced by its digest.
#[derive(Clone, Debug, PartialEq, Eq, Default)]
pub struct MaybePruned {
    pub kind: Option<maybe_pruned::Kind>,
}

/// A machine state: program counter and memory Merkle root.
#[derive(Clone, Debug, PartialEq, Eq, Default)]
pub struct SystemState {
    pub pc: u32,
    pub merkle_root: Option<Digest>,
}

/// The input of an execution (no fields yet).
#[derive(Clone, Debug, PartialEq, Eq, Default)]
pub struct Input {}

/// The output of an execution: its journal and its assumptions.
#[derive(Clone, Debug, PartialEq, Eq, Default)]
pub struct Output {
    /// MaybePruned<bytes>
    pub journal: Option<MaybePruned>,
    /// MaybePruned<Assumptions>
    pub assumptions: Option<MaybePruned>,
}

/// A claim that a conditional receipt relies upon.
#[derive(Clone, Debug, PartialEq, Eq, Default)]
pub struct Assumption {
    pub claim: Option<Digest>,
    pub control_root: Option<Digest>,
}

/// The list of assumptions of an execution.
#[derive(Clone, Debug, PartialEq, Eq, Default)]
pub struct Assumptions {
    /// MaybePruned<Assumption>
    pub inner: Vec<MaybePruned>,
}

/// A receipt that carries a claim and no proof.
#[derive(Clone, Debug, PartialEq, Eq, Default)]
pub struct FakeReceipt {
    pub claim: Option<ReceiptClaim>,
}

/// A digest as a list of 32-bit words.
#[derive(Clone, Debug, PartialEq, Eq, Default)]
pub struct Digest {
    pub words: Vec<u32>,
}

} // verus!
