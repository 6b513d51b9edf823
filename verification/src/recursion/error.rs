//! Why the recursion prover refuses a request, and the message that says so.

use vstd::prelude::*;

use super::digest::{digest_display, Digest};

verus! {

/// The ways in which preparing or finishing a recursion proof fails.
#[derive(Clone, Debug, PartialEq, Eq)]
pub enum RecursionError {
    /// A recursion program was asked to take a receipt whose hash function is not
    /// `poseidon2`: the program's name and the hash function received.
    UnsupportedHashFn { program: String, received: String },
    /// The hash function name is not one of the known hash suites.
    UnknownHashSuite { name: String },
    /// A Merkle group was given more leaves than its depth allows.
    TooManyLeaves,
    /// The digest asked for is not a leaf of the Merkle group.
    LeafNotFound,
    /// The control roots that two receipts lead to differ: the names of the two receipts
    /// and their roots.
    MerkleRootMismatch { first: String, second: String, first_root: Digest, second_root: Digest },
    /// No recursion program of that name is known.
    UnknownProgram { name: String },
    /// The segment seal is too short to hold its cycle count.
    SealTooShort,
    /// A word of the segment seal's output is not a reduced field element.
    InvalidSealWord,
    /// The segment's cycle count is outside the range that has rv32im control IDs.
    Po2OutOfRange,
    /// A digest cannot be handed to the hash function: Poseidon2 takes reduced BabyBear
    /// elements only, Poseidon254 canonical BN254 elements only.
    InvalidHashInput,
    /// Running the recursion program failed.
    ProofFailed,
    /// A claim cannot be written as words because a part of it is pruned.
    PrunedValue,
    /// The conditional receipt's output is pruned.
    OutputPruned,
    /// The conditional receipt has no output, hence no assumptions.
    OutputEmpty,
    /// The conditional receipt's assumptions are pruned.
    AssumptionsPruned,
    /// The resolve program was given a conditional receipt whose output is pruned.
    ResolvePrunedOutput,
    /// The resolve program was given a conditional receipt with no output.
    ResolveNoOutput,
    /// The resolve program was given a conditional receipt whose assumptions are pruned.
    ResolvePrunedAssumptions,
    /// The assumption list to resolve is empty.
    NoAssumptions,
    /// The head of the assumption list is not the assumption that was proven: the digest
    /// proven and the head's digest.
    AssumptionMismatch { resolved: Digest, head: Digest },
    /// The words written by a recursion program do not hold a claim.
    DecodeFailed,
    /// The claim a recursion program proved disagrees with the expected claim.
    ClaimMismatch,
}

/// The contents of a `RecursionError`, with strings and digests taken by their views.
pub enum ErrorView {
    UnsupportedHashFn { program: Seq<char>, received: Seq<char> },
    UnknownHashSuite { name: Seq<char> },
    TooManyLeaves,
    LeafNotFound,
    MerkleRootMismatch {
        first: Seq<char>,
        second: Seq<char>,
        first_root: Seq<u32>,
        second_root: Seq<u32>,
    },
    UnknownProgram { name: Seq<char> },
    SealTooShort,
    InvalidSealWord,
    Po2OutOfRange,
    InvalidHashInput,
    ProofFailed,
    PrunedValue,
    OutputPruned,
    OutputEmpty,
    AssumptionsPruned,
    ResolvePrunedOutput,
    ResolveNoOutput,
    ResolvePrunedAssumptions,
    NoAssumptions,
    AssumptionMismatch { resolved: Seq<u32>, head: Seq<u32> },
    DecodeFailed,
    ClaimMismatch,
}

impl View for RecursionError {
    type V = ErrorView;

    open spec fn view(&self) -> ErrorView {
        match self {
            RecursionError::UnsupportedHashFn { program, received } => ErrorView::UnsupportedHashFn {
                program: program@,
                received: received@,
            },
            RecursionError::UnknownHashSuite { name } => ErrorView::UnknownHashSuite { name: name@ },
            RecursionError::TooManyLeaves => ErrorView::TooManyLeaves,
            RecursionError::LeafNotFound => ErrorView::LeafNotFound,
            RecursionError::MerkleRootMismatch { first, second, first_root, second_root } =>
                ErrorView::MerkleRootMismatch {
                first: first@,
                second: second@,
                first_root: first_root@,
                second_root: second_root@,
            },
            RecursionError::UnknownProgram { name } => ErrorView::UnknownProgram { name: name@ },
            RecursionError::SealTooShort => ErrorView::SealTooShort,
            RecursionError::InvalidSealWord => ErrorView::InvalidSealWord,
            RecursionError::Po2OutOfRange => ErrorView::Po2OutOfRange,
            RecursionError::InvalidHashInput => ErrorView::InvalidHashInput,
            RecursionError::ProofFailed => ErrorView::ProofFailed,
            RecursionError::PrunedValue => ErrorView::PrunedValue,
            RecursionError::OutputPruned => ErrorView::OutputPruned,
            RecursionError::OutputEmpty => ErrorView::OutputEmpty,
            RecursionError::AssumptionsPruned => ErrorView::AssumptionsPruned,
            RecursionError::ResolvePrunedOutput => ErrorView::ResolvePrunedOutput,
            RecursionError::ResolveNoOutput => ErrorView::ResolveNoOutput,
            RecursionError::ResolvePrunedAssumptions => ErrorView::ResolvePrunedAssumptions,
            RecursionError::NoAssumptions => ErrorView::NoAssumptions,
            RecursionError::AssumptionMismatch { resolved, head } => ErrorView::AssumptionMismatch {
                resolved: resolved@,
                head: head@,
            },
            RecursionError::DecodeFailed => ErrorView::DecodeFailed,
            RecursionError::ClaimMismatch => ErrorView::ClaimMismatch,
        }
    }
}

/// The message that reports an error.
pub open spec fn error_message(e: ErrorView) -> Seq<char> {
    match e {
        ErrorView::UnsupportedHashFn { program, received } => program
            + " recursion program only supports poseidon2 hashfn; received "@ + received,
        ErrorView::UnknownHashSuite { name } => "unsupported hash function: "@ + name,
        ErrorView::TooManyLeaves => "too many leaves for the Merkle group"@,
        ErrorView::LeafNotFound => "leaf not found in the Merkle group"@,
        ErrorView::MerkleRootMismatch { first, second, first_root, second_root } => "merkle roots for "@
            + first + " and "@ + second + " do not match: "@ + digest_display(first_root) + " != "@
            + digest_display(second_root),
        ErrorView::UnknownProgram { name } => "unknown recursion program: "@ + name,
        ErrorView::SealTooShort => "segment seal is too short"@,
        ErrorView::InvalidSealWord => "segment seal output holds an invalid field element"@,
        ErrorView::Po2OutOfRange => "segment cycle count has no rv32im control ID"@,
        ErrorView::InvalidHashInput => "digest cannot be hashed by the hash function"@,
        ErrorView::ProofFailed => "recursion proof failed"@,
        ErrorView::PrunedValue => "value is pruned"@,
        ErrorView::OutputPruned => "conditional receipt output is pruned"@,
        ErrorView::OutputEmpty => "conditional receipt has empty output and no assumptions"@,
        ErrorView::AssumptionsPruned => "conditional receipt assumptions are pruned"@,
        ErrorView::ResolvePrunedOutput => "cannot resolve conditional receipt with pruned output"@,
        ErrorView::ResolveNoOutput => "cannot resolve conditional receipt with no output"@,
        ErrorView::ResolvePrunedAssumptions => "cannot resolve conditional receipt with pruned assumptions"@,
        ErrorView::NoAssumptions => "cannot resolve assumption from empty list"@,
        ErrorView::AssumptionMismatch { resolved, head } => "resolved assumption is not equal to the head of the list: "@
            + digest_display(resolved) + " != "@ + digest_display(head),
        ErrorView::DecodeFailed => "recursion output does not hold a receipt claim"@,
        ErrorView::ClaimMismatch => "proven claim disagrees with the expected claim"@,
    }
}

/// The concatenation of two strings.
fn join2(a: &str, b: &str) -> (r: String)
    ensures
        r@ == a@ + b@,
{
    let mut s = a.to_owned();
    s.append(b);
    s
}

/// The concatenation of three strings.
fn join3(a: &str, b: &str, c: &str) -> (r: String)
    ensures
        r@ == a@ + b@ + c@,
{
    let mut s = a.to_owned();
    s.append(b);
    s.append(c);
    s
}

impl RecursionError {
    /// The message that reports this error.
    pub fn message(&self) -> (s: String)
        ensures
            s@ == error_message(self@),
    {
        match self {
            RecursionError::UnsupportedHashFn { program, received } => join3(
                program.as_str(),
                " recursion program only supports poseidon2 hashfn; received ",
                received.as_str(),
            ),
            RecursionError::UnknownHashSuite { name } => join2("unsupported hash function: ", name.as_str()),
            RecursionError::TooManyLeaves => "too many leaves for the Merkle group".to_owned(),
            RecursionError::LeafNotFound => "leaf not found in the Merkle group".to_owned(),
            RecursionError::MerkleRootMismatch { first, second, first_root, second_root } => {
                let mut s = join3("merkle roots for ", first.as_str(), " and ");
                let rest = join3(second.as_str(), " do not match: ", first_root.to_hex().as_str());
                s.append(rest.as_str());
                let tail = join2(" != ", second_root.to_hex().as_str());
                s.append(tail.as_str());
                assert(s@ =~= error_message(self@));
                s
            },
            RecursionError::UnknownProgram { name } => join2("unknown recursion program: ", name.as_str()),
            RecursionError::SealTooShort => "segment seal is too short".to_owned(),
            RecursionError::InvalidSealWord => "segment seal output holds an invalid field element".to_owned(),
            RecursionError::Po2OutOfRange => "segment cycle count has no rv32im control ID".to_owned(),
            RecursionError::InvalidHashInput => "digest cannot be hashed by the hash function".to_owned(),
            RecursionError::ProofFailed => "recursion proof failed".to_owned(),
            RecursionError::PrunedValue => "value is pruned".to_owned(),
            RecursionError::OutputPruned => "conditional receipt output is pruned".to_owned(),
            RecursionError::OutputEmpty => "conditional receipt has empty output and no assumptions".to_owned(),
            RecursionError::AssumptionsPruned => "conditional receipt assumptions are pruned".to_owned(),
            RecursionError::ResolvePrunedOutput => "cannot resolve conditional receipt with pruned output".to_owned(),
            RecursionError::ResolveNoOutput => "cannot resolve conditional receipt with no output".to_owned(),
            RecursionError::ResolvePrunedAssumptions => "cannot resolve conditional receipt with pruned assumptions".to_owned(),
            RecursionError::NoAssumptions => "cannot resolve assumption from empty list".to_owned(),
            RecursionError::AssumptionMismatch { resolved, head } => {
                let mut s = join3(
                    "resolved assumption is not equal to the head of the list: ",
                    resolved.to_hex().as_str(),
                    " != ",
                );
                s.append(head.to_hex().as_str());
                assert(s@ =~= error_message(self@));
                s
            },
            RecursionError::DecodeFailed => "recursion output does not hold a receipt claim".to_owned(),
            RecursionError::ClaimMismatch => "proven claim disagrees with the expected claim".to_owned(),
        }
    }
}

} // verus!
