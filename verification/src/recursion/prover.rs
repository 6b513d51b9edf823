//! The recursion prover: it loads a recursion program and writes the program's input
//! tape (digests, seals, inclusion proofs and claims of the receipts it verifies).

use vstd::prelude::*;

use super::control_id::{
    min_cycles_po2, zk_cycles, rv32im_control_id, rv32im_control_ids_len, rv32im_output_size,
    rv32im_poseidon2_control_id, zkr_lookup,
};
use super::digest::{digest_is_reduced, Digest};
use super::claim::{claim_digest, claim_words, push_halves, resolution, resolve_claim, split_halves};
use super::error::{ErrorView, RecursionError};
use super::field::{is_reduced_word, montgomery_encode, montgomery_form, BABY_BEAR_P};
use super::hash::{hash_suite_from_name, lemma_poseidon2_suite, str_equals, HashSuite};
use super::merkle::{
    all_accepted, digests_accepted, digests_view, lemma_inclusion_proof_verifies, lemma_pow2_at_most_256, path_root,
    proof_path, subtree_root, MerkleGroup, MerkleProof,
};
use super::program::{
    identity_program, join_program, lift_program, lift_program_name, resolve_program,
    test_recursion_circuit_program, Program, ProverOpts,
};
use super::receipt::{SegmentReceipt, SuccinctReceipt};

verus! {

/// Number of rows of the recursion circuit's witness, as a power of two.
pub const RECURSION_PO2: usize = 18;

/// The number of cycles that a recursion program may use: the rows of the witness less
/// those reserved for zero-knowledge randomness.
pub open spec fn usable_cycles() -> int {
    262144 - 594
}

/// How a digest is written to the input tape of a recursion program.
#[derive(Clone, Copy, Debug, PartialEq, Eq)]
pub enum DigestKind {
    /// Poseidon2 digests are made of BabyBear elements and are written word for word.
    Poseidon2,
    /// SHA-256 words may exceed the field, so each is split into its low and high 16 bits.
    Sha256,
}

/// Each word encoded as a BabyBear element, in Montgomery form.
pub open spec fn encoded_words(ws: Seq<u32>) -> Seq<u32> {
    Seq::new(ws.len(), |i: int| montgomery_form(ws[i]) as u32)
}

/// The words that a digest of the given kind adds to the input tape.
pub open spec fn digest_input(d: Seq<u32>, kind: DigestKind) -> Seq<u32> {
    match kind {
        DigestKind::Poseidon2 => d,
        DigestKind::Sha256 => encoded_words(split_halves(d)),
    }
}

/// The words of a list of digests, one digest after the other.
pub open spec fn flatten(ds: Seq<Seq<u32>>) -> Seq<u32>
    decreases ds.len(),
{
    if ds.len() == 0 {
        Seq::empty()
    } else {
        flatten(ds.drop_last()) + ds.last()
    }
}

/// The words that a seal and the inclusion proof of its control ID add to the input
/// tape: the seal, the proof's index as a field element, then the proof's digests.
pub open spec fn seal_input(seal: Seq<u32>, index: u32, digests: Seq<Seq<u32>>) -> Seq<u32> {
    seal + seq![montgomery_form(index) as u32] + flatten(digests)
}

/// The receipt's claim can be written as words: its states are not pruned.
pub open spec fn receipt_encodable(a: SuccinctReceipt) -> bool {
    claim_words(a.claim@) is Some
}

/// The words that a succinct receipt adds to the input tape: its seal with its inclusion
/// proof, then its claim's words as field elements.
pub open spec fn segment_input(a: SuccinctReceipt) -> Seq<u32> {
    seal_input(
        a.seal@,
        a.control_inclusion_proof.index,
        digests_view(a.control_inclusion_proof.digests@),
    ) + encoded_words(claim_words(a.claim@).unwrap())
}

/// Prover for the recursion circuit.
#[derive(Clone, Debug)]
pub struct Prover {
    pub program: Program,
    pub control_id: Digest,
    pub opts: ProverOpts,
    pub input: Vec<u32>,
    pub split_points: Vec<usize>,
    pub output: Vec<u32>,
}

/// Two provers that differ at most in their input tapes.
pub open spec fn same_but_input(a: Prover, b: Prover) -> bool {
    &&& a.program == b.program
    &&& a.control_id == b.control_id
    &&& a.opts == b.opts
    &&& a.split_points == b.split_points
    &&& a.output == b.output
}

impl Prover {
    /// A prover for `program`, with an empty input tape.
    pub fn new(program: Program, control_id: Digest, opts: ProverOpts) -> (p: Prover)
        ensures
            p.program == program,
            p.control_id == control_id,
            p.opts == opts,
            p.input@ == Seq::<u32>::empty(),
            p.split_points@ == Seq::<usize>::empty(),
            p.output@ == Seq::<u32>::empty(),
    {
        Prover {
            program,
            control_id,
            opts,
            input: Vec::new(),
            split_points: Vec::new(),
            output: Vec::new(),
        }
    }

    /// Appends words to the input tape.
    pub fn add_input(&mut self, input: &[u32])
        ensures
            final(self).input@ == old(self).input@ + input@,
            same_but_input(*final(self), *old(self)),
    {
        let mut i: usize = 0;
        while i < input.len()
            invariant
                0 <= i <= input@.len(),
                self.input@ == old(self).input@ + input@.subrange(0, i as int),
                same_but_input(*self, *old(self)),
            decreases input@.len() - i,
        {
            self.input.push(input[i]);
            assert(input@.subrange(0, i + 1) =~= input@.subrange(0, i as int).push(input@[i as int]));
            i = i + 1;
        }
        assert(input@.subrange(0, i as int) =~= input@);
    }

    /// Appends words to the input tape as BabyBear elements in Montgomery form.
    pub fn add_input_elems(&mut self, words: &[u32])
        ensures
            final(self).input@ == old(self).input@ + encoded_words(words@),
            same_but_input(*final(self), *old(self)),
    {
        let mut elems: Vec<u32> = Vec::new();
        let mut i: usize = 0;
        while i < words.len()
            invariant
                0 <= i <= words@.len(),
                elems@ == encoded_words(words@.subrange(0, i as int)),
            decreases words@.len() - i,
        {
            elems.push(montgomery_encode(words[i]));
            assert(encoded_words(words@.subrange(0, i + 1)) =~= encoded_words(
                words@.subrange(0, i as int),
            ).push(montgomery_form(words@[i as int]) as u32));
            i = i + 1;
        }
        assert(words@.subrange(0, i as int) =~= words@);
        self.add_input(elems.as_slice());
    }

    /// Adds a digest to the input tape, in the form that its kind calls for.
    pub fn add_input_digest(&mut self, digest: &Digest, kind: DigestKind)
        ensures
            final(self).input@ == old(self).input@ + digest_input(digest@, kind),
            same_but_input(*final(self), *old(self)),
    {
        match kind {
            DigestKind::Poseidon2 => self.add_input(digest.as_words()),
            DigestKind::Sha256 => {
                let mut halves: Vec<u32> = Vec::new();
                push_halves(&mut halves, digest);
                assert(halves@ =~= split_halves(digest@));
                self.add_input_elems(halves.as_slice());
            },
        }
    }

    /// Adds a recursion seal (a STARK proof) to the input tape, followed by the inclusion
    /// proof of its control ID: the proof's index as a field element and its digests.
    pub fn add_seal(&mut self, seal: &[u32], control_id: &Digest, control_inclusion_proof: &MerkleProof)
        ensures
            final(self).input@ == old(self).input@ + seal_input(
                seal@,
                control_inclusion_proof.index,
                digests_view(control_inclusion_proof.digests@),
            ),
            same_but_input(*final(self), *old(self)),
    {
        self.add_input(seal);
        let index_elem = montgomery_encode(control_inclusion_proof.index);
        let one = [index_elem];
        self.add_input(one.as_slice());
        assert(one@ =~= seq![montgomery_form(control_inclusion_proof.index) as u32]);
        let ghost ds = digests_view(control_inclusion_proof.digests@);
        let ghost start = self.input@;
        let mut k: usize = 0;
        while k < control_inclusion_proof.digests.len()
            invariant
                0 <= k <= control_inclusion_proof.digests@.len(),
                ds == digests_view(control_inclusion_proof.digests@),
                self.input@ == start + flatten(ds.subrange(0, k as int)),
                same_but_input(*self, *old(self)),
            decreases control_inclusion_proof.digests@.len() - k,
        {
            self.add_input_digest(&control_inclusion_proof.digests[k], DigestKind::Poseidon2);
            assert(ds.subrange(0, k + 1).drop_last() =~= ds.subrange(0, k as int));
            assert(self.input@ =~= start + flatten(ds.subrange(0, k + 1)));
            k = k + 1;
        }
        assert(ds.subrange(0, k as int) =~= ds);
        assert(self.input@ =~= old(self).input@ + seal_input(
            seal@,
            control_inclusion_proof.index,
            ds,
        ));
    }

    /// Adds a succinct receipt to the input tape: its seal with the inclusion proof of its
    /// control ID, then the words of its claim as field elements. Refused when the claim
    /// cannot be written as words; the seal and the inclusion proof are on the tape then.
    pub fn add_segment_receipt(&mut self, a: &SuccinctReceipt) -> (r: Result<(), RecursionError>)
        ensures
            r is Ok <==> receipt_encodable(*a),
            r matches Err(e) ==> e == RecursionError::PrunedValue && final(self).input@ == old(self).input@
                + seal_input(
                a.seal@,
                a.control_inclusion_proof.index,
                digests_view(a.control_inclusion_proof.digests@),
            ),
            r is Ok ==> final(self).input@ == old(self).input@ + segment_input(*a),
            same_but_input(*final(self), *old(self)),
    {
        self.add_seal(a.seal.as_slice(), &a.control_id, &a.control_inclusion_proof);
        let words = a.claim.encode()?;
        self.add_input_elems(words.as_slice());
        assert(self.input@ =~= old(self).input@ + segment_input(*a));
        Ok(())
    }
}

/// Whether a hash function name is `poseidon2`, the only one the recursion programs take.
pub open spec fn is_poseidon2(name: Seq<char>) -> bool {
    name == "poseidon2"@
}

/// Whether `name` is `poseidon2`.
pub fn name_is_poseidon2(name: &String) -> (r: bool)
    ensures
        r == is_poseidon2(name@),
{
    str_equals(name.as_str(), "poseidon2")
}

/// The receipt's control ID and inclusion proof can be hashed with Poseidon2.
pub open spec fn receipt_hashable(a: SuccinctReceipt) -> bool {
    &&& digest_is_reduced(a.control_id@)
    &&& all_accepted(HashSuite::Poseidon2, digests_view(a.control_inclusion_proof.digests@))
}

/// The control root that a receipt's inclusion proof leads to from its control ID.
pub open spec fn receipt_root(a: SuccinctReceipt) -> Seq<u32> {
    path_root(
        HashSuite::Poseidon2,
        a.control_id@,
        a.control_inclusion_proof.index as int,
        digests_view(a.control_inclusion_proof.digests@),
    )
}

/// The control root of a receipt, computed with Poseidon2; refused when its digests are
/// not made of reduced field elements.
pub fn control_root(a: &SuccinctReceipt) -> (r: Result<Digest, RecursionError>)
    ensures
        r is Ok <==> receipt_hashable(*a),
        r matches Ok(d) ==> d@ == receipt_root(*a),
        r matches Err(e) ==> e == RecursionError::InvalidHashInput,
{
    if !a.control_id.is_reduced() || !digests_accepted(HashSuite::Poseidon2, &a.control_inclusion_proof.digests) {
        return Err(RecursionError::InvalidHashInput);
    }
    Ok(a.control_inclusion_proof.root(&a.control_id, HashSuite::Poseidon2))
}

/// The prover holds the program of the given name, its control ID and the options, and
/// has no split points or output yet.
pub open spec fn loaded(p: Prover, name: Seq<char>, opts: ProverOpts) -> bool {
    &&& p.program.name@ == name
    &&& Some(p.control_id@) == zkr_lookup(name)
    &&& p.opts == opts
    &&& p.split_points@ == Seq::<usize>::empty()
    &&& p.output@ == Seq::<u32>::empty()
}

/// The refusal of a receipt whose hash function is not `poseidon2` by the named program.
pub open spec fn unsupported(program: Seq<char>, received: Seq<char>) -> ErrorView {
    ErrorView::UnsupportedHashFn { program, received }
}

/// Why the join program refuses two receipts, if it does.
pub open spec fn join_error(a: SuccinctReceipt, b: SuccinctReceipt) -> Option<ErrorView> {
    if !is_poseidon2(a.hashfn@) {
        Some(unsupported("join"@, a.hashfn@))
    } else if !is_poseidon2(b.hashfn@) {
        Some(unsupported("join"@, b.hashfn@))
    } else if zkr_lookup("join.zkr"@) is None {
        Some(ErrorView::UnknownProgram { name: "join.zkr"@ })
    } else if !receipt_hashable(a) || !receipt_hashable(b) {
        Some(ErrorView::InvalidHashInput)
    } else if receipt_root(a) != receipt_root(b) {
        Some(
            ErrorView::MerkleRootMismatch {
                first: "a"@,
                second: "b"@,
                first_root: receipt_root(a),
                second_root: receipt_root(b),
            },
        )
    } else if !receipt_encodable(a) || !receipt_encodable(b) {
        Some(ErrorView::PrunedValue)
    } else {
        None
    }
}

/// How the resolve program reports a conditional claim that cannot be resolved.
pub open spec fn resolve_refusal(e: ErrorView) -> ErrorView {
    match e {
        ErrorView::OutputPruned => ErrorView::ResolvePrunedOutput,
        ErrorView::OutputEmpty => ErrorView::ResolveNoOutput,
        ErrorView::AssumptionsPruned => ErrorView::ResolvePrunedAssumptions,
        _ => e,
    }
}

/// Why the resolve program refuses a conditional receipt and an assumption receipt, if it
/// does: besides the checks on the receipts themselves, the conditional claim's head
/// assumption must be resolvable by the assumption's claim.
pub open spec fn resolve_error(cond: SuccinctReceipt, assum: SuccinctReceipt) -> Option<ErrorView> {
    if !is_poseidon2(cond.hashfn@) {
        Some(unsupported("resolve"@, cond.hashfn@))
    } else if !is_poseidon2(assum.hashfn@) {
        Some(unsupported("resolve"@, assum.hashfn@))
    } else if zkr_lookup("resolve.zkr"@) is None {
        Some(ErrorView::UnknownProgram { name: "resolve.zkr"@ })
    } else if !receipt_hashable(assum) || !receipt_hashable(cond) {
        Some(ErrorView::InvalidHashInput)
    } else if receipt_root(assum) != receipt_root(cond) {
        Some(
            ErrorView::MerkleRootMismatch {
                first: "cond"@,
                second: "assum"@,
                first_root: receipt_root(cond),
                second_root: receipt_root(assum),
            },
        )
    } else if !receipt_encodable(cond) || !receipt_encodable(assum) {
        Some(ErrorView::PrunedValue)
    } else {
        match resolution(cond.claim@, claim_digest(assum.claim@)) {
            Err(e) => Some(resolve_refusal(e)),
            Ok(_) => None,
        }
    }
}

/// The input tape of the resolve program for two receipts that it accepts: the control
/// root, both receipts, then, as SHA-256 digests, the digest of the assumptions left once
/// the head is resolved and the digest of the journal.
pub open spec fn resolve_input(cond: SuccinctReceipt, assum: SuccinctReceipt) -> Seq<u32> {
    let (_, tail, journal) = resolution(cond.claim@, claim_digest(assum.claim@))->Ok_0;
    receipt_root(cond) + segment_input(cond) + segment_input(assum) + digest_input(tail, DigestKind::Sha256)
        + digest_input(journal, DigestKind::Sha256)
}

/// Why the identity program refuses a receipt, if it does.
pub open spec fn identity_error(a: SuccinctReceipt) -> Option<ErrorView> {
    if !is_poseidon2(a.hashfn@) {
        Some(unsupported("identity"@, a.hashfn@))
    } else if zkr_lookup("identity.zkr"@) is None {
        Some(ErrorView::UnknownProgram { name: "identity.zkr"@ })
    } else if !receipt_hashable(a) {
        Some(ErrorView::InvalidHashInput)
    } else if !receipt_encodable(a) {
        Some(ErrorView::PrunedValue)
    } else {
        None
    }
}

/// The refusal of a conditional claim by the resolve program.
fn resolve_refusal_of(e: RecursionError) -> (r: RecursionError)
    ensures
        r@ == resolve_refusal(e@),
{
    match e {
        RecursionError::OutputPruned => RecursionError::ResolvePrunedOutput,
        RecursionError::OutputEmpty => RecursionError::ResolveNoOutput,
        RecursionError::AssumptionsPruned => RecursionError::ResolvePrunedAssumptions,
        other => other,
    }
}

/// The refusal of a receipt whose hash function is not `poseidon2` by the named program.
fn unsupported_hashfn(program: &str, received: &String) -> (e: RecursionError)
    ensures
        e@ == unsupported(program@, received@),
{
    RecursionError::UnsupportedHashFn { program: program.to_owned(), received: received.clone() }
}

impl Prover {
    /// A prover for the program that tests the recursion circuit, with the two digests
    /// on its input tape.
    pub fn new_test_recursion_circuit(digests: [&Digest; 2], opts: ProverOpts) -> (r: Result<Prover, RecursionError>)
        ensures
            r is Ok <==> zkr_lookup("test_recursion_circuit.zkr"@) is Some,
            r matches Err(e) ==> e@ == (ErrorView::UnknownProgram { name: "test_recursion_circuit.zkr"@ }),
            r matches Ok(p) ==> {
                &&& loaded(p, "test_recursion_circuit.zkr"@, opts)
                &&& p.input@ == digests[0]@ + digests[1]@
            },
    {
        let (program, control_id) = test_recursion_circuit_program()?;
        let mut prover = Prover::new(program, control_id, opts);
        prover.add_input_digest(digests[0], DigestKind::Poseidon2);
        prover.add_input_digest(digests[1], DigestKind::Poseidon2);
        Ok(prover)
    }

    /// A prover for the join program, which compresses two receipts of one session into
    /// one. Both receipts must use Poseidon2 and lead to the same control root; the
    /// input tape holds that root, then each receipt with its claim's words.
    pub fn new_join(a: &SuccinctReceipt, b: &SuccinctReceipt, opts: ProverOpts) -> (r: Result<Prover, RecursionError>)
        ensures
            r is Err <==> join_error(*a, *b) is Some,
            r matches Err(e) ==> join_error(*a, *b) == Some(e@),
            r matches Ok(p) ==> {
                &&& loaded(p, "join.zkr"@, opts)
                &&& p.input@ == receipt_root(*a) + segment_input(*a) + segment_input(*b)
            },
    {
        if !name_is_poseidon2(&a.hashfn) {
            return Err(unsupported_hashfn("join", &a.hashfn));
        }
        if !name_is_poseidon2(&b.hashfn) {
            return Err(unsupported_hashfn("join", &b.hashfn));
        }
        let (program, control_id) = join_program()?;
        let mut prover = Prover::new(program, control_id, opts);
        proof {
            lemma_poseidon2_suite();
        }
        if hash_suite_from_name(a.hashfn.as_str()).is_none() {
            return Err(RecursionError::UnknownHashSuite { name: a.hashfn.clone() });
        }
        let root_a = control_root(a);
        let root_b = control_root(b);
        let (root_a, root_b) = match (root_a, root_b) {
            (Ok(x), Ok(y)) => (x, y),
            _ => return Err(RecursionError::InvalidHashInput),
        };
        if !root_a.equals(&root_b) {
            return Err(
                RecursionError::MerkleRootMismatch {
                    first: "a".to_owned(),
                    second: "b".to_owned(),
                    first_root: root_a,
                    second_root: root_b,
                },
            );
        }
        prover.add_input_digest(&root_a, DigestKind::Poseidon2);
        prover.add_segment_receipt(a)?;
        prover.add_segment_receipt(b)?;
        Ok(prover)
    }

    /// A prover for the resolve program, which removes an assumption from a conditional
    /// receipt upon verifying a receipt for the assumption. Both receipts must use
    /// Poseidon2 and lead to the same control root, and the head of the conditional
    /// claim's assumptions must be the assumption's claim. Besides the root and the two
    /// receipts with their claims' words, the input tape holds, as SHA-256 digests, the
    /// digest of the assumptions left once the head is removed and the digest of the
    /// journal.
    pub fn new_resolve(cond: &SuccinctReceipt, assum: &SuccinctReceipt, opts: ProverOpts) -> (r: Result<Prover, RecursionError>)
        ensures
            r is Err <==> resolve_error(*cond, *assum) is Some,
            r matches Err(e) ==> resolve_error(*cond, *assum) == Some(e@),
            r matches Ok(p) ==> {
                &&& loaded(p, "resolve.zkr"@, opts)
                &&& p.input@ == resolve_input(*cond, *assum)
            },
    {
        if !name_is_poseidon2(&cond.hashfn) {
            return Err(unsupported_hashfn("resolve", &cond.hashfn));
        }
        if !name_is_poseidon2(&assum.hashfn) {
            return Err(unsupported_hashfn("resolve", &assum.hashfn));
        }
        let (program, control_id) = resolve_program()?;
        let mut prover = Prover::new(program, control_id, opts);
        proof {
            lemma_poseidon2_suite();
        }
        if hash_suite_from_name(assum.hashfn.as_str()).is_none() {
            return Err(RecursionError::UnknownHashSuite { name: assum.hashfn.clone() });
        }
        let root_assum = control_root(assum);
        let root_cond = control_root(cond);
        let (root_assum, root_cond) = match (root_assum, root_cond) {
            (Ok(x), Ok(y)) => (x, y),
            _ => return Err(RecursionError::InvalidHashInput),
        };
        if !root_assum.equals(&root_cond) {
            return Err(
                RecursionError::MerkleRootMismatch {
                    first: "cond".to_owned(),
                    second: "assum".to_owned(),
                    first_root: root_cond,
                    second_root: root_assum,
                },
            );
        }
        prover.add_input_digest(&root_cond, DigestKind::Poseidon2);
        prover.add_segment_receipt(cond)?;
        prover.add_segment_receipt(assum)?;
        let resolved = assum.claim.digest();
        let (tail, journal) = match resolve_claim(&cond.claim, &resolved) {
            Ok((_, tail, journal)) => (tail, journal),
            Err(e) => return Err(resolve_refusal_of(e)),
        };
        prover.add_input_digest(&tail, DigestKind::Sha256);
        prover.add_input_digest(&journal, DigestKind::Sha256);
        Ok(prover)
    }

    /// A prover for the identity program, which proves a receipt again without changing
    /// its claim. The receipt must use Poseidon2; the input tape holds its control root,
    /// then the receipt with its claim's words.
    pub fn new_identity(a: &SuccinctReceipt, opts: ProverOpts) -> (r: Result<Prover, RecursionError>)
        ensures
            r is Err <==> identity_error(*a) is Some,
            r matches Err(e) ==> identity_error(*a) == Some(e@),
            r matches Ok(p) ==> {
                &&& loaded(p, "identity.zkr"@, opts)
                &&& p.input@ == receipt_root(*a) + segment_input(*a)
            },
    {
        if !name_is_poseidon2(&a.hashfn) {
            return Err(unsupported_hashfn("identity", &a.hashfn));
        }
        let (program, control_id) = identity_program()?;
        let mut prover = Prover::new(program, control_id, opts);
        proof {
            lemma_poseidon2_suite();
        }
        if hash_suite_from_name(a.hashfn.as_str()).is_none() {
            return Err(RecursionError::UnknownHashSuite { name: a.hashfn.clone() });
        }
        let root = control_root(a)?;
        prover.add_input_digest(&root, DigestKind::Poseidon2);
        prover.add_segment_receipt(a)?;
        Ok(prover)
    }
}

/// The number of output words at the start of an rv32im seal; the word after them is the
/// segment's cycle count as a power of two.
pub open spec fn seal_po2(seal: Seq<u32>) -> u32 {
    seal[138]
}

/// Why the lift program refuses a segment receipt, if it does.
pub open spec fn lift_error(segment: SegmentReceipt, leaves: Seq<Seq<u32>>) -> Option<ErrorView> {
    let seal = segment.seal@;
    if !is_poseidon2(segment.hashfn@) {
        Some(unsupported("lift"@, segment.hashfn@))
    } else if leaves.len() > 256 {
        Some(ErrorView::TooManyLeaves)
    } else if !all_accepted(HashSuite::Poseidon2, leaves) {
        Some(ErrorView::InvalidHashInput)
    } else if seal.len() <= 138 {
        Some(ErrorView::SealTooShort)
    } else if exists|i: int| 0 <= i < 138 && !is_reduced_word(#[trigger] seal[i]) {
        Some(ErrorView::InvalidSealWord)
    } else if zkr_lookup(lift_program_name(seal_po2(seal) as nat)) is None {
        Some(ErrorView::UnknownProgram { name: lift_program_name(seal_po2(seal) as nat) })
    } else if seal_po2(seal) < 13 || seal_po2(seal) - 13 >= 11 {
        Some(ErrorView::Po2OutOfRange)
    } else if !leaves.contains(rv32im_poseidon2_control_id(seal_po2(seal) - 13)) {
        Some(ErrorView::LeafNotFound)
    } else {
        None
    }
}

/// The input tape of the lift program for a segment that it accepts: the root of the
/// allowed control IDs, then the segment's seal with the inclusion proof of the rv32im
/// control ID for the segment's cycle count.
pub open spec fn lift_input(segment: SegmentReceipt, leaves: Seq<Seq<u32>>) -> Seq<u32> {
    let inner = rv32im_poseidon2_control_id(seal_po2(segment.seal@) - 13);
    let idx = leaves.index_of_first(inner).unwrap();
    subtree_root(HashSuite::Poseidon2, leaves, 8, 0) + seal_input(
        segment.seal@,
        idx as u32,
        proof_path(HashSuite::Poseidon2, leaves, 0, idx, 8),
    )
}

/// Whether the first `n` words of the seal are reduced field elements.
fn words_reduced(seal: &Vec<u32>, n: usize) -> (r: bool)
    requires
        n <= seal@.len(),
    ensures
        r == forall|i: int| 0 <= i < n ==> is_reduced_word(#[trigger] seal@[i]),
{
    let mut i: usize = 0;
    while i < n
        invariant
            0 <= i <= n <= seal@.len(),
            forall|j: int| 0 <= j < i ==> is_reduced_word(#[trigger] seal@[j]),
        decreases n - i,
    {
        if seal[i] >= BABY_BEAR_P {
            return false;
        }
        i = i + 1;
    }
    true
}

impl Prover {
    /// A prover for the lift program, which verifies an rv32im segment receipt inside
    /// the recursion circuit. The segment must use Poseidon2; its seal's cycle count
    /// selects the lift program and the rv32im control ID, which must be among the
    /// allowed control IDs. The input tape holds the root of the allowed control IDs,
    /// then the segment's seal with the inclusion proof of that rv32im control ID.
    pub fn new_lift(segment: &SegmentReceipt, opts: ProverOpts) -> (r: Result<Prover, RecursionError>)
        ensures
            r is Err <==> lift_error(*segment, digests_view(opts.control_ids@)) is Some,
            r matches Err(e) ==> lift_error(*segment, digests_view(opts.control_ids@)) == Some(e@),
            r matches Ok(p) ==> {
                &&& loaded(p, lift_program_name(seal_po2(segment.seal@) as nat), opts)
                &&& p.input@ == lift_input(*segment, digests_view(opts.control_ids@))
            },
    {
        if !name_is_poseidon2(&segment.hashfn) {
            return Err(unsupported_hashfn("lift", &segment.hashfn));
        }
        proof {
            lemma_poseidon2_suite();
        }
        let suite = match hash_suite_from_name(segment.hashfn.as_str()) {
            Some(s) => s,
            None => return Err(RecursionError::UnknownHashSuite { name: segment.hashfn.clone() }),
        };
        let allowed_ids = MerkleGroup::new(opts.control_ids.clone())?;
        assert(allowed_ids.leaves@ =~= opts.control_ids@);
        if !digests_accepted(suite, &allowed_ids.leaves) {
            return Err(RecursionError::InvalidHashInput);
        }
        let merkle_root = allowed_ids.calc_root(suite);

        // The cycle count follows the circuit's output words at the start of the seal.
        let output_size = rv32im_output_size();
        if segment.seal.len() <= output_size {
            return Err(RecursionError::SealTooShort);
        }
        if !words_reduced(&segment.seal, output_size) {
            return Err(RecursionError::InvalidSealWord);
        }
        let po2_word = segment.seal[output_size];
        let po2 = po2_word as usize;

        let (program, control_id) = lift_program(po2)?;
        let mut prover = Prover::new(program, control_id, opts);
        prover.add_input_digest(&merkle_root, DigestKind::Poseidon2);

        let min_po2 = min_cycles_po2();
        if po2 < min_po2 || po2 - min_po2 >= rv32im_control_ids_len() {
            return Err(RecursionError::Po2OutOfRange);
        }
        let which = po2 - min_po2;
        let inner_control_id = rv32im_control_id(which);
        let proof = allowed_ids.get_proof(&inner_control_id, suite)?;
        prover.add_seal(segment.seal.as_slice(), &inner_control_id, &proof);
        Ok(prover)
    }
}

impl Prover {
    /// Records what the preflight pass over the program found: the cycles at which the
    /// execution is split, followed by the end of the usable cycles, and the words the
    /// program writes to its output.
    pub fn record_preflight(&mut self, split_points: Vec<usize>, output: Vec<u32>)
        ensures
            final(self).split_points@ == split_points@.push(usable_cycles() as usize),
            final(self).output@ == output@,
            final(self).program == old(self).program,
            final(self).control_id == old(self).control_id,
            final(self).opts == old(self).opts,
            final(self).input == old(self).input,
    {
        assert(1usize << 18usize == 262144usize) by (bit_vector);
        let rows: usize = 1usize << RECURSION_PO2;
        let cycles: usize = rows - zk_cycles();
        self.split_points = split_points;
        self.split_points.push(cycles);
        self.output = output;
    }
}

/// Law: splitting a word into its low and high 16 bits loses nothing, and both halves are
/// reduced field elements, so their Montgomery forms stand for the halves exactly.
pub proof fn lemma_split_halves_exact(ws: Seq<u32>)
    ensures
        split_halves(ws).len() == 2 * ws.len(),
        forall|i: int|
            0 <= i < ws.len() ==> {
                &&& split_halves(ws)[2 * i] < 0x10000
                &&& split_halves(ws)[2 * i + 1] < 0x10000
                &&& split_halves(ws)[2 * i] + 0x10000 * split_halves(ws)[2 * i + 1] == #[trigger] ws[i]
                &&& is_reduced_word(split_halves(ws)[2 * i])
                &&& is_reduced_word(split_halves(ws)[2 * i + 1])
            },
{
    assert forall|i: int| 0 <= i < ws.len() implies {
        &&& split_halves(ws)[2 * i] < 0x10000
        &&& split_halves(ws)[2 * i + 1] < 0x10000
        &&& split_halves(ws)[2 * i] + 0x10000 * split_halves(ws)[2 * i + 1] == #[trigger] ws[i]
        &&& is_reduced_word(split_halves(ws)[2 * i])
        &&& is_reduced_word(split_halves(ws)[2 * i + 1])
    } by {
        let w = ws[i];
        assert((2 * i) / 2 == i && (2 * i) % 2 == 0);
        assert((2 * i + 1) / 2 == i && (2 * i + 1) % 2 == 1);
        assert(split_halves(ws)[2 * i] == w & 0xffffu32);
        assert(split_halves(ws)[2 * i + 1] == w >> 16u32);
        assert((w & 0xffffu32) < 0x10000u32 && (w >> 16u32) < 0x10000u32 && (w & 0xffffu32) + 0x10000u32 * (w >> 16u32) == w) by (bit_vector);
    }
}

/// Law: the input tape of the lift program starts with the root of the allowed control
/// IDs, and the inclusion proof that follows the seal leads from the rv32im control ID of
/// the segment's cycle count to exactly that root.
pub proof fn lemma_lift_input_proves_inclusion(segment: SegmentReceipt, leaves: Seq<Seq<u32>>)
    requires
        lift_error(segment, leaves) is None,
    ensures
        ({
            let inner = rv32im_poseidon2_control_id(seal_po2(segment.seal@) - 13);
            let idx = leaves.index_of_first(inner).unwrap();
            path_root(HashSuite::Poseidon2, inner, idx, proof_path(HashSuite::Poseidon2, leaves, 0, idx, 8))
                == subtree_root(HashSuite::Poseidon2, leaves, 8, 0)
        }),
{
    let inner = rv32im_poseidon2_control_id(seal_po2(segment.seal@) - 13);
    leaves.index_of_first_ensures(inner);
    let idx = leaves.index_of_first(inner).unwrap();
    lemma_pow2_at_most_256(8);
    lemma_inclusion_proof_verifies(HashSuite::Poseidon2, leaves, idx, 8);
}

} // verus!
