//! Running the recursion programs: lift, join, resolve and identity. Each prepares a
//! prover and hands it to a proving step, which returns the seal and the output words of
//! the run. The claim written at the start of the output is decoded and merged with the
//! claim that the run was meant to prove, and the run is packed into a succinct receipt
//! that carries the prover's control ID with a proof that it belongs to the allowed
//! control IDs.
//!
//! The proving step itself is left to the caller, who hands it in as a closure: running
//! the recursion circuit on a prover (its preflight pass over the program, then the STARK
//! prover on a hardware abstraction layer chosen by hash function) drives implementations
//! of the proof system's hardware traits, draws random noise for zero knowledge, and runs
//! the zkVM's executor, none of which is part of this library.

use vstd::prelude::*;

use super::claim::{
    claim_digest, copy_input, copy_output, copy_state, decodable, decoded_merge, decodes_to,
    resolution, resolve_claim, ClaimView, ReceiptClaim,
};
use super::control_id::{allowed_control_ids_spec, zkr_lookup};
use super::digest::Digest;
use super::error::{ErrorView, RecursionError};
use super::hash::suite_for_name;
use super::merkle::{
    all_accepted, digests_view, lemma_inclusion_proof_verifies, lemma_pow2_at_most_256, path_root, proof_path,
    subtree_root, digests_accepted, MerkleGroup,
};
use super::program::{lift_program_name, ProverOpts};
use super::prover::{
    identity_error, join_error, lift_error, lift_input, receipt_root, resolve_error, resolve_input, seal_po2,
    segment_input, Prover,
};
use super::receipt::{RecursionReceipt, SegmentReceipt, SuccinctReceipt};

verus! {

/// Why a recursion run cannot be packed into a succinct receipt, if it cannot: the
/// allowed control IDs do not fit the Merkle group, the hash function is unknown, the
/// run's control ID is not allowed, or the hash refuses the control IDs.
pub open spec fn finish_error(leaves: Seq<Seq<u32>>, hashfn: Seq<char>, control_id: Seq<u32>) -> Option<ErrorView> {
    if leaves.len() > 256 {
        Some(ErrorView::TooManyLeaves)
    } else if suite_for_name(hashfn) is None {
        Some(ErrorView::UnknownHashSuite { name: hashfn })
    } else if !leaves.contains(control_id) {
        Some(ErrorView::LeafNotFound)
    } else if !all_accepted(suite_for_name(hashfn).unwrap(), leaves) {
        Some(ErrorView::InvalidHashInput)
    } else {
        None
    }
}

/// `s` packs a run, with control ID `control_id` and seal `seal`, and the claim `claim`:
/// it holds them, the hash function name, and the inclusion proof of the control ID among
/// `leaves`, which leads to the root of their Merkle tree.
pub open spec fn packs(
    s: SuccinctReceipt,
    leaves: Seq<Seq<u32>>,
    hashfn: Seq<char>,
    control_id: Seq<u32>,
    seal: Seq<u32>,
    claim: ClaimView,
) -> bool {
    let suite = suite_for_name(hashfn).unwrap();
    let idx = leaves.index_of_first(control_id).unwrap();
    &&& s.seal@ == seal
    &&& s.control_id@ == control_id
    &&& s.claim@ == claim
    &&& s.hashfn@ == hashfn
    &&& s.control_inclusion_proof.index as int == idx
    &&& digests_view(s.control_inclusion_proof.digests@) == proof_path(suite, leaves, 0, idx, 8)
    &&& path_root(suite, s.control_id@, idx, digests_view(s.control_inclusion_proof.digests@))
        == subtree_root(suite, leaves, 8, 0)
}

/// Packs a recursion run and a claim into a succinct receipt, with the inclusion proof of
/// the run's control ID among the options' control IDs.
pub fn succinct_receipt(opts: &ProverOpts, receipt: RecursionReceipt, claim: ReceiptClaim) -> (r: Result<SuccinctReceipt, RecursionError>)
    ensures
        match finish_error(digests_view(opts.control_ids@), opts.hashfn@, receipt.control_id@) {
            Some(e) => r matches Err(x) && x@ == e,
            None => r matches Ok(s) && packs(
                s,
                digests_view(opts.control_ids@),
                opts.hashfn@,
                receipt.control_id@,
                receipt.seal@,
                claim@,
            ),
        },
{
    let group = MerkleGroup::new(opts.control_ids.clone())?;
    assert(group.leaves@ =~= opts.control_ids@);
    let suite = opts.hash_suite()?;
    let index = match group.position(&receipt.control_id) {
        Some(i) => i as u32,
        None => return Err(RecursionError::LeafNotFound),
    };
    if !digests_accepted(suite, &group.leaves) {
        return Err(RecursionError::InvalidHashInput);
    }
    let control_inclusion_proof = group.get_proof_by_index(index, suite);
    proof {
        let lv = group.leaves_view();
        lv.index_of_first_ensures(receipt.control_id@);
        lemma_pow2_at_most_256(8);
        lemma_inclusion_proof_verifies(suite, lv, index as int, 8);
    }
    Ok(SuccinctReceipt {
        seal: receipt.seal,
        hashfn: opts.hashfn.clone(),
        control_id: receipt.control_id,
        control_inclusion_proof,
        claim,
    })
}

/// What a recursion function returns once the proving step has returned `out` for a run of
/// the program with control ID `control_id` meant to prove `expected`: the step's error;
/// else `DecodeFailed` when the output words hold no claim; else the claim decoded from
/// them is merged with `expected` and the run is packed with the merged claim, refused
/// with `ClaimMismatch` when the claims disagree or with the error of packing. With
/// `merge_first` the claims are merged before the run is packed, else after.
pub open spec fn concluded(
    out: Result<(Vec<u32>, Vec<u32>), RecursionError>,
    r: Result<SuccinctReceipt, RecursionError>,
    leaves: Seq<Seq<u32>>,
    hashfn: Seq<char>,
    control_id: Seq<u32>,
    expected: ClaimView,
    merge_first: bool,
) -> bool {
    match out {
        Err(e) => r matches Err(x) && x == e,
        Ok((seal, output)) => if !decodable(output@) {
            r matches Err(x) && x == RecursionError::DecodeFailed
        } else {
            exists|d: ClaimView|
                #![trigger decodes_to(output@, d)]
                {
                    &&& decodes_to(output@, d)
                    &&& match (decoded_merge(d, expected), finish_error(leaves, hashfn, control_id)) {
                        (None, Some(e)) => r matches Err(x) && if merge_first {
                            x == RecursionError::ClaimMismatch
                        } else {
                            x@ == e
                        },
                        (None, None) => r matches Err(x) && x == RecursionError::ClaimMismatch,
                        (Some(_), Some(e)) => r matches Err(x) && x@ == e,
                        (Some(m), None) => r matches Ok(s) && packs(s, leaves, hashfn, control_id, seal@, m),
                    }
                }
        },
    }
}

/// Finishes a recursion run: decodes the claim from the output words that the proving
/// step returned, merges it with the claim the run was meant to prove, and packs the seal
/// with the merged claim and the prover's control ID.
pub fn conclude(
    out: Result<(Vec<u32>, Vec<u32>), RecursionError>,
    control_id: Digest,
    expected: &ReceiptClaim,
    opts: &ProverOpts,
    merge_first: bool,
) -> (r: Result<SuccinctReceipt, RecursionError>)
    ensures
        concluded(out, r, digests_view(opts.control_ids@), opts.hashfn@, control_id@, expected@, merge_first),
{
    let ghost gout = out;
    let (seal, output) = out?;
    let ghost words = output@;
    let decoded = ReceiptClaim::decode(output.as_slice())?;
    assert(decodes_to(words, decoded@));
    let receipt = RecursionReceipt { control_id, seal, output };
    if merge_first {
        let claim = decoded.merge_decoded(expected)?;
        succinct_receipt(opts, receipt, claim)
    } else {
        let packed = succinct_receipt(opts, receipt, decoded.duplicate());
        let mut s = packed?;
        let claim = decoded.merge_decoded(expected)?;
        s.claim = claim;
        Ok(s)
    }
}

/// The prover holds the named program with its control ID, the options of the given hash
/// function and the allowed control IDs, the given input tape, and no split points or
/// output yet.
pub open spec fn prepared(p: Prover, name: Seq<char>, hashfn: Seq<char>, input: Seq<u32>) -> bool {
    &&& p.program.name@ == name
    &&& Some(p.control_id@) == zkr_lookup(name)
    &&& p.opts.hashfn@ == hashfn
    &&& digests_view(p.opts.control_ids@) == allowed_control_ids_spec()
    &&& p.input@ == input
    &&& p.split_points@ == Seq::<usize>::empty()
    &&& p.output@ == Seq::<u32>::empty()
}

/// Runs the lift program on an rv32im segment receipt, turning it into a succinct
/// receipt.
///
/// `prove` is the proving step: it runs the recursion prover it is given and returns the
/// seal and the output words of the run.
pub fn lift<F>(segment_receipt: &SegmentReceipt, prove: F) -> (r: Result<SuccinctReceipt, RecursionError>) where
    F: FnOnce(Prover) -> Result<(Vec<u32>, Vec<u32>), RecursionError>,

    requires
        forall|p: Prover| prove.requires((p,)),
    ensures
        lift_error(*segment_receipt, allowed_control_ids_spec()) matches Some(e) ==> r matches Err(x)
            && x@ == e,
        lift_error(*segment_receipt, allowed_control_ids_spec()) is None ==> exists|
            p: Prover,
            out: Result<(Vec<u32>, Vec<u32>), RecursionError>,
        |
            #![trigger prove.ensures((p,), out)]
            {
                &&& prepared(
                    p,
                    lift_program_name(seal_po2(segment_receipt.seal@) as nat),
                    "poseidon2"@,
                    lift_input(*segment_receipt, allowed_control_ids_spec()),
                )
                &&& prove.ensures((p,), out)
                &&& concluded(
                    out,
                    r,
                    allowed_control_ids_spec(),
                    "poseidon2"@,
                    p.control_id@,
                    segment_receipt.claim@,
                    false,
                )
            },
{
    let opts = ProverOpts::succinct();
    let prover = Prover::new_lift(segment_receipt, opts)?;
    let control_id = prover.control_id;
    let ghost gp = prover;
    let out = prove(prover);
    let ghost gout = out;
    let r = conclude(out, control_id, &segment_receipt.claim, &ProverOpts::succinct(), false);
    assert(prove.ensures((gp,), gout));
    r
}

/// The claim of an execution made of the execution claimed by `x` followed by the one
/// claimed by `y`: it starts where `x` starts, with `x`'s input, and ends where `y` ends,
/// with `y`'s exit code and output.
pub open spec fn joined_claim(x: ClaimView, y: ClaimView) -> ClaimView {
    ClaimView { pre: x.pre, post: y.post, exit_code: y.exit_code, input: x.input, output: y.output }
}

/// Law: joining is associative on claims, so receipts for consecutive spans of a session
/// can be joined in any grouping into a receipt for the whole span.
pub proof fn lemma_joined_claim_associative(x: ClaimView, y: ClaimView, z: ClaimView)
    ensures
        joined_claim(joined_claim(x, y), z) == joined_claim(x, joined_claim(y, z)),
{
}

/// Runs the join program on two receipts of the same session, compressing them into one.
///
/// `prove` is the proving step: it runs the prover it is given and returns the seal and
/// the output words of the run. The run must prove the claim from `a`'s start to `b`'s
/// end.
pub fn join<F>(a: &SuccinctReceipt, b: &SuccinctReceipt, prove: F) -> (r: Result<SuccinctReceipt, RecursionError>) where
    F: FnOnce(Prover) -> Result<(Vec<u32>, Vec<u32>), RecursionError>,

    requires
        forall|p: Prover| prove.requires((p,)),
    ensures
        join_error(*a, *b) matches Some(e) ==> r matches Err(x) && x@ == e,
        join_error(*a, *b) is None ==> exists|p: Prover, out: Result<(Vec<u32>, Vec<u32>), RecursionError>|
            #![trigger prove.ensures((p,), out)]
            {
                &&& prepared(p, "join.zkr"@, "poseidon2"@, receipt_root(*a) + segment_input(*a) + segment_input(*b))
                &&& prove.ensures((p,), out)
                &&& concluded(
                    out,
                    r,
                    allowed_control_ids_spec(),
                    "poseidon2"@,
                    p.control_id@,
                    joined_claim(a.claim@, b.claim@),
                    false,
                )
            },
{
    let opts = ProverOpts::succinct();
    let prover = Prover::new_join(a, b, opts)?;
    let control_id = prover.control_id;
    let ghost gp = prover;
    let out = prove(prover);
    let ghost gout = out;
    let ab_claim = ReceiptClaim {
        pre: copy_state(&a.claim.pre),
        post: copy_state(&b.claim.post),
        exit_code: b.claim.exit_code,
        input: copy_input(&a.claim.input),
        output: copy_output(&b.claim.output),
    };
    assert(ab_claim@ == joined_claim(a.claim@, b.claim@));
    let r = conclude(out, control_id, &ab_claim, &ProverOpts::succinct(), false);
    assert(prove.ensures((gp,), gout));
    r
}

/// Runs the resolve program, which removes an assumption from a conditional receipt upon
/// verifying a receipt for that assumption.
///
/// The conditional claim is resolved first: its output and assumptions must be present,
/// and the head of its assumptions must be the assumption's claim; the run must prove the
/// conditional claim with that head removed. `prove` is the proving step: it runs the
/// prover it is given and returns the seal and the output words of the run.
pub fn resolve<F>(conditional: &SuccinctReceipt, assumption: &SuccinctReceipt, prove: F) -> (r: Result<
    SuccinctReceipt,
    RecursionError,
>) where
    F: FnOnce(Prover) -> Result<(Vec<u32>, Vec<u32>), RecursionError>,

    requires
        forall|p: Prover| prove.requires((p,)),
    ensures
        resolution(conditional.claim@, claim_digest(assumption.claim@)) matches Err(e) ==> r matches Err(x)
            && x@ == e,
        resolution(conditional.claim@, claim_digest(assumption.claim@)) is Ok ==> (resolve_error(
            *conditional,
            *assumption,
        ) matches Some(e) ==> r matches Err(x) && x@ == e),
        resolution(conditional.claim@, claim_digest(assumption.claim@)) is Ok && resolve_error(
            *conditional,
            *assumption,
        ) is None ==> exists|p: Prover, out: Result<(Vec<u32>, Vec<u32>), RecursionError>|
            #![trigger prove.ensures((p,), out)]
            {
                &&& prepared(p, "resolve.zkr"@, "poseidon2"@, resolve_input(*conditional, *assumption))
                &&& prove.ensures((p,), out)
                &&& concluded(
                    out,
                    r,
                    allowed_control_ids_spec(),
                    "poseidon2"@,
                    p.control_id@,
                    resolution(conditional.claim@, claim_digest(assumption.claim@))->Ok_0.0,
                    false,
                )
            },
{
    let resolved = assumption.claim.digest();
    let (resolved_claim, _, _) = resolve_claim(&conditional.claim, &resolved)?;
    let opts = ProverOpts::succinct();
    let prover = Prover::new_resolve(conditional, assumption, opts)?;
    let control_id = prover.control_id;
    let ghost gp = prover;
    let out = prove(prover);
    let ghost gout = out;
    let r = conclude(out, control_id, &resolved_claim, &ProverOpts::succinct(), false);
    assert(prove.ensures((gp,), gout));
    r
}

/// The options for the last recursion step: succinct options with Poseidon over BN254.
fn poseidon254_opts() -> (r: ProverOpts)
    ensures
        r.hashfn@ == "poseidon_254"@,
        digests_view(r.control_ids@) == allowed_control_ids_spec(),
{
    ProverOpts::succinct().with_hashfn("poseidon_254".to_owned())
}

/// Proves the verification of a recursion receipt again, with Poseidon over BN254 for the
/// new seal's hash, leaving the claim unchanged.
///
/// `prove` is the proving step, run with the Poseidon254 hash: it runs the prover it is
/// given and returns the seal and the output words of the run, which must prove `a`'s
/// claim.
pub fn identity_p254<F>(a: &SuccinctReceipt, prove: F) -> (r: Result<SuccinctReceipt, RecursionError>) where
    F: FnOnce(Prover) -> Result<(Vec<u32>, Vec<u32>), RecursionError>,

    requires
        forall|p: Prover| prove.requires((p,)),
    ensures
        identity_error(*a) matches Some(e) ==> r matches Err(x) && x@ == e,
        identity_error(*a) is None ==> exists|p: Prover, out: Result<(Vec<u32>, Vec<u32>), RecursionError>|
            #![trigger prove.ensures((p,), out)]
            {
                &&& prepared(p, "identity.zkr"@, "poseidon_254"@, receipt_root(*a) + segment_input(*a))
                &&& prove.ensures((p,), out)
                &&& concluded(
                    out,
                    r,
                    allowed_control_ids_spec(),
                    "poseidon_254"@,
                    p.control_id@,
                    a.claim@,
                    true,
                )
            },
{
    let prover = Prover::new_identity(a, poseidon254_opts())?;
    let control_id = prover.control_id;
    let ghost gp = prover;
    let out = prove(prover);
    let ghost gout = out;
    let r = conclude(out, control_id, &a.claim, &poseidon254_opts(), true);
    assert(prove.ensures((gp,), gout));
    r
}

} // verus!
