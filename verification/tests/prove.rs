use std::cell::RefCell;

use zkvm_recursion::recursion::claim::{
    Assumption, Assumptions, ExitCode, MaybePruned, Output, ReceiptClaim, SystemState,
};
use zkvm_recursion::recursion::control_id::{allowed_control_ids, zkr_control_id};
use zkvm_recursion::recursion::digest::Digest;
use zkvm_recursion::recursion::error::RecursionError;
use zkvm_recursion::recursion::hash::HashSuite;
use zkvm_recursion::recursion::merkle::MerkleGroup;
use zkvm_recursion::recursion::program::ProverOpts;
use zkvm_recursion::recursion::prove::{conclude, identity_p254, join, lift, resolve, succinct_receipt};
use zkvm_recursion::recursion::prover::Prover;
use zkvm_recursion::recursion::receipt::{RecursionReceipt, SegmentReceipt, SuccinctReceipt};

fn state(pc: u32, w: u32) -> MaybePruned<SystemState> {
    MaybePruned::Value(SystemState { pc, merkle_root: Digest::new([w; 8]) })
}

fn claim(tag: u32, assumptions: Vec<MaybePruned<Assumption>>) -> ReceiptClaim {
    ReceiptClaim {
        pre: state(tag, tag),
        post: state(tag + 4, tag + 1),
        exit_code: ExitCode::Halted(tag),
        input: MaybePruned::Value(None),
        output: MaybePruned::Value(Some(Output {
            journal: MaybePruned::Value(vec![tag as u8]),
            assumptions: MaybePruned::Value(Assumptions(assumptions)),
        })),
    }
}

fn succinct(index: usize, tag: u32) -> SuccinctReceipt {
    let ids = allowed_control_ids();
    let group = MerkleGroup::new(ids.clone()).unwrap();
    SuccinctReceipt {
        seal: vec![tag],
        control_id: ids[index],
        control_inclusion_proof: group.get_proof(&ids[index], HashSuite::Poseidon2).unwrap(),
        claim: claim(tag, vec![]),
        hashfn: "poseidon2".to_string(),
    }
}

fn allowed_root() -> [u32; 8] {
    risc0_circuit_recursion::control_id::ALLOWED_CONTROL_ROOT.into()
}

fn control_id_of(name: &str) -> Digest {
    zkr_control_id(&name.to_string()).unwrap()
}

/// A proving step that records the prover it was given and returns a seal and, as its
/// output, the words of `proven`.
fn run<'a>(
    seen: &'a RefCell<Option<Prover>>,
    proven: &'a ReceiptClaim,
) -> impl FnOnce(Prover) -> Result<(Vec<u32>, Vec<u32>), RecursionError> + 'a {
    move |p: Prover| {
        *seen.borrow_mut() = Some(p);
        Ok((vec![42, 43], proven.encode().unwrap()))
    }
}

#[test]
fn lift_packs_the_run_with_the_prover_control_id() {
    let mut seal = vec![0u32; 138];
    seal.push(18);
    let segment = SegmentReceipt { seal, index: 0, hashfn: "poseidon2".to_string(), claim: claim(5, vec![]) };
    let seen = RefCell::new(None);
    let expected = claim(5, vec![]);
    let r = lift(&segment, run(&seen, &expected)).unwrap();
    let p = seen.into_inner().unwrap();
    assert_eq!(p.program.name, "lift_18.zkr");
    assert_eq!(r.seal, vec![42, 43]);
    assert_eq!(r.hashfn, "poseidon2");
    assert_eq!(r.claim.digest(), expected.digest());
    assert_eq!(r.control_id, control_id_of("lift_18.zkr"));
    assert_eq!(r.control_id, p.control_id);
    let ids = allowed_control_ids();
    assert_eq!(ids[r.control_inclusion_proof.index as usize], r.control_id);
    assert_eq!(r.control_inclusion_proof.root(&r.control_id, HashSuite::Poseidon2).words, allowed_root());
}

#[test]
fn lift_refuses_before_proving() {
    let segment = SegmentReceipt {
        seal: vec![0u32; 10],
        index: 0,
        hashfn: "poseidon2".to_string(),
        claim: claim(1, vec![]),
    };
    let called = RefCell::new(false);
    let r = lift(&segment, |_p: Prover| {
        *called.borrow_mut() = true;
        Ok((vec![], vec![]))
    });
    assert_eq!(r.unwrap_err(), RecursionError::SealTooShort);
    assert!(!*called.borrow());
}

#[test]
fn join_proves_the_joined_claim() {
    let a = succinct(3, 10);
    let b = succinct(4, 20);
    let mut joined = claim(10, vec![]);
    joined.post = state(24, 21);
    joined.exit_code = ExitCode::Halted(20);
    joined.output = claim(20, vec![]).output;
    let seen = RefCell::new(None);
    let r = join(&a, &b, run(&seen, &joined)).unwrap();
    let p = seen.into_inner().unwrap();
    assert_eq!(p.program.name, "join.zkr");
    assert_eq!(r.claim.digest(), joined.digest());
    assert_eq!(r.control_id, control_id_of("join.zkr"));
    assert_eq!(r.control_inclusion_proof.root(&r.control_id, HashSuite::Poseidon2).words, allowed_root());
}

#[test]
fn join_refuses_a_run_that_proves_another_claim() {
    let a = succinct(3, 10);
    let b = succinct(4, 20);
    let seen = RefCell::new(None);
    let other = claim(10, vec![]);
    let r = join(&a, &b, run(&seen, &other));
    assert_eq!(r.unwrap_err(), RecursionError::ClaimMismatch);
    assert!(seen.into_inner().is_some());
}

#[test]
fn join_reports_proving_errors() {
    let a = succinct(3, 10);
    let b = succinct(4, 20);
    let r = join(&a, &b, |_p: Prover| Err(RecursionError::ProofFailed));
    assert_eq!(r.unwrap_err(), RecursionError::ProofFailed);
    let r = join(&a, &b, |_p: Prover| Ok((vec![1], vec![0; 10])));
    assert_eq!(r.unwrap_err(), RecursionError::DecodeFailed);
}

#[test]
fn resolve_removes_the_head_assumption() {
    let assum = succinct(4, 20);
    let rest = MaybePruned::Value(Assumption { claim: Digest::new([6; 8]), control_root: Digest::new(allowed_root()) });
    let mut cond = succinct(3, 10);
    cond.claim = claim(10, vec![MaybePruned::Pruned(assum.claim.digest()), rest.clone()]);
    let resolved = claim(10, vec![rest]);
    let seen = RefCell::new(None);
    let r = resolve(&cond, &assum, run(&seen, &resolved)).unwrap();
    let p = seen.into_inner().unwrap();
    assert_eq!(p.program.name, "resolve.zkr");
    assert_eq!(r.claim.digest(), resolved.digest());
    assert_eq!(r.control_id, control_id_of("resolve.zkr"));

    // A run that still claims the head assumption is refused.
    let r = resolve(&cond, &assum, run(&RefCell::new(None), &cond.claim));
    assert_eq!(r.unwrap_err(), RecursionError::ClaimMismatch);
}

#[test]
fn resolve_refuses_before_proving() {
    let assum = succinct(4, 20);
    let called = RefCell::new(false);
    let step = |_p: Prover| {
        *called.borrow_mut() = true;
        Ok((vec![], vec![]))
    };
    let mut cond = succinct(3, 10);
    cond.claim.output = MaybePruned::Pruned(Digest::zero());
    assert_eq!(resolve(&cond, &assum, step).unwrap_err().message(), "conditional receipt output is pruned");
    let step = |_p: Prover| {
        *called.borrow_mut() = true;
        Ok((vec![], vec![]))
    };
    let cond = succinct(3, 10);
    assert_eq!(resolve(&cond, &assum, step).unwrap_err(), RecursionError::NoAssumptions);
    assert!(!*called.borrow());

    let mut other = succinct(4, 20);
    other.hashfn = "sha-256".to_string();
    let mut cond = succinct(3, 10);
    cond.claim = claim(10, vec![MaybePruned::Pruned(other.claim.digest())]);
    let r = resolve(&cond, &other, |_p: Prover| Err(RecursionError::ProofFailed));
    assert_eq!(r.unwrap_err().message(), "resolve recursion program only supports poseidon2 hashfn; received sha-256");
}

#[test]
fn identity_p254_hashes_with_poseidon254() {
    let a = succinct(3, 10);
    let seen = RefCell::new(None);
    // Poseidon254 cannot take the allowed control IDs: several exceed the BN254 modulus.
    let r = identity_p254(&a, run(&seen, &a.claim));
    assert_eq!(r.unwrap_err(), RecursionError::InvalidHashInput);
    let p = seen.into_inner().unwrap();
    assert_eq!(p.program.name, "identity.zkr");
    assert_eq!(p.opts.hashfn, "poseidon_254");
    // The claims are merged before the run is packed.
    let r = identity_p254(&a, run(&RefCell::new(None), &claim(11, vec![])));
    assert_eq!(r.unwrap_err(), RecursionError::ClaimMismatch);
}

#[test]
fn conclude_packs_the_given_control_id() {
    let expected = claim(7, vec![]);
    let ids = allowed_control_ids();
    let out = Ok((vec![1, 2, 3], expected.encode().unwrap()));
    let s = conclude(out, ids[9], &expected, &ProverOpts::succinct(), false).unwrap();
    assert_eq!(s.control_id, ids[9]);
    assert_eq!(s.control_inclusion_proof.index, 9);
    assert_eq!(s.seal, vec![1, 2, 3]);
    let out = Ok((vec![], expected.encode().unwrap()));
    assert_eq!(
        conclude(out, Digest::new([5; 8]), &expected, &ProverOpts::succinct(), false).unwrap_err(),
        RecursionError::LeafNotFound
    );
}

#[test]
fn succinct_receipt_packs_the_run() {
    let ids = allowed_control_ids();
    let run = RecursionReceipt { control_id: ids[12], seal: vec![8], output: vec![] };
    let s = succinct_receipt(&ProverOpts::succinct(), run, claim(3, vec![])).unwrap();
    assert_eq!(s.control_inclusion_proof.index, 12);
    assert_eq!(s.claim.digest(), claim(3, vec![]).digest());
    assert_eq!(s.control_inclusion_proof.root(&s.control_id, HashSuite::Poseidon2).words, allowed_root());
    let odd = ProverOpts::succinct().with_hashfn("md5".to_string());
    let run = RecursionReceipt { control_id: ids[12], seal: vec![8], output: vec![] };
    assert_eq!(
        succinct_receipt(&odd, run, claim(3, vec![])).unwrap_err(),
        RecursionError::UnknownHashSuite { name: "md5".to_string() }
    );
}
