use zkvm_recursion::recursion::claim::{
    assumptions_list_digest, Assumption, Assumptions, ExitCode, MaybePruned, Output, ReceiptClaim, SystemState,
};
use zkvm_recursion::recursion::control_id::allowed_control_ids;
use zkvm_recursion::recursion::digest::Digest;
use zkvm_recursion::recursion::error::RecursionError;
use zkvm_recursion::recursion::field::BABY_BEAR_P;
use zkvm_recursion::recursion::hash::HashSuite;
use zkvm_recursion::recursion::merkle::{MerkleGroup, MerkleProof};
use zkvm_recursion::recursion::program::{join_program, ProverOpts};
use zkvm_recursion::recursion::prover::{DigestKind, Prover, RECURSION_PO2};
use zkvm_recursion::recursion::receipt::{SegmentReceipt, SuccinctReceipt};

fn montgomery_encode(x: u32) -> u32 {
    let p = 2013265921u128;
    (((x as u128) % p) * (1u128 << 32) % p) as u32
}

fn allowed_root() -> Vec<u32> {
    let r: [u32; 8] = risc0_circuit_recursion::control_id::ALLOWED_CONTROL_ROOT.into();
    r.to_vec()
}

fn recursion_control_id(name: &str) -> [u32; 8] {
    let (_, id) = risc0_circuit_recursion::control_id::POSEIDON2_CONTROL_IDS
        .iter()
        .find(|(n, _)| *n == name)
        .unwrap();
    (*id).into()
}

fn test_claim(tag: u32, assumptions: Vec<MaybePruned<Assumption>>) -> ReceiptClaim {
    ReceiptClaim {
        pre: MaybePruned::Value(SystemState { pc: tag, merkle_root: Digest::new([tag; 8]) }),
        post: MaybePruned::Value(SystemState { pc: tag + 4, merkle_root: Digest::new([tag + 1; 8]) }),
        exit_code: ExitCode::Halted(0),
        input: MaybePruned::Value(None),
        output: MaybePruned::Value(Some(Output {
            journal: MaybePruned::Value(vec![tag as u8]),
            assumptions: MaybePruned::Value(Assumptions(assumptions)),
        })),
    }
}

fn succinct(index: usize, seal: Vec<u32>, hashfn: &str) -> SuccinctReceipt {
    let ids = allowed_control_ids();
    let group = MerkleGroup::new(ids.clone()).unwrap();
    let proof = group.get_proof(&ids[index], HashSuite::Poseidon2).unwrap();
    SuccinctReceipt {
        seal,
        control_id: ids[index],
        control_inclusion_proof: proof,
        claim: test_claim(index as u32, vec![]),
        hashfn: hashfn.to_string(),
    }
}

fn seal_words(r: &SuccinctReceipt) -> Vec<u32> {
    let mut v = r.seal.clone();
    v.push(montgomery_encode(r.control_inclusion_proof.index));
    for d in r.control_inclusion_proof.digests.iter() {
        v.extend_from_slice(&d.words);
    }
    v
}

fn segment_words(r: &SuccinctReceipt) -> Vec<u32> {
    let mut v = seal_words(r);
    for w in r.claim.encode().unwrap().iter() {
        v.push(montgomery_encode(*w));
    }
    v
}

fn empty_prover() -> Prover {
    let (program, control_id) = join_program().unwrap();
    Prover::new(program, control_id, ProverOpts::succinct())
}

#[test]
fn constants_of_the_circuits() {
    assert_eq!(RECURSION_PO2, 18);
    let ids = allowed_control_ids();
    assert_eq!(ids.len(), 25);
    for (i, id) in risc0_circuit_recursion::control_id::ALLOWED_CONTROL_IDS.iter().enumerate() {
        let w: [u32; 8] = (*id).into();
        assert_eq!(ids[i].words, w);
    }
    // The allowed IDs start with the rv32im control IDs, one per cycle count.
    for (i, id) in risc0_circuit_rv32im::control_id::POSEIDON2_CONTROL_IDS.iter().enumerate() {
        let w: [u32; 8] = (*id).into();
        assert_eq!(ids[i].words, w);
    }
}

#[test]
fn new_prover_is_empty() {
    let p = empty_prover();
    assert_eq!(p.program.name, "join.zkr");
    assert_eq!(p.control_id.words, recursion_control_id("join.zkr"));
    assert!(p.input.is_empty() && p.split_points.is_empty() && p.output.is_empty());
}

#[test]
fn add_input_appends() {
    let mut p = empty_prover();
    p.add_input(&[1, 2]);
    p.add_input(&[]);
    p.add_input(&[3]);
    assert_eq!(p.input, vec![1, 2, 3]);
    p.add_input_elems(&[1, 0]);
    assert_eq!(p.input, vec![1, 2, 3, 268435454, 0]);
}

#[test]
fn poseidon2_digests_go_word_for_word() {
    let mut p = empty_prover();
    let d = Digest::new([1, 2, 3, 4, 5, 6, 7, 8]);
    p.add_input_digest(&d, DigestKind::Poseidon2);
    assert_eq!(p.input, vec![1, 2, 3, 4, 5, 6, 7, 8]);
}

#[test]
fn sha256_digests_are_split_into_half_words() {
    let mut p = empty_prover();
    let d = Digest::new([0x12345678, 0xffffffff, 0, 1, 0x10000, 0xabcd0000, 7, 0x8000_0001]);
    p.add_input_digest(&d, DigestKind::Sha256);
    let mut expected = Vec::new();
    for w in d.words {
        expected.push(montgomery_encode(w & 0xffff));
        expected.push(montgomery_encode(w >> 16));
    }
    assert_eq!(p.input.len(), 16);
    assert_eq!(p.input, expected);
    assert_eq!(p.input[0], montgomery_encode(0x5678));
    assert_eq!(p.input[1], montgomery_encode(0x1234));
}

#[test]
fn half_words_recombine() {
    for w in [0u32, 1, 0xffff, 0x10000, 0x12345678, u32::MAX] {
        let lo = w & 0xffff;
        let hi = w >> 16;
        assert!(lo < 0x10000 && hi < 0x10000 && lo < BABY_BEAR_P && hi < BABY_BEAR_P);
        assert_eq!(lo + 0x10000 * hi, w);
    }
}

#[test]
fn add_seal_layout() {
    let mut p = empty_prover();
    let proof = MerkleProof { index: 3, digests: vec![Digest::new([9; 8]), Digest::new([4; 8])] };
    p.add_seal(&[10, 11], &Digest::zero(), &proof);
    let mut expected = vec![10, 11, montgomery_encode(3)];
    expected.extend_from_slice(&[9; 8]);
    expected.extend_from_slice(&[4; 8]);
    assert_eq!(p.input, expected);
}

#[test]
fn add_segment_receipt_layout() {
    let mut p = empty_prover();
    let r = succinct(3, vec![5, 6, 7], "poseidon2");
    p.add_segment_receipt(&r).unwrap();
    assert_eq!(p.input, segment_words(&r));
    assert_eq!(p.input.len(), 3 + 1 + 64 + 74);
    let mut pruned = r.clone();
    pruned.claim.pre = MaybePruned::Pruned(Digest::zero());
    assert_eq!(p.add_segment_receipt(&pruned).unwrap_err(), RecursionError::PrunedValue);
    // The seal and its inclusion proof stay on the tape; no claim words follow them.
    let mut expected = segment_words(&r);
    expected.extend(seal_words(&pruned));
    assert_eq!(p.input, expected);
}

#[test]
fn record_preflight_appends_end_of_cycles() {
    let mut p = empty_prover();
    p.add_input(&[1]);
    p.record_preflight(vec![100, 200], vec![5, 6]);
    assert_eq!(p.split_points, vec![100, 200, 262144 - 594]);
    assert_eq!(p.output, vec![5, 6]);
    assert_eq!(p.input, vec![1]);
}

#[test]
fn test_recursion_circuit_prover() {
    let a = Digest::new([1; 8]);
    let b = Digest::new([2; 8]);
    let p = Prover::new_test_recursion_circuit([&a, &b], ProverOpts::succinct()).unwrap();
    assert_eq!(p.program.name, "test_recursion_circuit.zkr");
    assert_eq!(p.control_id.words, recursion_control_id("test_recursion_circuit.zkr"));
    assert_eq!(p.input, [[1u32; 8], [2u32; 8]].concat());
}

#[test]
fn join_prover_input() {
    let a = succinct(2, vec![1, 2], "poseidon2");
    let b = succinct(9, vec![3], "poseidon2");
    let p = Prover::new_join(&a, &b, ProverOpts::succinct()).unwrap();
    assert_eq!(p.program.name, "join.zkr");
    assert_eq!(p.control_id.words, recursion_control_id("join.zkr"));
    let mut expected = allowed_root();
    expected.extend(segment_words(&a));
    expected.extend(segment_words(&b));
    assert_eq!(p.input, expected);
}

#[test]
fn join_refuses_other_hash_functions() {
    let a = succinct(2, vec![1], "poseidon2");
    let b = succinct(3, vec![1], "sha-256");
    assert_eq!(
        Prover::new_join(&a, &b, ProverOpts::succinct()).unwrap_err().message(),
        "join recursion program only supports poseidon2 hashfn; received sha-256"
    );
    let c = succinct(3, vec![1], "blake2b");
    assert_eq!(
        Prover::new_join(&c, &b, ProverOpts::succinct()).unwrap_err(),
        RecursionError::UnsupportedHashFn { program: "join".to_string(), received: "blake2b".to_string() }
    );
}

#[test]
fn join_refuses_different_control_roots() {
    let a = succinct(2, vec![1], "poseidon2");
    let mut b = succinct(3, vec![1], "poseidon2");
    b.control_inclusion_proof.index ^= 1;
    let root_a = a.control_inclusion_proof.root(&a.control_id, HashSuite::Poseidon2);
    let root_b = b.control_inclusion_proof.root(&b.control_id, HashSuite::Poseidon2);
    let e = Prover::new_join(&a, &b, ProverOpts::succinct()).unwrap_err();
    assert_eq!(
        e,
        RecursionError::MerkleRootMismatch {
            first: "a".to_string(),
            second: "b".to_string(),
            first_root: root_a,
            second_root: root_b,
        }
    );
    assert_eq!(
        e.message(),
        format!("merkle roots for a and b do not match: {} != {}", root_a.to_hex(), root_b.to_hex())
    );
    assert_eq!(root_a.to_hex().len(), 64);
}

#[test]
fn join_refuses_unreduced_digests() {
    let a = succinct(2, vec![1], "poseidon2");
    let mut b = succinct(3, vec![1], "poseidon2");
    b.control_id = Digest::new([BABY_BEAR_P; 8]);
    assert_eq!(
        Prover::new_join(&a, &b, ProverOpts::succinct()).unwrap_err(),
        RecursionError::InvalidHashInput
    );
}

#[test]
fn join_refuses_pruned_claims() {
    let a = succinct(2, vec![1], "poseidon2");
    let mut b = succinct(3, vec![1], "poseidon2");
    b.claim.post = MaybePruned::Pruned(Digest::zero());
    assert_eq!(
        Prover::new_join(&a, &b, ProverOpts::succinct()).unwrap_err(),
        RecursionError::PrunedValue
    );
}

#[test]
fn identity_prover_input() {
    let a = succinct(12, vec![4, 4], "poseidon2");
    let p = Prover::new_identity(&a, ProverOpts::succinct()).unwrap();
    assert_eq!(p.program.name, "identity.zkr");
    assert_eq!(p.control_id.words, recursion_control_id("identity.zkr"));
    let mut expected = allowed_root();
    expected.extend(segment_words(&a));
    assert_eq!(p.input, expected);
    let bad = succinct(12, vec![4], "blake2b");
    assert_eq!(
        Prover::new_identity(&bad, ProverOpts::succinct()).unwrap_err().message(),
        "identity recursion program only supports poseidon2 hashfn; received blake2b"
    );
}

fn conditional_on(assum: &SuccinctReceipt, extra: Vec<MaybePruned<Assumption>>) -> SuccinctReceipt {
    let mut cond = succinct(12, vec![1], "poseidon2");
    // The head commits to the assumption's claim by its digest.
    let mut list = vec![MaybePruned::Pruned(assum.claim.digest())];
    list.extend(extra);
    cond.claim = test_claim(40, list);
    cond
}

fn sha_halves(d: &Digest) -> Vec<u32> {
    d.words.iter().flat_map(|w| [montgomery_encode(w & 0xffff), montgomery_encode(w >> 16)]).collect()
}

#[test]
fn resolve_prover_input() {
    let assum = succinct(13, vec![2, 2], "poseidon2");
    let rest = MaybePruned::Pruned(Digest::new([6; 8]));
    let cond = conditional_on(&assum, vec![rest.clone()]);
    let p = Prover::new_resolve(&cond, &assum, ProverOpts::succinct()).unwrap();
    assert_eq!(p.program.name, "resolve.zkr");
    assert_eq!(p.control_id.words, recursion_control_id("resolve.zkr"));
    let mut expected = allowed_root();
    expected.extend(segment_words(&cond));
    expected.extend(segment_words(&assum));
    let tail_digest = assumptions_list_digest(&vec![rest]);
    expected.extend(sha_halves(&tail_digest));
    let journal: [u32; 8] = (*<risc0_zkp::core::hash::sha::cpu::Impl as risc0_zkp::core::hash::sha::Sha256>::hash_bytes(&[40u8])).into();
    expected.extend(sha_halves(&Digest::new(journal)));
    assert_eq!(p.input, expected);
    assert_eq!(p.input.len(), 8 + 2 * (1 + 1 + 64 + 74) + 1 + 32);
}

#[test]
fn resolve_refuses_mismatched_roots_and_hashes() {
    let assum0 = succinct(13, vec![2], "poseidon2");
    let cond = conditional_on(&assum0, vec![]);
    let mut assum = assum0.clone();
    assum.control_id = Digest::new([1; 8]);
    let root_cond = cond.control_inclusion_proof.root(&cond.control_id, HashSuite::Poseidon2);
    let root_assum = assum.control_inclusion_proof.root(&assum.control_id, HashSuite::Poseidon2);
    assert_eq!(
        Prover::new_resolve(&cond, &assum, ProverOpts::succinct()).unwrap_err().message(),
        format!("merkle roots for cond and assum do not match: {} != {}", root_cond.to_hex(), root_assum.to_hex())
    );
    let mut other = assum0.clone();
    other.hashfn = "sha-256".to_string();
    assert_eq!(
        Prover::new_resolve(&cond, &other, ProverOpts::succinct()).unwrap_err().message(),
        "resolve recursion program only supports poseidon2 hashfn; received sha-256"
    );
    // The conditional receipt is checked first.
    let mut bad_cond = cond.clone();
    bad_cond.hashfn = "blake2b".to_string();
    assert_eq!(
        Prover::new_resolve(&bad_cond, &other, ProverOpts::succinct()).unwrap_err().message(),
        "resolve recursion program only supports poseidon2 hashfn; received blake2b"
    );
}

#[test]
fn resolve_refuses_unresolvable_claims() {
    let assum = succinct(13, vec![2], "poseidon2");
    let opts = || ProverOpts::succinct();
    let mut cond = conditional_on(&assum, vec![]);
    cond.claim.output = MaybePruned::Pruned(Digest::zero());
    assert_eq!(
        Prover::new_resolve(&cond, &assum, opts()).unwrap_err().message(),
        "cannot resolve conditional receipt with pruned output"
    );
    cond.claim.output = MaybePruned::Value(None);
    assert_eq!(
        Prover::new_resolve(&cond, &assum, opts()).unwrap_err().message(),
        "cannot resolve conditional receipt with no output"
    );
    cond.claim.output = MaybePruned::Value(Some(Output {
        journal: MaybePruned::Value(vec![]),
        assumptions: MaybePruned::Pruned(Digest::zero()),
    }));
    assert_eq!(Prover::new_resolve(&cond, &assum, opts()).unwrap_err(), RecursionError::ResolvePrunedAssumptions);
    cond.claim = test_claim(40, vec![]);
    assert_eq!(
        Prover::new_resolve(&cond, &assum, opts()).unwrap_err().message(),
        "cannot resolve assumption from empty list"
    );
    let other = succinct(14, vec![2], "poseidon2");
    let cond = conditional_on(&other, vec![]);
    assert!(matches!(
        Prover::new_resolve(&cond, &assum, opts()).unwrap_err(),
        RecursionError::AssumptionMismatch { .. }
    ));
}

fn segment_with_po2(po2: u32) -> SegmentReceipt {
    let mut seal = vec![0u32; 138];
    seal.push(po2);
    seal.extend_from_slice(&[11, 12, 13]);
    SegmentReceipt { seal, index: 0, hashfn: "poseidon2".to_string(), claim: test_claim(1, vec![]) }
}

#[test]
fn lift_prover_input() {
    let segment = segment_with_po2(20);
    let p = Prover::new_lift(&segment, ProverOpts::succinct()).unwrap();
    assert_eq!(p.program.name, "lift_20.zkr");
    assert_eq!(p.control_id.words, recursion_control_id("lift_20.zkr"));
    let inner: [u32; 8] = risc0_circuit_rv32im::control_id::POSEIDON2_CONTROL_IDS[7].into();
    let ids = allowed_control_ids();
    let index = ids.iter().position(|d| d.words == inner).unwrap();
    let group = MerkleGroup::new(ids.clone()).unwrap();
    let proof = group.get_proof_by_index(index as u32, HashSuite::Poseidon2);
    let mut expected = allowed_root();
    expected.extend_from_slice(&segment.seal);
    expected.push(montgomery_encode(index as u32));
    for d in proof.digests.iter() {
        expected.extend_from_slice(&d.words);
    }
    assert_eq!(p.input, expected);
    // The proof on the tape leads from the rv32im control ID to the root at its start.
    assert_eq!(proof.root(&Digest::new(inner), HashSuite::Poseidon2).words.to_vec(), allowed_root());
}

#[test]
fn lift_refuses_bad_segments() {
    let opts = || ProverOpts::succinct();
    let mut s = segment_with_po2(20);
    s.hashfn = "sha-256".to_string();
    assert_eq!(
        Prover::new_lift(&s, opts()).unwrap_err().message(),
        "lift recursion program only supports poseidon2 hashfn; received sha-256"
    );

    let s = SegmentReceipt {
        seal: vec![0u32; 138],
        index: 0,
        hashfn: "poseidon2".to_string(),
        claim: test_claim(1, vec![]),
    };
    assert_eq!(Prover::new_lift(&s, opts()).unwrap_err(), RecursionError::SealTooShort);

    let mut s = segment_with_po2(20);
    s.seal[5] = BABY_BEAR_P;
    assert_eq!(Prover::new_lift(&s, opts()).unwrap_err(), RecursionError::InvalidSealWord);

    let s = segment_with_po2(13);
    assert_eq!(
        Prover::new_lift(&s, opts()).unwrap_err(),
        RecursionError::UnknownProgram { name: "lift_13.zkr".to_string() }
    );

    let s = segment_with_po2(24);
    assert_eq!(Prover::new_lift(&s, opts()).unwrap_err(), RecursionError::Po2OutOfRange);
}

#[test]
fn lift_refuses_bad_options() {
    let s = segment_with_po2(16);
    let few = ProverOpts { hashfn: "poseidon2".to_string(), control_ids: vec![Digest::zero()] };
    assert_eq!(Prover::new_lift(&s, few).unwrap_err(), RecursionError::LeafNotFound);
    let many = ProverOpts { hashfn: "poseidon2".to_string(), control_ids: vec![Digest::zero(); 300] };
    assert_eq!(Prover::new_lift(&s, many).unwrap_err(), RecursionError::TooManyLeaves);
    let mut ids = allowed_control_ids();
    ids.push(Digest::new([u32::MAX; 8]));
    let unreduced = ProverOpts { hashfn: "poseidon2".to_string(), control_ids: ids };
    assert_eq!(Prover::new_lift(&s, unreduced).unwrap_err(), RecursionError::InvalidHashInput);
}
