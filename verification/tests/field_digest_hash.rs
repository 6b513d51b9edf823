use zkvm_recursion::recursion::digest::Digest;
use zkvm_recursion::recursion::field::BABY_BEAR_P;
use zkvm_recursion::recursion::hash::{hash_accepts_digest, hash_suite_from_name, str_equals, HashSuite};
use zkvm_recursion::recursion::merkle::MerkleProof;
use zkvm_recursion::recursion::program::{join_program, ProverOpts};
use zkvm_recursion::recursion::prover::Prover;

/// The library's field encoding of one word, read off the prover's input tape.
fn montgomery_encode(x: u32) -> u32 {
    let (program, id) = join_program().unwrap();
    let mut p = Prover::new(program, id, ProverOpts::succinct());
    p.add_input_elems(&[x]);
    p.input[0]
}

/// The pair hash of the suite, through a one-step Merkle path.
fn hash_pair(suite: HashSuite, a: &Digest, b: &Digest) -> Digest {
    MerkleProof { index: 0, digests: vec![*b] }.root(a, suite)
}

fn montgomery_reference(x: u32) -> u32 {
    let p = BABY_BEAR_P as u128;
    (((x as u128) % p) * (1u128 << 32) % p) as u32
}

#[test]
fn montgomery_encode_of_small_values() {
    assert_eq!(montgomery_encode(0), 0);
    assert_eq!(montgomery_encode(1), 268435454);
    assert_eq!(montgomery_encode(2), 536870908);
    assert_eq!(montgomery_encode(BABY_BEAR_P), 0);
}

#[test]
fn montgomery_encode_matches_formula() {
    for x in [3u32, 0xffff, 0x1234, 0x10000, BABY_BEAR_P - 1, BABY_BEAR_P + 5, u32::MAX] {
        let r = montgomery_encode(x);
        assert_eq!(r, montgomery_reference(x));
        assert!(r < BABY_BEAR_P);
    }
}

#[test]
fn digest_zero_equals_and_reduced() {
    let z = Digest::zero();
    assert_eq!(z.words, [0u32; 8]);
    assert!(z.is_reduced());
    assert!(z.is_bn254());
    let d = Digest::new([1, 2, 3, 4, 5, 6, 7, 8]);
    assert!(d.equals(&Digest::new([1, 2, 3, 4, 5, 6, 7, 8])));
    assert!(!d.equals(&Digest::new([1, 2, 3, 4, 5, 6, 7, 9])));
    assert!(!d.equals(&z));
    assert_eq!(d.as_words(), &[1, 2, 3, 4, 5, 6, 7, 8]);
}

#[test]
fn digest_reducedness() {
    let mut w = [0u32; 8];
    w[3] = BABY_BEAR_P - 1;
    assert!(Digest::new(w).is_reduced());
    w[5] = BABY_BEAR_P;
    assert!(!Digest::new(w).is_reduced());
}

#[test]
fn digest_bn254_bound() {
    let modulus = [
        0xf0000001u32, 0x43e1f593, 0x79b97091, 0x2833e848, 0x8181585d, 0xb85045b6, 0xe131a029,
        0x30644e72,
    ];
    assert!(!Digest::new(modulus).is_bn254());
    let mut below = modulus;
    below[0] -= 1;
    assert!(Digest::new(below).is_bn254());
    let mut above = modulus;
    above[7] += 1;
    assert!(!Digest::new(above).is_bn254());
    let mut low_top = [0xffff_ffffu32; 8];
    low_top[7] = 0x30644e71;
    assert!(Digest::new(low_top).is_bn254());
}

#[test]
fn hash_acceptance_by_suite() {
    let big = Digest::new([0xffff_ffffu32; 8]);
    assert!(!hash_accepts_digest(HashSuite::Poseidon2, &big));
    assert!(!hash_accepts_digest(HashSuite::Poseidon254, &big));
    assert!(hash_accepts_digest(HashSuite::Sha256, &big));
    assert!(hash_accepts_digest(HashSuite::Blake2b, &big));
}

#[test]
fn hash_suites_by_name() {
    assert_eq!(hash_suite_from_name("sha-256"), Some(HashSuite::Sha256));
    assert_eq!(hash_suite_from_name("poseidon2"), Some(HashSuite::Poseidon2));
    assert_eq!(hash_suite_from_name("blake2b"), Some(HashSuite::Blake2b));
    assert_eq!(hash_suite_from_name("poseidon_254"), Some(HashSuite::Poseidon254));
    assert_eq!(hash_suite_from_name("poseidon"), None);
    assert_eq!(hash_suite_from_name(""), None);
}

#[test]
fn string_equality() {
    assert!(str_equals("poseidon2", "poseidon2"));
    assert!(!str_equals("poseidon2", "poseidon"));
}

#[test]
fn pair_hash_matches_suite_and_order() {
    let a = Digest::new([1, 2, 3, 4, 5, 6, 7, 8]);
    let b = Digest::new([9, 10, 11, 12, 13, 14, 15, 16]);
    let ra: risc0_zkp::core::digest::Digest = a.words.into();
    let rb: risc0_zkp::core::digest::Digest = b.words.into();

    let p2 = risc0_zkp::core::hash::poseidon2::Poseidon2HashSuite::new_suite().hashfn.hash_pair(&ra, &rb);
    let expected: [u32; 8] = (*p2).into();
    let got = hash_pair(HashSuite::Poseidon2, &a, &b);
    assert_eq!(got.words, expected);
    assert!(got.is_reduced());
    assert!(!got.equals(&a) && !got.equals(&b));
    assert!(!hash_pair(HashSuite::Poseidon2, &b, &a).equals(&got));

    let sha = risc0_zkp::core::hash::sha::Sha256HashSuite::<risc0_zkp::field::baby_bear::BabyBear>::new_suite()
        .hashfn
        .hash_pair(&ra, &rb);
    let expected_sha: [u32; 8] = (*sha).into();
    assert_eq!(hash_pair(HashSuite::Sha256, &a, &b).words, expected_sha);
}

#[test]
fn poseidon254_pair_hash_is_canonical() {
    let a = Digest::new([1, 2, 3, 4, 5, 6, 7, 8]);
    let b = Digest::zero();
    let h = hash_pair(HashSuite::Poseidon254, &a, &b);
    assert!(h.is_bn254());
    assert!(!h.equals(&a));
}
