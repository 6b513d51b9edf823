//! The hash functions that combine two digests into one, by hash suite name.

use vstd::prelude::*;


use super::digest::{digest_is_bn254, digest_is_reduced, Digest};

verus! {

/// The hash suites whose pair hash the recursion prover uses for Merkle trees.
#[derive(Clone, Copy, Debug, PartialEq, Eq, Structural)]
pub enum HashSuite {
    Sha256,
    Poseidon2,
    Blake2b,
    Poseidon254,
}

/// The suite that a hash function name selects, if any.
pub open spec fn suite_for_name(name: Seq<char>) -> Option<HashSuite> {
    if name == "sha-256"@ {
        Some(HashSuite::Sha256)
    } else if name == "poseidon2"@ {
        Some(HashSuite::Poseidon2)
    } else if name == "blake2b"@ {
        Some(HashSuite::Blake2b)
    } else if name == "poseidon_254"@ {
        Some(HashSuite::Poseidon254)
    } else {
        None
    }
}

/// Whether two strings hold the same characters.
pub fn str_equals(a: &str, b: &str) -> (r: bool)
    ensures
        r == (a@ == b@),
{
    let x = a.to_owned();
    let y = b.to_owned();
    x == y
}

/// The hash suite of the given name: `sha-256`, `poseidon2`, `blake2b` or `poseidon_254`.
pub fn hash_suite_from_name(name: &str) -> (r: Option<HashSuite>)
    ensures
        r == suite_for_name(name@),
{
    if str_equals(name, "sha-256") {
        Some(HashSuite::Sha256)
    } else if str_equals(name, "poseidon2") {
        Some(HashSuite::Poseidon2)
    } else if str_equals(name, "blake2b") {
        Some(HashSuite::Blake2b)
    } else if str_equals(name, "poseidon_254") {
        Some(HashSuite::Poseidon254)
    } else {
        None
    }
}

/// What a suite's pair hash gives for two digests, taken by their words.
pub uninterp spec fn pair_hash(suite: HashSuite, a: Seq<u32>, b: Seq<u32>) -> Seq<u32>;

/// Whether a digest may be handed to the suite's pair hash: Poseidon2 asserts that
/// both digests consist of reduced BabyBear elements, and Poseidon254 unwraps their
/// conversion to BN254 field elements, which fails for numbers not below the modulus.
pub open spec fn hash_accepts(suite: HashSuite, d: Seq<u32>) -> bool {
    &&& suite == HashSuite::Poseidon2 ==> digest_is_reduced(d)
    &&& suite == HashSuite::Poseidon254 ==> digest_is_bn254(d)
}

/// Whether the suite's pair hash takes the digest.
pub fn hash_accepts_digest(suite: HashSuite, d: &Digest) -> (r: bool)
    ensures
        r == hash_accepts(suite, d@),
{
    match suite {
        HashSuite::Poseidon2 => d.is_reduced(),
        HashSuite::Poseidon254 => d.is_bn254(),
        _ => true,
    }
}

/// Combines two digests with the suite's pair hash.
///
/// Trusted: calls `HashFn::hash_pair` of the `risc0_zkp` hash suite for `suite`. The
/// contract names the result as `pair_hash(suite, a, b)`, and claims that Poseidon2
/// returns reduced BabyBear elements (in Montgomery form) and Poseidon254 a canonical
/// BN254 element (the little-endian representation of a field element).
#[verifier::external_body]
pub(crate) fn hash_pair(suite: HashSuite, a: &Digest, b: &Digest) -> (r: Digest)
    requires
        hash_accepts(suite, a@),
        hash_accepts(suite, b@),
    ensures
        r@ == pair_hash(suite, a@, b@),
        r@.len() == 8,
        hash_accepts(suite, r@),
{
    let hs = match suite {
        HashSuite::Sha256 => risc0_zkp::core::hash::sha::Sha256HashSuite::new_suite(),
        HashSuite::Poseidon2 => risc0_zkp::core::hash::poseidon2::Poseidon2HashSuite::new_suite(),
        HashSuite::Blake2b => risc0_zkp::core::hash::blake2b::Blake2bCpuHashSuite::new_suite(),
        HashSuite::Poseidon254 => risc0_zkp::core::hash::poseidon_254::Poseidon254HashSuite::new_suite(),
    };
    let out = hs.hashfn.hash_pair(&a.words.into(), &b.words.into());
    Digest { words: (*out).into() }
}

/// The name `poseidon2` selects the Poseidon2 suite.
pub proof fn lemma_poseidon2_suite()
    ensures
        suite_for_name("poseidon2"@) == Some(HashSuite::Poseidon2),
{
    reveal_strlit("sha-256");
    reveal_strlit("poseidon2");
    assert("poseidon2"@[0] != "sha-256"@[0]);
}

} // verus!
