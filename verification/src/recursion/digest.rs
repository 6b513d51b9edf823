//! Digests of eight 32-bit words.

use vstd::prelude::*;

use super::field::{is_reduced_word, BABY_BEAR_P};

verus! {

/// The number of words in a digest.
pub const DIGEST_WORDS: usize = 8;

/// A digest: eight 32-bit words.
#[derive(Clone, Copy, Debug, PartialEq, Eq)]
pub struct Digest {
    pub words: [u32; 8],
}

impl View for Digest {
    type V = Seq<u32>;

    open spec fn view(&self) -> Seq<u32> {
        self.words@
    }
}

/// Every word of `d` is a reduced field element, as the field hashes require.
pub open spec fn digest_is_reduced(d: Seq<u32>) -> bool {
    forall|i: int| 0 <= i < d.len() ==> is_reduced_word(#[trigger] d[i])
}

/// The BN254 scalar field modulus, as eight little-endian 32-bit words.
pub open spec fn bn254_modulus_words() -> Seq<u32> {
    seq![
        0xf0000001u32,
        0x43e1f593u32,
        0x79b97091u32,
        0x2833e848u32,
        0x8181585du32,
        0xb85045b6u32,
        0xe131a029u32,
        0x30644e72u32,
    ]
}

/// The number whose little-endian words are the first `n` words of `d` is below the one
/// whose words are the first `n` words of `m`: compared from the most significant word.
pub open spec fn words_below(d: Seq<u32>, m: Seq<u32>, n: nat) -> bool
    decreases n,
{
    if n == 0 {
        false
    } else if d[n - 1] < m[n - 1] {
        true
    } else if d[n - 1] > m[n - 1] {
        false
    } else {
        words_below(d, m, (n - 1) as nat)
    }
}

/// The digest, read as a little-endian 256-bit number, is a canonical element of the
/// BN254 scalar field, as Poseidon254 requires of its inputs.
pub open spec fn digest_is_bn254(d: Seq<u32>) -> bool {
    d.len() == 8 && words_below(d, bn254_modulus_words(), 8)
}

/// The lowercase hexadecimal digit for `n < 16`.
pub open spec fn hex_digit(n: int) -> char {
    if n < 10 {
        (n + 48) as char
    } else {
        (n + 87) as char
    }
}

/// The bytes of a digest: each word in little-endian order.
pub open spec fn digest_bytes(d: Seq<u32>) -> Seq<u8>
    decreases d.len(),
{
    if d.len() == 0 {
        Seq::empty()
    } else {
        digest_bytes(d.drop_last()) + word_le_bytes(d.last())
    }
}

/// The four bytes of a word, least significant first.
pub open spec fn word_le_bytes(w: u32) -> Seq<u8> {
    seq![(w & 0xff) as u8, ((w >> 8u32) & 0xff) as u8, ((w >> 16u32) & 0xff) as u8, (w >> 24u32) as u8]
}

/// Two lowercase hexadecimal digits per byte, in order.
pub open spec fn hex_of_bytes(b: Seq<u8>) -> Seq<char>
    decreases b.len(),
{
    if b.len() == 0 {
        Seq::empty()
    } else {
        hex_of_bytes(b.drop_last()) + seq![hex_digit((b.last() / 16) as int), hex_digit((b.last() % 16) as int)]
    }
}

/// How a digest is displayed: the hexadecimal digits of its bytes.
pub open spec fn digest_display(d: Seq<u32>) -> Seq<char> {
    hex_of_bytes(digest_bytes(d))
}

/// The all-zero digest.
pub open spec fn zero_digest() -> Seq<u32> {
    Seq::new(8, |i: int| 0u32)
}

impl Digest {
    /// The digest whose words are all zero.
    pub fn zero() -> (d: Digest)
        ensures
            d@ == zero_digest(),
            digest_is_reduced(d@),
            digest_is_bn254(d@),
    {
        reveal_with_fuel(words_below, 9);
        let d = Digest { words: [0u32, 0u32, 0u32, 0u32, 0u32, 0u32, 0u32, 0u32] };
        assert(d@ =~= zero_digest());
        d
    }

    /// Builds a digest from its words.
    pub fn new(words: [u32; 8]) -> (d: Digest)
        ensures
            d@ == words@,
    {
        Digest { words }
    }

    /// The words of the digest, in order.
    pub fn as_words(&self) -> (w: &[u32])
        ensures
            w@ == self@,
    {
        self.words.as_slice()
    }

    /// The digest in hexadecimal, as it is displayed.
    ///
    /// Trusted: `Display` of `risc0_zkp::core::digest::Digest`, which writes
    /// `hex::encode` of the digest's bytes, the words in little-endian order, in lowercase.
    #[verifier::external_body]
    pub fn to_hex(&self) -> (s: String)
        ensures
            s@ == digest_display(self@),
    {
        risc0_zkp::core::digest::Digest::from(self.words).to_string()
    }

    /// Whether the two digests hold the same words.
    pub fn equals(&self, other: &Digest) -> (r: bool)
        ensures
            r == (self@ == other@),
    {
        let mut i: usize = 0;
        while i < 8
            invariant
                0 <= i <= 8,
                self@.len() == 8,
                other@.len() == 8,
                forall|j: int| 0 <= j < i ==> self@[j] == other@[j],
            decreases 8 - i,
        {
            if self.words[i] != other.words[i] {
                return false;
            }
            i = i + 1;
        }
        assert(self@ =~= other@);
        true
    }

    /// Whether every word of the digest is a reduced field element.
    pub fn is_reduced(&self) -> (r: bool)
        ensures
            r == digest_is_reduced(self@),
    {
        let mut i: usize = 0;
        while i < 8
            invariant
                0 <= i <= 8,
                self@.len() == 8,
                forall|j: int| 0 <= j < i ==> is_reduced_word(#[trigger] self@[j]),
            decreases 8 - i,
        {
            if self.words[i] >= BABY_BEAR_P {
                return false;
            }
            i = i + 1;
        }
        true
    }

    /// Whether the digest, read as a little-endian number, is below the BN254 modulus.
    pub fn is_bn254(&self) -> (r: bool)
        ensures
            r == digest_is_bn254(self@),
    {
        let m: [u32; 8] = [
            0xf0000001u32,
            0x43e1f593u32,
            0x79b97091u32,
            0x2833e848u32,
            0x8181585du32,
            0xb85045b6u32,
            0xe131a029u32,
            0x30644e72u32,
        ];
        assert(m@ =~= bn254_modulus_words());
        let mut n: usize = 8;
        while n > 0
            invariant
                0 <= n <= 8,
                self@.len() == 8,
                m@ == bn254_modulus_words(),
                words_below(self@, m@, 8) == words_below(self@, m@, n as nat),
            decreases n,
        {
            let a = self.words[n - 1];
            let b = m[n - 1];
            if a < b {
                return true;
            }
            if a > b {
                return false;
            }
            n = n - 1;
        }
        false
    }
}

} // verus!
