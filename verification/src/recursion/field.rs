//! The BabyBear field as the recursion circuit reads it: elements are written to the
//! input tape in Montgomery form.

use vstd::prelude::*;

verus! {

/// The BabyBear prime, 15 * 2^27 + 1.
pub const BABY_BEAR_P: u32 = 2013265921;

/// A word that is a reduced field element.
pub open spec fn is_reduced_word(w: u32) -> bool {
    w < BABY_BEAR_P
}

/// The Montgomery form (with R = 2^32) of the field element `x mod P`.
pub open spec fn montgomery_form(x: u32) -> int {
    ((x as int % BABY_BEAR_P as int) * 0x1_0000_0000) % (BABY_BEAR_P as int)
}

/// Encodes `x` as a BabyBear field element and returns the word that stands for it
/// in memory, its Montgomery form.
///
/// Trusted: `risc0_core::field::baby_bear::Elem::new` reduces `x` modulo P and
/// encodes it by a Montgomery multiplication with R^2 mod P; `as_u32_montgomery`
/// returns that word. The contract claims the resulting word is `(x mod P) * 2^32 mod P`.
#[verifier::external_body]
pub(crate) fn montgomery_encode(x: u32) -> (r: u32)
    ensures
        r == montgomery_form(x),
        is_reduced_word(r),
{
    risc0_zkp::field::baby_bear::BabyBearElem::new(x).as_u32_montgomery()
}

} // verus!
