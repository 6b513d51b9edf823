//! Variants of the `InnerReceipt` message.

use vstd::prelude::*;

use super::messages::{CompositeReceipt, FakeReceipt, Groth16Receipt, SuccinctReceipt};

verus! {

/// The form of the proof that an inner receipt carries.
#[derive(Debug, PartialEq, Eq)]
pub enum Kind {
    Composite(CompositeReceipt),
    Succinct(SuccinctReceipt),
    Fake(FakeReceipt),
    Groth16(Groth16Receipt),
}

} // verus!
