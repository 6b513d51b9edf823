//! Variants of the `MaybePruned` message.

use vstd::prelude::*;

use super::messages::Digest;

verus! {

/// Either the encoded value itself or its digest.
#[derive(Clone, Debug, PartialEq, Eq)]
pub enum Kind {
    /// Protobuf encoded bytes of the inner value.
    Value(Vec<u8>),
    Pruned(Digest),
}

} // verus!
