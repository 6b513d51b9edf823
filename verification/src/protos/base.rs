//! Shared protobuf messages referred to by the receipt messages.

pub mod exit_code;

use vstd::prelude::*;

verus! {

/// Version marker for compatibility checks of serialized receipts.
#[derive(Clone, Debug, PartialEq, Eq, Default)]
pub struct CompatVersion {
    pub value: u32,
}

/// The exit code of a guest execution.
#[derive(Clone, Debug, PartialEq, Eq, Default)]
pub struct ExitCode {
    pub kind: Option<exit_code::Kind>,
}

} // verus!
