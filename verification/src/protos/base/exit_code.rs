//! Variants of the `ExitCode` message.

use vstd::prelude::*;

verus! {

/// How a guest execution ended.
#[derive(Clone, Debug, PartialEq, Eq)]
pub enum Kind {
    Halted(u32),
    Paused(u32),
    SystemSplit,
    SessionLimit,
}

} // verus!
