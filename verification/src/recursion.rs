//! The recursion prover's host-side logic.

pub mod claim;
pub mod control_id;
pub mod digest;
pub mod error;
pub mod field;
pub mod hash;
pub mod merkle;
pub mod program;
pub mod prove;
pub mod prover;
pub mod receipt;
