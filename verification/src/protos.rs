//! Protobuf message types for proofs, receipts and receipt claims.

pub mod base;
pub mod messages;
pub mod inner_receipt;
pub mod maybe_pruned;
