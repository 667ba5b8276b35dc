//! Zero-knowledge proofs used in pseudonyms.

pub mod blind_dlog_eq;
pub mod dlog_eq;
