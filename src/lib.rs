//! An embeddable on-disk vector store: records are grouped into clusters by
//! the similarity of each new record to every cluster's representative, and
//! an index maps each id to the cluster that holds its current copy.
//!
//! This library holds the store's rules: the record type, its binary
//! encoding, the on-disk layout, the cluster-assignment policy and the
//! ordered file operations of save and delete, checked against a model of
//! the directory tree. Touching the disk and the floating-point scoring are
//! left to the caller.
pub mod codec;
pub mod engine;
pub mod error;
pub mod laws;
pub mod layout;
pub mod vector;

pub use crate::codec::{decode_vector, encode_vector};
pub use crate::error::PineError;
pub use crate::vector::Vector;
