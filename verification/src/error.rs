//! The error taxonomy of the engine.
//!
//! Every externally observable failure is a typed value of [`VectorStoreError`].
//! The variants separate the four situations a caller must be able to tell
//! apart: invalid input or configuration (never retried), a missing record id,
//! a failure of the underlying store or network (the only retriable kind), and
//! data that did not match the shape the caller asked for.

use vstd::prelude::*;

verus! {

/// A typed failure of a pool, index-configuration, or vector-index operation.
#[derive(Debug, Clone, PartialEq, Eq)]
pub enum VectorStoreError {
    /// A pool or index configuration parameter is invalid; reported before any I/O.
    InvalidConfigurationError(String),
    /// The configured embedding property name is invalid (carries the offending name).
    InvalidEmbeddingProperty(String),
    /// The configured maximum element count is invalid (carries the offending count).
    InvalidMaxElements(usize),
    /// The configured batch size is outside the accepted range (carries the offending size).
    InvalidBatchSize(usize),
    /// The configured thread count is outside the accepted range (carries the offending count).
    InvalidThreadCount(usize),
    /// Acquiring or opening a store connection failed.
    ConnectionError(String),
    /// An input to a mutation or search call was empty or oversized.
    InvalidDataError(String),
    /// A mutation targeted a record id that does not exist.
    MissingIdError(String),
    /// The underlying store failed; wraps the native message for diagnosis.
    DatastoreError(String),
    /// A payload did not match the shape the caller requested.
    SerializationError(String),
    /// A secret string holds bytes that are not acceptable secret material.
    SecureStringError,
    /// An embedding's size disagrees with the index's configured dimensionality.
    DimensionMismatch { expected: usize, actual: usize },
}

impl VectorStoreError {
    /// True for the only kind of failure a caller should retry: the
    /// underlying store or the connection path failed, rather than the
    /// caller's own input being rejected.
    pub fn is_retriable(&self) -> (r: bool)
        ensures
            r == (self matches VectorStoreError::ConnectionError(_) || self
                matches VectorStoreError::DatastoreError(_)),
    {
        match self {
            VectorStoreError::ConnectionError(_) => true,
            VectorStoreError::DatastoreError(_) => true,
            _ => false,
        }
    }
}

} // verus!
