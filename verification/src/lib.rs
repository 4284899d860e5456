//! A backend-agnostic vector similarity search engine with pooled connection
//! management, declarative index configuration, filtered hybrid search, and
//! batch mutation with all-or-nothing semantics.
//!
//! The engine keeps every rule it enforces — configuration validation, pool
//! admission accounting, filter construction and evaluation, score ordering,
//! and batch atomicity — in verified code. Network transports, embedding
//! providers and the persistent store are external collaborators: callers hand
//! the engine plain values (query vectors, scored rows, lookup outcomes) and
//! get plain values back.

pub mod config;
pub mod embedding;
pub mod error;
pub mod filter;
pub mod pool;
pub mod search;
pub mod secure_string;
pub mod store;
pub mod types;

pub use config::{AdvancedIndexConfig, IndexConfig, IndexType, VectorSimilarityFunction};
pub use embedding::{EmbeddingError, EmbeddingModel};
pub use error::VectorStoreError;
pub use filter::{FilterBuilder, FilterExpression};
pub use pool::{ConnectionPool, PoolConfig};
pub use search::{QueryPlan, SearchHit, SearchParams, SearchType, VectorIndex};
pub use secure_string::SecureString;
pub use store::{FieldValue, Record, Table};
pub use types::{FlatConfig, HnswConfig, IvfConfig, QuantizationConfig};
