//! Declarative description of a vector index, and its validation.
//!
//! An [`IndexConfig`] is constructed once per index and immutable thereafter;
//! reconfiguration builds a fresh value. [`IndexConfig::validate`] runs the
//! invariant checks in a fixed, documented order and returns the *first*
//! violation found, so callers and tests can rely on which error is reported
//! when several fields are invalid at once.

use crate::error::VectorStoreError;
use crate::types::{FlatConfig, HnswConfig, IvfConfig, QuantizationConfig};
use vstd::prelude::*;

verus! {

/// The similarity metric a vector index ranks by.
#[derive(Debug, Clone, Copy, PartialEq, Eq, Structural)]
pub enum VectorSimilarityFunction {
    /// Angle-based similarity; equal to the dot product on unit-scaled vectors.
    Cosine,
    /// Similarity decreasing with straight-line distance.
    Euclidean,
    /// Inner product of the two vectors.
    DotProduct,
    /// Similarity decreasing with coordinate-wise (taxicab) distance.
    Manhattan,
    /// Ratio of the component-wise minimum sum to the maximum sum.
    Jaccard,
    /// Similarity decreasing with the number of differing components.
    Hamming,
}

/// The structural strategy of a vector index; each variant carries exactly
/// the parameters meaningful to that strategy.
#[derive(Debug, Clone, PartialEq, Eq)]
pub enum IndexType {
    /// Graph-based approximate index.
    HNSW(HnswConfig),
    /// Inverted-file approximate index.
    IVF(IvfConfig),
    /// Flat exhaustive index.
    Flat(FlatConfig),
    /// No index structure: every query scans all rows.
    BruteForce,
}

/// Optional tuning knobs, each with a backend-chosen default when absent.
#[derive(Debug, Clone, PartialEq, Eq)]
pub struct AdvancedIndexConfig {
    /// Graph-index tuning, when the strategy is HNSW.
    pub hnsw: Option<HnswConfig>,
    /// Inverted-file tuning, when the strategy is IVF.
    pub ivf: Option<IvfConfig>,
    /// Flat-index tuning, when the strategy is Flat.
    pub flat: Option<FlatConfig>,
    /// Vector compression, when enabled.
    pub quantization: Option<QuantizationConfig>,
    /// Worker threads used while building; accepted range is 1 to 64.
    pub num_threads: Option<usize>,
    /// Whether deleted elements may be replaced in place.
    pub allow_replace_deleted: Option<bool>,
    /// Upper bound on index connections; accepted range is 1 to 100.
    pub max_connections: Option<usize>,
    /// Lower bound on index connections.
    pub min_connections: Option<usize>,
}

/// Configuration for a vector index: identity, metric, structure and
/// operational tuning.
#[derive(Debug, Clone)]
pub struct IndexConfig {
    /// Name of the index.
    pub index_name: String,
    /// Record property holding the embeddings.
    pub embedding_property: String,
    /// Similarity metric to rank by.
    pub similarity_function: VectorSimilarityFunction,
    /// Structural strategy of the index.
    pub index_type: IndexType,
    /// Dimensionality of the embeddings.
    pub dimensions: usize,
    /// Maximum number of elements in the index.
    pub max_elements: usize,
    /// Optional tuning knobs.
    pub advanced_config: AdvancedIndexConfig,
    /// Number of records per mutation batch; accepted range is 1 to 1000.
    pub batch_size: usize,
    /// Maximum number of retries for an operation; at most 10.
    pub max_retries: usize,
    /// Delay between retries, in milliseconds.
    pub retry_delay: u64,
}

impl IndexConfig {
    /// The index name is non-empty.
    pub open spec fn name_ok(&self) -> bool {
        self.index_name@.len() > 0
    }

    /// The embedding property name is non-empty.
    pub open spec fn property_ok(&self) -> bool {
        self.embedding_property@.len() > 0
    }

    /// The dimensionality is positive.
    pub open spec fn dimensions_ok(&self) -> bool {
        self.dimensions > 0
    }

    /// The element capacity is positive.
    pub open spec fn max_elements_ok(&self) -> bool {
        self.max_elements > 0
    }

    /// The batch size lies in the accepted range.
    pub open spec fn batch_size_ok(&self) -> bool {
        1 <= self.batch_size <= 1000
    }

    /// The retry bound lies in the accepted range.
    pub open spec fn retries_ok(&self) -> bool {
        self.max_retries <= 10
    }

    /// The connection bound, when present, lies in the accepted range.
    pub open spec fn connections_ok(&self) -> bool {
        match self.advanced_config.max_connections {
            Option::None => true,
            Option::Some(c) => 1 <= c <= 100,
        }
    }

    /// The thread count, when present, lies in the accepted range.
    pub open spec fn threads_ok(&self) -> bool {
        match self.advanced_config.num_threads {
            Option::None => true,
            Option::Some(t) => 1 <= t <= 64,
        }
    }

    /// The whole configuration invariant: every check of
    /// [`validate`](Self::validate) passes.
    pub open spec fn valid(&self) -> bool {
        &&& self.name_ok()
        &&& self.property_ok()
        &&& self.dimensions_ok()
        &&& self.max_elements_ok()
        &&& self.batch_size_ok()
        &&& self.retries_ok()
        &&& self.connections_ok()
        &&& self.threads_ok()
    }

    /// Creates a configuration with default operational tuning: batches of
    /// 100 records, at most 3 retries 100 ms apart, and no advanced knobs.
    pub fn new(
        index_name: String,
        embedding_property: String,
        similarity_function: VectorSimilarityFunction,
        index_type: IndexType,
        dimensions: usize,
        max_elements: usize,
    ) -> (r: IndexConfig)
        ensures
            r.index_name == index_name,
            r.embedding_property == embedding_property,
            r.similarity_function == similarity_function,
            r.index_type == index_type,
            r.dimensions == dimensions,
            r.max_elements == max_elements,
            r.batch_size == 100,
            r.max_retries == 3,
            r.retry_delay == 100,
            r.advanced_config.hnsw is None,
            r.advanced_config.ivf is None,
            r.advanced_config.flat is None,
            r.advanced_config.quantization is None,
            r.advanced_config.num_threads is None,
            r.advanced_config.allow_replace_deleted is None,
            r.advanced_config.max_connections is None,
            r.advanced_config.min_connections is None,
    {
        IndexConfig {
            index_name,
            embedding_property,
            similarity_function,
            index_type,
            dimensions,
            max_elements,
            batch_size: 100,
            max_retries: 3,
            retry_delay: 100,
            advanced_config: AdvancedIndexConfig {
                hnsw: None,
                ivf: None,
                flat: None,
                quantization: None,
                num_threads: None,
                allow_replace_deleted: None,
                max_connections: None,
                min_connections: None,
            },
        }
    }

    /// Runs the invariant checks in a fixed order — name, property,
    /// dimensions, capacity, batch size, retries, connection bound, thread
    /// count — and returns the first violation found. Which error is reported
    /// for a given field is independent of the other fields' validity.
    pub fn validate(&self) -> (r: Result<(), VectorStoreError>)
        ensures
            r is Ok <==> self.valid(),
            !self.name_ok() ==> (r matches Err(VectorStoreError::InvalidConfigurationError(m))
                && m@ == "Index name cannot be empty"@),
            self.name_ok() && !self.property_ok() ==> (r matches Err(
                VectorStoreError::InvalidEmbeddingProperty(p),
            ) && p == self.embedding_property),
            self.name_ok() && self.property_ok() && !self.dimensions_ok() ==> (r matches Err(
                VectorStoreError::InvalidConfigurationError(m),
            ) && m@ == "Dimensions must be greater than 0"@),
            self.name_ok() && self.property_ok() && self.dimensions_ok() && !self.max_elements_ok()
                ==> r == Err::<(), _>(VectorStoreError::InvalidMaxElements(self.max_elements)),
            self.name_ok() && self.property_ok() && self.dimensions_ok() && self.max_elements_ok()
                && !self.batch_size_ok() ==> r == Err::<(), _>(
                VectorStoreError::InvalidBatchSize(self.batch_size),
            ),
            self.name_ok() && self.property_ok() && self.dimensions_ok() && self.max_elements_ok()
                && self.batch_size_ok() && !self.retries_ok() ==> (r matches Err(
                VectorStoreError::InvalidConfigurationError(m),
            ) && m@ == "Max retries cannot exceed 10"@),
            self.name_ok() && self.property_ok() && self.dimensions_ok() && self.max_elements_ok()
                && self.batch_size_ok() && self.retries_ok() && !self.connections_ok() ==> (
            r matches Err(VectorStoreError::InvalidConfigurationError(m)) && m@
                == "Max connections must be between 1 and 100"@),
            self.name_ok() && self.property_ok() && self.dimensions_ok() && self.max_elements_ok()
                && self.batch_size_ok() && self.retries_ok() && self.connections_ok()
                && !self.threads_ok() ==> r == Err::<(), _>(
                VectorStoreError::InvalidThreadCount(
                    self.advanced_config.num_threads.unwrap_or(0),
                ),
            ),
    {
        if self.index_name.as_str().is_empty() {
            return Err(
                VectorStoreError::InvalidConfigurationError(
                    "Index name cannot be empty".to_owned(),
                ),
            );
        }
        if self.embedding_property.as_str().is_empty() {
            return Err(VectorStoreError::InvalidEmbeddingProperty(self.embedding_property.clone()));
        }
        if self.dimensions == 0 {
            return Err(
                VectorStoreError::InvalidConfigurationError(
                    "Dimensions must be greater than 0".to_owned(),
                ),
            );
        }
        if self.max_elements == 0 {
            return Err(VectorStoreError::InvalidMaxElements(self.max_elements));
        }
        if self.batch_size == 0 || self.batch_size > 1000 {
            return Err(VectorStoreError::InvalidBatchSize(self.batch_size));
        }
        if self.max_retries > 10 {
            return Err(
                VectorStoreError::InvalidConfigurationError("Max retries cannot exceed 10".to_owned()),
            );
        }
        if let Some(conns) = self.advanced_config.max_connections {
            if conns == 0 || conns > 100 {
                return Err(
                    VectorStoreError::InvalidConfigurationError(
                        "Max connections must be between 1 and 100".to_owned(),
                    ),
                );
            }
        }
        if let Some(threads) = self.advanced_config.num_threads {
            if threads == 0 || threads > 64 {
                return Err(VectorStoreError::InvalidThreadCount(threads));
            }
        }
        Ok(())
    }
}

} // verus!
