//! Per-strategy tuning parameters for the index structures.

use vstd::prelude::*;

verus! {

/// Tuning parameters of a hierarchical navigable-small-world index.
#[derive(Debug, Clone, Copy, PartialEq, Eq, Structural)]
pub struct HnswConfig {
    /// Size of the dynamic candidate list while building the graph.
    pub ef_construction: usize,
    /// Maximum number of graph edges per node.
    pub max_connections: usize,
}

/// Tuning parameters of an inverted-file index.
#[derive(Debug, Clone, Copy, PartialEq, Eq, Structural)]
pub struct IvfConfig {
    /// Number of coarse-quantizer centroids.
    pub ncentroids: usize,
    /// Number of clustering iterations while training.
    pub niter: usize,
}

/// Tuning parameters of a flat (exhaustive) index.
#[derive(Debug, Clone, Copy, PartialEq, Eq, Structural)]
pub struct FlatConfig {
    /// Dimensionality the flat index is laid out for.
    pub dimension: usize,
}

/// Optional compression of stored vectors.
#[derive(Debug, Clone, PartialEq, Eq)]
pub struct QuantizationConfig {
    /// Bits kept per component.
    pub bits: usize,
    /// Name of the quantizer scheme.
    pub quantizer_type: String,
}

} // verus!
