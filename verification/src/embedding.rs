//! The embedding-provider capability, as the engine sees it.
//!
//! The engine never calls a provider's network API itself: a driver performs
//! the HTTP call and hands the engine the resulting vector as plain values.
//! What the engine does own is the provider's description — which provider,
//! which model, the credential, the declared dimensionality — and every
//! decision that needs no network: rejecting empty input before any request
//! is made, and holding a declared dimensionality against the index's.

use crate::secure_string::SecureString;
use vstd::prelude::*;

verus! {

/// A typed failure of an embedding provider or of the input handed to it.
#[derive(Debug, Clone, PartialEq, Eq)]
pub enum EmbeddingError {
    /// The provider's API reported a failure.
    ApiError(String),
    /// The provider's response was not in the expected shape.
    InvalidResponse(String),
    /// The provider rejected the credential.
    AuthError(String),
    /// The provider throttled the request.
    RateLimitError(String),
    /// The input was rejected before any request was made.
    InvalidInput(String),
    /// The named model is not available.
    ModelNotSupported(String),
    /// A batch request failed.
    BatchError(String),
    /// A locally hosted model failed.
    LocalModelError(String),
    /// The embedding's size disagrees with what was declared.
    DimensionMismatch { expected: usize, actual: usize },
    /// The provider description itself is invalid.
    ConfigurationError(String),
}

/// The description of one embedding provider.
///
/// Each variant carries exactly what that provider needs; none holds a
/// network handle — the driver owns those. Like the credential it carries,
/// the description has no `Debug`: a secret never reaches default
/// formatting.
#[derive(Clone)]
pub enum EmbeddingModel {
    /// A hosted completion-API provider.
    OpenAI {
        /// The API credential.
        api_key: SecureString,
        /// The model to request embeddings from.
        model_name: String,
        /// The organization to bill, when set.
        organization: Option<String>,
        /// Request timeout in seconds, when set.
        timeout: Option<u64>,
        /// The dimensionality the model produces.
        dimensions: usize,
    },
    /// A hosted inference-API provider.
    HuggingFace {
        /// The API credential.
        api_key: SecureString,
        /// The model to request embeddings from.
        model_name: String,
        /// Whether to wait for a cold model to load.
        wait_for_model: bool,
        /// Whether to request GPU inference.
        use_gpu: bool,
        /// The dimensionality the model produces.
        dimensions: usize,
    },
    /// A hosted embedding-API provider.
    Cohere {
        /// The API credential.
        api_key: SecureString,
        /// The model to request embeddings from.
        model_name: String,
        /// The truncation strategy, when set.
        truncate: Option<String>,
        /// The dimensionality the model produces.
        dimensions: usize,
    },
    /// A model run on this machine.
    Local {
        /// Where the model weights live.
        model_path: String,
        /// The device to run on.
        device: String,
        /// How many texts to embed per batch.
        batch_size: usize,
        /// The dimensionality the model produces.
        dimensions: usize,
    },
}

impl EmbeddingModel {
    /// The dimensionality the provider declares.
    pub open spec fn spec_dimensions(&self) -> usize {
        match self {
            EmbeddingModel::OpenAI { dimensions, .. } => *dimensions,
            EmbeddingModel::HuggingFace { dimensions, .. } => *dimensions,
            EmbeddingModel::Cohere { dimensions, .. } => *dimensions,
            EmbeddingModel::Local { dimensions, .. } => *dimensions,
        }
    }

    /// Reads the declared dimensionality.
    pub fn dimensions(&self) -> (r: usize)
        ensures
            r == self.spec_dimensions(),
    {
        match self {
            EmbeddingModel::OpenAI { dimensions, .. } => *dimensions,
            EmbeddingModel::HuggingFace { dimensions, .. } => *dimensions,
            EmbeddingModel::Cohere { dimensions, .. } => *dimensions,
            EmbeddingModel::Local { dimensions, .. } => *dimensions,
        }
    }

    /// Holds the declared dimensionality against an expected one.
    ///
    /// Fails with a dimension-mismatch error naming both sizes iff they
    /// disagree.
    pub fn validate_dimensions(&self, expected: usize) -> (r: Result<(), EmbeddingError>)
        ensures
            r is Ok <==> self.spec_dimensions() == expected,
            self.spec_dimensions() != expected ==> r == Err::<(), _>(
                EmbeddingError::DimensionMismatch { expected, actual: self.spec_dimensions() },
            ),
    {
        let actual = self.dimensions();
        if actual != expected {
            return Err(EmbeddingError::DimensionMismatch { expected, actual });
        }
        Ok(())
    }
}

/// Rejects input that must never reach a provider: empty text.
///
/// The driver calls this before issuing a single-text embedding request, so
/// the rejection happens before any network traffic.
pub fn check_embed_input(text: &str) -> (r: Result<(), EmbeddingError>)
    ensures
        r is Ok <==> text@.len() > 0,
        text@.len() == 0 ==> (r matches Err(EmbeddingError::InvalidInput(m)) && m@
            == "Text cannot be empty"@),
{
    if text.is_empty() {
        return Err(EmbeddingError::InvalidInput("Text cannot be empty".to_owned()));
    }
    Ok(())
}

/// Rejects batch input that must never reach a provider: an empty list.
pub fn check_batch_input(texts: &Vec<String>) -> (r: Result<(), EmbeddingError>)
    ensures
        r is Ok <==> texts@.len() > 0,
        texts@.len() == 0 ==> (r matches Err(EmbeddingError::InvalidInput(m)) && m@
            == "Texts cannot be empty"@),
{
    if texts.len() == 0 {
        return Err(EmbeddingError::InvalidInput("Texts cannot be empty".to_owned()));
    }
    Ok(())
}

} // verus!
