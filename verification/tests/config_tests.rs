use vecindex::{IndexConfig, IndexType, VectorSimilarityFunction, VectorStoreError};

fn base_config() -> IndexConfig {
    IndexConfig::new(
        "test_index".to_string(),
        "embedding".to_string(),
        VectorSimilarityFunction::Cosine,
        IndexType::BruteForce,
        768,
        1000,
    )
}

#[test]
fn test_valid_config() {
    let config = IndexConfig::new(
        "test_index".to_string(),
        "embedding".to_string(),
        VectorSimilarityFunction::Cosine,
        IndexType::BruteForce,
        768,
        1000,
    );
    assert!(config.validate().is_ok());
}

#[test]
fn test_invalid_index_name() {
    let config = IndexConfig::new(
        "".to_string(),
        "embedding".to_string(),
        VectorSimilarityFunction::Cosine,
        IndexType::BruteForce,
        768,
        1000,
    );
    assert!(config.validate().is_err());
}

#[test]
fn test_invalid_embedding_property() {
    let config = IndexConfig::new(
        "test_index".to_string(),
        "".to_string(),
        VectorSimilarityFunction::Cosine,
        IndexType::BruteForce,
        768,
        1000,
    );
    assert!(config.validate().is_err());
}

#[test]
fn test_invalid_dimensions() {
    let config = IndexConfig::new(
        "test_index".to_string(),
        "embedding".to_string(),
        VectorSimilarityFunction::Cosine,
        IndexType::BruteForce,
        0,
        1000,
    );
    assert!(config.validate().is_err());
}

#[test]
fn test_invalid_max_elements() {
    let config = IndexConfig::new(
        "test_index".to_string(),
        "embedding".to_string(),
        VectorSimilarityFunction::Cosine,
        IndexType::BruteForce,
        768,
        0,
    );
    assert!(config.validate().is_err());
}

#[test]
fn test_invalid_batch_size() {
    let mut config = IndexConfig::new(
        "test_index".to_string(),
        "embedding".to_string(),
        VectorSimilarityFunction::Cosine,
        IndexType::BruteForce,
        768,
        1000,
    );
    config.batch_size = 0;
    assert!(config.validate().is_err());
}

#[test]
fn test_new_fills_documented_defaults() {
    let config = base_config();
    assert_eq!(config.batch_size, 100);
    assert_eq!(config.max_retries, 3);
    assert_eq!(config.retry_delay, 100);
    assert!(config.advanced_config.hnsw.is_none());
    assert!(config.advanced_config.num_threads.is_none());
    assert!(config.advanced_config.max_connections.is_none());
}

#[test]
fn test_validation_reports_first_violation() {
    // an empty index name is reported first even when dimensions are also
    // invalid, per the documented check order
    let mut config = base_config();
    config.index_name = "".to_string();
    config.dimensions = 0;
    let err = config.validate().unwrap_err();
    assert_eq!(
        err,
        VectorStoreError::InvalidConfigurationError("Index name cannot be empty".to_string())
    );
}

#[test]
fn test_validation_error_carries_offending_value() {
    let mut config = base_config();
    config.max_elements = 0;
    assert_eq!(config.validate().unwrap_err(), VectorStoreError::InvalidMaxElements(0));

    let mut config = base_config();
    config.batch_size = 1001;
    assert_eq!(config.validate().unwrap_err(), VectorStoreError::InvalidBatchSize(1001));

    let mut config = base_config();
    config.advanced_config.num_threads = Some(65);
    assert_eq!(config.validate().unwrap_err(), VectorStoreError::InvalidThreadCount(65));

    let mut config = base_config();
    config.embedding_property = "".to_string();
    assert_eq!(
        config.validate().unwrap_err(),
        VectorStoreError::InvalidEmbeddingProperty("".to_string())
    );
}

#[test]
fn test_validation_bounds_are_inclusive() {
    let mut config = base_config();
    config.batch_size = 1000;
    config.max_retries = 10;
    config.advanced_config.max_connections = Some(100);
    config.advanced_config.num_threads = Some(64);
    assert!(config.validate().is_ok());

    config.max_retries = 11;
    assert!(config.validate().is_err());
}

#[test]
fn test_invalid_max_connections() {
    let mut config = base_config();
    config.advanced_config.max_connections = Some(0);
    let err = config.validate().unwrap_err();
    assert!(matches!(err, VectorStoreError::InvalidConfigurationError(_)));
}

#[test]
fn test_only_store_failures_are_retriable() {
    assert!(VectorStoreError::ConnectionError("down".to_string()).is_retriable());
    assert!(VectorStoreError::DatastoreError("oops".to_string()).is_retriable());
    assert!(!VectorStoreError::MissingIdError("x".to_string()).is_retriable());
    assert!(!VectorStoreError::InvalidDataError("x".to_string()).is_retriable());
    assert!(!VectorStoreError::SecureStringError.is_retriable());
}
