use vecindex::embedding::{check_batch_input, check_embed_input};
use vecindex::{EmbeddingError, EmbeddingModel, SecureString};

fn local_model(dimensions: usize) -> EmbeddingModel {
    EmbeddingModel::Local {
        model_path: "/models/all-MiniLM-L6-v2".to_string(),
        device: "cpu".to_string(),
        batch_size: 16,
        dimensions,
    }
}

#[test]
fn test_dimensions_reads_the_declaration() {
    assert_eq!(local_model(384).dimensions(), 384);
    let hosted = EmbeddingModel::OpenAI {
        api_key: SecureString::new("test-api-key"),
        model_name: "text-embedding-ada-002".to_string(),
        organization: None,
        timeout: Some(30),
        dimensions: 1536,
    };
    assert_eq!(hosted.dimensions(), 1536);
}

#[test]
fn test_validate_dimensions() {
    let model = local_model(384);
    assert!(model.validate_dimensions(384).is_ok());
    assert_eq!(
        model.validate_dimensions(512).unwrap_err(),
        EmbeddingError::DimensionMismatch { expected: 512, actual: 384 }
    );
}

#[test]
fn test_embed_input_is_checked_before_any_request() {
    assert!(check_embed_input("some text").is_ok());
    assert!(matches!(check_embed_input("").unwrap_err(), EmbeddingError::InvalidInput(_)));

    assert!(check_batch_input(&vec!["one".to_string()]).is_ok());
    assert!(matches!(check_batch_input(&Vec::new()).unwrap_err(), EmbeddingError::InvalidInput(_)));
}
