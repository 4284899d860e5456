use vecindex::filter::parse_literal;
use vecindex::filter::LiteralValue;
use vecindex::{FilterBuilder, VectorStoreError};

#[test]
fn test_filter_builds_with_all_parts() {
    let filter = FilterBuilder::new().field("category").operator("=").value("'A'").build();
    assert!(filter.is_ok());
}

#[test]
fn test_filter_build_fails_without_field() {
    let filter = FilterBuilder::new().operator("=").value("'A'").build();
    assert!(matches!(filter.unwrap_err(), VectorStoreError::InvalidDataError(_)));
}

#[test]
fn test_filter_build_fails_without_operator() {
    let filter = FilterBuilder::new().field("category").value("'A'").build();
    assert!(matches!(filter.unwrap_err(), VectorStoreError::InvalidDataError(_)));
}

#[test]
fn test_filter_build_fails_without_value() {
    let filter = FilterBuilder::new().field("category").operator("=").build();
    assert!(matches!(filter.unwrap_err(), VectorStoreError::InvalidDataError(_)));
}

#[test]
fn test_filter_rejects_unterminated_text_literal() {
    // a quoted literal missing its closing quote is unparsable
    let filter = FilterBuilder::new().field("invalid_field").operator("=").value("'value").build();
    assert!(matches!(filter.unwrap_err(), VectorStoreError::InvalidDataError(_)));
}

#[test]
fn test_filter_rejects_unknown_operator() {
    let filter = FilterBuilder::new().field("category").operator("~").value("'A'").build();
    assert!(matches!(filter.unwrap_err(), VectorStoreError::InvalidDataError(_)));
}

#[test]
fn test_filter_accepts_every_comparison_operator() {
    for op in ["=", "!=", "<", "<=", ">", ">="] {
        let filter = FilterBuilder::new().field("value").operator(op).value("25").build();
        assert!(filter.is_ok());
    }
}

#[test]
fn test_filter_renders_as_clause() {
    let filter =
        FilterBuilder::new().field("category").operator("=").value("'A'").build().unwrap();
    assert_eq!(filter.to_clause(), "category = 'A'");

    let filter = FilterBuilder::new().field("value").operator("<").value("25").build().unwrap();
    assert_eq!(filter.to_clause(), "value < 25");
}

#[test]
fn test_literal_grammar() {
    assert_eq!(parse_literal("'A'"), Some(LiteralValue::Text("A".to_string())));
    assert_eq!(parse_literal("''"), Some(LiteralValue::Text("".to_string())));
    assert_eq!(parse_literal("25"), Some(LiteralValue::Integer(25)));
    assert_eq!(parse_literal("-17"), Some(LiteralValue::Integer(-17)));
    assert_eq!(parse_literal("999999999999999999"), Some(LiteralValue::Integer(999999999999999999)));
    assert_eq!(parse_literal("'it''s'"), None);
    assert_eq!(parse_literal("'open"), None);
    assert_eq!(parse_literal(""), None);
    assert_eq!(parse_literal("12x"), None);
    assert_eq!(parse_literal("-"), None);
    assert_eq!(parse_literal("1234567890123456789"), None);
}
