use vecindex::{FieldValue, Table, VectorStoreError};

fn table_with(ids: &[&str]) -> Table {
    let mut table = Table::new("test_table", 2).unwrap();
    for id in ids {
        table.create_vector(id, vec![100_000, 200_000], "test data", Vec::new()).unwrap();
    }
    table
}

fn id_present(table: &Table, id: &str) -> bool {
    matches!(table.read_vector(id), Ok(Some(_)))
}

#[test]
fn test_table_creation_validates_its_input() {
    assert!(Table::new("test_table", 2).is_ok());
    assert!(matches!(Table::new("", 2), Err(VectorStoreError::InvalidDataError(_))));
    assert!(matches!(Table::new("test_table", 0), Err(VectorStoreError::InvalidDataError(_))));
    assert!(matches!(Table::new("test_table", 5000), Err(VectorStoreError::InvalidDataError(_))));
}

#[test]
fn test_create_rejects_duplicate_ids() {
    let mut table = table_with(&["test1"]);
    let result = table.create_vector("test1", vec![1, 2], "other data", Vec::new());
    assert!(matches!(result.unwrap_err(), VectorStoreError::InvalidDataError(_)));
    assert_eq!(table.len(), 1);
}

#[test]
fn test_create_rejects_wrong_dimensionality() {
    let mut table = table_with(&[]);
    let result = table.create_vector("test1", vec![1, 2, 3], "test data", Vec::new());
    assert!(matches!(
        result.unwrap_err(),
        VectorStoreError::DimensionMismatch { expected: 2, actual: 3 }
    ));
}

#[test]
fn test_create_rejects_oversized_components() {
    let mut table = table_with(&[]);
    let result = table.create_vector("test1", vec![1, 2_000_000], "test data", Vec::new());
    assert!(matches!(result.unwrap_err(), VectorStoreError::InvalidDataError(_)));
}

#[test]
fn test_missing_id_semantics() {
    // deleting a missing id is an error; reading one is a successful None
    let mut table = table_with(&["test1"]);

    let result = table.delete_embedding("does-not-exist");
    assert!(matches!(
        result.unwrap_err(),
        VectorStoreError::MissingIdError(id) if id == "does-not-exist"
    ));

    let read = table.read_vector("does-not-exist");
    assert!(matches!(read, Ok(None)));
}

#[test]
fn test_delete() {
    let mut table = table_with(&["test1"]);
    assert!(id_present(&table, "test1"));

    table.delete_embedding("test1").unwrap();
    assert!(!id_present(&table, "test1"));

    let result = table.delete_embedding("non_existent");
    assert!(result.is_err());
    assert!(matches!(result.unwrap_err(), VectorStoreError::MissingIdError(_)));
}

#[test]
fn test_batch_delete() {
    let mut table = table_with(&["test1", "test2", "test3"]);

    table
        .delete_batch(&vec!["test1".to_string(), "test2".to_string(), "test3".to_string()])
        .unwrap();
    for id in ["test1", "test2", "test3"] {
        assert!(!id_present(&table, id));
    }

    let mut table = table_with(&["test4"]);
    let result = table.delete_batch(&vec!["test4".to_string(), "non_existent".to_string()]);
    assert!(result.is_err());
    assert!(matches!(result.unwrap_err(), VectorStoreError::MissingIdError(_)));
}

#[test]
fn test_delete_transaction_rollback() {
    // a batch with one missing id deletes nothing at all
    let mut table = table_with(&["test1", "test2", "test3"]);

    let result = table.delete_batch(&vec!["test1".to_string(), "non_existent".to_string()]);
    assert!(result.is_err());

    for id in ["test1", "test2", "test3"] {
        assert!(id_present(&table, id));
    }
}

#[test]
fn test_update() {
    let mut table = table_with(&["test1"]);

    let result = table.update_embedding("", "data", None);
    assert!(matches!(result.unwrap_err(), VectorStoreError::InvalidDataError(_)));

    let result = table.update_embedding("test1", "data", Some(vec![]));
    assert!(matches!(result.unwrap_err(), VectorStoreError::InvalidDataError(_)));

    let large_embedding = vec![0i64; 100000];
    let result = table.update_embedding("test1", "data", Some(large_embedding));
    assert!(matches!(result.unwrap_err(), VectorStoreError::InvalidDataError(_)));

    let special_metadata = "test data with special chars: !@#$%^&*()";
    table.update_embedding("test1", special_metadata, None).unwrap();
    let record = table.read_vector("test1").unwrap().unwrap();
    assert_eq!(record.metadata, special_metadata);

    let result = table.update_embedding("non_existent", "data", None);
    assert!(matches!(result.unwrap_err(), VectorStoreError::MissingIdError(_)));

    let result = table.update_embedding("test1", "", None);
    assert!(result.is_ok());
}

#[test]
fn test_update_replaces_vector_when_given() {
    let mut table = table_with(&["test1"]);
    table.update_embedding("test1", "new data", Some(vec![7, 8])).unwrap();
    let record = table.read_vector("test1").unwrap().unwrap();
    assert_eq!(record.metadata, "new data");
    assert_eq!(record.vector, vec![7, 8]);
}

#[test]
fn test_batch_update() {
    let mut table = table_with(&["test1", "test2", "test3"]);

    let updates: Vec<(String, String, Option<Vec<i64>>)> = ["test1", "test2", "test3"]
        .iter()
        .map(|id| (id.to_string(), "updated data".to_string(), Some(vec![300_000, 400_000])))
        .collect();
    table.update_batch(&updates).unwrap();

    for id in ["test1", "test2", "test3"] {
        let record = table.read_vector(id).unwrap().unwrap();
        assert_eq!(record.metadata, "updated data");
        assert_eq!(record.vector, vec![300_000, 400_000]);
    }
}

#[test]
fn test_batch_update_rollback() {
    // a batch with one missing id updates nothing at all
    let mut table = table_with(&["test1", "test2"]);

    let updates: Vec<(String, String, Option<Vec<i64>>)> = vec![
        ("test1".to_string(), "changed".to_string(), None),
        ("non_existent".to_string(), "changed".to_string(), None),
    ];
    let result = table.update_batch(&updates);
    assert!(matches!(result.unwrap_err(), VectorStoreError::MissingIdError(_)));

    let record = table.read_vector("test1").unwrap().unwrap();
    assert_eq!(record.metadata, "test data");
}

#[test]
fn test_batch_update_last_write_wins() {
    let mut table = table_with(&["test1"]);
    let updates: Vec<(String, String, Option<Vec<i64>>)> = vec![
        ("test1".to_string(), "first".to_string(), Some(vec![1, 2])),
        ("test1".to_string(), "second".to_string(), None),
    ];
    table.update_batch(&updates).unwrap();
    let record = table.read_vector("test1").unwrap().unwrap();
    assert_eq!(record.metadata, "second");
    assert_eq!(record.vector, vec![1, 2]);
}

#[test]
fn test_records_keep_their_fields() {
    let mut table = Table::new("test_table", 2).unwrap();
    table
        .create_vector(
            "id1",
            vec![1, 2],
            "{\"category\": \"A\"}",
            vec![("category".to_string(), FieldValue::Text("A".to_string()))],
        )
        .unwrap();
    let record = table.read_vector("id1").unwrap().unwrap();
    assert_eq!(record.id, "id1");
    assert_eq!(record.fields.len(), 1);
    assert_eq!(record.fields[0].0, "category");
    assert_eq!(record.fields[0].1, FieldValue::Text("A".to_string()));
}
