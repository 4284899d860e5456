use vecindex::search::{score, SearchHit, VectorIndex, LEXICAL_BONUS};
use vecindex::{
    FieldValue, FilterBuilder, IndexConfig, IndexType, SearchParams, SearchType, Table,
    VectorSimilarityFunction, VectorStoreError,
};

fn index(metric: VectorSimilarityFunction) -> VectorIndex {
    VectorIndex::new(IndexConfig::new(
        "test_index".to_string(),
        "embedding".to_string(),
        metric,
        IndexType::BruteForce,
        2,
        1000,
    ))
    .unwrap()
}

fn category_field(value: &str) -> Vec<(String, FieldValue)> {
    vec![("category".to_string(), FieldValue::Text(value.to_string()))]
}

/// Three rows with categories A, B, A, at increasing distance from the
/// query vector `[100, 100]`.
fn three_category_rows() -> Table {
    let mut table = Table::new("test_table", 2).unwrap();
    table.create_vector("id1", vec![100, 100], "{\"category\": \"A\", \"value\": 10}", {
        let mut f = category_field("A");
        f.push(("value".to_string(), FieldValue::Integer(10)));
        f
    })
    .unwrap();
    table.create_vector("id2", vec![90, 90], "{\"category\": \"B\", \"value\": 20}", {
        let mut f = category_field("B");
        f.push(("value".to_string(), FieldValue::Integer(20)));
        f
    })
    .unwrap();
    table.create_vector("id3", vec![50, 50], "{\"category\": \"A\", \"value\": 30}", {
        let mut f = category_field("A");
        f.push(("value".to_string(), FieldValue::Integer(30)));
        f
    })
    .unwrap();
    table
}

fn euclidean_params() -> SearchParams {
    SearchParams::default()
}

#[test]
fn test_score_formulas() {
    let q = vec![1, 2];
    let v = vec![3, 4];
    assert_eq!(score(VectorSimilarityFunction::DotProduct, &q, &v), 11);
    assert_eq!(score(VectorSimilarityFunction::Cosine, &q, &v), 11);
    assert_eq!(score(VectorSimilarityFunction::Euclidean, &q, &v), -8);
    assert_eq!(score(VectorSimilarityFunction::Manhattan, &q, &v), -4);
    assert_eq!(score(VectorSimilarityFunction::Hamming, &q, &v), 0);
    assert_eq!(score(VectorSimilarityFunction::Hamming, &q, &vec![1, 4]), 1);
    // generalized Jaccard: min-sum 1, max-sum 3, scaled by one million
    assert_eq!(score(VectorSimilarityFunction::Jaccard, &vec![2, 0], &vec![1, 1]), 333_333);
    assert_eq!(score(VectorSimilarityFunction::Jaccard, &vec![0, 0], &vec![0, 0]), 1_000_000);
}

#[test]
fn test_top_n_orders_by_descending_score() {
    let table = three_category_rows();
    let ix = index(VectorSimilarityFunction::Euclidean);
    let hits = ix.top_n(&table, &vec![100, 100], 10, &euclidean_params()).unwrap();
    assert_eq!(hits.len(), 3);
    assert_eq!(hits[0].id, "id1");
    assert_eq!(hits[1].id, "id2");
    assert_eq!(hits[2].id, "id3");
    for pair in hits.windows(2) {
        assert!(pair[0].score >= pair[1].score);
    }
    assert_eq!(hits[0].score, 0);
    assert_eq!(hits[1].score, -200);
}

#[test]
fn test_pre_filter_restricts_candidates() {
    // only the two category-A rows can be returned under the pre-filter
    let table = three_category_rows();
    let ix = index(VectorSimilarityFunction::Euclidean);
    let pre = FilterBuilder::new().field("category").operator("=").value("'A'").build().unwrap();
    let params = SearchParams { pre_filter: Some(pre), ..SearchParams::default() };
    let hits = ix.top_n(&table, &vec![100, 100], 10, &params).unwrap();
    assert_eq!(hits.len(), 2);
    assert_eq!(hits[0].id, "id1");
    assert_eq!(hits[1].id, "id3");
}

#[test]
fn test_pre_and_post_filters_combine() {
    // pre-filter value < 25 keeps id1 and id2; the post-filter then keeps
    // only the category-A row among them
    let table = three_category_rows();
    let ix = index(VectorSimilarityFunction::Euclidean);
    let pre = FilterBuilder::new().field("value").operator("<").value("25").build().unwrap();
    let post = FilterBuilder::new().field("category").operator("=").value("'A'").build().unwrap();
    let params =
        SearchParams { pre_filter: Some(pre), post_filter: Some(post), ..SearchParams::default() };
    let hits = ix.top_n(&table, &vec![100, 100], 10, &params).unwrap();
    assert_eq!(hits.len(), 1);
    assert_eq!(hits[0].id, "id1");
}

#[test]
fn test_post_filter_can_return_fewer_than_requested() {
    // the post-filter prunes the already-truncated ranking: asking for the
    // top 1 and post-filtering to category B leaves nothing, even though a
    // B row exists further down
    let table = three_category_rows();
    let ix = index(VectorSimilarityFunction::Euclidean);
    let post = FilterBuilder::new().field("category").operator("=").value("'B'").build().unwrap();
    let params = SearchParams { post_filter: Some(post), ..SearchParams::default() };
    let hits = ix.top_n(&table, &vec![100, 100], 1, &params).unwrap();
    assert_eq!(hits.len(), 0);
}

#[test]
fn test_top_n_truncates_to_n() {
    let table = three_category_rows();
    let ix = index(VectorSimilarityFunction::Euclidean);
    let hits = ix.top_n(&table, &vec![100, 100], 2, &euclidean_params()).unwrap();
    assert_eq!(hits.len(), 2);
    assert_eq!(hits[0].id, "id1");
}

#[test]
fn test_top_n_rejects_wrong_query_dimensionality() {
    let table = three_category_rows();
    let ix = index(VectorSimilarityFunction::Euclidean);
    let result = ix.top_n(&table, &vec![1, 2, 3], 10, &euclidean_params());
    assert!(matches!(
        result.unwrap_err(),
        VectorStoreError::DimensionMismatch { expected: 2, actual: 3 }
    ));
}

#[test]
fn test_top_n_ids_matches_top_n() {
    // identical query, count, table and parameters: the ids and their
    // order agree between the two calls
    let table = three_category_rows();
    let ix = index(VectorSimilarityFunction::Euclidean);
    let pre = FilterBuilder::new().field("category").operator("=").value("'A'").build().unwrap();
    let params = SearchParams { pre_filter: Some(pre), ..SearchParams::default() };
    let hits = ix.top_n(&table, &vec![100, 100], 10, &params).unwrap();
    let ids = ix.top_n_ids(&table, &vec![100, 100], 10, &params).unwrap();
    assert_eq!(ids.len(), hits.len());
    for (pair, hit) in ids.iter().zip(hits.iter()) {
        assert_eq!(pair.0, hit.score);
        assert_eq!(pair.1, hit.id);
    }
}

#[test]
fn test_ties_keep_insertion_order() {
    let mut table = Table::new("test_table", 2).unwrap();
    table.create_vector("first", vec![10, 0], "data", Vec::new()).unwrap();
    table.create_vector("second", vec![0, 10], "data", Vec::new()).unwrap();
    let ix = index(VectorSimilarityFunction::Euclidean);
    // both rows sit at the same distance from the origin query
    let hits = ix.top_n(&table, &vec![0, 0], 10, &euclidean_params()).unwrap();
    assert_eq!(hits[0].id, "first");
    assert_eq!(hits[1].id, "second");
}

#[test]
fn test_hybrid_search_validates_input() {
    // empty query text is a validation error; zero requested rows is a
    // valid request that succeeds with an empty result
    let table = three_category_rows();
    let ix = index(VectorSimilarityFunction::Euclidean);

    let result = ix.hybrid_search(&table, "", &vec![100, 100], 1, &euclidean_params());
    assert!(matches!(result.unwrap_err(), VectorStoreError::InvalidDataError(_)));

    let hits = ix.hybrid_search(&table, "cats", &vec![100, 100], 0, &euclidean_params()).unwrap();
    assert_eq!(hits.len(), 0);
}

#[test]
fn test_hybrid_search_lexical_match_outranks_proximity() {
    let mut table = Table::new("test_table", 2).unwrap();
    table.create_vector("test1", vec![100, 200], "test data about cats", Vec::new()).unwrap();
    table.create_vector("test2", vec![300, 400], "test data about dogs", Vec::new()).unwrap();
    let ix = index(VectorSimilarityFunction::Euclidean);
    // the query vector sits exactly on the dogs row, but the cats row
    // contains the query text and wins
    let hits = ix.hybrid_search(&table, "cats", &vec![300, 400], 1, &euclidean_params()).unwrap();
    assert_eq!(hits.len(), 1);
    assert_eq!(hits[0].id, "test1");
    assert!(hits[0].score >= LEXICAL_BONUS - 1_000_000_000);
}

#[test]
fn test_rerank_orders_by_new_scores() {
    let results = vec![
        SearchHit { score: 10, id: "test1".to_string(), metadata: "about cats".to_string() },
        SearchHit { score: 5, id: "test2".to_string(), metadata: "about dogs".to_string() },
    ];
    let ix = index(VectorSimilarityFunction::Euclidean);
    // the caller's scoring function preferred the second row
    let reranked = ix.rerank(results, &vec![1, 2]).unwrap();
    assert_eq!(reranked.len(), 2);
    assert_eq!(reranked[0].id, "test2");
    assert_eq!(reranked[0].score, 2);
    assert_eq!(reranked[1].id, "test1");

    let short = ix.rerank(Vec::new(), &vec![1]);
    assert!(matches!(short.unwrap_err(), VectorStoreError::InvalidDataError(_)));
}

#[test]
fn test_vector_index_validates_config() {
    let bad = IndexConfig::new(
        "".to_string(),
        "embedding".to_string(),
        VectorSimilarityFunction::Cosine,
        IndexType::BruteForce,
        2,
        1000,
    );
    assert!(VectorIndex::new(bad).is_err());
    let ix = index(VectorSimilarityFunction::Cosine);
    assert_eq!(ix.name(), "test_index");
}

#[test]
fn test_query_plan_carries_the_request() {
    let table = three_category_rows();
    let ix = index(VectorSimilarityFunction::Cosine);
    let pre = FilterBuilder::new().field("category").operator("=").value("'A'").build().unwrap();
    let params = SearchParams {
        pre_filter: Some(pre),
        search_type: SearchType::Exact,
        ..SearchParams::default()
    };
    let plan = ix.build_search_query(&table, 5, &params);
    assert_eq!(plan.table, "test_table");
    assert_eq!(plan.embedding_property, "embedding");
    assert_eq!(plan.limit, 5);
    assert_eq!(plan.search_type, SearchType::Exact);
    assert_eq!(plan.pre_clause.as_deref(), Some("category = 'A'"));
    assert!(plan.post_clause.is_none());
}

#[test]
fn test_params_limit_caps_the_ranking() {
    let table = three_category_rows();
    let ix = index(VectorSimilarityFunction::Euclidean);
    let params = SearchParams { limit: 1, ..SearchParams::default() };
    // the parameter limit binds even when the call asks for more
    let hits = ix.top_n(&table, &vec![100, 100], 10, &params).unwrap();
    assert_eq!(hits.len(), 1);
    assert_eq!(hits[0].id, "id1");
}

#[test]
fn test_default_params() {
    let params = SearchParams::default();
    assert!(params.pre_filter.is_none());
    assert!(params.post_filter.is_none());
    assert!(params.params.is_none());
    assert_eq!(params.limit, usize::MAX);
    assert_eq!(params.search_type, SearchType::Similarity);
}

#[test]
fn test_dot_product_metric_end_to_end() {
    let mut table = Table::new("test_table", 2).unwrap();
    table.create_vector("aligned", vec![10, 10], "data", Vec::new()).unwrap();
    table.create_vector("opposed", vec![-10, -10], "data", Vec::new()).unwrap();
    let ix = index(VectorSimilarityFunction::DotProduct);
    let hits = ix.top_n(&table, &vec![5, 5], 10, &SearchParams::default()).unwrap();
    assert_eq!(hits[0].id, "aligned");
    assert_eq!(hits[0].score, 100);
    assert_eq!(hits[1].score, -100);
}

#[test]
fn test_hamming_metric_end_to_end() {
    let mut table = Table::new("test_table", 2).unwrap();
    table.create_vector("same", vec![1, 2], "data", Vec::new()).unwrap();
    table.create_vector("half", vec![1, 9], "data", Vec::new()).unwrap();
    let ix = index(VectorSimilarityFunction::Hamming);
    let hits = ix.top_n(&table, &vec![1, 2], 10, &SearchParams::default()).unwrap();
    assert_eq!(hits[0].id, "same");
    assert_eq!(hits[0].score, 2);
    assert_eq!(hits[1].score, 1);
}

#[test]
fn test_missing_id_mutations_leave_search_unchanged() {
    // mutating a missing id is an error, reading one is not, and neither
    // changes what a search returns
    let mut table = three_category_rows();
    let ix = index(VectorSimilarityFunction::Euclidean);
    let before = ix.top_n(&table, &vec![100, 100], 10, &euclidean_params()).unwrap();

    let deleted = table.delete_embedding("does-not-exist");
    assert!(matches!(deleted.unwrap_err(), VectorStoreError::MissingIdError(_)));
    let read = table.read_vector("does-not-exist");
    assert!(matches!(read, Ok(None)));

    let after = ix.top_n(&table, &vec![100, 100], 10, &euclidean_params()).unwrap();
    assert_eq!(after, before);
    assert!(after.iter().all(|h| h.id != "does-not-exist"));
}

#[test]
fn test_failed_batch_is_invisible_to_search() {
    // a batch with one missing id rolls back completely: the surviving row
    // is still found, and the whole result set is what it was before
    let mut table = three_category_rows();
    let ix = index(VectorSimilarityFunction::Euclidean);
    let before = ix.top_n(&table, &vec![100, 100], 10, &euclidean_params()).unwrap();

    let result = table.delete_batch(&vec!["id1".to_string(), "missing-id".to_string()]);
    assert!(matches!(result.unwrap_err(), VectorStoreError::MissingIdError(_)));

    let after = ix.top_n(&table, &vec![100, 100], 10, &euclidean_params()).unwrap();
    assert_eq!(after, before);
    assert!(after.iter().any(|h| h.id == "id1"));
}
