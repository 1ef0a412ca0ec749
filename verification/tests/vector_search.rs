use indexer::memory_store::MemoryVectorStore;
use indexer::metadata::Metadata;
use indexer::score::{clamp_unit, passes_min_score, similarity, ONE_BITS, ZERO_BITS};
use indexer::vector_search::{
    passes_filters, rank, ranked_before, search_vectors, similarity_search, sort_results,
    SearchOptions, SearchResult,
};
use indexer::vector_store::{StoreError, VectorStore};

fn bits(v: &[f32]) -> Vec<u32> {
    v.iter().map(|x| x.to_bits()).collect()
}

fn value(score: u32) -> f32 {
    f32::from_bits(score)
}

// The raw cosine of two vectors of equal length, before clamping.
fn cosine(a: &[u32], b: &[u32]) -> u32 {
    let mut dot_product = 0.0f32;
    let mut a_norm = 0.0f32;
    let mut b_norm = 0.0f32;
    for i in 0..a.len() {
        let x = f32::from_bits(a[i]);
        let y = f32::from_bits(b[i]);
        dot_product += x * y;
        a_norm += x * x;
        b_norm += y * y;
    }
    if a_norm == 0.0 || b_norm == 0.0 {
        return 0.0f32.to_bits();
    }
    (dot_product / (a_norm.sqrt() * b_norm.sqrt())).to_bits()
}

fn score(a: &[f32], b: &[f32]) -> f32 {
    value(similarity(&cosine, &bits(a), &bits(b)))
}

fn canned_store() -> MemoryVectorStore {
    let mut store = MemoryVectorStore::new("test_prefix");
    let records: Vec<(&str, [f32; 3], &str)> = vec![
        ("func1", [0.9, 0.1, 0.2], "function"),
        ("func2", [0.8, 0.2, 0.3], "function"),
        ("class1", [0.1, 0.9, 0.2], "class"),
        ("var1", [0.2, 0.3, 0.9], "variable"),
        ("doc1", [0.5, 0.5, 0.5], "docstring"),
    ];
    for (id, vector, entity_type) in records {
        store.upsert_embedding(id, &bits(&vector), Some("test.py"), Some(entity_type)).unwrap();
    }
    store
}

fn options(top_k: usize) -> SearchOptions {
    SearchOptions { top_k, min_score: None, entity_types: None, file_filter: None }
}

fn result(id: &str, score: f32) -> SearchResult {
    SearchResult { entity_id: id.to_string(), score: score.to_bits(), metadata: Metadata::new() }
}

fn ids(results: &[SearchResult]) -> Vec<&str> {
    results.iter().map(|r| r.entity_id.as_str()).collect()
}

#[test]
fn test_cosine_similarity() {
    let similarity = score(&[1.0, 2.0, 3.0], &[1.0, 2.0, 3.0]);
    assert!((similarity - 1.0).abs() < 1e-6, "Expected similarity close to 1.0, got {}", similarity);
    let similarity = score(&[1.0, 0.0, 0.0], &[0.0, 1.0, 0.0]);
    assert!((similarity - 0.0).abs() < 1e-6, "Expected similarity close to 0.0, got {}", similarity);
    let similarity = score(&[1.0, 2.0, 3.0], &[1.0, 2.0]);
    assert!((similarity - 0.0).abs() < 1e-6, "Expected similarity close to 0.0, got {}", similarity);
}

#[test]
fn test_similarity_search_with_scoring() {
    let store = canned_store();
    let query_vec = bits(&[1.0, 2.0, 3.0]);
    let top_k = 3;
    let options = SearchOptions {
        top_k,
        min_score: Some(0.5f32.to_bits()),
        entity_types: None,
        file_filter: None,
    };
    let results = search_vectors(&store, &query_vec, &options, &cosine);
    assert!(results.is_ok(), "Search should succeed");
    let search_results = results.unwrap();
    assert_eq!(search_results.len(), top_k, "Should return exactly top_k matches");
    for result in &search_results {
        assert!(value(result.score) > 0.0, "Each result should have a positive score");
        assert!(value(result.score) <= 1.0, "Scores should be normalized between 0 and 1");
        assert!(!result.entity_id.is_empty(), "Entity ID should not be empty");
        assert!(result.metadata.contains_key("type"), "Metadata should include entity type");
    }
    for i in 1..search_results.len() {
        assert!(
            value(search_results[i - 1].score) >= value(search_results[i].score),
            "Results should be sorted by score in descending order"
        );
    }
    assert_eq!(ids(&search_results), vec!["var1", "doc1", "class1"]);
}

#[test]
fn test_similarity_search_with_filtering() {
    let store = canned_store();
    let query_vec = bits(&[1.0, 2.0, 3.0]);
    let type_options = SearchOptions {
        top_k: 5,
        min_score: None,
        entity_types: Some(vec!["function".to_string()]),
        file_filter: None,
    };
    let type_results = search_vectors(&store, &query_vec, &type_options, &cosine);
    assert!(type_results.is_ok(), "Search with type filter should succeed");
    let type_search_results = type_results.unwrap();
    for result in &type_search_results {
        assert_eq!(result.metadata.get("type").unwrap(), "function");
    }
    assert_eq!(ids(&type_search_results), vec!["func2", "func1"]);
    let file_options = SearchOptions {
        top_k: 5,
        min_score: None,
        entity_types: None,
        file_filter: Some("test.py".to_string()),
    };
    let file_results = search_vectors(&store, &query_vec, &file_options, &cosine);
    assert!(file_results.is_ok(), "Search with file filter should succeed");
    let file_search_results = file_results.unwrap();
    for result in &file_search_results {
        assert_eq!(result.metadata.get("file").unwrap(), "test.py");
    }
    assert_eq!(file_search_results.len(), 5);
}

#[test]
fn test_search_with_min_score_filter() {
    let store = canned_store();
    let query_vec = bits(&[1.0, 2.0, 3.0]);
    let options = SearchOptions {
        top_k: 10,
        min_score: Some(0.9f32.to_bits()),
        entity_types: None,
        file_filter: None,
    };
    let results = search_vectors(&store, &query_vec, &options, &cosine);
    assert!(results.is_ok(), "Search with min score filter should succeed");
    let search_results = results.unwrap();
    for result in &search_results {
        assert!(value(result.score) >= 0.9, "got {}", value(result.score));
    }
    assert_eq!(ids(&search_results), vec!["var1", "doc1"]);
}

#[test]
fn test_search_with_combined_filters() {
    let store = canned_store();
    let query_vec = bits(&[1.0, 2.0, 3.0]);
    let options = SearchOptions {
        top_k: 5,
        min_score: Some(0.7f32.to_bits()),
        entity_types: Some(vec!["function".to_string()]),
        file_filter: Some("test.py".to_string()),
    };
    let results = search_vectors(&store, &query_vec, &options, &cosine);
    assert!(results.is_ok(), "Search with combined filters should succeed");
    let search_results = results.unwrap();
    for result in &search_results {
        assert!(value(result.score) >= 0.7, "All results should have a score >= 0.7");
        assert_eq!(result.metadata.get("type").unwrap(), "function");
        assert_eq!(result.metadata.get("file").unwrap(), "test.py");
    }
    assert!(search_results.is_empty());
}

#[test]
fn test_similarity_search_returns_top_k_matches() {
    let store = canned_store();
    let query_vec = bits(&[1.0, 2.0, 3.0]);
    let top_k = 3;
    let results = store.similarity_search(&query_vec, top_k, &cosine);
    assert_eq!(results.len(), top_k, "Should return exactly top_k matches");
    assert_eq!(results, vec!["var1".to_string(), "doc1".to_string(), "class1".to_string()]);
    assert_eq!(similarity_search(&store, &query_vec, top_k, &cosine), results);
}

#[test]
fn test_filtering_by_entity_type() {
    let mut store = MemoryVectorStore::new("p");
    store.upsert_embedding("f", &bits(&[1.0, 0.0]), Some("a.py"), Some("function")).unwrap();
    store.upsert_embedding("c", &bits(&[1.0, 0.0]), Some("a.py"), Some("class")).unwrap();
    store.upsert_embedding("g", &bits(&[0.0, 1.0]), Some("b.py"), Some("function")).unwrap();
    let only_functions = SearchOptions {
        top_k: 10,
        min_score: None,
        entity_types: Some(vec!["function".to_string()]),
        file_filter: None,
    };
    let results = search_vectors(&store, &bits(&[1.0, 0.0]), &only_functions, &cosine).unwrap();
    assert_eq!(ids(&results), vec!["f", "g"]);
    for r in &results {
        assert_eq!(r.metadata.get("type").unwrap(), "function");
    }
    let nothing = SearchOptions {
        top_k: 10,
        min_score: None,
        entity_types: Some(vec![]),
        file_filter: None,
    };
    assert!(search_vectors(&store, &bits(&[1.0, 0.0]), &nothing, &cosine).unwrap().is_empty());
    let one_file = SearchOptions {
        top_k: 10,
        min_score: None,
        entity_types: Some(vec!["class".to_string(), "function".to_string()]),
        file_filter: Some("a.py".to_string()),
    };
    let results = search_vectors(&store, &bits(&[1.0, 0.0]), &one_file, &cosine).unwrap();
    assert_eq!(ids(&results), vec!["c", "f"]);
    let prefix_of_file = SearchOptions {
        top_k: 10,
        min_score: None,
        entity_types: None,
        file_filter: Some("a.p".to_string()),
    };
    assert!(search_vectors(&store, &bits(&[1.0, 0.0]), &prefix_of_file, &cosine)
        .unwrap()
        .is_empty());
}

#[test]
fn test_search_on_empty_store_is_empty() {
    let store = MemoryVectorStore::new("p");
    assert_eq!(search_vectors(&store, &bits(&[1.0]), &options(3), &cosine).unwrap().len(), 0);
    assert!(similarity_search(&store, &bits(&[1.0]), 3, &cosine).is_empty());
}

#[test]
fn test_top_k_bounds_the_results() {
    let store = canned_store();
    let query = bits(&[1.0, 2.0, 3.0]);
    for k in 0..8 {
        let results = search_vectors(&store, &query, &options(k), &cosine).unwrap();
        assert_eq!(results.len(), k.min(5));
        for i in 1..results.len() {
            assert!(results[i - 1].score >= results[i].score);
        }
    }
}

#[test]
fn test_ties_are_broken_by_entity_id() {
    let mut store = MemoryVectorStore::new("p");
    for id in ["b", "a", "c", "ab", "B"] {
        store.upsert_embedding(id, &bits(&[2.0, 0.0]), None, None).unwrap();
    }
    store.upsert_embedding("z", &bits(&[1.0, 1.0]), None, None).unwrap();
    let results = search_vectors(&store, &bits(&[1.0, 0.0]), &options(4), &cosine).unwrap();
    assert_eq!(ids(&results), vec!["B", "a", "ab", "b"]);
    assert_eq!(results[0].score, ONE_BITS);
}

#[test]
fn test_dimension_mismatch_scores_zero() {
    let mut store = MemoryVectorStore::new("p");
    store.upsert_embedding("short", &bits(&[1.0]), None, None).unwrap();
    store.upsert_embedding("full", &bits(&[1.0, 0.0]), None, None).unwrap();
    let results = search_vectors(&store, &bits(&[1.0, 0.0]), &options(5), &cosine).unwrap();
    assert_eq!(ids(&results), vec!["full", "short"]);
    assert_eq!(results[1].score, ZERO_BITS);
    let with_bound = SearchOptions {
        top_k: 5,
        min_score: Some(f32::MIN_POSITIVE.to_bits()),
        entity_types: None,
        file_filter: None,
    };
    let results = search_vectors(&store, &bits(&[1.0, 0.0]), &with_bound, &cosine).unwrap();
    assert_eq!(ids(&results), vec!["full"]);
}

#[test]
fn test_similarity_of_unequal_lengths_never_calls_the_kernel() {
    let refusing = |_: &[u32], _: &[u32]| -> u32 { panic!("called") };
    assert_eq!(similarity(&refusing, &bits(&[1.0, 2.0]), &bits(&[1.0])), ZERO_BITS);
    assert_eq!(similarity(&refusing, &[], &bits(&[1.0])), ZERO_BITS);
}

#[test]
fn test_similarity_is_clamped() {
    let negative = |_: &[u32], _: &[u32]| (-0.5f32).to_bits();
    let large = |_: &[u32], _: &[u32]| 1.0000001f32.to_bits();
    let nan = |_: &[u32], _: &[u32]| f32::NAN.to_bits();
    let half = |_: &[u32], _: &[u32]| 0.5f32.to_bits();
    let v = bits(&[1.0]);
    assert_eq!(similarity(&negative, &v, &v), ZERO_BITS);
    assert_eq!(similarity(&large, &v, &v), ONE_BITS);
    assert_eq!(similarity(&nan, &v, &v), ZERO_BITS);
    assert_eq!(similarity(&half, &v, &v), 0.5f32.to_bits());
    assert_eq!(score(&[-1.0, 0.0], &[1.0, 0.0]), 0.0);
    assert_eq!(score(&[0.0, 0.0], &[1.0, 0.0]), 0.0);
}

#[test]
fn test_clamp_unit_values() {
    assert_eq!(clamp_unit(0.25f32.to_bits()), 0.25f32.to_bits());
    assert_eq!(clamp_unit(1.0f32.to_bits()), ONE_BITS);
    assert_eq!(clamp_unit(2.0f32.to_bits()), ONE_BITS);
    assert_eq!(clamp_unit(f32::INFINITY.to_bits()), ONE_BITS);
    assert_eq!(clamp_unit((-0.0f32).to_bits()), ZERO_BITS);
    assert_eq!(clamp_unit((-3.0f32).to_bits()), ZERO_BITS);
    assert_eq!(clamp_unit(f32::NEG_INFINITY.to_bits()), ZERO_BITS);
    assert_eq!(clamp_unit(f32::NAN.to_bits()), ZERO_BITS);
    assert_eq!(clamp_unit(0xFFC0_0000), ZERO_BITS);
    assert_eq!(clamp_unit(1), 1);
}

#[test]
fn test_min_score_thresholds() {
    let half = 0.5f32.to_bits();
    assert!(passes_min_score(half, &None));
    assert!(passes_min_score(half, &Some(half)));
    assert!(passes_min_score(half, &Some(0.25f32.to_bits())));
    assert!(!passes_min_score(half, &Some(0.75f32.to_bits())));
    assert!(passes_min_score(ZERO_BITS, &Some(0.0f32.to_bits())));
    assert!(passes_min_score(ZERO_BITS, &Some((-0.0f32).to_bits())));
    assert!(passes_min_score(ZERO_BITS, &Some((-1.0f32).to_bits())));
    assert!(passes_min_score(ZERO_BITS, &Some(f32::NAN.to_bits())));
    assert!(!passes_min_score(ONE_BITS, &Some(f32::INFINITY.to_bits())));
    assert!(!passes_min_score(ONE_BITS, &Some(1.5f32.to_bits())));
    assert!(passes_min_score(ONE_BITS, &Some(1.0f32.to_bits())));
    for (s, m) in [(0.3f32, 0.2f32), (0.2, 0.3), (0.0, 1e-30), (1.0, 0.999), (0.5, -0.5)] {
        assert_eq!(passes_min_score(s.to_bits(), &Some(m.to_bits())), !(s < m));
    }
}

#[test]
fn test_rank_orders_and_truncates() {
    let all = vec![
        result("d", 0.2),
        result("b", 0.9),
        result("c", 0.9),
        result("a", 0.5),
        result("e", 1.0),
    ];
    let out = rank(all, 3);
    assert_eq!(ids(&out), vec!["e", "b", "c"]);
    let out = rank(vec![result("x", 0.1), result("y", 0.1)], 5);
    assert_eq!(ids(&out), vec!["x", "y"]);
    assert!(rank(vec![result("x", 0.1)], 0).is_empty());
    assert!(rank(vec![], 4).is_empty());
    let sorted = sort_results(vec![result("b", 0.0), result("a", 0.0), result("c", 1.0)]);
    assert_eq!(ids(&sorted), vec!["c", "a", "b"]);
    assert!(ranked_before(&result("a", 0.5), &result("b", 0.5)));
    assert!(!ranked_before(&result("b", 0.5), &result("a", 0.5)));
    assert!(ranked_before(&result("b", 0.6), &result("a", 0.5)));
    assert!(ranked_before(&result("a", 0.5), &result("a", 0.5)));
    assert!(ranked_before(&result("a", 0.5), &result("ab", 0.5)));
}

#[test]
fn test_passes_filters() {
    let mut metadata = Metadata::new();
    metadata.insert("type", "function");
    metadata.insert("file", "a.py");
    assert!(passes_filters(&metadata, &options(1)));
    let mut wanted = options(1);
    wanted.entity_types = Some(vec!["class".to_string(), "function".to_string()]);
    assert!(passes_filters(&metadata, &wanted));
    wanted.file_filter = Some("b.py".to_string());
    assert!(!passes_filters(&metadata, &wanted));
    wanted.file_filter = Some("a.py".to_string());
    assert!(passes_filters(&metadata, &wanted));
    wanted.entity_types = Some(vec!["class".to_string()]);
    assert!(!passes_filters(&metadata, &wanted));
    let bare = Metadata::new();
    assert!(passes_filters(&bare, &options(1)));
    assert!(!passes_filters(&bare, &wanted));
    let mut file_only = options(1);
    file_only.file_filter = Some("a.py".to_string());
    assert!(!passes_filters(&bare, &file_only));
}

// A store whose reads fail for some entities and whose enumeration can fail.
struct FlakyStore {
    inner: MemoryVectorStore,
    broken: Vec<String>,
    broken_metadata: Vec<String>,
    down: bool,
}

impl VectorStore for FlakyStore {
    fn upsert_embedding(
        &mut self,
        entity_id: &str,
        embedding: &[u32],
        file: Option<&str>,
        entity_type: Option<&str>,
    ) -> Result<(), StoreError> {
        self.inner.upsert_embedding(entity_id, embedding, file, entity_type)
    }

    fn get_all_entity_ids(&self) -> Result<Vec<String>, StoreError> {
        if self.down {
            return Err(StoreError::Backend("unavailable".to_string()));
        }
        self.inner.get_all_entity_ids()
    }

    fn get_entity_vector(&self, entity_id: &str) -> Result<Vec<u32>, StoreError> {
        if self.broken.iter().any(|b| b == entity_id) {
            return Err(StoreError::Backend("corrupt".to_string()));
        }
        self.inner.get_entity_vector(entity_id)
    }

    fn get_entity_metadata(&self, entity_id: &str) -> Result<Metadata, StoreError> {
        if self.broken_metadata.iter().any(|b| b == entity_id) {
            return Err(StoreError::Backend("corrupt".to_string()));
        }
        self.inner.get_entity_metadata(entity_id)
    }
}

#[test]
fn test_record_without_readable_metadata_is_skipped() {
    let store = FlakyStore {
        inner: canned_store(),
        broken: vec![],
        broken_metadata: vec!["doc1".to_string(), "func1".to_string()],
        down: false,
    };
    let query = bits(&[1.0, 2.0, 3.0]);
    let results = search_vectors(&store, &query, &options(10), &cosine).unwrap();
    assert_eq!(ids(&results), vec!["var1", "class1", "func2"]);
    // The others are scored and ranked as on a store that never held the two.
    let mut without = MemoryVectorStore::new("test_prefix");
    without.upsert_embedding("func2", &bits(&[0.8, 0.2, 0.3]), Some("test.py"), Some("function")).unwrap();
    without.upsert_embedding("class1", &bits(&[0.1, 0.9, 0.2]), Some("test.py"), Some("class")).unwrap();
    without.upsert_embedding("var1", &bits(&[0.2, 0.3, 0.9]), Some("test.py"), Some("variable")).unwrap();
    let expected = search_vectors(&without, &query, &options(10), &cosine).unwrap();
    assert_eq!(ids(&results), ids(&expected));
    for (a, b) in results.iter().zip(expected.iter()) {
        assert_eq!(a.score, b.score);
    }
}

#[test]
fn test_search_fails_only_where_enumeration_fails() {
    let everything_filtered = SearchOptions {
        top_k: 3,
        min_score: Some(2.0f32.to_bits()),
        entity_types: Some(vec![]),
        file_filter: Some("none".to_string()),
    };
    let store = canned_store();
    assert_eq!(search_vectors(&store, &bits(&[1.0]), &everything_filtered, &cosine).unwrap().len(), 0);
    let all_broken = FlakyStore {
        inner: canned_store(),
        broken: vec!["func1", "func2", "class1", "var1", "doc1"].into_iter().map(String::from).collect(),
        broken_metadata: vec![],
        down: false,
    };
    assert!(search_vectors(&all_broken, &bits(&[1.0, 2.0, 3.0]), &options(3), &cosine).unwrap().is_empty());
}

#[test]
fn test_unreadable_records_are_skipped() {
    let mut store = FlakyStore {
        inner: canned_store(),
        broken: vec!["var1".to_string()],
        broken_metadata: vec![],
        down: false,
    };
    let query = bits(&[1.0, 2.0, 3.0]);
    let results = search_vectors(&store, &query, &options(3), &cosine).unwrap();
    assert_eq!(ids(&results), vec!["doc1", "class1", "func2"]);
    store.down = true;
    assert_eq!(
        search_vectors(&store, &query, &options(3), &cosine).err(),
        Some(StoreError::Backend("unavailable".to_string()))
    );
    assert!(similarity_search(&store, &query, 3, &cosine).is_empty());
}
