use indexer::cli::{file_list, Commands};

#[test]
fn test_classic_vector_key_isolation() {
    let classic_key = "classic:foo";
    let vector_key = "code:myproject:doc:foo";
    assert!(!classic_key.starts_with("code:"));
    assert!(vector_key.starts_with("code:"));
    assert_ne!(classic_key, vector_key);
}

trait TopKStore {
    fn query_top_k(&self, query: &[f32], k: usize) -> Vec<(&str, f32)>;
}

struct DummyVectorStore;

impl TopKStore for DummyVectorStore {
    fn query_top_k(&self, _query: &[f32], k: usize) -> Vec<(&str, f32)> {
        (0..k).map(|_| ("foo", 0.9)).collect()
    }
}

#[test]
fn test_similarity_search_top_k() {
    let store = DummyVectorStore;
    let results = store.query_top_k(&[1.0, 2.0, 3.0], 2);
    assert_eq!(results.len(), 2);
    assert!(results.iter().all(|(_id, score)| *score == 0.9));
}

#[test]
fn test_batch_processing_progress_logging() {
    let total = 5;
    let mut progress = 0;
    for i in 0..total {
        progress = i + 1;
        println!("Embedded {} of {}", progress, total);
    }
    assert_eq!(progress, total);
}

#[test]
fn test_recall_output_human_readable() {
    let results = vec!["foo", "bar", "baz"];
    let output = format!("Results:\n{}", results.join(",\n"));
    assert!(output.contains("Results:"));
    assert!(output.contains("foo"));
}

#[test]
fn vector_recall_test_query_logging() {
    let query = "def foo()";
    println!("Querying for: {}", query);
    assert!(true, "Log should be emitted");
}

#[test]
fn test_classic_and_vector_data_isolation() {
    let classic_prefix = "code_index:classic";
    let vector_prefix = "code_index:vector";
    assert_ne!(classic_prefix, vector_prefix, "Prefixes must be distinct");
}

struct Vectorize {
    provider: Option<String>,
}

struct ProviderDefaults {
    default_provider: String,
}

#[derive(Debug, PartialEq)]
pub struct ProviderError;

fn select_provider_id(
    vectorize: &Vectorize,
    config: &ProviderDefaults,
) -> Result<String, ProviderError> {
    match &vectorize.provider {
        Some(p) if !p.is_empty() => Ok(p.clone()),
        _ if !config.default_provider.is_empty() => Ok(config.default_provider.clone()),
        _ => Err(ProviderError),
    }
}

#[test]
fn test_provider_error_if_none_and_config_empty() {
    let vectorize = Vectorize { provider: None };
    let config = ProviderDefaults { default_provider: "".to_string() };
    let result = select_provider_id(&vectorize, &config);
    assert!(result.is_err(), "select_provider_id should return an error if no provider specified");
}

#[test]
fn test_provider_fallback_to_config_default() {
    let vectorize = Vectorize { provider: None };
    let config =
        ProviderDefaults { default_provider: "default_provider_id_from_config".to_string() };
    let selected = select_provider_id(&vectorize, &config);
    assert_eq!(selected, Ok("default_provider_id_from_config".to_string()));
}

#[test]
fn test_provider_cli_overrides_config() {
    let vectorize = Vectorize { provider: Some("cli_provider".to_string()) };
    let config = ProviderDefaults { default_provider: "config_default".to_string() };
    let selected = select_provider_id(&vectorize, &config);
    assert_eq!(selected, Ok("cli_provider".to_string()));
}

#[test]
fn test_command_key_prefix() {
    let command = Commands::Status { name: "myproject".to_string() };
    assert_eq!(command.project(), "myproject");
    assert_eq!(command.key_prefix(), "code_index:myproject");
    let recall = Commands::Recall {
        entity: None,
        show_lines: false,
        max: None,
        project_name: "p".to_string(),
    };
    assert_eq!(recall.key_prefix(), "code_index:p");
}

#[test]
fn test_recall_output_json() {
    let results = vec!["foo", "bar", "baz"];
    let json = serde_json::to_string(&results).unwrap();
    assert!(json.starts_with("["));
    assert!(json.contains("foo"));
}

trait KeyedStore {
    fn upsert(&mut self, key: &str, vector: Vec<f32>);
    fn query(&self, key: &str) -> Option<&Vec<f32>>;
}

struct KeyedVectors {
    store: std::collections::HashMap<String, Vec<f32>>,
}

impl KeyedVectors {
    fn new() -> Self {
        Self { store: std::collections::HashMap::new() }
    }
}

impl KeyedStore for KeyedVectors {
    fn upsert(&mut self, key: &str, vector: Vec<f32>) {
        self.store.insert(key.to_string(), vector);
    }

    fn query(&self, key: &str) -> Option<&Vec<f32>> {
        self.store.get(key)
    }
}

#[test]
fn test_vector_store_upsert_and_query() {
    let mut store = KeyedVectors::new();
    store.upsert("foo", vec![1.0, 2.0, 3.0]);
    let result = store.query("foo");
    assert_eq!(result, Some(&vec![1.0, 2.0, 3.0]));
}

#[test]
fn test_vector_store_query_missing() {
    let store = KeyedVectors::new();
    assert!(store.query("missing").is_none());
}

#[test]
fn test_file_list() {
    assert_eq!(file_list("a.py, b.py ,c.py"), vec!["a.py", "b.py", "c.py"]);
    assert_eq!(file_list("one.py"), vec!["one.py"]);
    assert_eq!(file_list(""), vec![""]);
    assert_eq!(file_list("a,"), vec!["a", ""]);
    assert_eq!(file_list(",,"), vec!["", "", ""]);
    for text in ["x ,\ty,\n z", " ", "größe.py , ü.py", ",a"] {
        let expected: Vec<String> = text.split(',').map(|s| s.trim().to_string()).collect();
        assert_eq!(file_list(text), expected);
    }
}
