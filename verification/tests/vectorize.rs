use indexer::batch_processing::ProgressLog;
use indexer::embedder::{Embedder, MockEmbedder};
use indexer::memory_store::MemoryVectorStore;
use indexer::metadata::Metadata;
use indexer::vector_store::{StoreError, VectorStore};
use indexer::cli::{CliArgs, Commands};
use indexer::vectorize::{vectorize_plan, BatchIndexer, IndexEntry};

fn bits(v: &[f32]) -> Vec<u32> {
    v.iter().map(|x| x.to_bits()).collect()
}

fn entry(id: &str, text: &str) -> IndexEntry {
    IndexEntry {
        entity_id: id.to_string(),
        text: text.to_string(),
        file: Some("src/app.py".to_string()),
        entity_type: Some("function".to_string()),
    }
}

fn three() -> Vec<IndexEntry> {
    vec![entry("f", "def f(): pass"), entry("blank", ""), entry("C", "class C: pass")]
}

#[test]
fn test_dry_run_leaves_the_store_unchanged() {
    let mut store = MemoryVectorStore::new("p");
    let mut log = ProgressLog::new();
    let result = BatchIndexer::new(true).process(&three(), &MockEmbedder, &mut store, &mut log);
    assert!(!result.successes.is_empty());
    assert_eq!(
        result.successes,
        vec![
            ("f".to_string(), bits(&[0.0, 1.0, 2.0])),
            ("C".to_string(), bits(&[1.0, 0.0, 0.0])),
        ]
    );
    assert_eq!(result.errors, vec!["Empty text for entity: blank".to_string()]);
    assert_eq!(store.get_all_entity_ids(), Ok(vec![]));
    assert_eq!(log.events, vec![(1, 3), (2, 3)]);
}

#[test]
fn test_dry_run_keeps_existing_records() {
    let mut store = MemoryVectorStore::new("p");
    store.upsert_embedding("f", &bits(&[9.0]), Some("old.py"), Some("class")).unwrap();
    let mut log = ProgressLog::new();
    let result = BatchIndexer { dry_run: true }.process(
        &three(),
        &MockEmbedder,
        &mut store,
        &mut log,
    );
    assert_eq!(result.successes.len(), 2);
    assert_eq!(store.get_all_entity_ids(), Ok(vec!["f".to_string()]));
    assert_eq!(store.get_entity_vector("f"), Ok(bits(&[9.0])));
    assert_eq!(store.get_entity_metadata("f").unwrap().get("file").unwrap(), "old.py");
}

#[test]
fn test_run_stores_each_success() {
    let mut store = MemoryVectorStore::new("p");
    let mut log = ProgressLog::new();
    let mut entries = three();
    entries.push(IndexEntry {
        entity_id: "f".to_string(),
        text: "var again".to_string(),
        file: None,
        entity_type: None,
    });
    let result = BatchIndexer::new(false).process(&entries, &MockEmbedder, &mut store, &mut log);
    assert_eq!(result.successes.len(), 3);
    assert_eq!(result.errors, vec!["Empty text for entity: blank".to_string()]);
    assert_eq!(log.events, vec![(1, 4), (2, 4), (3, 4)]);
    let mut ids = store.get_all_entity_ids().unwrap();
    ids.sort();
    assert_eq!(ids, vec!["C".to_string(), "f".to_string()]);
    // The later write under the same id wins, as a whole.
    assert_eq!(store.get_entity_vector("f"), Ok(bits(&[0.0, 0.0, 1.0])));
    let metadata = store.get_entity_metadata("f").unwrap();
    assert_eq!(metadata.get("file").unwrap(), "unknown");
    assert_eq!(metadata.get("type").unwrap(), "unknown");
    assert_eq!(store.get_entity_vector("C"), Ok(bits(&[1.0, 0.0, 0.0])));
    assert_eq!(store.get_entity_metadata("C").unwrap().get("file").unwrap(), "src/app.py");
}

#[test]
fn test_empty_batch() {
    let mut store = MemoryVectorStore::new("p");
    let mut log = ProgressLog::new();
    let result = BatchIndexer::new(false).process(&vec![], &MockEmbedder, &mut store, &mut log);
    assert!(result.successes.is_empty());
    assert!(result.errors.is_empty());
    assert!(log.events.is_empty());
}

struct Silent;

impl Embedder for Silent {
    fn embed(&self, _input: &str) -> Vec<u32> {
        Vec::new()
    }
}

#[test]
fn test_empty_embedding_is_an_error_of_the_entry() {
    for dry_run in [true, false] {
        let mut store = MemoryVectorStore::new("p");
        let mut log = ProgressLog::new();
        let result = BatchIndexer::new(dry_run).process(&three(), &Silent, &mut store, &mut log);
        assert!(result.successes.is_empty());
        assert_eq!(
            result.errors,
            vec![
                "Empty embedding for entity: f".to_string(),
                "Empty text for entity: blank".to_string(),
                "Empty embedding for entity: C".to_string(),
            ]
        );
        assert_eq!(log.events, vec![(1, 3), (2, 3)]);
        assert_eq!(store.get_all_entity_ids(), Ok(vec![]));
    }
}

// A store that refuses some entities.
struct Picky {
    inner: MemoryVectorStore,
}

impl VectorStore for Picky {
    fn upsert_embedding(
        &mut self,
        entity_id: &str,
        embedding: &[u32],
        file: Option<&str>,
        entity_type: Option<&str>,
    ) -> Result<(), StoreError> {
        match entity_id {
            "f" => Err(StoreError::Backend("connection lost".to_string())),
            "g" => Err(StoreError::NotFound),
            "h" => Err(StoreError::InvalidInput),
            _ => self.inner.upsert_embedding(entity_id, embedding, file, entity_type),
        }
    }

    fn get_all_entity_ids(&self) -> Result<Vec<String>, StoreError> {
        self.inner.get_all_entity_ids()
    }

    fn get_entity_vector(&self, entity_id: &str) -> Result<Vec<u32>, StoreError> {
        self.inner.get_entity_vector(entity_id)
    }

    fn get_entity_metadata(&self, entity_id: &str) -> Result<Metadata, StoreError> {
        self.inner.get_entity_metadata(entity_id)
    }
}

#[test]
fn test_store_failure_is_contained() {
    let mut store = Picky { inner: MemoryVectorStore::new("p") };
    let mut log = ProgressLog::new();
    let entries =
        vec![entry("f", "fn f"), entry("g", "fn g"), entry("C", "class C"), entry("h", "doc h")];
    let result = BatchIndexer::new(false).process(&entries, &MockEmbedder, &mut store, &mut log);
    assert_eq!(result.successes, vec![("C".to_string(), bits(&[1.0, 0.0, 0.0]))]);
    assert_eq!(
        result.errors,
        vec![
            "Failed to store entity f: backend error: connection lost".to_string(),
            "Failed to store entity g: not found".to_string(),
            "Failed to store entity h: invalid input".to_string(),
        ]
    );
    assert_eq!(log.events, vec![(1, 4), (2, 4), (3, 4), (4, 4)]);
    assert_eq!(store.get_all_entity_ids(), Ok(vec!["C".to_string()]));
    // The same batch as a dry run never asks the store.
    let mut log = ProgressLog::new();
    let result = BatchIndexer::new(true).process(&entries, &MockEmbedder, &mut store, &mut log);
    assert_eq!(result.successes.len(), 4);
    assert!(result.errors.is_empty());
}

#[test]
fn test_store_error_in_words() {
    assert_eq!(StoreError::InvalidInput.describe(), "invalid input");
    assert_eq!(StoreError::NotFound.describe(), "not found");
    assert_eq!(StoreError::Backend("timeout".to_string()).describe(), "backend error: timeout");
}

fn code_entity(entity_type: &str, name: &str, parent: Option<&str>) -> indexer::ast_parser::CodeEntity {
    indexer::ast_parser::CodeEntity {
        entity_type: entity_type.to_string(),
        file_path: "pkg/mod.py".to_string(),
        name: name.to_string(),
        signature: None,
        docstring: None,
        line_start: 1,
        line_end: 1,
        parent_class: parent.map(|p| p.to_string()),
        bases: None,
        value_repr: None,
    }
}

#[test]
fn test_entries_of_entities() {
    let method = IndexEntry::from_entity(&code_entity("method", "run", Some("Job")));
    assert_eq!(method.entity_id, "method:pkg/mod.py:Job.run");
    assert_eq!(method.text, "fn run");
    assert_eq!(method.file.as_deref(), Some("pkg/mod.py"));
    assert_eq!(method.entity_type.as_deref(), Some("method"));
    let function = IndexEntry::from_entity(&code_entity("function", "run", None));
    assert_eq!(function.entity_id, "function:pkg/mod.py:run");
    assert_eq!(function.text, "fn run");
    assert_eq!(IndexEntry::from_entity(&code_entity("class", "Job", None)).text, "class Job");
    assert_eq!(IndexEntry::from_entity(&code_entity("variable", "x", None)).text, "var x");
    assert_eq!(IndexEntry::from_entity(&code_entity("docstring", "x", None)).text, "doc x");
    assert_eq!(IndexEntry::from_entity(&code_entity("other", "x", None)).text, "x");
    let nameless = IndexEntry::from_entity(&code_entity("function", "", None));
    assert_eq!(nameless.text, "");
    assert_eq!(nameless.entity_id, "function:pkg/mod.py:");
}

#[test]
fn test_entities_of_a_module_are_indexed() {
    let entities = indexer::ast_parser::extract_code_info(
        "class Job:\n    def run(self):\n        pass\nlimit = 3\n",
        "job.py",
    );
    let entries: Vec<IndexEntry> = entities.iter().map(IndexEntry::from_entity).collect();
    let mut store = MemoryVectorStore::new("p");
    let mut log = ProgressLog::new();
    let result = BatchIndexer::new(false).process(&entries, &MockEmbedder, &mut store, &mut log);
    assert!(result.errors.is_empty());
    let mut ids = store.get_all_entity_ids().unwrap();
    ids.sort();
    assert_eq!(
        ids,
        vec![
            "class:job.py:Job".to_string(),
            "function:job.py:run".to_string(),
            "method:job.py:Job.run".to_string(),
            "variable:job.py:limit".to_string(),
        ]
    );
    assert_eq!(store.get_entity_vector("class:job.py:Job"), Ok(bits(&[1.0, 0.0, 0.0])));
    assert_eq!(store.get_entity_vector("variable:job.py:limit"), Ok(bits(&[0.0, 0.0, 1.0])));
    assert_eq!(store.entity_ids_of_type("method"), vec!["method:job.py:Job.run".to_string()]);
    assert_eq!(store.entity_ids_in_file("job.py").len(), 4);
}

#[test]
fn test_vectorize_plan() {
    let args = CliArgs {
        command: Commands::Vectorize {
            name: "demo".to_string(),
            path: "/src".to_string(),
            provider: Some("openai".to_string()),
            db: None,
            batch_size: None,
            dry_run: true,
            verbose: false,
        },
    };
    let plan = vectorize_plan(&args).unwrap();
    assert_eq!(plan.name, "demo");
    assert_eq!(plan.path, "/src");
    assert_eq!(plan.batch_size, 10);
    assert!(plan.dry_run);
    assert!(!plan.verbose);
    let sized = CliArgs {
        command: Commands::Vectorize {
            name: "demo".to_string(),
            path: ".".to_string(),
            provider: None,
            db: None,
            batch_size: Some(3),
            dry_run: false,
            verbose: true,
        },
    };
    assert_eq!(vectorize_plan(&sized).unwrap().batch_size, 3);
    let other = CliArgs { command: Commands::Status { name: "demo".to_string() } };
    assert_eq!(
        vectorize_plan(&other).err(),
        Some("Invalid command. Expected vectorize command.".to_string())
    );
}
