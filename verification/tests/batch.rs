use indexer::batch_process_entities;
use indexer::batch_processing::{batch_process_observed, BatchRun, ProgressLog, ProgressObserver};
use indexer::embedder::{Embedder, MockEmbedder};
use std::cell::Cell;

fn bits(v: &[f32]) -> Vec<u32> {
    v.iter().map(|x| x.to_bits()).collect()
}

#[test]
fn test_batch_process_empty_texts() {
    let texts = Vec::<&str>::new();
    let embedder = MockEmbedder;
    let progress_counter = std::sync::atomic::AtomicUsize::new(0);
    let progress_callback = |current: usize, _total: usize| {
        progress_counter.store(current, std::sync::atomic::Ordering::SeqCst);
    };
    let result = batch_process_entities(&texts, &embedder, progress_callback);
    assert!(result.is_ok());
    let (embeddings, errors) = result.unwrap();
    assert!(embeddings.is_empty());
    assert!(errors.is_empty());
}

#[test]
fn test_batch_process_single_text() {
    let texts = vec!["def test(): pass"];
    let embedder = MockEmbedder;
    let progress_counter = std::sync::atomic::AtomicUsize::new(0);
    let progress_callback = |current: usize, _total: usize| {
        progress_counter.store(current, std::sync::atomic::Ordering::SeqCst);
    };
    let result = batch_process_entities(&texts, &embedder, progress_callback);
    assert!(result.is_ok());
    let (embeddings, errors) = result.unwrap();
    assert!(!embeddings.is_empty(), "Expected non-empty embeddings, but got empty result");
    assert!(errors.is_empty(), "Expected no errors, but got: {:?}", errors);
    assert_eq!(progress_counter.load(std::sync::atomic::Ordering::SeqCst), 1);
}

#[test]
fn test_batch_process_with_progress() {
    let texts = vec!["def func1(): pass", "def func2(): pass", "class Class1: pass"];
    let embedder = MockEmbedder;
    let progress_counter = std::sync::atomic::AtomicUsize::new(0);
    let messages = std::cell::RefCell::new(Vec::new());
    let progress_callback = |current: usize, total: usize| {
        progress_counter.store(current, std::sync::atomic::Ordering::SeqCst);
        messages.borrow_mut().push(format!("Processed {} of {} entities", current, total));
    };
    let result = batch_process_entities(&texts, &embedder, progress_callback);
    assert!(result.is_ok(), "Batch processing should succeed");
    let final_progress = progress_counter.load(std::sync::atomic::Ordering::SeqCst);
    assert!(final_progress > 0, "Progress counter should be updated");
    let logs = messages.borrow();
    assert!(!logs.is_empty(), "Should have progress log messages");
    assert!(logs.iter().any(|msg| msg.contains("Processed")));
    assert_eq!(
        *logs,
        vec![
            "Processed 1 of 3 entities".to_string(),
            "Processed 2 of 3 entities".to_string(),
            "Processed 3 of 3 entities".to_string(),
        ]
    );
}

#[test]
fn test_batch_process_error_handling() {
    let texts = vec!["def good_func(): pass", "", "class GoodClass: pass"];
    let embedder = MockEmbedder;
    let progress_callback = |_: usize, _: usize| {};
    let result = batch_process_entities(&texts, &embedder, progress_callback);
    assert!(result.is_ok(), "Batch processing should handle errors gracefully");
    let (embeddings, errors) = result.unwrap();
    assert!(embeddings.len() >= 2, "Should have embeddings for good texts");
    assert!(!errors.is_empty(), "Should have errors for problematic texts");
}

#[test]
fn test_batch_with_one_empty_text() {
    let texts = vec!["def f(): pass", "", "class C: pass"];
    let calls = Cell::new(0usize);
    let last = Cell::new(0usize);
    let increasing = Cell::new(true);
    let callback = |current: usize, total: usize| {
        if current <= last.get() || total != 3 {
            increasing.set(false);
        }
        last.set(current);
        calls.set(calls.get() + 1);
    };
    let (successes, errors) = batch_process_entities(&texts, &MockEmbedder, callback).unwrap();
    assert_eq!(errors.len(), 1);
    assert_eq!(errors, vec!["Empty text".to_string()]);
    assert!(successes.len() >= 2);
    assert_eq!(
        successes,
        vec![
            ("fn f".to_string(), bits(&[0.0, 1.0, 0.0])),
            ("class C".to_string(), bits(&[1.0, 0.0, 0.0])),
        ]
    );
    assert_eq!(calls.get(), 2);
    assert!(increasing.get());
    assert_eq!(last.get(), 2);
}

#[test]
fn test_batch_reports_to_observer() {
    let texts = vec!["# nothing here", "x = 1\ny = 2", "", "def f():\n    \"\"\"doc\"\"\"\n"];
    let mut log = ProgressLog::new();
    log.on_progress(7, 9);
    let run = batch_process_observed(&texts, &MockEmbedder, &mut log);
    assert_eq!(log.events, vec![(7, 9), (1, 4), (2, 4)]);
    assert_eq!(run.processed, 2);
    assert_eq!(
        run.errors,
        vec!["No entities found in text: # nothing here".to_string(), "Empty text".to_string()]
    );
    let names: Vec<&str> = run.embeddings.iter().map(|(name, _)| name.as_str()).collect();
    assert_eq!(names, vec!["var x", "var y", "fn f", "doc f: doc"]);
    assert_eq!(run.embeddings[3].1, bits(&[1.0, 1.0, 0.0]));
}

#[test]
fn test_record_takes_given_entities() {
    let mut run = BatchRun::new();
    let mut log = ProgressLog::new();
    run.record("text", vec!["class A".to_string(), "other".to_string()], &MockEmbedder, &mut log, 5);
    run.record("", vec!["fn ignored".to_string()], &MockEmbedder, &mut log, 5);
    run.record("bare", vec![], &MockEmbedder, &mut log, 5);
    run.record("more", vec!["var v".to_string()], &MockEmbedder, &mut log, 5);
    assert_eq!(run.processed, 2);
    assert_eq!(log.events, vec![(1, 5), (2, 5)]);
    assert_eq!(
        run.errors,
        vec!["Empty text".to_string(), "No entities found in text: bare".to_string()]
    );
    assert_eq!(
        run.embeddings,
        vec![
            ("class A".to_string(), bits(&[1.0, 0.0, 0.0])),
            ("other".to_string(), bits(&[0.0, 1.0, 2.0])),
            ("var v".to_string(), bits(&[0.0, 0.0, 1.0])),
        ]
    );
}

struct Wide;

impl Embedder for Wide {
    fn embed(&self, input: &str) -> Vec<u32> {
        vec![input.len() as u32; 4]
    }
}

#[test]
fn test_batch_with_an_embedder_of_the_caller() {
    let (successes, errors) =
        batch_process_entities(&["abc = 1"], &Wide, |_: usize, _: usize| {}).unwrap();
    assert!(errors.is_empty());
    assert_eq!(successes, vec![("var abc".to_string(), vec![7u32; 4])]);
}
