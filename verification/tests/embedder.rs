use indexer::embedder::{Embedder, EmbedderError, HFEmbedder, MockEmbedder, OpenAIEmbedder};

fn bits(v: &[f32]) -> Vec<u32> {
    v.iter().map(|x| x.to_bits()).collect()
}

#[test]
fn test_openai_api_key_getter() {
    let embedder = OpenAIEmbedder::from_credential(Some("testkey".to_string())).unwrap();
    assert_eq!(embedder.api_key(), "testkey");
}

#[test]
fn test_hf_api_key_getter() {
    let embedder = HFEmbedder::from_credential(Some("testkey2".to_string())).unwrap();
    assert_eq!(embedder.api_key(), "testkey2");
}

#[test]
fn embedder_test_mock_embedder_trait() {
    let embedder = MockEmbedder;
    let vec = embedder.embed("foo");
    assert_eq!(vec, bits(&[0.0, 1.0, 2.0]));
}

#[test]
fn test_embedding_generation_for_entities() {
    let entities = vec!["foo", "bar", "baz"];
    let embedder = MockEmbedder;
    for entity in entities {
        let vec = embedder.embed(entity);
        assert!(!vec.is_empty(), "Embedding should not be empty");
    }
}

#[test]
fn test_missing_credential_is_an_error() {
    assert_eq!(
        OpenAIEmbedder::from_credential(None).err(),
        Some(EmbedderError::MissingCredential)
    );
    assert_eq!(HFEmbedder::from_credential(None).err(), Some(EmbedderError::MissingCredential));
    assert_eq!(
        EmbedderError::MissingCredential.message(OpenAIEmbedder::credential_variable()),
        "OPENAI_API_KEY not set"
    );
    assert_eq!(
        EmbedderError::MissingCredential.message(HFEmbedder::credential_variable()),
        "HF_API_KEY not set"
    );
}

#[test]
fn test_provider_embedders_return_degraded_vector() {
    let openai = OpenAIEmbedder::from_credential(Some("k".to_string())).unwrap();
    let hf = HFEmbedder::from_credential(Some("k".to_string())).unwrap();
    assert_eq!(openai.embed("fn main"), bits(&[1.0, 2.0, 3.0]));
    assert_eq!(hf.embed(""), bits(&[1.0, 2.0, 3.0]));
}

#[test]
fn test_mock_embedder_by_entity_kind() {
    let embedder = MockEmbedder::new();
    assert_eq!(embedder.embed("class Foo"), bits(&[1.0, 0.0, 0.0]));
    assert_eq!(embedder.embed("fn foo"), bits(&[0.0, 1.0, 0.0]));
    assert_eq!(embedder.embed("var x"), bits(&[0.0, 0.0, 1.0]));
    assert_eq!(embedder.embed("doc foo: text"), bits(&[1.0, 1.0, 0.0]));
    assert_eq!(embedder.embed(""), bits(&[0.0, 1.0, 2.0]));
    assert_eq!(embedder.embed("a class"), bits(&[0.0, 1.0, 2.0]));
    assert_eq!(embedder.embed("clas"), bits(&[0.0, 1.0, 2.0]));
}

struct ConstantEmbedder;

impl Embedder for ConstantEmbedder {
    fn embed(&self, _input: &str) -> Vec<u32> {
        bits(&[0.0, 1.0, 2.0])
    }
}

#[test]
fn embedder_trait_test_mock_embedder_trait() {
    let embedder = ConstantEmbedder;
    let vec = embedder.embed("foo");
    assert_eq!(vec, bits(&[0.0, 1.0, 2.0]));
}

#[test]
fn test_embedding_for_extracted_entities() {
    let text = "fn main() { println!(\"hi\"); }";
    let entities = indexer::extract_entities(text);
    let embedder = OpenAIEmbedder::from_credential(Some("key".to_string())).unwrap();
    let vectors: Vec<_> = entities.iter().map(|e| embedder.embed(e)).collect();
    assert_eq!(vectors.len(), 1);
    assert_eq!(vectors[0], bits(&[1.0, 2.0, 3.0]));
}
