use indexer::json::{write_document, Member};
use indexer::redis_store::{metadata_fields, metadata_json, RedisCommand};
use indexer::vector_store::{RedisVectorStore, StoreError};

fn plain(command: &RedisCommand) -> (&str, &str, &str) {
    match command {
        RedisCommand::Bind { key, value } => ("SET", key.as_str(), value.as_str()),
        RedisCommand::Add { key, member } => ("SADD", key.as_str(), member.as_str()),
        other => panic!("not a command of an upsert: {:?}", other),
    }
}

#[test]
fn test_redis_vector_store_getters() {
    let store = RedisVectorStore::new("redis://localhost", "prefix");
    assert_eq!(store.redis_url(), "redis://localhost");
    assert_eq!(store.key_prefix(), "prefix");
}

#[test]
fn test_redis_vector_store_key_prefixing() {
    let store = RedisVectorStore::new("redis://localhost:6379/0", "code:testproject");
    let full_key = store.make_key("doc", "foo");
    assert_eq!(full_key, "code:testproject:doc:foo");
}

#[test]
fn test_keys_of_a_record() {
    let store = RedisVectorStore::new("redis://localhost", "code_index:demo");
    assert_eq!(store.vector_key("f"), "code_index:demo:vector:f");
    assert_eq!(store.metadata_key("f"), "code_index:demo:metadata:f");
    assert_eq!(store.entities_key(), "code_index:demo:entities:all");
    assert_eq!(store.type_index_key("function"), "code_index:demo:index:function");
    assert_eq!(store.file_index_key("src/a.py"), "code_index:demo:file_index:src/a.py");
    assert_eq!(store.make_key("", ""), "code_index:demo::");
}

#[test]
fn test_upsert_commands() {
    let store = RedisVectorStore::new("redis://localhost", "p");
    let commands = store
        .upsert_embedding("fn:a.py:f", "[1.0,2.0,3.0]", 3, Some("a.py"), Some("function"))
        .unwrap();
    let plain: Vec<_> = commands.iter().map(plain).collect();
    assert_eq!(
        plain,
        vec![
            ("SET", "p:vector:fn:a.py:f", "[1.0,2.0,3.0]"),
            (
                "SET",
                "p:metadata:fn:a.py:f",
                "{\"file\":\"a.py\",\"id\":\"fn:a.py:f\",\"type\":\"function\",\"vector_length\":3}"
            ),
            ("SADD", "p:entities:all", "fn:a.py:f"),
            ("SADD", "p:index:function", "fn:a.py:f"),
            ("SADD", "p:file_index:a.py", "fn:a.py:f"),
        ]
    );
}

#[test]
fn test_upsert_commands_without_labels() {
    let store = RedisVectorStore::new("redis://localhost", "p");
    let commands = store.upsert_embedding("e", "[0.5]", 1, None, None).unwrap();
    let plain: Vec<_> = commands.iter().map(plain).collect();
    assert_eq!(
        plain[1].2,
        "{\"file\":\"unknown\",\"id\":\"e\",\"type\":\"unknown\",\"vector_length\":1}"
    );
    assert_eq!(plain[3], ("SADD", "p:index:unknown", "e"));
    assert_eq!(plain[4], ("SADD", "p:file_index:unknown", "e"));
    let by_type = store.upsert("class", "e", "[0.5]", 1).unwrap();
    let by_type: Vec<_> = by_type.iter().map(plain_owned).collect();
    assert_eq!(by_type[3], ("SADD".to_string(), "p:index:class".to_string(), "e".to_string()));
    assert_eq!(
        by_type[4],
        ("SADD".to_string(), "p:file_index:unknown".to_string(), "e".to_string())
    );
}

fn plain_owned(command: &RedisCommand) -> (String, String, String) {
    let (a, b, c) = plain(command);
    (a.to_string(), b.to_string(), c.to_string())
}

#[test]
fn test_upsert_commands_reject_empty_vector() {
    let store = RedisVectorStore::new("redis://localhost", "p");
    assert_eq!(
        store.upsert_embedding("e", "[]", 0, Some("a.py"), Some("function")).err(),
        Some(StoreError::InvalidInput)
    );
    assert_eq!(store.upsert("function", "e", "[]", 0).err(), Some(StoreError::InvalidInput));
}

#[test]
fn test_metadata_document_is_json() {
    let document = metadata_json("say \"hi\"", "tab\there", "dir\\file\n.py", 1024).unwrap();
    assert_eq!(
        document,
        "{\"file\":\"dir\\\\file\\n.py\",\"id\":\"say \\\"hi\\\"\",\"type\":\"tab\\there\",\"vector_length\":1024}"
    );
    let value: serde_json::Value = serde_json::from_str(&document).unwrap();
    assert_eq!(value["id"], "say \"hi\"");
    assert_eq!(value["file"], "dir\\file\n.py");
    assert_eq!(value["type"], "tab\there");
    assert_eq!(value["vector_length"], 1024);
    let unicode = metadata_json("größe", "函数", "", 7).unwrap();
    let value: serde_json::Value = serde_json::from_str(&unicode).unwrap();
    assert_eq!(value["id"], "größe");
    assert_eq!(value["type"], "函数");
    assert_eq!(value["file"], "");
}

#[test]
fn test_record_commands_of_given_documents() {
    let store = RedisVectorStore::new("redis://localhost", "p");
    let commands = store.record_commands("e", "[1.0]", "{}", "class", "a.py");
    let plain: Vec<_> = commands.iter().map(plain).collect();
    assert_eq!(
        plain,
        vec![
            ("SET", "p:vector:e", "[1.0]"),
            ("SET", "p:metadata:e", "{}"),
            ("SADD", "p:entities:all", "e"),
            ("SADD", "p:index:class", "e"),
            ("SADD", "p:file_index:a.py", "e"),
        ]
    );
}

#[test]
fn test_documents_of_members() {
    let text = |name: &str, text: &str| Member::Text { name: name.to_string(), text: text.to_string() };
    assert_eq!(write_document(&vec![]).unwrap(), "{}");
    let members = vec![
        text("b", "old"),
        Member::Count { name: "n".to_string(), number: u64::MAX },
        Member::Integer { name: "i".to_string(), number: i64::MIN },
        text("a", "x\ny"),
        text("b", "new"),
    ];
    assert_eq!(
        write_document(&members).unwrap(),
        "{\"a\":\"x\\ny\",\"b\":\"new\",\"i\":-9223372036854775808,\"n\":18446744073709551615}"
    );
    let fields = metadata_fields("e", "class", "a.py", 3);
    assert_eq!(fields.len(), 4);
    assert_eq!(
        write_document(&fields).unwrap(),
        "{\"file\":\"a.py\",\"id\":\"e\",\"type\":\"class\",\"vector_length\":3}"
    );
}
