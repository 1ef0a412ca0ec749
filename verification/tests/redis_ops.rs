use indexer::ast_parser::CodeEntity;
use indexer::redis_ops::{
    clear_file_data, file_commands, file_entities_key, file_index_key, file_key, last_segment,
    member, search_key, split_member, store_code_entities, store_code_entity,
    store_file_content, type_key,
};
use indexer::redis_store::RedisCommand;
use indexer::text::decimal;

fn plain(command: &RedisCommand) -> Vec<&str> {
    match command {
        RedisCommand::Bind { key, value } => vec!["SET", key, value],
        RedisCommand::Add { key, member } => vec!["SADD", key, member],
        RedisCommand::Put { key, field, value } => vec!["HSET", key, field, value],
        RedisCommand::Drop { key, field } => vec!["HDEL", key, field],
        RedisCommand::Discard { key, member } => vec!["SREM", key, member],
        RedisCommand::Delete { key } => vec!["DEL", key],
    }
}

fn all(commands: &[RedisCommand]) -> Vec<Vec<&str>> {
    commands.iter().map(plain).collect()
}

#[test]
fn test_classic_keys() {
    assert_eq!(file_key("code_index:p", "a/b.py"), "code_index:p:files:a/b.py");
    assert_eq!(file_index_key("code_index:p"), "code_index:p:file_index");
    assert_eq!(type_key("code_index:p", "function"), "code_index:p:functions");
    assert_eq!(search_key("p", "class", "Foo"), "p:search_index:class:Foo");
    assert_eq!(file_entities_key("p", "a.py"), "p:file_entities:a.py");
    assert_eq!(member("function", "foo"), "function:foo");
}

#[test]
fn test_split_member() {
    assert_eq!(split_member("function:foo"), ("function", "foo"));
    assert_eq!(split_member("method:Class:run"), ("method", "Class:run"));
    assert_eq!(split_member("bare"), ("bare", ""));
    assert_eq!(split_member(""), ("", ""));
    assert_eq!(split_member(":x"), ("", "x"));
    assert_eq!(split_member("x:"), ("x", ""));
    for text in ["a:b:c", "::", "größe:ü:z", "none"] {
        let mut parts = text.splitn(2, ':');
        let expected = (parts.next().unwrap_or(""), parts.next().unwrap_or(""));
        assert_eq!(split_member(text), expected);
        assert_eq!(last_segment(text), text.split(':').last().unwrap_or(""));
    }
    assert_eq!(last_segment("Class:run"), "run");
    assert_eq!(last_segment("run"), "run");
    assert_eq!(last_segment("run:"), "");
    assert_eq!(last_segment(""), "");
}

#[test]
fn test_store_file_content() {
    let commands = store_file_content("p", "dir/a.py", "x = \"1\"\n", 8, 1700000000).unwrap();
    assert_eq!(
        all(&commands),
        vec![
            vec![
                "SET",
                "p:files:dir/a.py",
                "{\"content\":\"x = \\\"1\\\"\\n\",\"last_modified\":1700000000,\"path\":\"dir/a.py\",\"size\":8}"
            ],
            vec!["SADD", "p:file_index", "dir/a.py"],
        ]
    );
    let document = match &commands[0] {
        RedisCommand::Bind { value, .. } => value.clone(),
        _ => panic!("not a SET"),
    };
    let value: serde_json::Value = serde_json::from_str(&document).unwrap();
    assert_eq!(value["content"], "x = \"1\"\n");
    assert_eq!(value["size"], 8);
    assert_eq!(value["last_modified"], 1700000000i64);
}

#[test]
fn test_numbers_in_documents() {
    let commands = store_file_content("p", "a.py", "", 0, -5).unwrap();
    assert_eq!(
        all(&commands)[0][2],
        "{\"content\":\"\",\"last_modified\":-5,\"path\":\"a.py\",\"size\":0}"
    );
    assert_eq!(
        all(&file_commands("p", "a.py", "DOC")),
        vec![vec!["SET", "p:files:a.py", "DOC"], vec!["SADD", "p:file_index", "a.py"]]
    );
    assert_eq!(decimal(0), "0");
    assert_eq!(decimal(9), "9");
    assert_eq!(decimal(10), "10");
    assert_eq!(decimal(1234567890), "1234567890");
    assert_eq!(decimal(usize::MAX), usize::MAX.to_string());
}

#[test]
fn test_store_code_entity() {
    let entity = CodeEntity {
        entity_type: "function".to_string(),
        file_path: "foo/bar.py".to_string(),
        name: "foo".to_string(),
        signature: None,
        docstring: None,
        line_start: 1,
        line_end: 2,
        parent_class: None,
        bases: None,
        value_repr: None,
    };
    let commands = store_code_entity("test", &entity, "{}");
    assert_eq!(
        all(&commands),
        vec![
            vec!["HSET", "test:functions", "foo", "{}"],
            vec!["SADD", "test:search_index:function:foo", "foo"],
            vec!["SADD", "test:file_entities:foo/bar.py", "function:foo"],
        ]
    );
}

#[test]
fn test_store_code_entities() {
    let entity = |entity_type: &str, name: &str| CodeEntity {
        entity_type: entity_type.to_string(),
        file_path: "m.py".to_string(),
        name: name.to_string(),
        signature: None,
        docstring: None,
        line_start: 1,
        line_end: 1,
        parent_class: None,
        bases: None,
        value_repr: None,
    };
    let entities = vec![entity("class", "C"), entity("variable", "v")];
    let documents = vec!["{\"name\":\"C\"}".to_string(), "{\"name\":\"v\"}".to_string()];
    let commands = store_code_entities("p", &entities, &documents);
    assert_eq!(
        all(&commands),
        vec![
            vec!["HSET", "p:classs", "C", "{\"name\":\"C\"}"],
            vec!["SADD", "p:search_index:class:C", "C"],
            vec!["SADD", "p:file_entities:m.py", "class:C"],
            vec!["HSET", "p:variables", "v", "{\"name\":\"v\"}"],
            vec!["SADD", "p:search_index:variable:v", "v"],
            vec!["SADD", "p:file_entities:m.py", "variable:v"],
        ]
    );
    assert!(store_code_entities("p", &[], &documents).is_empty());
}

#[test]
fn test_clear_file_data() {
    let members = vec!["function:foo".to_string(), "method:C:run".to_string()];
    let commands = clear_file_data("test", "foo/bar.py", &members);
    assert_eq!(
        all(&commands),
        vec![
            vec!["HDEL", "test:functions", "foo"],
            vec!["SREM", "test:search_index:function:foo", "foo"],
            vec!["HDEL", "test:methods", "C:run"],
            vec!["SREM", "test:search_index:method:run", "C:run"],
            vec!["DEL", "test:file_entities:foo/bar.py"],
            vec!["DEL", "test:files:foo/bar.py"],
            vec!["SREM", "test:file_index", "foo/bar.py"],
        ]
    );
    assert_eq!(clear_file_data("t", "f", &vec![]).len(), 3);
}
