use indexer::ast_parser::{
    extract_code_info, entities_of_module, get_signature, join_parts, textsize_to_line, walk,
    CodeEntity,
};
use indexer::python_syntax::{Parameters, Span, Statement};

fn names(entities: &[CodeEntity]) -> Vec<(&str, &str, Option<&str>)> {
    entities
        .iter()
        .map(|e| (e.entity_type.as_str(), e.name.as_str(), e.parent_class.as_deref()))
        .collect()
}

fn no_parameters() -> Parameters {
    Parameters {
        positional_only: vec![],
        positional: vec![],
        keyword_only: vec![],
        variadic: None,
        keyword_variadic: None,
    }
}

#[test]
fn test_extract_code_info_lines() {
    let code = "class Bar:\n    def foo(self):\n        pass\n";
    let entities = extract_code_info(code, "foo.py");
    assert!(entities.iter().any(|e| e.name == "Bar" && e.line_start > 0));
    assert!(entities.iter().any(|e| e.name == "foo" && e.line_start > 0));
}

#[test]
fn test_extract_entities_for_vectorization() {
    let code = "def foo():\n    pass\nclass Bar:\n    def baz(self):\n        pass\n";
    let entities = extract_code_info(code, "test.py");
    assert!(entities.iter().any(|e| e.name == "foo"));
    assert!(entities.iter().any(|e| e.name == "Bar"));
    assert!(entities.iter().any(|e| e.name == "baz"));
}

#[test]
fn test_records_of_a_module() {
    let code = "x = 1\ndef f(a, b=2, *rest, key, **extra):\n    \"\"\"About f.\"\"\"\n    inner = 0\n\nclass C(Base):\n    \"\"\"About C.\"\"\"\n    y = 2\n    def m(self, /, z):\n        pass\n";
    let entities = extract_code_info(code, "pkg/mod.py");
    assert_eq!(
        names(&entities),
        vec![
            ("variable", "x", None),
            ("function", "f", None),
            ("class", "C", None),
            ("variable", "y", Some("C")),
            ("method", "m", Some("C")),
            ("variable", "y", None),
            ("function", "m", None),
        ]
    );
    for e in &entities {
        assert_eq!(e.file_path, "pkg/mod.py");
    }
    let x = &entities[0];
    assert_eq!((x.line_start, x.line_end), (1, 1));
    assert!(x.value_repr.as_deref().unwrap().contains("Int"));
    assert!(x.signature.is_none() && x.docstring.is_none() && x.bases.is_none());
    let f = &entities[1];
    assert_eq!(f.signature.as_deref(), Some("def f(a, b, key, *rest, **extra)"));
    assert_eq!(f.docstring.as_deref(), Some("About f."));
    assert_eq!(f.line_start, 2);
    assert_eq!(f.line_end, 5);
    assert!(f.bases.is_none() && f.value_repr.is_none());
    let c = &entities[2];
    assert_eq!(c.docstring.as_deref(), Some("About C."));
    assert_eq!(c.line_start, 6);
    assert_eq!(c.bases.as_ref().unwrap().len(), 1);
    assert!(c.bases.as_ref().unwrap()[0].contains("Base"));
    assert!(c.signature.is_none());
    let m = &entities[4];
    assert_eq!(m.signature.as_deref(), Some("def m(self, z)"));
    assert_eq!(m.line_start, 10);
    assert!(m.docstring.is_none());
}

#[test]
fn test_text_that_does_not_parse_has_no_records() {
    assert!(extract_code_info("def broken(:\n", "a.py").is_empty());
    assert!(extract_code_info("", "a.py").is_empty());
    assert!(entities_of_module(&None, "a.py", "x = 1").is_empty());
    // A text that holds Rust is read as Python here, and fails to parse.
    assert!(extract_code_info("fn main() {}", "a.py").is_empty());
}

#[test]
fn test_line_numbers() {
    let src = "ab\ncd\n\nef";
    assert_eq!(textsize_to_line(src, 0), 1);
    assert_eq!(textsize_to_line(src, 1), 2);
    assert_eq!(textsize_to_line(src, 2), 2);
    assert_eq!(textsize_to_line(src, 3), 2);
    assert_eq!(textsize_to_line(src, 4), 3);
    assert_eq!(textsize_to_line(src, 6), 3);
    assert_eq!(textsize_to_line(src, 7), 4);
    assert_eq!(textsize_to_line(src, 8), 5);
    assert_eq!(textsize_to_line(src, 9), 5);
    assert_eq!(textsize_to_line(src, 100), 5);
    assert_eq!(textsize_to_line("", 0), 1);
    assert_eq!(textsize_to_line("\n", 1), 2);
    for (i, _) in src.char_indices() {
        assert_eq!(textsize_to_line(src, i), src[..i].lines().count() + 1);
    }
    let wide = "é\nü\r\nz";
    for (i, _) in wide.char_indices() {
        assert_eq!(textsize_to_line(wide, i), wide[..i].lines().count() + 1);
    }
}

#[test]
fn test_signatures() {
    assert_eq!(get_signature("f", &no_parameters()), "def f()");
    let all = Parameters {
        positional_only: vec!["a".to_string()],
        positional: vec!["b".to_string(), "c".to_string()],
        keyword_only: vec!["d".to_string()],
        variadic: Some("args".to_string()),
        keyword_variadic: Some("kwargs".to_string()),
    };
    assert_eq!(get_signature("g", &all), "def g(a, b, c, d, *args, **kwargs)");
    let starred = Parameters { variadic: Some("v".to_string()), ..no_parameters() };
    assert_eq!(get_signature("h", &starred), "def h(*v)");
    assert_eq!(join_parts(&vec![], ", "), "");
    assert_eq!(join_parts(&vec!["x".to_string()], ", "), "x");
    assert_eq!(join_parts(&vec!["".to_string(), "y".to_string()], "-"), "-y");
}

#[test]
fn test_walk_of_given_statements() {
    let method = Statement::Function {
        name: "m".to_string(),
        parameters: no_parameters(),
        span: Span { start: 3, end: 5 },
        body: vec![Statement::Text { value: "doc".to_string() }],
    };
    let class = Statement::Class {
        name: "C".to_string(),
        bases: vec!["A".to_string(), "B".to_string()],
        span: Span { start: 0, end: 6 },
        body: vec![
            method,
            Statement::Assign {
                targets: vec![None, Some("v".to_string())],
                value_repr: "Expr".to_string(),
            },
        ],
    };
    let mut entities = Vec::new();
    walk(&class, "f.py", &mut entities, Some("Outer"), "a\nb\nc\n");
    assert_eq!(
        names(&entities),
        vec![
            ("class", "C", None),
            ("method", "m", Some("C")),
            ("variable", "v", Some("C")),
            ("method", "m", Some("Outer")),
            ("variable", "v", Some("Outer")),
        ]
    );
    assert_eq!(entities[0].bases, Some(vec!["A".to_string(), "B".to_string()]));
    assert_eq!((entities[0].line_start, entities[0].line_end), (1, 4));
    assert_eq!((entities[1].line_start, entities[1].line_end), (3, 4));
    assert_eq!(entities[1].docstring.as_deref(), Some("doc"));
    assert_eq!(entities[2].value_repr.as_deref(), Some("Expr"));
}
