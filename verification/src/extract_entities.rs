//! Extraction of the entities of a source text: the names of its functions,
//! classes and variables, and its docstrings, as texts to embed.

use crate::python_syntax::{
    lemma_models, models, module_model, parse_python, parsed_module, target_models, Statement,
    Syntax,
};
pub use crate::text::texts;
use crate::text::{contains, join, occurs_in, optional_text, owned};
use vstd::prelude::*;

verus! {

/// The docstring of a body: its first statement, where that is a string literal.
pub open spec fn docstring_spec(body: Seq<Syntax>) -> Option<Seq<char>> {
    if body.len() > 0 && body[0] is Text {
        Some(body[0]->value)
    } else {
        None
    }
}

/// The entity of a definition named `name` with keyword `kind`, followed by the
/// entity of its docstring where the body has one.
pub open spec fn heading_spec(kind: Seq<char>, name: Seq<char>, body: Seq<Syntax>) -> Seq<
    Seq<char>,
> {
    match docstring_spec(body) {
        Some(doc) => seq![kind + name, "doc "@ + name + ": "@ + doc],
        None => seq![kind + name],
    }
}

/// The entities of the targets of an assignment: one for each plain name.
pub open spec fn targets_spec(targets: Seq<Option<Seq<char>>>) -> Seq<Seq<char>>
    decreases targets.len(),
{
    if targets.len() == 0 {
        Seq::empty()
    } else {
        let rest = targets_spec(targets.drop_last());
        match targets.last() {
            Some(name) => rest.push("var "@ + name),
            None => rest,
        }
    }
}

/// The entities of one statement, in the order of the source: a definition gives
/// its own entity, then that of its docstring, then those of its body.
pub open spec fn statement_spec(statement: Syntax) -> Seq<Seq<char>>
    decreases statement,
{
    match statement {
        Syntax::Function { name, body, .. } => heading_spec("fn "@, name, body) + suite_spec(body),
        Syntax::Class { name, body, .. } => heading_spec("class "@, name, body) + suite_spec(body),
        Syntax::Assign { targets, .. } => targets_spec(targets),
        Syntax::Text { .. } => Seq::empty(),
        Syntax::Other => Seq::empty(),
    }
}

/// The entities of a list of statements, in the order of the source.
pub open spec fn suite_spec(suite: Seq<Syntax>) -> Seq<Seq<char>>
    decreases suite,
{
    if suite.len() == 0 {
        Seq::empty()
    } else {
        suite_spec(suite.drop_last()) + statement_spec(suite.last())
    }
}

/// The docstring of a body: its first statement, where that is a string literal.
pub fn get_docstring(body: &Vec<Statement>) -> (r: Option<&String>)
    ensures
        match r {
            Some(doc) => docstring_spec(models(body@)) == Some(doc@),
            None => docstring_spec(models(body@)) is None,
        },
{
    proof {
        lemma_models(body@);
    }
    if body.len() == 0 {
        return None;
    }
    match &body[0] {
        Statement::Text { value } => Some(value),
        _ => None,
    }
}

fn push_heading(kind: &str, name: &String, body: &Vec<Statement>, entities: &mut Vec<String>)
    ensures
        texts(final(entities)@) == texts(old(entities)@) + heading_spec(
            kind@,
            name@,
            models(body@),
        ),
{
    let ghost before = texts(entities@);
    entities.push(join(kind, name.as_str()));
    match get_docstring(body) {
        Some(doc) => {
            let mut text = join("doc ", name.as_str());
            text.append(": ");
            text.append(doc.as_str());
            entities.push(text);
        },
        None => {},
    }
    assert(texts(entities@) =~= before + heading_spec(kind@, name@, models(body@)));
}

fn push_targets(targets: &Vec<Option<String>>, entities: &mut Vec<String>)
    ensures
        texts(final(entities)@) == texts(old(entities)@) + targets_spec(target_models(targets@)),
{
    let ghost before = texts(entities@);
    let ghost all = target_models(targets@);
    let mut i: usize = 0;
    assert(all.take(0) =~= Seq::<Option<Seq<char>>>::empty());
    assert(texts(entities@) =~= before + targets_spec(all.take(0)));
    while i < targets.len()
        invariant
            i <= targets@.len(),
            all == target_models(targets@),
            texts(entities@) == before + targets_spec(all.take(i as int)),
        decreases targets@.len() - i,
    {
        let ghost listed = texts(entities@);
        proof {
            assert(all.take(i + 1).drop_last() =~= all.take(i as int));
            assert(all.take(i + 1).last() == optional_text(targets@[i as int]));
        }
        match &targets[i] {
            Some(name) => {
                entities.push(join("var ", name.as_str()));
                assert(texts(entities@) =~= listed.push("var "@ + name@));
            },
            None => {},
        }
        assert(texts(entities@) =~= before + targets_spec(all.take(i + 1)));
        i = i + 1;
    }
    assert(all.take(targets@.len() as int) =~= all);
}

/// Appends the entities of a statement and of the statements nested in it.
pub fn extract_entities_from_stmt(statement: &Statement, entities: &mut Vec<String>)
    ensures
        texts(final(entities)@) == texts(old(entities)@) + statement_spec(statement.model()),
    decreases statement,
{
    let ghost before = texts(entities@);
    match statement {
        Statement::Function { name, body, .. } => {
            push_heading("fn ", name, body, entities);
            extract_entities_from_suite(body, entities);
            assert(texts(entities@) =~= before + statement_spec(statement.model()));
        },
        Statement::Class { name, body, .. } => {
            push_heading("class ", name, body, entities);
            extract_entities_from_suite(body, entities);
            assert(texts(entities@) =~= before + statement_spec(statement.model()));
        },
        Statement::Assign { targets, .. } => {
            push_targets(targets, entities);
        },
        _ => {
            assert(texts(entities@) =~= before + statement_spec(statement.model()));
        },
    }
}

/// Appends the entities of a list of statements.
pub fn extract_entities_from_suite(suite: &Vec<Statement>, entities: &mut Vec<String>)
    ensures
        texts(final(entities)@) == texts(old(entities)@) + suite_spec(models(suite@)),
    decreases suite,
{
    let ghost before = texts(entities@);
    let ghost all = models(suite@);
    let mut i: usize = 0;
    proof {
        lemma_models(suite@);
        assert(all.take(0) =~= Seq::<Syntax>::empty());
        assert(texts(entities@) =~= before + suite_spec(all.take(0)));
    }
    while i < suite.len()
        invariant
            i <= suite@.len(),
            all == models(suite@),
            all.len() == suite@.len(),
            forall|k: int| 0 <= k < suite@.len() ==> (#[trigger] all[k]) == suite@[k].model(),
            texts(entities@) == before + suite_spec(all.take(i as int)),
        decreases suite@.len() - i,
    {
        proof {
            assert(all.take(i + 1).drop_last() =~= all.take(i as int));
            assert(all.take(i + 1).last() == all[i as int]);
        }
        extract_entities_from_stmt(&suite[i], entities);
        assert(texts(entities@) =~= before + suite_spec(all.take(i + 1)));
        i = i + 1;
    }
    assert(all.take(suite@.len() as int) =~= all);
}

/// The text looks like Rust source: it holds `fn ` and a brace or a semicolon.
pub open spec fn looks_like_rust(text: Seq<char>) -> bool {
    occurs_in("fn "@, text) && (occurs_in("{"@, text) || occurs_in(";"@, text))
}

/// The entities of a Rust source text: its `main` function, if it has one.
pub open spec fn rust_entities_spec(text: Seq<char>) -> Seq<Seq<char>> {
    if occurs_in("fn main"@, text) {
        seq!["fn main"@]
    } else {
        Seq::empty()
    }
}

/// The entities of a source text, given what the parser makes of it as Python.
pub open spec fn entities_spec(text: Seq<char>, module: Option<Seq<Syntax>>) -> Seq<Seq<char>> {
    if looks_like_rust(text) {
        rust_entities_spec(text)
    } else {
        match module {
            Some(suite) => suite_spec(suite),
            None => Seq::empty(),
        }
    }
}

/// The entities of a Rust source text.
pub fn extract_entities_from_rust(text: &str) -> (entities: Vec<String>)
    ensures
        texts(entities@) == rust_entities_spec(text@),
{
    let mut entities: Vec<String> = Vec::new();
    if contains(text, "fn main") {
        entities.push(owned("fn main"));
    }
    assert(texts(entities@) =~= rust_entities_spec(text@));
    entities
}

/// The entities of a parsed Python module; none where the text did not parse.
pub fn entities_of_module(module: &Option<Vec<Statement>>) -> (entities: Vec<String>)
    ensures
        texts(entities@) == match module_model(*module) {
            Some(suite) => suite_spec(suite),
            None => Seq::<Seq<char>>::empty(),
        },
{
    let mut entities: Vec<String> = Vec::new();
    assert(texts(entities@) =~= Seq::<Seq<char>>::empty());
    match module {
        Some(suite) => {
            extract_entities_from_suite(suite, &mut entities);
            assert(texts(entities@) =~= suite_spec(models(suite@)));
        },
        None => {},
    }
    entities
}

/// Extracts the entities of a source text, as texts to embed.
///
/// A text that looks like Rust gives `fn main` if it defines it. Any other text is
/// read as a Python module: every function and class gives its name and its
/// docstring, every assignment to a plain name gives the name, in the order of the
/// source; a text that is not a Python module gives nothing.
pub fn extract_entities(text: &str) -> (entities: Vec<String>)
    ensures
        texts(entities@) == entities_spec(text@, parsed_module(text@)),
{
    if contains(text, "fn ") && (contains(text, "{") || contains(text, ";")) {
        return extract_entities_from_rust(text);
    }
    let module = parse_python(text);
    entities_of_module(&module)
}

} // verus!
