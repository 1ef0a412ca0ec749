//! The entities of a Python source file as records: what each one is, where it
//! stands, and what is known of it.

use crate::extract_entities::{docstring_spec, get_docstring};
use crate::python_syntax::{
    lemma_models, models, module_model, parse_python, parsed_module, target_models, Parameters,
    Signature, Statement, Syntax,
};
use crate::text::{join, optional_text, owned, text_of, texts};
use vstd::prelude::*;
use vstd::string::*;

verus! {

/// One entity of a source file.
#[derive(Debug)]
pub struct CodeEntity {
    /// `function`, `method`, `class` or `variable`.
    pub entity_type: String,
    pub file_path: String,
    pub name: String,
    pub signature: Option<String>,
    pub docstring: Option<String>,
    pub line_start: usize,
    pub line_end: usize,
    pub parent_class: Option<String>,
    pub bases: Option<Vec<String>>,
    pub value_repr: Option<String>,
}

/// An entity as plain values.
pub ghost struct Entity {
    pub entity_type: Seq<char>,
    pub file_path: Seq<char>,
    pub name: Seq<char>,
    pub signature: Option<Seq<char>>,
    pub docstring: Option<Seq<char>>,
    pub line_start: usize,
    pub line_end: usize,
    pub parent_class: Option<Seq<char>>,
    pub bases: Option<Seq<Seq<char>>>,
    pub value_repr: Option<Seq<char>>,
}

impl View for CodeEntity {
    type V = Entity;

    open spec fn view(&self) -> Entity {
        Entity {
            entity_type: self.entity_type@,
            file_path: self.file_path@,
            name: self.name@,
            signature: optional_text(self.signature),
            docstring: optional_text(self.docstring),
            line_start: self.line_start,
            line_end: self.line_end,
            parent_class: optional_text(self.parent_class),
            bases: match self.bases {
                Some(bases) => Some(texts(bases@)),
                None => None,
            },
            value_repr: optional_text(self.value_repr),
        }
    }
}

/// The entities of a list as plain values.
pub open spec fn entities(list: Seq<CodeEntity>) -> Seq<Entity> {
    Seq::new(list.len(), |i: int| list[i]@)
}

/// The number of line feeds in the bytes.
pub open spec fn line_feeds(bytes: Seq<u8>) -> nat
    decreases bytes.len(),
{
    if bytes.len() == 0 {
        0
    } else {
        line_feeds(bytes.drop_last()) + if bytes.last() == 10u8 {
            1nat
        } else {
            0nat
        }
    }
}

/// The number of lines of a text given by its bytes: one for each line feed, and
/// one more for what follows the last line feed, if anything does.
pub open spec fn line_count(bytes: Seq<u8>) -> nat {
    line_feeds(bytes) + if bytes.len() > 0 && bytes.last() != 10u8 {
        1nat
    } else {
        0nat
    }
}

/// The line number given to a byte offset in a text: one more than the number of
/// lines of the text before the offset. An offset behind the text counts as its
/// end.
pub open spec fn line_spec(bytes: Seq<u8>, offset: usize) -> nat {
    if offset <= bytes.len() {
        line_count(bytes.take(offset as int)) + 1
    } else {
        line_count(bytes) + 1
    }
}

/// No text has more line feeds than bytes.
pub proof fn lemma_line_feeds_bound(bytes: Seq<u8>)
    ensures
        line_feeds(bytes) <= bytes.len(),
        bytes.len() > 0 && bytes.last() != 10u8 ==> line_feeds(bytes) < bytes.len(),
    decreases bytes.len(),
{
    if bytes.len() > 0 {
        lemma_line_feeds_bound(bytes.drop_last());
    }
}

/// A number kept within `usize`.
pub open spec fn saturated(n: nat) -> usize {
    if n <= usize::MAX {
        n as usize
    } else {
        usize::MAX
    }
}

/// The line number of a byte offset in a text, kept within `usize`.
pub fn textsize_to_line(src: &str, offset: usize) -> (line: usize)
    ensures
        line == saturated(line_spec(src.spec_bytes(), offset)),
{
    let bytes = src.as_bytes();
    let end = if offset <= bytes.len() {
        offset
    } else {
        bytes.len()
    };
    let ghost prefix = bytes@.take(end as int);
    let mut count: usize = 0;
    let mut i: usize = 0;
    assert(prefix.take(0) =~= Seq::<u8>::empty());
    while i < end
        invariant
            i <= end,
            end <= bytes@.len(),
            prefix == bytes@.take(end as int),
            count == line_feeds(prefix.take(i as int)),
            count <= i,
        decreases end - i,
    {
        proof {
            assert(prefix.take(i + 1).drop_last() =~= prefix.take(i as int));
            assert(prefix.take(i + 1).last() == bytes@[i as int]);
        }
        if bytes[i] == 10u8 {
            count = count + 1;
        }
        i = i + 1;
    }
    proof {
        assert(prefix.take(end as int) =~= prefix);
        lemma_line_feeds_bound(prefix);
        if offset > bytes@.len() {
            assert(prefix =~= bytes@);
        }
    }
    if end > 0 && bytes[end - 1] != 10u8 {
        count = count + 1;
    }
    if count == usize::MAX {
        count
    } else {
        count + 1
    }
}

/// The parts joined with the separator between them.
pub open spec fn joined(parts: Seq<Seq<char>>, separator: Seq<char>) -> Seq<char>
    decreases parts.len(),
{
    if parts.len() == 0 {
        Seq::empty()
    } else if parts.len() == 1 {
        parts[0]
    } else {
        joined(parts.drop_last(), separator) + separator + parts.last()
    }
}

/// The names of the parameters as a signature lists them: positional-only,
/// positional and keyword-only names, then the starred parameters.
pub open spec fn parameter_list(parameters: Signature) -> Seq<Seq<char>> {
    parameters.positional_only + parameters.positional + parameters.keyword_only
        + match parameters.variadic {
        Some(name) => seq!["*"@ + name],
        None => Seq::empty(),
    } + match parameters.keyword_variadic {
        Some(name) => seq!["**"@ + name],
        None => Seq::empty(),
    }
}

/// The signature of a function: `def`, the name, and the parameter names in
/// brackets.
pub open spec fn signature_spec(name: Seq<char>, parameters: Signature) -> Seq<char> {
    "def "@ + name + "("@ + joined(parameter_list(parameters), ", "@) + ")"@
}

fn append_copies(list: &mut Vec<String>, more: &Vec<String>)
    ensures
        texts(final(list)@) == texts(old(list)@) + texts(more@),
{
    let ghost before = texts(list@);
    let mut i: usize = 0;
    assert(texts(list@) =~= before + texts(more@).take(0));
    while i < more.len()
        invariant
            i <= more@.len(),
            texts(list@) == before + texts(more@).take(i as int),
        decreases more@.len() - i,
    {
        let ghost listed = texts(list@);
        list.push(more[i].clone());
        assert(texts(list@) =~= listed.push(more@[i as int]@));
        assert(texts(more@).take(i + 1) =~= texts(more@).take(i as int).push(more@[i as int]@));
        i = i + 1;
    }
    assert(texts(more@).take(more@.len() as int) =~= texts(more@));
}

/// A copy of a list of strings.
pub fn copy_texts(list: &Vec<String>) -> (copy: Vec<String>)
    ensures
        texts(copy@) == texts(list@),
{
    let mut copy: Vec<String> = Vec::new();
    append_copies(&mut copy, list);
    assert(texts(copy@) =~= texts(list@));
    copy
}

/// An owned copy of an optional string slice.
pub fn owned_option(given: Option<&str>) -> (r: Option<String>)
    ensures
        optional_text(r) == text_of(given),
{
    match given {
        Some(text) => Some(owned(text)),
        None => None,
    }
}

/// The names of the parameters as a signature lists them.
pub fn parameter_names(parameters: &Parameters) -> (names: Vec<String>)
    ensures
        texts(names@) == parameter_list(parameters.model()),
{
    let mut names: Vec<String> = Vec::new();
    append_copies(&mut names, &parameters.positional_only);
    append_copies(&mut names, &parameters.positional);
    append_copies(&mut names, &parameters.keyword_only);
    let ghost plain = texts(names@);
    assert(plain =~= texts(parameters.positional_only@) + texts(parameters.positional@) + texts(
        parameters.keyword_only@,
    ));
    match &parameters.variadic {
        Some(name) => {
            names.push(join("*", name.as_str()));
            assert(texts(names@) =~= plain + seq!["*"@ + name@]);
        },
        None => {
            assert(texts(names@) =~= plain + Seq::<Seq<char>>::empty());
        },
    }
    let ghost starred = texts(names@);
    match &parameters.keyword_variadic {
        Some(name) => {
            names.push(join("**", name.as_str()));
            assert(texts(names@) =~= starred + seq!["**"@ + name@]);
        },
        None => {
            assert(texts(names@) =~= starred + Seq::<Seq<char>>::empty());
        },
    }
    names
}

/// Joins the parts with the separator between them.
pub fn join_parts(parts: &Vec<String>, separator: &str) -> (r: String)
    ensures
        r@ == joined(texts(parts@), separator@),
{
    let mut r = String::new();
    let mut i: usize = 0;
    assert(texts(parts@).take(0) =~= Seq::<Seq<char>>::empty());
    while i < parts.len()
        invariant
            i <= parts@.len(),
            r@ == joined(texts(parts@).take(i as int), separator@),
        decreases parts@.len() - i,
    {
        proof {
            assert(texts(parts@).take(i + 1).drop_last() =~= texts(parts@).take(i as int));
            assert(texts(parts@).take(i + 1).last() == parts@[i as int]@);
        }
        let ghost before = r@;
        if i > 0 {
            r.append(separator);
        }
        r.append(parts[i].as_str());
        proof {
            if i == 0 {
                assert(before =~= Seq::<char>::empty());
                assert(r@ =~= parts@[0]@);
                assert(texts(parts@).take(1)[0] == parts@[0]@);
            }
        }
        i = i + 1;
    }
    assert(texts(parts@).take(parts@.len() as int) =~= texts(parts@));
    r
}

/// The signature of a function: `def`, the name, and the parameter names in
/// brackets.
pub fn get_signature(name: &str, parameters: &Parameters) -> (r: String)
    ensures
        r@ == signature_spec(name@, parameters.model()),
{
    let names = parameter_names(parameters);
    let list = join_parts(&names, ", ");
    let mut r = join("def ", name);
    r.append("(");
    r.append(list.as_str());
    r.append(")");
    r
}

/// The record of a function definition: a method where it stands in a class.
pub open spec fn function_entity(
    name: Seq<char>,
    parameters: Signature,
    start: usize,
    end: usize,
    body: Seq<Syntax>,
    rel_path: Seq<char>,
    parent_class: Option<Seq<char>>,
    bytes: Seq<u8>,
) -> Entity {
    Entity {
        entity_type: if parent_class is Some {
            "method"@
        } else {
            "function"@
        },
        file_path: rel_path,
        name,
        signature: Some(signature_spec(name, parameters)),
        docstring: docstring_spec(body),
        line_start: saturated(line_spec(bytes, start)),
        line_end: saturated(line_spec(bytes, end)),
        parent_class,
        bases: None,
        value_repr: None,
    }
}

/// The record of a class definition.
pub open spec fn class_entity(
    name: Seq<char>,
    bases: Seq<Seq<char>>,
    start: usize,
    end: usize,
    body: Seq<Syntax>,
    rel_path: Seq<char>,
    bytes: Seq<u8>,
) -> Entity {
    Entity {
        entity_type: "class"@,
        file_path: rel_path,
        name,
        signature: None,
        docstring: docstring_spec(body),
        line_start: saturated(line_spec(bytes, start)),
        line_end: saturated(line_spec(bytes, end)),
        parent_class: None,
        bases: Some(bases),
        value_repr: None,
    }
}

/// The record of a variable: a plain name that an assignment binds.
pub open spec fn variable_entity(
    name: Seq<char>,
    value_repr: Seq<char>,
    rel_path: Seq<char>,
    parent_class: Option<Seq<char>>,
) -> Entity {
    Entity {
        entity_type: "variable"@,
        file_path: rel_path,
        name,
        signature: None,
        docstring: None,
        line_start: 1,
        line_end: 1,
        parent_class,
        bases: None,
        value_repr: Some(value_repr),
    }
}

/// The records of the targets of an assignment: one for each plain name.
pub open spec fn variables_spec(
    targets: Seq<Option<Seq<char>>>,
    value_repr: Seq<char>,
    rel_path: Seq<char>,
    parent_class: Option<Seq<char>>,
) -> Seq<Entity>
    decreases targets.len(),
{
    if targets.len() == 0 {
        Seq::empty()
    } else {
        let rest = variables_spec(targets.drop_last(), value_repr, rel_path, parent_class);
        match targets.last() {
            Some(name) => rest.push(variable_entity(name, value_repr, rel_path, parent_class)),
            None => rest,
        }
    }
}

/// The records of a statement. A function gives its record; its body is not
/// read. A class gives its record, then the records of its body as members of the
/// class, then the records of its body once more as members of the scope that the
/// class stands in. An assignment gives the records of its targets.
pub open spec fn walk_spec(
    node: Syntax,
    rel_path: Seq<char>,
    parent_class: Option<Seq<char>>,
    bytes: Seq<u8>,
) -> Seq<Entity>
    decreases node,
{
    match node {
        Syntax::Function { name, parameters, start, end, body } => seq![
            function_entity(name, parameters, start, end, body, rel_path, parent_class, bytes),
        ],
        Syntax::Class { name, bases, start, end, body } => seq![
            class_entity(name, bases, start, end, body, rel_path, bytes),
        ] + walk_all_spec(body, rel_path, Some(name), bytes) + walk_all_spec(
            body,
            rel_path,
            parent_class,
            bytes,
        ),
        Syntax::Assign { targets, value_repr } => variables_spec(
            targets,
            value_repr,
            rel_path,
            parent_class,
        ),
        Syntax::Text { .. } => Seq::empty(),
        Syntax::Other => Seq::empty(),
    }
}

/// The records of a list of statements, in the order of the source.
pub open spec fn walk_all_spec(
    suite: Seq<Syntax>,
    rel_path: Seq<char>,
    parent_class: Option<Seq<char>>,
    bytes: Seq<u8>,
) -> Seq<Entity>
    decreases suite,
{
    if suite.len() == 0 {
        Seq::empty()
    } else {
        walk_all_spec(suite.drop_last(), rel_path, parent_class, bytes) + walk_spec(
            suite.last(),
            rel_path,
            parent_class,
            bytes,
        )
    }
}

fn push_variables(
    targets: &Vec<Option<String>>,
    value_repr: &String,
    rel_path: &str,
    entities: &mut Vec<CodeEntity>,
    parent_class: Option<&str>,
)
    ensures
        self::entities(final(entities)@) == self::entities(old(entities)@) + variables_spec(
            target_models(targets@),
            value_repr@,
            rel_path@,
            text_of(parent_class),
        ),
{
    let ghost before = self::entities(entities@);
    let ghost parent = text_of(parent_class);
    let ghost all = target_models(targets@);
    let mut i: usize = 0;
    assert(all.take(0) =~= Seq::<Option<Seq<char>>>::empty());
    assert(self::entities(entities@) =~= before + variables_spec(
        all.take(0),
        value_repr@,
        rel_path@,
        parent,
    ));
    while i < targets.len()
        invariant
            i <= targets@.len(),
            parent == text_of(parent_class),
            all == target_models(targets@),
            self::entities(entities@) == before + variables_spec(
                all.take(i as int),
                value_repr@,
                rel_path@,
                parent,
            ),
        decreases targets@.len() - i,
    {
        let ghost listed = self::entities(entities@);
        proof {
            assert(all.take(i + 1).drop_last() =~= all.take(i as int));
            assert(all.take(i + 1).last() == optional_text(targets@[i as int]));
        }
        match &targets[i] {
            Some(name) => {
                let entity = CodeEntity {
                    entity_type: owned("variable"),
                    file_path: owned(rel_path),
                    name: name.clone(),
                    signature: None,
                    docstring: None,
                    line_start: 1,
                    line_end: 1,
                    parent_class: owned_option(parent_class),
                    bases: None,
                    value_repr: Some(value_repr.clone()),
                };
                assert(entity@ == variable_entity(name@, value_repr@, rel_path@, parent));
                entities.push(entity);
                assert(self::entities(entities@) =~= listed.push(
                    variable_entity(name@, value_repr@, rel_path@, parent),
                ));
            },
            None => {},
        }
        assert(self::entities(entities@) =~= before + variables_spec(
            all.take(i + 1),
            value_repr@,
            rel_path@,
            parent,
        ));
        i = i + 1;
    }
    assert(all.take(targets@.len() as int) =~= all);
}

/// Appends the records of a statement.
pub fn walk(
    node: &Statement,
    rel_path: &str,
    entities: &mut Vec<CodeEntity>,
    parent_class: Option<&str>,
    src: &str,
)
    ensures
        self::entities(final(entities)@) == self::entities(old(entities)@) + walk_spec(
            node.model(),
            rel_path@,
            text_of(parent_class),
            src.spec_bytes(),
        ),
    decreases node,
{
    let ghost before = self::entities(entities@);
    let ghost parent = text_of(parent_class);
    match node {
        Statement::Function { name, parameters, span, body } => {
            let entity = CodeEntity {
                entity_type: if parent_class.is_some() {
                    owned("method")
                } else {
                    owned("function")
                },
                file_path: owned(rel_path),
                name: name.clone(),
                signature: Some(get_signature(name.as_str(), parameters)),
                docstring: match get_docstring(body) {
                    Some(doc) => Some(doc.clone()),
                    None => None,
                },
                line_start: textsize_to_line(src, span.start),
                line_end: textsize_to_line(src, span.end),
                parent_class: owned_option(parent_class),
                bases: None,
                value_repr: None,
            };
            assert(entity@ == function_entity(
                name@,
                parameters.model(),
                span.start,
                span.end,
                models(body@),
                rel_path@,
                parent,
                src.spec_bytes(),
            ));
            entities.push(entity);
            assert(self::entities(entities@) =~= before + walk_spec(
                node.model(),
                rel_path@,
                parent,
                src.spec_bytes(),
            ));
        },
        Statement::Class { name, bases, span, body } => {
            let entity = CodeEntity {
                entity_type: owned("class"),
                file_path: owned(rel_path),
                name: name.clone(),
                signature: None,
                docstring: match get_docstring(body) {
                    Some(doc) => Some(doc.clone()),
                    None => None,
                },
                line_start: textsize_to_line(src, span.start),
                line_end: textsize_to_line(src, span.end),
                parent_class: None,
                bases: Some(copy_texts(bases)),
                value_repr: None,
            };
            assert(entity@ == class_entity(
                name@,
                texts(bases@),
                span.start,
                span.end,
                models(body@),
                rel_path@,
                src.spec_bytes(),
            ));
            entities.push(entity);
            assert(self::entities(entities@) =~= before.push(
                class_entity(
                    name@,
                    texts(bases@),
                    span.start,
                    span.end,
                    models(body@),
                    rel_path@,
                    src.spec_bytes(),
                ),
            ));
            walk_all(body, rel_path, entities, Some(name.as_str()), src);
            walk_all(body, rel_path, entities, parent_class, src);
            assert(self::entities(entities@) =~= before + walk_spec(
                node.model(),
                rel_path@,
                parent,
                src.spec_bytes(),
            ));
        },
        Statement::Assign { targets, value_repr } => {
            push_variables(targets, value_repr, rel_path, entities, parent_class);
        },
        _ => {
            assert(self::entities(entities@) =~= before + walk_spec(
                node.model(),
                rel_path@,
                parent,
                src.spec_bytes(),
            ));
        },
    }
}

/// Appends the records of a list of statements.
pub fn walk_all(
    suite: &Vec<Statement>,
    rel_path: &str,
    entities: &mut Vec<CodeEntity>,
    parent_class: Option<&str>,
    src: &str,
)
    ensures
        self::entities(final(entities)@) == self::entities(old(entities)@) + walk_all_spec(
            models(suite@),
            rel_path@,
            text_of(parent_class),
            src.spec_bytes(),
        ),
    decreases suite,
{
    let ghost before = self::entities(entities@);
    let ghost parent = text_of(parent_class);
    let ghost all = models(suite@);
    let mut i: usize = 0;
    proof {
        lemma_models(suite@);
        assert(all.take(0) =~= Seq::<Syntax>::empty());
        assert(self::entities(entities@) =~= before + walk_all_spec(
            all.take(0),
            rel_path@,
            parent,
            src.spec_bytes(),
        ));
    }
    while i < suite.len()
        invariant
            i <= suite@.len(),
            parent == text_of(parent_class),
            all == models(suite@),
            all.len() == suite@.len(),
            forall|k: int| 0 <= k < suite@.len() ==> (#[trigger] all[k]) == suite@[k].model(),
            self::entities(entities@) == before + walk_all_spec(
                all.take(i as int),
                rel_path@,
                parent,
                src.spec_bytes(),
            ),
        decreases suite@.len() - i,
    {
        proof {
            assert(all.take(i + 1).drop_last() =~= all.take(i as int));
            assert(all.take(i + 1).last() == all[i as int]);
        }
        walk(&suite[i], rel_path, entities, parent_class, src);
        assert(self::entities(entities@) =~= before + walk_all_spec(
            all.take(i + 1),
            rel_path@,
            parent,
            src.spec_bytes(),
        ));
        i = i + 1;
    }
    assert(all.take(suite@.len() as int) =~= all);
}

/// The records of a source text, given what the parser makes of it: none where it
/// is not a Python module.
pub open spec fn extract_code_info_spec(
    module: Option<Seq<Syntax>>,
    rel_path: Seq<char>,
    bytes: Seq<u8>,
) -> Seq<Entity> {
    match module {
        Some(suite) => walk_all_spec(suite, rel_path, None, bytes),
        None => Seq::empty(),
    }
}

/// The records of a parsed module.
pub fn entities_of_module(module: &Option<Vec<Statement>>, rel_path: &str, src: &str) -> (list:
    Vec<CodeEntity>)
    ensures
        self::entities(list@) == extract_code_info_spec(
            module_model(*module),
            rel_path@,
            src.spec_bytes(),
        ),
{
    let mut list: Vec<CodeEntity> = Vec::new();
    assert(self::entities(list@) =~= Seq::<Entity>::empty());
    match module {
        Some(suite) => {
            walk_all(suite, rel_path, &mut list, None, src);
            assert(self::entities(list@) =~= walk_all_spec(
                models(suite@),
                rel_path@,
                None,
                src.spec_bytes(),
            ));
        },
        None => {},
    }
    list
}

/// The records of the entities of a Python source text that stands in the file
/// `rel_path`: its functions, classes and variables. A text that is not a Python
/// module gives none.
pub fn extract_code_info(content: &str, rel_path: &str) -> (list: Vec<CodeEntity>)
    ensures
        self::entities(list@) == extract_code_info_spec(
            parsed_module(content@),
            rel_path@,
            content.spec_bytes(),
        ),
{
    let module = parse_python(content);
    entities_of_module(&module, rel_path, content)
}

} // verus!
