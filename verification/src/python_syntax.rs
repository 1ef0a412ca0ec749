//! The syntax of a Python module as the library reads it, and the parser behind it.

use crate::text::{optional_text, texts};
use rustpython_ast::text_size::TextRange;
use rustpython_ast::{Arguments, Constant, Expr, Stmt};
use rustpython_parser::Parse;
use vstd::prelude::*;
use vstd::string::*;
use vstd::utf8::encode_utf8;

verus! {

/// The names of the parameters of a function, by kind.
#[derive(Debug)]
pub struct Parameters {
    pub positional_only: Vec<String>,
    pub positional: Vec<String>,
    pub keyword_only: Vec<String>,
    /// The parameter that takes the remaining positional arguments, if any.
    pub variadic: Option<String>,
    /// The parameter that takes the remaining keyword arguments, if any.
    pub keyword_variadic: Option<String>,
}

/// Where a statement stands in the source text, in bytes from its start.
#[derive(Debug, Clone, Copy)]
pub struct Span {
    pub start: usize,
    pub end: usize,
}

/// A statement of a Python module, as far as the library reads it.
#[derive(Debug)]
pub enum Statement {
    /// A function definition.
    Function { name: String, parameters: Parameters, span: Span, body: Vec<Statement> },
    /// A class definition; each base is given as the parser displays it.
    Class { name: String, bases: Vec<String>, span: Span, body: Vec<Statement> },
    /// An assignment; each target is the assigned name, or `None` where the target
    /// is not a plain name, and the value is given as the parser displays it.
    Assign { targets: Vec<Option<String>>, value_repr: String },
    /// An expression statement that is a string literal.
    Text { value: String },
    /// Any other statement.
    Other,
}

/// A statement of the parser's syntax tree.
#[verifier::external_type_specification]
#[verifier::external_body]
#[verifier::reject_recursive_types(R)]
pub struct ExStmt<R>(Stmt<R>);

/// An expression of the parser's syntax tree.
#[verifier::external_type_specification]
#[verifier::external_body]
#[verifier::reject_recursive_types(R)]
pub struct ExExpr<R>(Expr<R>);

/// The parameters of a function in the parser's syntax tree.
#[verifier::external_type_specification]
#[verifier::external_body]
#[verifier::reject_recursive_types(R)]
pub struct ExArguments<R>(Arguments<R>);

/// A range of positions in the source text.
#[verifier::external_type_specification]
#[verifier::external_body]
pub struct ExTextRange(TextRange);

/// The names of the parameters of a function as plain values.
pub ghost struct Signature {
    pub positional_only: Seq<Seq<char>>,
    pub positional: Seq<Seq<char>>,
    pub keyword_only: Seq<Seq<char>>,
    pub variadic: Option<Seq<char>>,
    pub keyword_variadic: Option<Seq<char>>,
}

/// A statement as plain values.
pub ghost enum Syntax {
    Function { name: Seq<char>, parameters: Signature, start: usize, end: usize, body: Seq<Syntax> },
    Class { name: Seq<char>, bases: Seq<Seq<char>>, start: usize, end: usize, body: Seq<Syntax> },
    Assign { targets: Seq<Option<Seq<char>>>, value_repr: Seq<char> },
    Text { value: Seq<char> },
    Other,
}

impl Parameters {
    /// The parameters as plain values.
    pub open spec fn model(&self) -> Signature {
        Signature {
            positional_only: texts(self.positional_only@),
            positional: texts(self.positional@),
            keyword_only: texts(self.keyword_only@),
            variadic: optional_text(self.variadic),
            keyword_variadic: optional_text(self.keyword_variadic),
        }
    }
}

/// The targets of an assignment as plain values.
pub open spec fn target_models(targets: Seq<Option<String>>) -> Seq<Option<Seq<char>>> {
    Seq::new(targets.len(), |i: int| optional_text(targets[i]))
}

impl Statement {
    /// The statement as plain values.
    pub open spec fn model(&self) -> Syntax
        decreases self,
    {
        match self {
            Statement::Function { name, parameters, span, body } => Syntax::Function {
                name: name@,
                parameters: parameters.model(),
                start: span.start,
                end: span.end,
                body: models(body@),
            },
            Statement::Class { name, bases, span, body } => Syntax::Class {
                name: name@,
                bases: texts(bases@),
                start: span.start,
                end: span.end,
                body: models(body@),
            },
            Statement::Assign { targets, value_repr } => Syntax::Assign {
                targets: target_models(targets@),
                value_repr: value_repr@,
            },
            Statement::Text { value } => Syntax::Text { value: value@ },
            Statement::Other => Syntax::Other,
        }
    }
}

/// A list of statements as plain values.
pub open spec fn models(statements: Seq<Statement>) -> Seq<Syntax>
    decreases statements,
{
    if statements.len() == 0 {
        Seq::empty()
    } else {
        models(statements.drop_last()).push(statements.last().model())
    }
}

/// A parsed module as plain values.
pub open spec fn module_model(module: Option<Vec<Statement>>) -> Option<Seq<Syntax>> {
    match module {
        Some(suite) => Some(models(suite@)),
        None => None,
    }
}

/// The plain values of a list of statements are those of its statements, one by
/// one.
pub proof fn lemma_models(statements: Seq<Statement>)
    ensures
        models(statements).len() == statements.len(),
        forall|i: int|
            0 <= i < statements.len() ==> (#[trigger] models(statements)[i])
                == statements[i].model(),
    decreases statements.len(),
{
    if statements.len() > 0 {
        lemma_models(statements.drop_last());
    }
}

/// The module that the parser reads from a Python source text, or `None` where
/// the text is not a Python module.
pub uninterp spec fn python_module(text: Seq<char>) -> Option<Seq<Syntax>>;

/// The longest text, in bytes, that is handed to the parser: the parser counts
/// positions in 32 bits.
pub const MAX_SOURCE_BYTES: usize = 0xFFFF_FFFF;

/// What the library makes of a source text as Python: what the parser reads from
/// it, and `None` for a text that is longer than the parser can count.
pub open spec fn parsed_module(text: Seq<char>) -> Option<Seq<Syntax>> {
    if encode_utf8(text).len() <= MAX_SOURCE_BYTES {
        python_module(text)
    } else {
        None
    }
}

/// Parses a text as a Python module. A text that is no Python module gives
/// `None`, and so does a text of more than `MAX_SOURCE_BYTES` bytes, which is
/// never handed to the parser.
pub fn parse_python(text: &str) -> (r: Option<Vec<Statement>>)
    ensures
        module_model(r) == parsed_module(text@),
{
    if text.as_bytes().len() <= MAX_SOURCE_BYTES {
        parse_module(text)
    } else {
        None
    }
}

/// Parses a Python module with `rustpython_parser::Parse::parse` for
/// `rustpython_ast::Suite`, under the path `<embedded>`, and hands its statements
/// over one by one. The parser counts positions in the text in 32 bits and fails
/// where they do not fit, so a longer text is left out. The parser reads nothing
/// but the text, so what it makes of the text is named as a function of the text;
/// a text that it rejects gives `None`. Nothing more is claimed of the result.
#[verifier::external_body]
fn parse_module(text: &str) -> (r: Option<Vec<Statement>>)
    requires
        text.spec_bytes().len() <= MAX_SOURCE_BYTES,
    ensures
        module_model(r) == python_module(text@),
{
    match rustpython_ast::Suite::parse(text, "<embedded>") {
        Ok(suite) => Some(suite.iter().map(lower_statement).collect()),
        Err(_) => None,
    }
}

/// Tells the variants of `rustpython_ast::Stmt` apart and moves over the fields
/// that the library reads: name, parameters, range and body of a function
/// definition; name, bases, range and body of a class definition; targets and
/// value of an assignment; the value of an expression statement.
#[verifier::external_body]
fn lower_statement(statement: &Stmt) -> Statement {
    match statement {
        Stmt::FunctionDef(d) => Statement::Function { name: d.name.to_string(), parameters: lower_parameters(&d.args), span: lower_range(&d.range), body: d.body.iter().map(lower_statement).collect() },
        Stmt::ClassDef(d) => Statement::Class { name: d.name.to_string(), bases: d.bases.iter().map(display).collect(), span: lower_range(&d.range), body: d.body.iter().map(lower_statement).collect() },
        Stmt::Assign(a) => Statement::Assign { targets: a.targets.iter().map(lower_target).collect(), value_repr: display(&a.value) },
        Stmt::Expr(e) => lower_literal(&e.value),
        _ => Statement::Other,
    }
}

/// Moves over the names of the parameters of `rustpython_ast::Arguments`, kind by
/// kind.
#[verifier::external_body]
fn lower_parameters(arguments: &Arguments) -> Parameters {
    Parameters {
        positional_only: arguments.posonlyargs.iter().map(|p| p.def.arg.to_string()).collect(),
        positional: arguments.args.iter().map(|p| p.def.arg.to_string()).collect(),
        keyword_only: arguments.kwonlyargs.iter().map(|p| p.def.arg.to_string()).collect(),
        variadic: arguments.vararg.as_ref().map(|p| p.arg.to_string()),
        keyword_variadic: arguments.kwarg.as_ref().map(|p| p.arg.to_string()),
    }
}

/// The start and end of a `TextRange` as byte offsets, by `TextSize::to_usize`.
#[verifier::external_body]
fn lower_range(range: &TextRange) -> Span {
    Span { start: range.start().to_usize(), end: range.end().to_usize() }
}

/// Tells a `rustpython_ast::Expr::Name` from the other expressions and hands over
/// its identifier.
#[verifier::external_body]
fn lower_target(target: &Expr) -> Option<String> {
    match target {
        Expr::Name(name) => Some(name.id.to_string()),
        _ => None,
    }
}

/// Tells a `rustpython_ast::Expr::Constant` that holds a `Constant::Str` from the
/// other expressions and hands over its string.
#[verifier::external_body]
fn lower_literal(value: &Expr) -> Statement {
    match value {
        Expr::Constant(c) => match &c.value {
            Constant::Str(s) => Statement::Text { value: s.clone() },
            _ => Statement::Other,
        },
        _ => Statement::Other,
    }
}

/// A `rustpython_ast::Expr` as its `Debug` implementation displays it. Nothing is
/// claimed of the text.
#[verifier::external_body]
fn display(expression: &Expr) -> String {
    format!("{:?}", expression)
}

} // verus!
