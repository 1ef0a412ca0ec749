//! Embedders: text in, a vector of fixed dimension out.

use crate::score::{ONE_BITS, THREE_BITS, TWO_BITS, ZERO_BITS};
use crate::text::{join, starts_with};
use vstd::prelude::*;

verus! {

/// Turns text into a vector of single-precision numbers, given by their bit patterns.
///
/// An embedder answers every text, the empty one included, with a vector of its
/// own fixed dimension.
pub trait Embedder {
    /// The length of every vector that this embedder returns. An implementation in
    /// verified code defines it; the default stands in where the implementation
    /// is not verified.
    open spec fn dimension(&self) -> nat {
        arbitrary()
    }

    /// The vector that this embedder returns for a text, where the text alone
    /// decides it; `None` where it does not, as with a remote provider.
    open spec fn embedding(&self, input: Seq<char>) -> Option<Seq<u32>> {
        None
    }

    fn embed(&self, input: &str) -> (v: Vec<u32>)
        ensures
            v@.len() == self.dimension(),
            self.embedding(input@) is Some ==> v@ == self.embedding(input@)->0,
    ;
}

/// `vector` is a vector that the embedder can return for the text: it has the
/// embedder's dimension, and it is the one that the text decides, if it decides
/// one.
pub open spec fn embeds<E: Embedder>(embedder: &E, input: Seq<char>, vector: Seq<u32>) -> bool {
    &&& vector.len() == embedder.dimension()
    &&& embedder.embedding(input) is Some ==> vector == embedder.embedding(input)->0
}

/// Why an embedder could not be made.
#[derive(Debug, Clone, Copy, PartialEq, Eq, Structural)]
pub enum EmbedderError {
    /// The access material of the provider is absent.
    MissingCredential,
}

impl EmbedderError {
    /// The message for the missing credential of this provider.
    pub fn message(&self, variable: &str) -> (r: String)
        ensures
            r@ == variable@ + " not set"@,
    {
        join(variable, " not set")
    }
}

/// The vector that stands for a text where its provider gave none. The library
/// reaches no provider itself, so this is what its provider-backed embedders
/// answer every text with.
pub open spec fn degraded_vector() -> Seq<u32> {
    seq![ONE_BITS, TWO_BITS, THREE_BITS]
}

fn degraded() -> (v: Vec<u32>)
    ensures
        v@ == degraded_vector(),
{
    let mut v: Vec<u32> = Vec::new();
    v.push(ONE_BITS);
    v.push(TWO_BITS);
    v.push(THREE_BITS);
    assert(v@ =~= degraded_vector());
    v
}

/// An embedder backed by the OpenAI provider.
pub struct OpenAIEmbedder {
    api_key: String,
}

impl OpenAIEmbedder {
    /// The name of the environment variable that holds the key.
    pub fn credential_variable() -> (r: &'static str)
        ensures
            r@ == "OPENAI_API_KEY"@,
    {
        "OPENAI_API_KEY"
    }

    /// The key that the embedder was made with.
    pub closed spec fn key(&self) -> Seq<char> {
        self.api_key@
    }

    /// The key that the embedder was made with.
    pub fn api_key(&self) -> (r: &str)
        ensures
            r@ == self.key(),
    {
        self.api_key.as_str()
    }

    /// Makes the embedder from the credential found in the environment, if any.
    pub fn from_credential(credential: Option<String>) -> (r: Result<OpenAIEmbedder, EmbedderError>)
        ensures
            match credential {
                Some(k) => r is Ok && r->Ok_0.key() == k@,
                None => r == Err::<OpenAIEmbedder, EmbedderError>(EmbedderError::MissingCredential),
            },
    {
        match credential {
            Some(k) => Ok(OpenAIEmbedder { api_key: k }),
            None => Err(EmbedderError::MissingCredential),
        }
    }
}

impl Embedder for OpenAIEmbedder {
    open spec fn dimension(&self) -> nat {
        3
    }

    open spec fn embedding(&self, input: Seq<char>) -> Option<Seq<u32>> {
        Some(degraded_vector())
    }

    fn embed(&self, input: &str) -> (v: Vec<u32>)
        ensures
            v@ == degraded_vector(),
    {
        degraded()
    }
}

/// An embedder backed by the Hugging Face provider.
pub struct HFEmbedder {
    api_key: String,
}

impl HFEmbedder {
    /// The name of the environment variable that holds the key.
    pub fn credential_variable() -> (r: &'static str)
        ensures
            r@ == "HF_API_KEY"@,
    {
        "HF_API_KEY"
    }

    /// The key that the embedder was made with.
    pub closed spec fn key(&self) -> Seq<char> {
        self.api_key@
    }

    /// The key that the embedder was made with.
    pub fn api_key(&self) -> (r: &str)
        ensures
            r@ == self.key(),
    {
        self.api_key.as_str()
    }

    /// Makes the embedder from the credential found in the environment, if any.
    pub fn from_credential(credential: Option<String>) -> (r: Result<HFEmbedder, EmbedderError>)
        ensures
            match credential {
                Some(k) => r is Ok && r->Ok_0.key() == k@,
                None => r == Err::<HFEmbedder, EmbedderError>(EmbedderError::MissingCredential),
            },
    {
        match credential {
            Some(k) => Ok(HFEmbedder { api_key: k }),
            None => Err(EmbedderError::MissingCredential),
        }
    }
}

impl Embedder for HFEmbedder {
    open spec fn dimension(&self) -> nat {
        3
    }

    open spec fn embedding(&self, input: Seq<char>) -> Option<Seq<u32>> {
        Some(degraded_vector())
    }

    fn embed(&self, input: &str) -> (v: Vec<u32>)
        ensures
            v@ == degraded_vector(),
    {
        degraded()
    }
}

/// A local, deterministic embedder: the vector depends on the kind of entity that
/// the text starts with.
#[derive(Debug, Clone, Copy)]
pub struct MockEmbedder;

/// The vector that the local embedder gives for a text.
pub open spec fn mock_vector(input: Seq<char>) -> Seq<u32> {
    if "class"@.is_prefix_of(input) {
        seq![ONE_BITS, ZERO_BITS, ZERO_BITS]
    } else if "fn"@.is_prefix_of(input) {
        seq![ZERO_BITS, ONE_BITS, ZERO_BITS]
    } else if "var"@.is_prefix_of(input) {
        seq![ZERO_BITS, ZERO_BITS, ONE_BITS]
    } else if "doc"@.is_prefix_of(input) {
        seq![ONE_BITS, ONE_BITS, ZERO_BITS]
    } else {
        seq![ZERO_BITS, ONE_BITS, TWO_BITS]
    }
}

fn triple(a: u32, b: u32, c: u32) -> (v: Vec<u32>)
    ensures
        v@ == seq![a, b, c],
{
    let mut v: Vec<u32> = Vec::new();
    v.push(a);
    v.push(b);
    v.push(c);
    assert(v@ =~= seq![a, b, c]);
    v
}

impl MockEmbedder {
    /// The local embedder.
    pub fn new() -> (embedder: MockEmbedder)
        ensures
            embedder.dimension() == 3,
    {
        MockEmbedder
    }
}

impl Embedder for MockEmbedder {
    open spec fn dimension(&self) -> nat {
        3
    }

    open spec fn embedding(&self, input: Seq<char>) -> Option<Seq<u32>> {
        Some(mock_vector(input))
    }

    fn embed(&self, input: &str) -> (v: Vec<u32>)
        ensures
            v@ == mock_vector(input@),
    {
        if starts_with(input, "class") {
            triple(ONE_BITS, ZERO_BITS, ZERO_BITS)
        } else if starts_with(input, "fn") {
            triple(ZERO_BITS, ONE_BITS, ZERO_BITS)
        } else if starts_with(input, "var") {
            triple(ZERO_BITS, ZERO_BITS, ONE_BITS)
        } else if starts_with(input, "doc") {
            triple(ONE_BITS, ONE_BITS, ZERO_BITS)
        } else {
            triple(ZERO_BITS, ONE_BITS, TWO_BITS)
        }
    }
}

} // verus!
