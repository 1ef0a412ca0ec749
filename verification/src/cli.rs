//! The commands of the indexer as plain values.

use crate::text::{join, owned, texts, to_chars, trim, trimmed};
use vstd::prelude::*;
use vstd::string::*;

verus! {

/// The parsed command line.
#[derive(Debug)]
pub struct CliArgs {
    pub command: Commands,
}

/// One command with its arguments.
#[derive(Debug)]
pub enum Commands {
    /// Index the code in a directory.
    Remember { name: String, path: String },
    /// Update specific files of the index.
    Refresh { name: String, files: String },
    /// Search the index for code.
    Recall { entity: Option<String>, show_lines: bool, max: Option<usize>, project_name: String },
    /// Report what the index holds.
    Status { name: String },
    /// Clear the index.
    Forget { name: String },
    /// Generate and store embeddings for the entities of a project.
    Vectorize {
        name: String,
        path: String,
        provider: Option<String>,
        db: Option<String>,
        batch_size: Option<usize>,
        dry_run: bool,
        verbose: bool,
    },
    /// Search the stored embeddings for entities similar to a query.
    VectorRecall {
        name: String,
        query: String,
        provider: Option<String>,
        db: Option<String>,
        top_k: Option<usize>,
        json: bool,
    },
}

/// The number of files per batch where a command names none.
pub const DEFAULT_BATCH_SIZE: usize = 10;

/// The number of results where a query names none.
pub const DEFAULT_TOP_K: usize = 5;

impl Commands {
    /// The name of the project that the command works on.
    pub open spec fn project_spec(&self) -> Seq<char> {
        match self {
            Commands::Remember { name, .. } => name@,
            Commands::Refresh { name, .. } => name@,
            Commands::Recall { project_name, .. } => project_name@,
            Commands::Status { name } => name@,
            Commands::Forget { name } => name@,
            Commands::Vectorize { name, .. } => name@,
            Commands::VectorRecall { name, .. } => name@,
        }
    }

    /// The name of the project that the command works on.
    pub fn project(&self) -> (r: &str)
        ensures
            r@ == self.project_spec(),
    {
        match self {
            Commands::Remember { name, .. } => name.as_str(),
            Commands::Refresh { name, .. } => name.as_str(),
            Commands::Recall { project_name, .. } => project_name.as_str(),
            Commands::Status { name } => name.as_str(),
            Commands::Forget { name } => name.as_str(),
            Commands::Vectorize { name, .. } => name.as_str(),
            Commands::VectorRecall { name, .. } => name.as_str(),
        }
    }

    /// The prefix under which the project's keys are stored.
    pub fn key_prefix(&self) -> (r: String)
        ensures
            r@ == "code_index:"@ + self.project_spec(),
    {
        join("code_index:", self.project())
    }
}

/// The position of the first comma at or after `pos`, or the length of the text
/// where there is none.
pub open spec fn comma_end(text: Seq<char>, pos: int) -> int
    decreases text.len() - pos,
{
    if pos < 0 || pos >= text.len() {
        text.len() as int
    } else if text[pos] == ',' {
        pos
    } else {
        comma_end(text, pos + 1)
    }
}

/// The names that a comma-separated list holds from position `pos` on, each
/// without the whitespace around it.
pub open spec fn listed_from(text: Seq<char>, pos: int) -> Seq<Seq<char>>
    decreases text.len() - pos,
{
    if pos < 0 || pos > text.len() {
        Seq::empty()
    } else {
        let end = comma_end(text, pos);
        let name = trimmed(text.subrange(pos, end));
        if end < pos || end >= text.len() {
            seq![name]
        } else {
            seq![name] + listed_from(text, end + 1)
        }
    }
}

/// The file names of a comma-separated list, each without the whitespace around
/// it. A list without a comma holds one name, which may be empty.
pub fn file_list(files: &str) -> (names: Vec<String>)
    ensures
        texts(names@) == listed_from(files@, 0),
{
    let chars = to_chars(files);
    let mut names: Vec<String> = Vec::new();
    let mut pos: usize = 0;
    let mut done = false;
    assert(texts(names@) + listed_from(files@, 0) =~= listed_from(files@, 0));
    while !done
        invariant
            pos <= chars@.len(),
            chars@ == files@,
            !done ==> texts(names@) + listed_from(files@, pos as int) == listed_from(files@, 0),
            done ==> texts(names@) == listed_from(files@, 0),
        decreases chars@.len() - pos + if done { 0int } else { 1int },
    {
        let ghost before = texts(names@);
        let mut end = pos;
        while end < chars.len() && chars[end] != ','
            invariant
                pos <= end <= chars@.len(),
                comma_end(chars@, pos as int) == comma_end(chars@, end as int),
            decreases chars@.len() - end,
        {
            end = end + 1;
        }
        let name = trim(files.substring_char(pos, end));
        names.push(owned(name));
        proof {
            assert(texts(names@) =~= before.push(name@));
        }
        if end < chars.len() {
            pos = end + 1;
            proof {
                assert(texts(names@) + listed_from(files@, pos as int) =~= listed_from(files@, 0));
            }
        } else {
            done = true;
            proof {
                assert(texts(names@) =~= listed_from(files@, 0));
            }
        }
    }
    names
}

} // verus!
