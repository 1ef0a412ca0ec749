//! How search results are rendered as text for a person to read.
//!
//! A score is rendered by the caller, who knows the number behind its bit pattern;
//! the library puts the lines together. JSON is written by the caller.

use crate::metadata::Metadata;
use crate::text::{decimal, decimal_spec, join, owned, str_eq};
use crate::vector_search::SearchResult;
use vstd::prelude::*;

verus! {

/// The rendering of search results that a caller asks for.
#[derive(Debug, Clone, Copy, PartialEq, Eq, Structural)]
pub enum OutputFormat {
    /// Text for a person to read.
    Human,
    /// JSON.
    Json,
}

/// The pair at `i` is the one that binds its name: no later pair has the name.
pub open spec fn binds(pairs: Seq<(String, String)>, i: int) -> bool {
    forall|j: int| i < j < pairs.len() ==> (#[trigger] pairs[j]).0@ != pairs[i].0@
}

/// The rendered score of the result at `i`; nothing where the list of scores is
/// too short.
pub open spec fn score_at(scores: Seq<String>, i: int) -> Seq<char> {
    if 0 <= i < scores.len() {
        scores[i]@
    } else {
        Seq::empty()
    }
}

/// The bindings of the first `n` pairs as text: `name: value`, separated by
/// commas, in the order in which the names were bound.
pub open spec fn pairs_text(pairs: Seq<(String, String)>, n: nat) -> Seq<char>
    decreases n,
{
    if n == 0 || n > pairs.len() {
        Seq::empty()
    } else {
        let before = pairs_text(pairs, (n - 1) as nat);
        if !binds(pairs, n - 1) {
            before
        } else if before.len() == 0 {
            pairs[n - 1].0@ + ": "@ + pairs[n - 1].1@
        } else {
            before + ", "@ + pairs[n - 1].0@ + ": "@ + pairs[n - 1].1@
        }
    }
}

/// The metadata as text.
pub open spec fn metadata_text(metadata: Metadata) -> Seq<char> {
    pairs_text(metadata.entries@, metadata.entries@.len())
}

/// The line of one result: its position, its id, its score as rendered, and its
/// metadata.
pub open spec fn result_line(position: nat, result: SearchResult, score: Seq<char>) -> Seq<char> {
    decimal_spec(position) + ". "@ + result.entity_id@ + " (score: "@ + score + ") - "@
        + metadata_text(result.metadata)
}

/// The lines of the first `n` results, separated by line feeds.
pub open spec fn result_lines(results: Seq<SearchResult>, scores: Seq<String>, n: nat) -> Seq<char>
    decreases n,
{
    if n == 0 || n > results.len() {
        Seq::empty()
    } else if n == 1 {
        result_line(1, results[0], score_at(scores, 0))
    } else {
        result_lines(results, scores, (n - 1) as nat) + "\n"@ + result_line(
            n,
            results[n - 1],
            score_at(scores, n - 1),
        )
    }
}

/// The results as text, given the rendering of each score: a heading and one
/// numbered line for each result, or one sentence where there are none.
pub open spec fn human_readable(results: Seq<SearchResult>, scores: Seq<String>) -> Seq<char> {
    if results.len() == 0 {
        "No results found."@
    } else {
        "Results:\n"@ + result_lines(results, scores, results.len())
    }
}

fn binds_name(entries: &Vec<(String, String)>, i: usize) -> (bound: bool)
    requires
        i < entries@.len(),
    ensures
        bound == binds(entries@, i as int),
{
    let mut bound = true;
    let n = entries.len();
    let mut j: usize = i + 1;
    while j < n
        invariant
            i < j <= entries@.len(),
            n == entries@.len(),
            bound == (forall|k: int|
                i < k < j ==> (#[trigger] entries@[k]).0@ != entries@[i as int].0@),
        decreases entries@.len() - j,
    {
        if str_eq(entries[j].0.as_str(), entries[i].0.as_str()) {
            bound = false;
        }
        j = j + 1;
    }
    bound
}

/// The metadata as text: `name: value` for each name, separated by commas.
pub fn format_metadata(metadata: &Metadata) -> (r: String)
    ensures
        r@ == metadata_text(*metadata),
{
    let entries = &metadata.entries;
    let mut r = String::new();
    let mut empty = true;
    let mut i: usize = 0;
    while i < entries.len()
        invariant
            i <= entries@.len(),
            entries == &metadata.entries,
            r@ == pairs_text(entries@, i as nat),
            empty == (r@.len() == 0),
        decreases entries@.len() - i,
    {
        if binds_name(entries, i) {
            if !empty {
                r.append(", ");
            }
            r.append(entries[i].0.as_str());
            r.append(": ");
            r.append(entries[i].1.as_str());
            empty = false;
            proof {
                reveal_strlit(": ");
                assert(": "@.len() == 2);
            }
        }
        i = i + 1;
    }
    r
}

fn score_text(scores: &Vec<String>, i: usize) -> (r: &str)
    ensures
        r@ == score_at(scores@, i as int),
{
    if i < scores.len() {
        scores[i].as_str()
    } else {
        let nothing = "";
        proof {
            reveal_strlit("");
            assert(nothing@ =~= Seq::<char>::empty());
        }
        nothing
    }
}

/// Puts the results together as text for a person to read, given the rendering of
/// each score.
pub fn frame_human_readable(results: &[SearchResult], scores: &Vec<String>) -> (r: String)
    ensures
        r@ == human_readable(results@, scores@),
{
    if results.len() == 0 {
        return owned("No results found.");
    }
    let mut body = String::new();
    let mut i: usize = 0;
    while i < results.len()
        invariant
            i <= results@.len(),
            body@ == result_lines(results@, scores@, i as nat),
        decreases results@.len() - i,
    {
        if i > 0 {
            body.append("\n");
        }
        let position = decimal(i + 1);
        body.append(position.as_str());
        body.append(". ");
        body.append(results[i].entity_id.as_str());
        body.append(" (score: ");
        body.append(score_text(scores, i));
        body.append(") - ");
        let metadata = format_metadata(&results[i].metadata);
        body.append(metadata.as_str());
        proof {
            assert(body@ =~= result_lines(results@, scores@, (i + 1) as nat));
        }
        i = i + 1;
    }
    join("Results:\n", body.as_str())
}

/// Every score can be rendered.
pub open spec fn renders_all<F: Fn(u32) -> String>(render: &F) -> bool {
    forall|score: u32| call_requires(*render, (score,))
}

/// `scores` holds, for each result in turn, a text that rendering its score gave.
pub open spec fn rendered_by<F: Fn(u32) -> String>(
    render: &F,
    results: Seq<SearchResult>,
    scores: Seq<String>,
) -> bool {
    &&& scores.len() == results.len()
    &&& forall|i: int|
        0 <= i < results.len() ==> call_ensures(
            *render,
            (results[i].score,),
            #[trigger] scores[i],
        )
}

/// Renders the score of each result.
pub fn render_scores<F: Fn(u32) -> String>(results: &[SearchResult], render: &F) -> (scores: Vec<
    String,
>)
    requires
        renders_all(render),
    ensures
        rendered_by(render, results@, scores@),
{
    let mut scores: Vec<String> = Vec::new();
    let mut i: usize = 0;
    while i < results.len()
        invariant
            i <= results@.len(),
            renders_all(render),
            scores@.len() == i,
            forall|k: int|
                0 <= k < i ==> call_ensures(*render, (results@[k].score,), #[trigger] scores@[k]),
        decreases results@.len() - i,
    {
        let score = render(results[i].score);
        scores.push(score);
        i = i + 1;
    }
    scores
}

/// Renders search results for a person to read: a heading and one numbered line
/// for each result, or a single sentence where there are none. `render` turns the
/// bit pattern of a score into its text.
pub fn format_human_readable_search_results<F: Fn(u32) -> String>(
    results: &[SearchResult],
    render: &F,
) -> (r: String)
    requires
        renders_all(render),
    ensures
        exists|scores: Seq<String>|
            #![trigger human_readable(results@, scores)]
            rendered_by(render, results@, scores) && r@ == human_readable(results@, scores),
{
    let scores = render_scores(results, render);
    let r = frame_human_readable(results, &scores);
    assert(rendered_by(render, results@, scores@) && r@ == human_readable(results@, scores@));
    r
}

/// The lines of the first `n` classic results, separated by line feeds.
pub open spec fn classic_lines(results: Seq<(&str, &str)>, n: nat) -> Seq<char>
    decreases n,
{
    if n == 0 || n > results.len() {
        Seq::empty()
    } else if n == 1 {
        results[0].0@ + ": "@ + results[0].1@
    } else {
        classic_lines(results, (n - 1) as nat) + "\n"@ + results[n - 1].0@ + ": "@ + results[n
            - 1].1@
    }
}

/// Renders classic results, each an id and the text of its score: one line for
/// each, the id and the score separated by a colon.
pub fn format_human_readable(results: &Vec<(&str, &str)>) -> (r: String)
    ensures
        r@ == classic_lines(results@, results@.len()),
{
    let mut r = String::new();
    let mut i: usize = 0;
    while i < results.len()
        invariant
            i <= results@.len(),
            r@ == classic_lines(results@, i as nat),
        decreases results@.len() - i,
    {
        if i > 0 {
            r.append("\n");
        }
        r.append(results[i].0);
        r.append(": ");
        r.append(results[i].1);
        proof {
            assert(r@ =~= classic_lines(results@, (i + 1) as nat));
        }
        i = i + 1;
    }
    r
}

/// Renders search results in the format asked for. `human` turns the bit pattern
/// of a score into its text for a person; `json` writes the results as JSON, which
/// the library leaves to the caller.
pub fn format_search_results<F: Fn(u32) -> String, G: Fn(&[SearchResult]) -> String>(
    results: &[SearchResult],
    format: OutputFormat,
    human: &F,
    json: &G,
) -> (r: String)
    requires
        renders_all(human),
        call_requires(*json, (results,)),
    ensures
        format == OutputFormat::Human ==> exists|scores: Seq<String>|
            #![trigger human_readable(results@, scores)]
            rendered_by(human, results@, scores) && r@ == human_readable(results@, scores),
        format == OutputFormat::Json ==> call_ensures(*json, (results,), r),
{
    match format {
        OutputFormat::Human => format_human_readable_search_results(results, human),
        OutputFormat::Json => json(results),
    }
}

} // verus!
