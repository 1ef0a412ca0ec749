//! Similarity search: filter the records of a store, score them against a query,
//! and rank what is left.

use crate::metadata::Metadata;
use crate::score::{
    is_nan, is_score_of, is_sign_negative, is_unit, kernel_total, meets_min_score,
    passes_min_score, similarity,
};
use crate::text::{
    lemma_str_le_antisymmetric, lemma_str_le_total, lemma_str_le_transitive, str_eq, str_le,
    precedes,
};
use crate::vector_store::{readable_ids, Record, StoreError, VectorStore};
use vstd::prelude::*;

verus! {

/// One entity that a search found.
#[derive(Debug)]
pub struct SearchResult {
    /// The id of the entity.
    pub entity_id: String,
    /// The similarity to the query: the bit pattern of a number in `[0.0, 1.0]`.
    pub score: u32,
    /// The metadata that the store held for the entity when it was read.
    pub metadata: Metadata,
}

/// What a search is asked to return.
#[derive(Debug)]
pub struct SearchOptions {
    /// The largest number of results.
    pub top_k: usize,
    /// The bit pattern of an inclusive lower bound on the score, if any.
    pub min_score: Option<u32>,
    /// The entity types to keep, if only some are wanted.
    pub entity_types: Option<Vec<String>>,
    /// The file to keep entities of, if only one is wanted.
    pub file_filter: Option<String>,
}

/// Some string of the list is `text`.
pub open spec fn lists(list: Seq<String>, text: Seq<char>) -> bool {
    exists|i: int| 0 <= i < list.len() && (#[trigger] list[i])@ == text
}

/// The metadata names an entity type that the allow-list holds, or there is no list.
pub open spec fn type_admitted(
    metadata: Map<Seq<char>, Seq<char>>,
    entity_types: Option<Vec<String>>,
) -> bool {
    match entity_types {
        None => true,
        Some(list) => metadata.contains_key("type"@) && lists(list@, metadata["type"@]),
    }
}

/// The metadata names exactly the wanted file, or no file is wanted.
pub open spec fn file_admitted(
    metadata: Map<Seq<char>, Seq<char>>,
    file_filter: Option<String>,
) -> bool {
    match file_filter {
        None => true,
        Some(file) => metadata.contains_key("file"@) && metadata["file"@] == file@,
    }
}

/// The metadata passes the filters on entity type and file.
pub open spec fn filters_admit(metadata: Map<Seq<char>, Seq<char>>, options: SearchOptions) -> bool {
    type_admitted(metadata, options.entity_types) && file_admitted(metadata, options.file_filter)
}

/// `a` is ranked before `b`, or they rank alike: the higher score first, and of two
/// equal scores the entity id that comes first in the order of strings.
pub open spec fn ranks_before(a: SearchResult, b: SearchResult) -> bool {
    a.score > b.score || (a.score == b.score && str_le(a.entity_id@, b.entity_id@))
}

/// Every result is ranked before all that follow it.
pub open spec fn is_ranked(results: Seq<SearchResult>) -> bool {
    forall|i: int, j: int|
        0 <= i < j < results.len() ==> ranks_before(#[trigger] results[i], #[trigger] results[j])
}

/// `out` holds the first `top_k` of `all` in ranked order, or all of them if they
/// are fewer.
pub open spec fn is_top_ranked(all: Seq<SearchResult>, top_k: nat, out: Seq<SearchResult>) -> bool {
    exists|sorted: Seq<SearchResult>|
        #![trigger is_ranked(sorted)]
        is_ranked(sorted) && sorted.to_multiset() == all.to_multiset() && out == sorted.take(
            if top_k <= sorted.len() {
                top_k as int
            } else {
                sorted.len() as int
            },
        )
}

/// Of two results, one is ranked before the other or they rank alike.
pub proof fn lemma_ranks_total(a: SearchResult, b: SearchResult)
    ensures
        ranks_before(a, b) || ranks_before(b, a),
{
    lemma_str_le_total(a.entity_id@, b.entity_id@);
}

/// Two results that are each ranked before the other, or alike, have the same
/// score and the same entity id: ranking leaves no tie between two entities.
pub proof fn lemma_ranks_antisymmetric(a: SearchResult, b: SearchResult)
    requires
        ranks_before(a, b),
        ranks_before(b, a),
    ensures
        a.score == b.score,
        a.entity_id@ == b.entity_id@,
{
    lemma_str_le_antisymmetric(a.entity_id@, b.entity_id@);
}

/// Ranking is transitive.
pub proof fn lemma_ranks_transitive(a: SearchResult, b: SearchResult, c: SearchResult)
    requires
        ranks_before(a, b),
        ranks_before(b, c),
    ensures
        ranks_before(a, c),
{
    if a.score == b.score && b.score == c.score {
        lemma_str_le_transitive(a.entity_id@, b.entity_id@, c.entity_id@);
    }
}

/// Decides whether `a` is ranked before `b` or alike.
pub fn ranked_before(a: &SearchResult, b: &SearchResult) -> (r: bool)
    ensures
        r == ranks_before(*a, *b),
{
    a.score > b.score || (a.score == b.score && precedes(
        a.entity_id.as_str(),
        b.entity_id.as_str(),
    ))
}

/// Decides whether the list holds the text.
pub fn list_contains(list: &Vec<String>, text: &str) -> (r: bool)
    ensures
        r == lists(list@, text@),
{
    let mut i: usize = 0;
    while i < list.len()
        invariant
            i <= list@.len(),
            forall|j: int| 0 <= j < i ==> (#[trigger] list@[j])@ != text@,
        decreases list@.len() - i,
    {
        if str_eq(list[i].as_str(), text) {
            return true;
        }
        i = i + 1;
    }
    false
}

/// Decides whether the metadata of an entity passes the filters on entity type and
/// file.
pub fn passes_filters(metadata: &Metadata, options: &SearchOptions) -> (r: bool)
    ensures
        r == filters_admit(metadata@, *options),
{
    let type_ok = match &options.entity_types {
        None => true,
        Some(list) => match metadata.get("type") {
            Some(t) => list_contains(list, t.as_str()),
            None => false,
        },
    };
    if !type_ok {
        return false;
    }
    match &options.file_filter {
        None => true,
        Some(file) => metadata.holds("file", file.as_str()),
    }
}

/// Sorts results into ranked order.
pub fn sort_results(results: Vec<SearchResult>) -> (sorted: Vec<SearchResult>)
    ensures
        is_ranked(sorted@),
        sorted@.to_multiset() == results@.to_multiset(),
        sorted@.len() == results@.len(),
{
    broadcast use vstd::seq_lib::group_to_multiset_ensures;

    let ghost all = results@;
    let mut rest = results;
    let mut sorted: Vec<SearchResult> = Vec::new();
    while rest.len() > 0
        invariant
            is_ranked(sorted@),
            sorted@.to_multiset().add(rest@.to_multiset()) == all.to_multiset(),
            sorted@.len() + rest@.len() == all.len(),
        decreases rest@.len(),
    {
        let ghost before_rest = rest@;
        let ghost before_sorted = sorted@;
        let next = rest.pop().unwrap();
        let mut p: usize = 0;
        while p < sorted.len() && ranked_before(&sorted[p], &next)
            invariant
                p <= sorted@.len(),
                sorted@ == before_sorted,
                forall|i: int| 0 <= i < p ==> ranks_before(#[trigger] sorted@[i], next),
            decreases sorted@.len() - p,
        {
            p = p + 1;
        }
        sorted.insert(p, next);
        proof {
            assert forall|i: int, j: int| 0 <= i < j < sorted@.len() implies ranks_before(
                #[trigger] sorted@[i],
                #[trigger] sorted@[j],
            ) by {
                if j < p {
                    assert(sorted@[i] == before_sorted[i] && sorted@[j] == before_sorted[j]);
                } else if j == p {
                    assert(sorted@[i] == before_sorted[i]);
                } else if i < p {
                    assert(sorted@[i] == before_sorted[i] && sorted@[j] == before_sorted[j - 1]);
                } else if i == p {
                    lemma_ranks_total(before_sorted[p as int], next);
                    if j - 1 > p {
                        lemma_ranks_transitive(next, before_sorted[p as int], before_sorted[j - 1]);
                    }
                } else {
                    assert(sorted@[i] == before_sorted[i - 1] && sorted@[j] == before_sorted[j
                        - 1]);
                }
            }
            assert(before_rest =~= rest@.push(next));
            vstd::seq_lib::to_multiset_build(rest@, next);
            vstd::seq_lib::to_multiset_insert(before_sorted, p as int, next);
            assert(before_rest.to_multiset() =~= rest@.to_multiset().insert(next));
            assert(sorted@.to_multiset() =~= before_sorted.to_multiset().insert(next));
            assert(sorted@.to_multiset().add(rest@.to_multiset()) =~= before_sorted.to_multiset().add(
                before_rest.to_multiset(),
            ));
        }
    }
    proof {
        assert(rest@ =~= Seq::<SearchResult>::empty());
        assert(sorted@.to_multiset().add(rest@.to_multiset()) =~= sorted@.to_multiset());
    }
    sorted
}

/// Ranks results and keeps the first `top_k`.
pub fn rank(results: Vec<SearchResult>, top_k: usize) -> (out: Vec<SearchResult>)
    ensures
        is_top_ranked(results@, top_k as nat, out@),
        out@.len() == if top_k <= results@.len() {
            top_k as int
        } else {
            results@.len() as int
        },
        is_ranked(out@),
        forall|i: int, j: int| 0 <= i < j < out@.len() ==> out@[i].score >= out@[j].score,
        forall|i: int| 0 <= i < out@.len() ==> results@.contains(#[trigger] out@[i]),
{
    broadcast use vstd::seq_lib::group_to_multiset_ensures;

    let mut out = sort_results(results);
    let ghost sorted = out@;
    out.truncate(top_k);
    proof {
        let n = if top_k <= sorted.len() {
            top_k as int
        } else {
            sorted.len() as int
        };
        assert(out@ =~= sorted.take(n));
        assert(is_ranked(sorted));
        assert forall|i: int, j: int| 0 <= i < j < out@.len() implies ranks_before(
            #[trigger] out@[i],
            #[trigger] out@[j],
        ) by {
            assert(ranks_before(sorted[i], sorted[j]));
        }
        assert forall|i: int| 0 <= i < out@.len() implies results@.contains(
            #[trigger] out@[i],
        ) by {
            assert(sorted.contains(sorted[i]));
            assert(sorted.to_multiset().count(sorted[i]) > 0);
            assert(results@.to_multiset().count(sorted[i]) > 0);
        }
    }
    out
}

/// `result` reports a record of the store truthfully: the entity exists, the
/// metadata is the stored one, the score is one that scoring the stored vector
/// against the query can give, and the record passes every filter of the options.
pub open spec fn reports<K: Fn(&[u32], &[u32]) -> u32>(
    records: Map<Seq<char>, Record>,
    kernel: &K,
    query: &[u32],
    options: SearchOptions,
    result: SearchResult,
) -> bool {
    &&& records.contains_key(result.entity_id@)
    &&& result.metadata@ == records[result.entity_id@].metadata
    &&& exists|vector: &[u32]|
        #![trigger is_score_of(kernel, query, vector, result.score)]
        vector@ == records[result.entity_id@].vector && is_score_of(
            kernel,
            query,
            vector,
            result.score,
        )
    &&& is_unit(result.score)
    &&& filters_admit(result.metadata@, options)
    &&& meets_min_score(result.score, options.min_score)
}

/// No two results are about the same entity.
pub open spec fn distinct_entities(results: Seq<SearchResult>) -> bool {
    forall|i: int, j: int|
        0 <= i < j < results.len() ==> (#[trigger] results[i]).entity_id@ != (
        #[trigger] results[j]).entity_id@
}

/// What holds of the results of a search, whichever reads of the store succeeded.
pub open spec fn search_outcome<K: Fn(&[u32], &[u32]) -> u32>(
    records: Map<Seq<char>, Record>,
    kernel: &K,
    query: &[u32],
    options: SearchOptions,
    out: Seq<SearchResult>,
) -> bool {
    &&& out.len() <= options.top_k
    &&& is_ranked(out)
    &&& distinct_entities(out)
    &&& forall|i: int|
        0 <= i < out.len() ==> reports(records, kernel, query, options, #[trigger] out[i])
}

/// The entity is accounted for by the candidates: it is one of them, or a score
/// that it can have against the query lies below the bound of the options.
pub open spec fn accounted<K: Fn(&[u32], &[u32]) -> u32>(
    records: Map<Seq<char>, Record>,
    kernel: &K,
    query: &[u32],
    options: SearchOptions,
    found: Seq<SearchResult>,
    entity_id: Seq<char>,
) -> bool {
    ||| exists|t: int| 0 <= t < found.len() && (#[trigger] found[t]).entity_id@ == entity_id
    ||| exists|vector: &[u32], score: u32|
        #![trigger is_score_of(kernel, query, vector, score)]
        vector@ == records[entity_id].vector && is_score_of(kernel, query, vector, score)
            && !meets_min_score(score, options.min_score)
}

/// The candidates leave out no readable record that passes the filters on entity
/// type and file, but for a score below the bound.
pub open spec fn covers<K: Fn(&[u32], &[u32]) -> u32>(
    records: Map<Seq<char>, Record>,
    readable: Set<Seq<char>>,
    kernel: &K,
    query: &[u32],
    options: SearchOptions,
    found: Seq<SearchResult>,
) -> bool {
    forall|entity_id: Seq<char>|
        #[trigger] readable.contains(entity_id) && records.contains_key(entity_id)
            && filters_admit(records[entity_id].metadata, options) ==> accounted(
            records,
            kernel,
            query,
            options,
            found,
            entity_id,
        )
}

/// Every candidate is a record that the store can hand out.
pub open spec fn all_readable(readable: Set<Seq<char>>, found: Seq<SearchResult>) -> bool {
    forall|t: int| 0 <= t < found.len() ==> readable.contains((#[trigger] found[t]).entity_id@)
}

/// `out` is what a search selects: the first `top_k`, in ranked order, of the
/// candidates. The candidates are the readable records that pass the filters and
/// the bound, each reported truthfully and once; a record that cannot be read is
/// not among them and takes nothing from the others.
pub open spec fn search_selection<K: Fn(&[u32], &[u32]) -> u32>(
    records: Map<Seq<char>, Record>,
    readable: Set<Seq<char>>,
    kernel: &K,
    query: &[u32],
    options: SearchOptions,
    out: Seq<SearchResult>,
) -> bool {
    exists|found: Seq<SearchResult>|
        #![trigger is_top_ranked(found, options.top_k as nat, out)]
        {
            &&& is_top_ranked(found, options.top_k as nat, out)
            &&& distinct_entities(found)
            &&& forall|t: int|
                0 <= t < found.len() ==> reports(records, kernel, query, options, #[trigger] found[t])
            &&& all_readable(readable, found)
            &&& covers(records, readable, kernel, query, options, found)
        }
}

proof fn lemma_accounted_grows<K: Fn(&[u32], &[u32]) -> u32>(
    records: Map<Seq<char>, Record>,
    kernel: &K,
    query: &[u32],
    options: SearchOptions,
    before: Seq<SearchResult>,
    after: Seq<SearchResult>,
    entity_id: Seq<char>,
)
    requires
        accounted(records, kernel, query, options, before, entity_id),
        before.len() <= after.len(),
        forall|t: int| 0 <= t < before.len() ==> after[t] == before[t],
    ensures
        accounted(records, kernel, query, options, after, entity_id),
{
    if exists|t: int| 0 <= t < before.len() && (#[trigger] before[t]).entity_id@ == entity_id {
        let t = choose|t: int| 0 <= t < before.len() && (#[trigger] before[t]).entity_id@ == entity_id;
        assert(after[t].entity_id@ == entity_id);
    }
}

proof fn lemma_top_ranked_distinct(all: Seq<SearchResult>, top_k: nat, out: Seq<SearchResult>)
    requires
        is_top_ranked(all, top_k, out),
        distinct_entities(all),
    ensures
        distinct_entities(out),
{
    broadcast use vstd::seq_lib::group_to_multiset_ensures;

    let sorted = choose|sorted: Seq<SearchResult>|
        #![trigger is_ranked(sorted)]
        is_ranked(sorted) && sorted.to_multiset() == all.to_multiset() && out == sorted.take(
            if top_k <= sorted.len() {
                top_k as int
            } else {
                sorted.len() as int
            },
        );
    assert(all.no_duplicates()) by {
        assert forall|i: int, j: int| 0 <= i < all.len() && 0 <= j < all.len() && i != j implies all[i]
            != all[j] by {
            if i < j {
                assert(all[i].entity_id@ != all[j].entity_id@);
            } else {
                assert(all[j].entity_id@ != all[i].entity_id@);
            }
        }
    }
    all.lemma_multiset_has_no_duplicates();
    sorted.lemma_multiset_has_no_duplicates_conv();
    assert forall|i: int, j: int| 0 <= i < j < out.len() implies (#[trigger] out[i]).entity_id@ != (
    #[trigger] out[j]).entity_id@ by {
        assert(sorted[i] != sorted[j]);
        assert(sorted.contains(sorted[i]));
        assert(sorted.contains(sorted[j]));
        assert(all.to_multiset().count(sorted[i]) > 0);
        assert(all.to_multiset().count(sorted[j]) > 0);
        assert(all.contains(sorted[i]));
        assert(all.contains(sorted[j]));
        let a = choose|a: int| 0 <= a < all.len() && all[a] == sorted[i];
        let b = choose|b: int| 0 <= b < all.len() && all[b] == sorted[j];
        if a < b {
            assert(all[a].entity_id@ != all[b].entity_id@);
        } else if b < a {
            assert(all[b].entity_id@ != all[a].entity_id@);
        }
    }
}

/// Searches the store for the entities most similar to the query.
///
/// Every entity of the store is read; one whose vector or metadata cannot be read
/// is left out. Of the rest, those that pass the filters on entity type and file are
/// scored against the query, those below the smallest score are dropped, and the
/// first `top_k` in ranked order are returned. The search fails only if the store
/// cannot enumerate its entities.
pub fn search_vectors<S: VectorStore, K: Fn(&[u32], &[u32]) -> u32>(
    store: &S,
    query: &[u32],
    options: &SearchOptions,
    kernel: &K,
) -> (r: Result<Vec<SearchResult>, StoreError>)
    requires
        store.well_formed(),
        kernel_total(kernel),
    ensures
        r is Ok <==> store.enumerable(),
        r is Ok ==> search_selection(
            store.records(),
            readable_ids(store),
            kernel,
            query,
            *options,
            r->Ok_0@,
        ),
        r is Ok ==> search_outcome(store.records(), kernel, query, *options, r->Ok_0@),
        r is Ok ==> forall|i: int, j: int|
            0 <= i < j < r->Ok_0@.len() ==> r->Ok_0@[i].score >= r->Ok_0@[j].score,
        r is Ok ==> forall|i: int|
            0 <= i < r->Ok_0@.len() ==> meets_min_score(
                (#[trigger] r->Ok_0@[i]).score,
                options.min_score,
            ),
        r is Ok ==> forall|i: int|
            0 <= i < r->Ok_0@.len() ==> type_admitted(
                (#[trigger] r->Ok_0@[i]).metadata@,
                options.entity_types,
            ),
{
    let ids = match store.get_all_entity_ids() {
        Ok(ids) => ids,
        Err(e) => {
            return Err(e);
        },
    };
    let ghost records = store.records();
    let mut found: Vec<SearchResult> = Vec::new();
    let mut i: usize = 0;
    while i < ids.len()
        invariant
            i <= ids@.len(),
            store.well_formed(),
            kernel_total(kernel),
            records == store.records(),
            forall|a: int, b: int| 0 <= a < b < ids@.len() ==> ids@[a]@ != ids@[b]@,
            forall|j: int| 0 <= j < ids@.len() ==> records.contains_key(#[trigger] ids@[j]@),
            forall|j: int|
                0 <= j < i && readable_ids(store).contains(ids@[j]@) && filters_admit(
                    records[ids@[j]@].metadata,
                    *options,
                ) ==> accounted(records, kernel, query, *options, found@, #[trigger] ids@[j]@),
            all_readable(readable_ids(store), found@),
            distinct_entities(found@),
            forall|t: int|
                0 <= t < found@.len() ==> reports(records, kernel, query, *options, #[trigger] found@[t]),
            forall|t: int|
                0 <= t < found@.len() ==> exists|j: int|
                    0 <= j < i && (#[trigger] ids@[j])@ == (#[trigger] found@[t]).entity_id@,
        decreases ids@.len() - i,
    {
        let id = ids[i].as_str();
        let ghost before = found@;
        let mut kept = false;
        let ghost mut settled = false;
        match store.get_entity_vector(id) {
            Ok(vector) => match store.get_entity_metadata(id) {
                Ok(metadata) => {
                    if passes_filters(&metadata, options) {
                        let stored = vector.as_slice();
                        let score = similarity(kernel, query, stored);
                        proof {
                            if !meets_min_score(score, options.min_score) {
                                assert(is_score_of(kernel, query, stored, score));
                                assert(accounted(records, kernel, query, *options, before, id@));
                                settled = true;
                            }
                        }
                        if passes_min_score(score, &options.min_score) {
                            let result = SearchResult { entity_id: ids[i].clone(), score, metadata };
                            proof {
                                assert(is_score_of(kernel, query, stored, score));
                                assert(result.entity_id@ == id@);
                                assert(reports(records, kernel, query, *options, result));
                            }
                            found.push(result);
                            kept = true;
                        }
                    }
                },
                Err(_) => {},
            },
            Err(_) => {},
        }
        proof {
            assert forall|j: int|
                0 <= j < i + 1 && readable_ids(store).contains(ids@[j]@) && filters_admit(
                    records[ids@[j]@].metadata,
                    *options,
                ) implies accounted(
                records,
                kernel,
                query,
                *options,
                found@,
                #[trigger] ids@[j]@,
            ) by {
                if j < i {
                    lemma_accounted_grows(
                        records,
                        kernel,
                        query,
                        *options,
                        before,
                        found@,
                        ids@[j]@,
                    );
                } else if kept {
                    assert(found@[before.len() as int].entity_id@ == ids@[j]@);
                } else {
                    assert(settled);
                    assert(found@ == before);
                }
            }
            assert forall|t: int| 0 <= t < found@.len() implies readable_ids(store).contains(
                (#[trigger] found@[t]).entity_id@,
            ) by {
                if t < before.len() {
                    assert(found@[t] == before[t]);
                }
            }
            if kept {
                assert forall|a: int, b: int| 0 <= a < b < found@.len() implies (
                #[trigger] found@[a]).entity_id@ != (#[trigger] found@[b]).entity_id@ by {
                    if b < before.len() {
                        assert(found@[a] == before[a] && found@[b] == before[b]);
                    } else {
                        assert(found@[a] == before[a]);
                        let j = choose|j: int|
                            0 <= j < i && (#[trigger] ids@[j])@ == before[a].entity_id@;
                        assert(ids@[j]@ != ids@[i as int]@);
                    }
                }
                assert forall|t: int| 0 <= t < found@.len() implies exists|j: int|
                    0 <= j < i + 1 && (#[trigger] ids@[j])@ == (#[trigger] found@[t]).entity_id@ by {
                    if t < before.len() {
                        assert(found@[t] == before[t]);
                        let j = choose|j: int|
                            0 <= j < i && (#[trigger] ids@[j])@ == before[t].entity_id@;
                        assert(ids@[j]@ == found@[t].entity_id@);
                    } else {
                        assert(ids@[i as int]@ == found@[t].entity_id@);
                    }
                }
            } else {
                assert(found@ == before);
                assert forall|t: int| 0 <= t < found@.len() implies exists|j: int|
                    0 <= j < i + 1 && (#[trigger] ids@[j])@ == (#[trigger] found@[t]).entity_id@ by {
                    let j = choose|j: int|
                        0 <= j < i && (#[trigger] ids@[j])@ == before[t].entity_id@;
                    assert(ids@[j]@ == found@[t].entity_id@);
                }
            }
        }
        i = i + 1;
    }
    let ghost all = found@;
    proof {
        assert forall|entity_id: Seq<char>|
            #[trigger] readable_ids(store).contains(entity_id) && records.contains_key(entity_id)
                && filters_admit(records[entity_id].metadata, *options) implies accounted(
            records,
            kernel,
            query,
            *options,
            all,
            entity_id,
        ) by {
            let j = choose|j: int| 0 <= j < ids@.len() && #[trigger] ids@[j]@ == entity_id;
            assert(accounted(records, kernel, query, *options, all, ids@[j]@));
        }
    }
    let out = rank(found, options.top_k);
    proof {
        assert(is_top_ranked(all, options.top_k as nat, out@));
        lemma_top_ranked_distinct(all, options.top_k as nat, out@);
        assert forall|t: int| 0 <= t < out@.len() implies reports(
            records,
            kernel,
            query,
            *options,
            #[trigger] out@[t],
        ) by {
            assert(all.contains(out@[t]));
            let a = choose|a: int| 0 <= a < all.len() && all[a] == out@[t];
            assert(reports(records, kernel, query, *options, all[a]));
        }
    }
    Ok(out)
}

/// The entity ids of the results, in their order.
pub open spec fn ids_of(results: Seq<SearchResult>) -> Seq<Seq<char>> {
    Seq::new(results.len(), |i: int| results[i].entity_id@)
}

/// The options of a search without filters.
pub fn unfiltered(top_k: usize) -> (options: SearchOptions)
    ensures
        options.top_k == top_k,
        options.min_score is None,
        options.entity_types is None,
        options.file_filter is None,
{
    SearchOptions { top_k, min_score: None, entity_types: None, file_filter: None }
}

/// The ids of the `top_k` entities of the store most similar to the query, best
/// first: the ids of a search without filters. Where the store cannot enumerate
/// its entities, no id is returned.
pub fn similarity_search<S: VectorStore, K: Fn(&[u32], &[u32]) -> u32>(
    store: &S,
    query: &[u32],
    top_k: usize,
    kernel: &K,
) -> (ids: Vec<String>)
    requires
        store.well_formed(),
        kernel_total(kernel),
    ensures
        ids@.len() <= top_k,
        !store.enumerable() ==> ids@.len() == 0,
        store.enumerable() ==> exists|out: Seq<SearchResult>|
            #![trigger ids_of(out)]
            search_selection(
                store.records(),
                readable_ids(store),
                kernel,
                query,
                SearchOptions {
                    top_k,
                    min_score: None,
                    entity_types: None,
                    file_filter: None,
                },
                out,
            ) && ids_of(out) == Seq::new(ids@.len(), |i: int| ids@[i]@),
{
    let options = unfiltered(top_k);
    match search_vectors(store, query, &options, kernel) {
        Ok(results) => {
            let mut ids: Vec<String> = Vec::new();
            let mut i: usize = 0;
            while i < results.len()
                invariant
                    i <= results@.len(),
                    ids@.len() == i,
                    forall|j: int| 0 <= j < i ==> (#[trigger] ids@[j])@ == results@[j].entity_id@,
                decreases results@.len() - i,
            {
                ids.push(results[i].entity_id.clone());
                i = i + 1;
            }
            proof {
                assert(ids_of(results@) =~= Seq::new(ids@.len(), |i: int| ids@[i]@));
                assert(options == SearchOptions {
                    top_k,
                    min_score: None,
                    entity_types: None,
                    file_filter: None,
                });
            }
            ids
        },
        Err(_) => Vec::new(),
    }
}

} // verus!
