//! Indexing a batch of entities: embed each one and, unless the run is dry, store
//! the embedding. A failure of one entity is recorded and the batch goes on.

use crate::batch_processing::{progress_reports, ProgressObserver};
pub use crate::line_scan::extract_entities;
use crate::embedder::{embeds, Embedder};
use crate::ast_parser::{CodeEntity, Entity};
use crate::cli::{CliArgs, Commands, DEFAULT_BATCH_SIZE};
use crate::text::{borrowed, join, optional_text, owned, str_eq, text_of};
use crate::vector_store::{
    accepted_ids, describe_spec, upsert_spec, Record, StoreError, VectorStore,
};
use vstd::prelude::*;

verus! {

/// One entity to index: its id, the text to embed, and where it comes from.
#[derive(Debug)]
pub struct IndexEntry {
    pub entity_id: String,
    pub text: String,
    pub file: Option<String>,
    pub entity_type: Option<String>,
}

/// The word that the text of an entity starts with: it tells the kind of the
/// entity. An entity of another type has none.
pub open spec fn keyword_spec(entity_type: Seq<char>) -> Seq<char> {
    if entity_type == "function"@ || entity_type == "method"@ {
        "fn "@
    } else if entity_type == "class"@ {
        "class "@
    } else if entity_type == "variable"@ {
        "var "@
    } else if entity_type == "docstring"@ {
        "doc "@
    } else {
        Seq::empty()
    }
}

/// The id under which an entity is stored, made of its type, its file, the scope
/// that it stands in, and its name.
pub open spec fn identity_spec(entity: Entity) -> Seq<char> {
    entity.entity_type + ":"@ + entity.file_path + ":"@ + match entity.parent_class {
        Some(parent) => parent + "."@,
        None => Seq::empty(),
    } + entity.name
}

/// The text that is embedded for an entity: its keyword and its name; nothing
/// where it has no name.
pub open spec fn entity_text_spec(entity: Entity) -> Seq<char> {
    if entity.name.len() == 0 {
        Seq::empty()
    } else {
        keyword_spec(entity.entity_type) + entity.name
    }
}

fn keyword(entity_type: &str) -> (r: &'static str)
    ensures
        r@ == keyword_spec(entity_type@),
{
    if str_eq(entity_type, "function") || str_eq(entity_type, "method") {
        "fn "
    } else if str_eq(entity_type, "class") {
        "class "
    } else if str_eq(entity_type, "variable") {
        "var "
    } else if str_eq(entity_type, "docstring") {
        "doc "
    } else {
        let nothing = "";
        proof {
            reveal_strlit("");
            assert(nothing@ =~= Seq::<char>::empty());
        }
        nothing
    }
}

impl IndexEntry {
    /// The entry for an entity: its id, the text to embed, its file and its type.
    pub fn from_entity(entity: &CodeEntity) -> (entry: IndexEntry)
        ensures
            entry.entity_id@ == identity_spec(entity@),
            entry.text@ == entity_text_spec(entity@),
            optional_text(entry.file) == Some(entity.file_path@),
            optional_text(entry.entity_type) == Some(entity.entity_type@),
    {
        let mut entity_id = join(entity.entity_type.as_str(), ":");
        entity_id.append(entity.file_path.as_str());
        entity_id.append(":");
        match &entity.parent_class {
            Some(parent) => {
                entity_id.append(parent.as_str());
                entity_id.append(".");
            },
            None => {
                assert(entity_id@ + Seq::<char>::empty() =~= entity_id@);
            },
        }
        entity_id.append(entity.name.as_str());
        let text = if entity.name.as_str().is_empty() {
            String::new()
        } else {
            join(keyword(entity.entity_type.as_str()), entity.name.as_str())
        };
        IndexEntry {
            entity_id,
            text,
            file: Some(entity.file_path.clone()),
            entity_type: Some(entity.entity_type.clone()),
        }
    }
}

/// What the vectorize command is to do.
#[derive(Debug)]
pub struct VectorizePlan {
    /// The name of the project.
    pub name: String,
    /// The directory to walk.
    pub path: String,
    /// The number of files in a batch.
    pub batch_size: usize,
    /// Embed only: the store is not written to.
    pub dry_run: bool,
    /// Log each step.
    pub verbose: bool,
}

/// The plan of the vectorize command; any other command is refused. A command
/// that names no batch size gets the default.
pub fn vectorize_plan(args: &CliArgs) -> (r: Result<VectorizePlan, String>)
    ensures
        match args.command {
            Commands::Vectorize { name, path, batch_size, dry_run, verbose, .. } => {
                &&& r is Ok
                &&& r->Ok_0.name@ == name@
                &&& r->Ok_0.path@ == path@
                &&& r->Ok_0.batch_size == match batch_size {
                    Some(size) => size,
                    None => DEFAULT_BATCH_SIZE,
                }
                &&& r->Ok_0.dry_run == dry_run
                &&& r->Ok_0.verbose == verbose
            },
            _ => r is Err && r->Err_0@ == "Invalid command. Expected vectorize command."@,
        },
{
    match &args.command {
        Commands::Vectorize { name, path, batch_size, dry_run, verbose, .. } => Ok(
            VectorizePlan {
                name: name.clone(),
                path: path.clone(),
                batch_size: match batch_size {
                    Some(size) => *size,
                    None => DEFAULT_BATCH_SIZE,
                },
                dry_run: *dry_run,
                verbose: *verbose,
            },
        ),
        _ => Err(owned("Invalid command. Expected vectorize command.")),
    }
}

/// What a batch produced: the entities that were embedded (and stored, unless the
/// run was dry) with their vectors, and one message for every other entity.
#[derive(Debug)]
pub struct BatchResult {
    pub successes: Vec<(String, Vec<u32>)>,
    pub errors: Vec<String>,
}

/// What became of one entity of a batch.
pub ghost enum Outcome {
    /// Its text was empty; nothing was attempted.
    Skipped,
    /// The embedder gave an empty vector.
    Rejected,
    /// The store refused the embedding.
    Failed(StoreError),
    /// It was embedded and, unless the run was dry, stored.
    Done(Seq<u32>),
}

/// The outcome is the one that the entry has with this embedder, on a store whose
/// backend takes records for the ids in `accepted`: an entry fails where the
/// backend refuses its id, and only there.
pub open spec fn outcome_allowed<E: Embedder>(
    entry: IndexEntry,
    embedder: &E,
    dry_run: bool,
    accepted: Set<Seq<char>>,
    outcome: Outcome,
) -> bool {
    match outcome {
        Outcome::Skipped => entry.text@.len() == 0,
        Outcome::Rejected => entry.text@.len() > 0 && embedder.dimension() == 0,
        Outcome::Failed(_) => entry.text@.len() > 0 && embedder.dimension() > 0 && !dry_run
            && !accepted.contains(entry.entity_id@),
        Outcome::Done(vector) => entry.text@.len() > 0 && embedder.dimension() > 0 && embeds(
            embedder,
            entry.text@,
            vector,
        ) && (dry_run || accepted.contains(entry.entity_id@)),
    }
}

/// The message that an outcome leaves among the errors, if it leaves one.
pub open spec fn outcome_error(entry: IndexEntry, outcome: Outcome) -> Option<Seq<char>> {
    match outcome {
        Outcome::Skipped => Some("Empty text for entity: "@ + entry.entity_id@),
        Outcome::Rejected => Some("Empty embedding for entity: "@ + entry.entity_id@),
        Outcome::Failed(error) => Some(
            "Failed to store entity "@ + entry.entity_id@ + ": "@ + describe_spec(error),
        ),
        Outcome::Done(_) => None,
    }
}

/// The successes after the first `n` entries.
pub open spec fn successes_after(entries: Seq<IndexEntry>, outcomes: Seq<Outcome>, n: nat) -> Seq<
    (Seq<char>, Seq<u32>),
>
    decreases n,
{
    if n == 0 || n > entries.len() || n > outcomes.len() {
        Seq::empty()
    } else {
        let rest = successes_after(entries, outcomes, (n - 1) as nat);
        match outcomes[n - 1] {
            Outcome::Done(vector) => rest.push((entries[n - 1].entity_id@, vector)),
            _ => rest,
        }
    }
}

/// The errors after the first `n` entries.
pub open spec fn errors_after(entries: Seq<IndexEntry>, outcomes: Seq<Outcome>, n: nat) -> Seq<
    Seq<char>,
>
    decreases n,
{
    if n == 0 || n > entries.len() || n > outcomes.len() {
        Seq::empty()
    } else {
        let rest = errors_after(entries, outcomes, (n - 1) as nat);
        match outcome_error(entries[n - 1], outcomes[n - 1]) {
            Some(message) => rest.push(message),
            None => rest,
        }
    }
}

/// The number of the first `n` entries that were attempted: all but the skipped.
pub open spec fn attempts_after(outcomes: Seq<Outcome>, n: nat) -> nat
    decreases n,
{
    if n == 0 || n > outcomes.len() {
        0
    } else {
        let rest = attempts_after(outcomes, (n - 1) as nat);
        match outcomes[n - 1] {
            Outcome::Skipped => rest,
            _ => rest + 1,
        }
    }
}

/// The records of the store after the first `n` entries: each entity that was
/// done was upserted in turn, unless the run was dry.
pub open spec fn records_after(
    records: Map<Seq<char>, Record>,
    entries: Seq<IndexEntry>,
    outcomes: Seq<Outcome>,
    dry_run: bool,
    n: nat,
) -> Map<Seq<char>, Record>
    decreases n,
{
    if n == 0 || n > entries.len() || n > outcomes.len() {
        records
    } else {
        let rest = records_after(records, entries, outcomes, dry_run, (n - 1) as nat);
        match outcomes[n - 1] {
            Outcome::Done(vector) => if dry_run {
                rest
            } else {
                upsert_spec(
                    rest,
                    entries[n - 1].entity_id@,
                    vector,
                    optional_text(entries[n - 1].file),
                    optional_text(entries[n - 1].entity_type),
                )
            },
            _ => rest,
        }
    }
}

/// The successes of a result as plain values.
pub open spec fn successes_view(successes: Seq<(String, Vec<u32>)>) -> Seq<(Seq<char>, Seq<u32>)> {
    Seq::new(successes.len(), |i: int| (successes[i].0@, successes[i].1@))
}

/// The messages of a result as plain values.
pub open spec fn messages_view(errors: Seq<String>) -> Seq<Seq<char>> {
    Seq::new(errors.len(), |i: int| errors[i]@)
}

/// What the first `n` outcomes give does not depend on later outcomes.
pub proof fn lemma_outcomes_prefix(
    records: Map<Seq<char>, Record>,
    entries: Seq<IndexEntry>,
    a: Seq<Outcome>,
    b: Seq<Outcome>,
    dry_run: bool,
    n: nat,
)
    requires
        n <= a.len(),
        n <= b.len(),
        forall|j: int| 0 <= j < n ==> a[j] == b[j],
    ensures
        successes_after(entries, a, n) == successes_after(entries, b, n),
        errors_after(entries, a, n) == errors_after(entries, b, n),
        attempts_after(a, n) == attempts_after(b, n),
        records_after(records, entries, a, dry_run, n) == records_after(
            records,
            entries,
            b,
            dry_run,
            n,
        ),
    decreases n,
{
    if n > 0 {
        lemma_outcomes_prefix(records, entries, a, b, dry_run, (n - 1) as nat);
    }
}

/// A dry run leaves the records of the store as they were.
pub proof fn lemma_dry_run_keeps_records(
    records: Map<Seq<char>, Record>,
    entries: Seq<IndexEntry>,
    outcomes: Seq<Outcome>,
    n: nat,
)
    ensures
        records_after(records, entries, outcomes, true, n) == records,
    decreases n,
{
    if n > 0 {
        lemma_dry_run_keeps_records(records, entries, outcomes, (n - 1) as nat);
    }
}

/// Every entry leaves either a success or an error, and no more are attempted
/// than there are entries.
pub proof fn lemma_outcomes_count(entries: Seq<IndexEntry>, outcomes: Seq<Outcome>, n: nat)
    requires
        n <= entries.len(),
        n <= outcomes.len(),
    ensures
        successes_after(entries, outcomes, n).len() + errors_after(entries, outcomes, n).len()
            == n,
        attempts_after(outcomes, n) <= n,
    decreases n,
{
    if n > 0 {
        lemma_outcomes_count(entries, outcomes, (n - 1) as nat);
    }
}

/// What a batch leaves behind, for some outcome of each entry that the entry can
/// have: the successes and errors in the order of the entries, one progress report
/// for each entry that was attempted, and the records of the store.
pub open spec fn batch_outcome<E: Embedder, O: ProgressObserver>(
    entries: Seq<IndexEntry>,
    embedder: &E,
    dry_run: bool,
    accepted: Set<Seq<char>>,
    records_before: Map<Seq<char>, Record>,
    records: Map<Seq<char>, Record>,
    observer_before: O,
    observer: O,
    result: BatchResult,
) -> bool {
    exists|outcomes: Seq<Outcome>|
        #![trigger successes_after(entries, outcomes, entries.len())]
        {
            &&& outcomes.len() == entries.len()
            &&& forall|i: int|
                0 <= i < entries.len() ==> outcome_allowed(
                    entries[i],
                    embedder,
                    dry_run,
                    accepted,
                    #[trigger] outcomes[i],
                )
            &&& successes_view(result.successes@) == successes_after(
                entries,
                outcomes,
                entries.len(),
            )
            &&& messages_view(result.errors@) == errors_after(entries, outcomes, entries.len())
            &&& observer.reports() == observer_before.reports() + progress_reports(
                attempts_after(outcomes, entries.len()),
                entries.len() as usize,
            )
            &&& records == records_after(
                records_before,
                entries,
                outcomes,
                dry_run,
                entries.len(),
            )
        }
}

/// Indexes batches of entities, storing what it embeds unless the run is dry.
#[derive(Debug, Clone, Copy)]
pub struct BatchIndexer {
    /// Embed only: the store is not written to.
    pub dry_run: bool,
}

impl BatchIndexer {
    /// An indexer that stores what it embeds, unless the run is dry.
    pub fn new(dry_run: bool) -> (indexer: BatchIndexer)
        ensures
            indexer.dry_run == dry_run,
    {
        BatchIndexer { dry_run }
    }

    /// Works through the entries in order. An entry with an empty text is skipped
    /// with an error and without a progress report. Every other entry is embedded
    /// and, unless the run is dry, stored under its id with its file and entity
    /// type; an empty embedding or a refusal of the store leaves an error. After
    /// each such entry the observer is told how many were attempted so far, and
    /// how many entries the batch has.
    pub fn process<E: Embedder, S: VectorStore, O: ProgressObserver>(
        &self,
        entries: &Vec<IndexEntry>,
        embedder: &E,
        store: &mut S,
        observer: &mut O,
    ) -> (result: BatchResult)
        requires
            old(store).well_formed(),
            old(observer).ready(),
        ensures
            final(store).well_formed(),
            accepted_ids(final(store)) == accepted_ids(old(store)),
            final(observer).ready(),
            batch_outcome(
                entries@,
                embedder,
                self.dry_run,
                accepted_ids(old(store)),
                old(store).records(),
                final(store).records(),
                *old(observer),
                *final(observer),
                result,
            ),
            self.dry_run ==> final(store).records() == old(store).records(),
            result.successes@.len() + result.errors@.len() == entries@.len(),
    {
        let total = entries.len();
        let mut result = BatchResult { successes: Vec::new(), errors: Vec::new() };
        let mut processed: usize = 0;
        let ghost mut outcomes: Seq<Outcome> = Seq::empty();
        let ghost records_before = store.records();
        let ghost accepted = accepted_ids(store);
        let ghost reports_before = observer.reports();
        let mut i: usize = 0;
        proof {
            assert(successes_view(result.successes@) =~= successes_after(entries@, outcomes, 0));
            assert(messages_view(result.errors@) =~= errors_after(entries@, outcomes, 0));
            assert(observer.reports() =~= reports_before + progress_reports(0, total));
        }
        while i < entries.len()
            invariant
                i <= entries@.len(),
                total == entries@.len(),
                store.well_formed(),
                accepted_ids(store) == accepted,
                observer.ready(),
                outcomes.len() == i,
                processed == attempts_after(outcomes, i as nat),
                processed <= i,
                forall|j: int|
                    0 <= j < i ==> outcome_allowed(
                        entries@[j],
                        embedder,
                        self.dry_run,
                        accepted,
                        #[trigger] outcomes[j],
                    ),
                successes_view(result.successes@) == successes_after(entries@, outcomes, i as nat),
                messages_view(result.errors@) == errors_after(entries@, outcomes, i as nat),
                observer.reports() == reports_before + progress_reports(processed as nat, total),
                store.records() == records_after(
                    records_before,
                    entries@,
                    outcomes,
                    self.dry_run,
                    i as nat,
                ),
            decreases entries@.len() - i,
        {
            let entry = &entries[i];
            let ghost earlier = outcomes;
            let ghost listed = successes_view(result.successes@);
            let ghost said = messages_view(result.errors@);
            let ghost outcome: Outcome;
            let attempted: bool;
            if entry.text.as_str().is_empty() {
                result.errors.push(join("Empty text for entity: ", entry.entity_id.as_str()));
                attempted = false;
                proof {
                    outcome = Outcome::Skipped;
                }
            } else {
                attempted = true;
                let vector = embedder.embed(entry.text.as_str());
                if vector.len() == 0 {
                    result.errors.push(
                        join("Empty embedding for entity: ", entry.entity_id.as_str()),
                    );
                    proof {
                        outcome = Outcome::Rejected;
                    }
                } else if self.dry_run {
                    proof {
                        outcome = Outcome::Done(vector@);
                    }
                    result.successes.push((entry.entity_id.clone(), vector));
                } else {
                    match store.upsert_embedding(
                        entry.entity_id.as_str(),
                        vector.as_slice(),
                        borrowed(&entry.file),
                        borrowed(&entry.entity_type),
                    ) {
                        Ok(()) => {
                            proof {
                                outcome = Outcome::Done(vector@);
                            }
                            result.successes.push((entry.entity_id.clone(), vector));
                        },
                        Err(error) => {
                            let mut message = join(
                                "Failed to store entity ",
                                entry.entity_id.as_str(),
                            );
                            message.append(": ");
                            let words = error.describe();
                            message.append(words.as_str());
                            result.errors.push(message);
                            proof {
                                outcome = Outcome::Failed(error);
                            }
                        },
                    }
                }
            }
            proof {
                outcomes = earlier.push(outcome);
                lemma_outcomes_prefix(
                    records_before,
                    entries@,
                    earlier,
                    outcomes,
                    self.dry_run,
                    i as nat,
                );
                match outcome {
                    Outcome::Done(vector) => {
                        assert(successes_view(result.successes@) =~= listed.push(
                            (entry.entity_id@, vector),
                        ));
                        assert(messages_view(result.errors@) =~= said);
                    },
                    _ => {
                        assert(successes_view(result.successes@) =~= listed);
                        assert(messages_view(result.errors@) =~= said.push(
                            outcome_error(*entry, outcome)->0,
                        ));
                    },
                }
                assert forall|j: int| 0 <= j < i + 1 implies outcome_allowed(
                    entries@[j],
                    embedder,
                    self.dry_run,
                    accepted,
                    #[trigger] outcomes[j],
                ) by {
                    if j < i {
                        assert(outcomes[j] == earlier[j]);
                    }
                }
            }
            if attempted {
                processed = processed + 1;
                observer.on_progress(processed, total);
                proof {
                    assert(progress_reports(processed as nat, total) =~= progress_reports(
                        (processed - 1) as nat,
                        total,
                    ).push((processed, total)));
                    assert(observer.reports() =~= reports_before + progress_reports(
                        processed as nat,
                        total,
                    ));
                }
            }
            i = i + 1;
        }
        proof {
            lemma_outcomes_count(entries@, outcomes, entries@.len());
            if self.dry_run {
                lemma_dry_run_keeps_records(records_before, entries@, outcomes, entries@.len());
            }
            assert(successes_view(result.successes@).len() == result.successes@.len());
            assert(messages_view(result.errors@).len() == result.errors@.len());
        }
        result
    }
}

} // verus!
