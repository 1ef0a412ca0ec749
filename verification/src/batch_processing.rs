//! Batch embedding of texts: extract the entities of each text, embed them, report
//! progress, and collect errors without giving up the batch.

use crate::embedder::{embeds, Embedder};
use crate::extract_entities::{entities_spec, extract_entities, texts};
use crate::python_syntax::parsed_module;
use crate::text::{join, owned};
use vstd::prelude::*;

verus! {

/// Receives the progress of a batch: after each text that was worked on, the
/// number of texts worked on so far and the number of texts in the batch.
pub trait ProgressObserver {
    /// The reports received so far, oldest first. An implementation in verified
    /// code defines it; the default stands in where the implementation is not
    /// verified.
    open spec fn reports(&self) -> Seq<(usize, usize)> {
        arbitrary()
    }

    /// The observer can take a report.
    open spec fn ready(&self) -> bool {
        true
    }

    fn on_progress(&mut self, processed: usize, total: usize)
        requires
            old(self).ready(),
        ensures
            final(self).ready(),
            final(self).reports() == old(self).reports().push((processed, total)),
    ;
}

/// An observer that keeps every report.
pub struct ProgressLog {
    pub events: Vec<(usize, usize)>,
}

impl ProgressLog {
    /// A log without reports.
    pub fn new() -> (log: ProgressLog)
        ensures
            log.events@.len() == 0,
    {
        ProgressLog { events: Vec::new() }
    }
}

impl ProgressObserver for ProgressLog {
    open spec fn reports(&self) -> Seq<(usize, usize)> {
        self.events@
    }

    fn on_progress(&mut self, processed: usize, total: usize) {
        self.events.push((processed, total));
    }
}

/// An observer that hands every report to a callback.
pub struct CallbackObserver<F: FnMut(usize, usize)> {
    callback: F,
    calls: Ghost<Seq<(usize, usize)>>,
}

impl<F: FnMut(usize, usize)> CallbackObserver<F> {
    /// The callback can be called with every pair of counts.
    pub closed spec fn accepts_all(&self) -> bool {
        forall|a: usize, b: usize| call_requires(self.callback, (a, b))
    }

    /// The calls made so far, oldest first.
    pub closed spec fn calls(&self) -> Seq<(usize, usize)> {
        self.calls@
    }

    /// An observer that has made no call yet.
    pub fn new(callback: F) -> (observer: CallbackObserver<F>)
        requires
            forall|a: usize, b: usize| call_requires(callback, (a, b)),
        ensures
            observer.ready(),
            observer.reports() == Seq::<(usize, usize)>::empty(),
    {
        CallbackObserver { callback, calls: Ghost(Seq::empty()) }
    }
}

impl<F: FnMut(usize, usize)> ProgressObserver for CallbackObserver<F> {
    open spec fn reports(&self) -> Seq<(usize, usize)> {
        self.calls()
    }

    open spec fn ready(&self) -> bool {
        self.accepts_all()
    }

    fn on_progress(&mut self, processed: usize, total: usize) {
        (self.callback)(processed, total);
        self.calls = Ghost(self.calls@.push((processed, total)));
    }
}

/// The entity names of a list of embeddings.
pub open spec fn names(embeddings: Seq<(String, Vec<u32>)>) -> Seq<Seq<char>> {
    Seq::new(embeddings.len(), |i: int| embeddings[i].0@)
}

/// Every vector of the list is one that the embedder can return for the entity
/// it stands with.
pub open spec fn embedded_by<E: Embedder>(embedder: &E, embeddings: Seq<(String, Vec<u32>)>) -> bool {
    forall|i: int|
        0 <= i < embeddings.len() ==> embeds(
            embedder,
            (#[trigger] embeddings[i]).0@,
            embeddings[i].1@,
        )
}

/// `after` is `before` with one embedding more for each of the entities, in their
/// order, each a vector that the embedder can return for its entity.
pub open spec fn extended_by<E: Embedder>(
    embedder: &E,
    before: Seq<(String, Vec<u32>)>,
    entities: Seq<Seq<char>>,
    after: Seq<(String, Vec<u32>)>,
) -> bool {
    &&& after.len() == before.len() + entities.len()
    &&& forall|k: int| 0 <= k < before.len() ==> after[k] == before[k]
    &&& forall|k: int|
        0 <= k < entities.len() ==> (#[trigger] after[before.len() + k]).0@ == entities[k]
            && embeds(embedder, entities[k], after[before.len() + k].1@)
}

/// Embeddings that were extended keep their names and gain those of the entities;
/// where every earlier vector was one that the embedder can return, so is every
/// vector now.
pub proof fn lemma_extended<E: Embedder>(
    embedder: &E,
    before: Seq<(String, Vec<u32>)>,
    entities: Seq<Seq<char>>,
    after: Seq<(String, Vec<u32>)>,
)
    requires
        extended_by(embedder, before, entities, after),
    ensures
        names(after) == names(before) + entities,
        embedded_by(embedder, before) ==> embedded_by(embedder, after),
{
    assert forall|i: int| 0 <= i < after.len() implies names(after)[i] == (names(before)
        + entities)[i] by {
        if i < before.len() {
            assert(after[i] == before[i]);
        } else {
            assert(after[before.len() + (i - before.len())] == after[i]);
        }
    }
    assert(names(after) =~= names(before) + entities);
    if embedded_by(embedder, before) {
        assert forall|i: int| 0 <= i < after.len() implies embeds(
            embedder,
            (#[trigger] after[i]).0@,
            after[i].1@,
        ) by {
            if i < before.len() {
                assert(after[i] == before[i]);
            } else {
                assert(after[before.len() + (i - before.len())] == after[i]);
            }
        }
    }
}

/// The error that a text gives instead of embeddings, if it gives one: an empty
/// text, and a text without entities.
pub open spec fn text_error(text: Seq<char>, entities: Seq<Seq<char>>) -> Option<Seq<char>> {
    if text.len() == 0 {
        Some("Empty text"@)
    } else if entities.len() == 0 {
        Some("No entities found in text: "@ + text)
    } else {
        None
    }
}

/// What a batch has produced so far.
pub struct BatchRun {
    /// The embedded entities with their vectors, in the order of the texts.
    pub embeddings: Vec<(String, Vec<u32>)>,
    /// One message for each text that gave no embeddings.
    pub errors: Vec<String>,
    /// The number of texts that gave embeddings.
    pub processed: usize,
}

impl BatchRun {
    /// A batch before its first text.
    pub fn new() -> (run: BatchRun)
        ensures
            run.embeddings@.len() == 0,
            run.errors@.len() == 0,
            run.processed == 0,
    {
        BatchRun { embeddings: Vec::new(), errors: Vec::new(), processed: 0 }
    }

    /// Appends the embedding of each entity.
    pub fn embed_all<E: Embedder>(&mut self, entities: &Vec<String>, embedder: &E)
        ensures
            extended_by(embedder, old(self).embeddings@, texts(entities@), final(self).embeddings@),
            final(self).errors == old(self).errors,
            final(self).processed == old(self).processed,
    {
        let ghost before = self.embeddings@;
        let mut i: usize = 0;
        while i < entities.len()
            invariant
                i <= entities@.len(),
                extended_by(embedder, before, texts(entities@).take(i as int), self.embeddings@),
                self.errors == old(self).errors,
                self.processed == old(self).processed,
            decreases entities@.len() - i,
        {
            let vector = embedder.embed(entities[i].as_str());
            self.embeddings.push((entities[i].clone(), vector));
            i = i + 1;
        }
        assert(texts(entities@).take(entities@.len() as int) =~= texts(entities@));
    }

    /// Takes in one text of the batch with the entities extracted from it.
    ///
    /// An empty text and a text without entities each leave one error and nothing
    /// else. Any other text leaves the embedding of each of its entities, counts as
    /// processed, and is reported to the observer with the new count.
    pub fn record<E: Embedder, O: ProgressObserver>(
        &mut self,
        text: &str,
        entities: Vec<String>,
        embedder: &E,
        observer: &mut O,
        total: usize,
    )
        requires
            old(self).processed < usize::MAX,
            old(observer).ready(),
        ensures
            final(observer).ready(),
            match text_error(text@, texts(entities@)) {
                Some(message) => {
                    &&& texts(final(self).errors@) == texts(old(self).errors@).push(message)
                    &&& final(self).embeddings == old(self).embeddings
                    &&& final(self).processed == old(self).processed
                    &&& final(observer).reports() == old(observer).reports()
                },
                None => {
                    &&& final(self).errors == old(self).errors
                    &&& extended_by(
                        embedder,
                        old(self).embeddings@,
                        texts(entities@),
                        final(self).embeddings@,
                    )
                    &&& final(self).processed == old(self).processed + 1
                    &&& final(observer).reports() == old(observer).reports().push(
                        (final(self).processed, total),
                    )
                },
            },
    {
        let ghost listed = texts(self.errors@);
        if text.is_empty() {
            self.errors.push(owned("Empty text"));
            assert(texts(self.errors@) =~= listed.push("Empty text"@));
            return ;
        }
        if entities.len() == 0 {
            self.errors.push(join("No entities found in text: ", text));
            assert(texts(self.errors@) =~= listed.push("No entities found in text: "@ + text@));
            return ;
        }
        self.embed_all(&entities, embedder);
        self.processed = self.processed + 1;
        observer.on_progress(self.processed, total);
    }
}

/// The entities that extraction finds in a text.
pub open spec fn extraction(text: Seq<char>) -> Seq<Seq<char>> {
    entities_spec(text, parsed_module(text))
}

/// The entity names that the first `n` texts of a batch give, in order.
pub open spec fn batch_names(batch: Seq<&str>, n: nat) -> Seq<Seq<char>>
    decreases n,
{
    if n == 0 || n > batch.len() {
        Seq::empty()
    } else {
        let text = batch[n - 1]@;
        match text_error(text, extraction(text)) {
            Some(_) => batch_names(batch, (n - 1) as nat),
            None => batch_names(batch, (n - 1) as nat) + extraction(text),
        }
    }
}

/// The errors that the first `n` texts of a batch give, in order.
pub open spec fn batch_errors(batch: Seq<&str>, n: nat) -> Seq<Seq<char>>
    decreases n,
{
    if n == 0 || n > batch.len() {
        Seq::empty()
    } else {
        let text = batch[n - 1]@;
        match text_error(text, extraction(text)) {
            Some(message) => batch_errors(batch, (n - 1) as nat).push(message),
            None => batch_errors(batch, (n - 1) as nat),
        }
    }
}

/// The number of texts among the first `n` of a batch that give embeddings.
pub open spec fn batch_processed(batch: Seq<&str>, n: nat) -> nat
    decreases n,
{
    if n == 0 || n > batch.len() {
        0
    } else {
        let text = batch[n - 1]@;
        match text_error(text, extraction(text)) {
            Some(_) => batch_processed(batch, (n - 1) as nat),
            None => batch_processed(batch, (n - 1) as nat) + 1,
        }
    }
}

/// The reports of a batch in which `count` texts gave embeddings: the counts from
/// one up, each with the size of the batch.
pub open spec fn progress_reports(count: nat, total: usize) -> Seq<(usize, usize)> {
    Seq::new(count, |k: int| ((k + 1) as usize, total))
}

/// No more texts give embeddings than there are texts.
pub proof fn lemma_batch_processed_bound(batch: Seq<&str>, n: nat)
    ensures
        batch_processed(batch, n) <= n,
    decreases n,
{
    if n > 0 && n <= batch.len() {
        lemma_batch_processed_bound(batch, (n - 1) as nat);
    }
}

/// Embeds the entities of each text of a batch and reports progress to an observer.
///
/// The texts are worked on in order. An empty text and a text without entities give
/// one error each and no report; every other text gives the embeddings of its
/// entities and then one report, with the number of such texts so far and the size
/// of the batch.
pub fn batch_process_observed<E: Embedder, O: ProgressObserver>(
    batch: &[&str],
    embedder: &E,
    observer: &mut O,
) -> (run: BatchRun)
    requires
        old(observer).ready(),
    ensures
        final(observer).ready(),
        names(run.embeddings@) == batch_names(batch@, batch@.len()),
        embedded_by(embedder, run.embeddings@),
        texts(run.errors@) == batch_errors(batch@, batch@.len()),
        run.processed == batch_processed(batch@, batch@.len()),
        final(observer).reports() == old(observer).reports() + progress_reports(
            run.processed as nat,
            batch@.len() as usize,
        ),
{
    let total = batch.len();
    let mut run = BatchRun::new();
    let mut i: usize = 0;
    proof {
        assert(names(run.embeddings@) =~= batch_names(batch@, 0));
        assert(texts(run.errors@) =~= batch_errors(batch@, 0));
        assert(observer.reports() =~= old(observer).reports() + progress_reports(0, total));
    }
    while i < batch.len()
        invariant
            i <= batch@.len(),
            total == batch@.len(),
            observer.ready(),
            names(run.embeddings@) == batch_names(batch@, i as nat),
            embedded_by(embedder, run.embeddings@),
            texts(run.errors@) == batch_errors(batch@, i as nat),
            run.processed == batch_processed(batch@, i as nat),
            run.processed <= i,
            observer.reports() == old(observer).reports() + progress_reports(
                run.processed as nat,
                total,
            ),
        decreases batch@.len() - i,
    {
        let text = batch[i];
        let entities = extract_entities(text);
        let ghost before = observer.reports();
        let ghost count = run.processed;
        let ghost embedded = run.embeddings@;
        run.record(text, entities, embedder, observer, total);
        proof {
            if text_error(text@, extraction(text@)) is None {
                lemma_extended(embedder, embedded, extraction(text@), run.embeddings@);
                assert(progress_reports((count + 1) as nat, total) =~= progress_reports(
                    count as nat,
                    total,
                ).push(((count + 1) as usize, total)));
                assert(observer.reports() =~= old(observer).reports() + progress_reports(
                    run.processed as nat,
                    total,
                ));
            }
        }
        i = i + 1;
    }
    run
}

/// Embeds the entities of each text of a batch and calls back after each text that
/// gave embeddings, with the number of such texts so far and the size of the batch.
///
/// The batch never fails as a whole: a text that gives no embeddings leaves an error
/// in the second list.
pub fn batch_process_entities<E: Embedder, F: FnMut(usize, usize)>(
    batch: &[&str],
    embedder: &E,
    progress_callback: F,
) -> (r: Result<(Vec<(String, Vec<u32>)>, Vec<String>), String>)
    requires
        forall|a: usize, b: usize| call_requires(progress_callback, (a, b)),
    ensures
        r is Ok,
        names(r->Ok_0.0@) == batch_names(batch@, batch@.len()),
        embedded_by(embedder, r->Ok_0.0@),
        texts(r->Ok_0.1@) == batch_errors(batch@, batch@.len()),
{
    let mut observer = CallbackObserver::new(progress_callback);
    let run = batch_process_observed(batch, embedder, &mut observer);
    Ok((run.embeddings, run.errors))
}

} // verus!
