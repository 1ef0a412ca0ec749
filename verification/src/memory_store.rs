//! A store in memory, and the keyspace that the stores of several projects share.

use crate::metadata::Metadata;
use crate::text::{owned, str_eq, text_of};
use crate::vector_store::{
    copy_vector, derive_metadata, enumerates, label, label_spec, lemma_derived_metadata,
    readable_ids, record_spec, upsert_spec, Record, StoreError, VectorStore,
};
use crate::score::kernel_total;
use crate::vector_search::{
    ids_of, search_selection, similarity_search, SearchOptions, SearchResult,
};
use vstd::prelude::*;

verus! {

/// One stored embedding: the project it belongs to, the entity, and the record.
pub struct Slot {
    project: String,
    entity_id: String,
    vector: Vec<u32>,
    metadata: Metadata,
}

/// A key of the keyspace: the project prefix and the entity id.
pub type Key = (Seq<char>, Seq<char>);

impl Slot {
    /// The key that the slot is stored under.
    pub closed spec fn key(&self) -> Key {
        (self.project@, self.entity_id@)
    }

    /// The record that the slot holds.
    pub closed spec fn record(&self) -> Record {
        Record { vector: self.vector@, metadata: self.metadata@ }
    }
}

/// No two slots have the same key.
pub open spec fn distinct_keys(slots: Seq<Slot>) -> bool {
    forall|i: int, j: int|
        0 <= i < j < slots.len() ==> (#[trigger] slots[i]).key() != (#[trigger] slots[j]).key()
}

/// Some slot has the key.
pub open spec fn has_key(slots: Seq<Slot>, key: Key) -> bool {
    exists|i: int| 0 <= i < slots.len() && (#[trigger] slots[i]).key() == key
}

/// The position of the slot with the key.
pub open spec fn position(slots: Seq<Slot>, key: Key) -> int {
    choose|i: int| 0 <= i < slots.len() && (#[trigger] slots[i]).key() == key
}

/// The map from keys to records that the slots stand for.
pub open spec fn slots_map(slots: Seq<Slot>) -> Map<Key, Record> {
    Map::new(|k: Key| has_key(slots, k), |k: Key| slots[position(slots, k)].record())
}

/// The part of a keyspace that belongs to one project, by entity id.
pub open spec fn namespace(keyspace: Map<Key, Record>, project: Seq<char>) -> Map<
    Seq<char>,
    Record,
> {
    Map::new(
        |id: Seq<char>| keyspace.contains_key((project, id)),
        |id: Seq<char>| keyspace[(project, id)],
    )
}

/// The records of all projects, as one backend would hold them.
pub struct Keyspace {
    slots: Vec<Slot>,
}

impl View for Keyspace {
    type V = Map<Key, Record>;

    closed spec fn view(&self) -> Map<Key, Record> {
        slots_map(self.slots@)
    }
}

impl Keyspace {
    /// Every key occurs once.
    pub closed spec fn well_formed(&self) -> bool {
        distinct_keys(self.slots@)
    }

    /// A keyspace without records.
    pub fn new() -> (k: Keyspace)
        ensures
            k.well_formed(),
            k@ == Map::<Key, Record>::empty(),
    {
        let k = Keyspace { slots: Vec::new() };
        assert(k@ =~= Map::<Key, Record>::empty());
        k
    }

    /// The number of records of all projects together.
    pub fn len(&self) -> (n: usize)
        requires
            self.well_formed(),
        ensures
            n == self@.dom().len(),
            self@.dom().finite(),
    {
        proof {
            lemma_slots_count(self.slots@);
        }
        self.slots.len()
    }

    fn find(&self, project: &str, entity_id: &str) -> (r: Option<usize>)
        ensures
            match r {
                Some(i) => i < self.slots@.len() && self.slots@[i as int].key() == (
                    project@,
                    entity_id@,
                ),
                None => !has_key(self.slots@, (project@, entity_id@)),
            },
    {
        let mut i: usize = 0;
        while i < self.slots.len()
            invariant
                i <= self.slots@.len(),
                forall|j: int|
                    0 <= j < i ==> (#[trigger] self.slots@[j]).key() != (project@, entity_id@),
            decreases self.slots@.len() - i,
        {
            if str_eq(self.slots[i].project.as_str(), project) && str_eq(
                self.slots[i].entity_id.as_str(),
                entity_id,
            ) {
                return Some(i);
            }
            i = i + 1;
        }
        None
    }
}

proof fn lemma_position(slots: Seq<Slot>, i: int)
    requires
        distinct_keys(slots),
        0 <= i < slots.len(),
    ensures
        has_key(slots, slots[i].key()),
        position(slots, slots[i].key()) == i,
{
    let k = slots[i].key();
    assert(has_key(slots, k));
    let p = position(slots, k);
    assert(0 <= p < slots.len() && slots[p].key() == k);
    if p < i {
        assert(slots[p].key() != slots[i].key());
    } else if i < p {
        assert(slots[i].key() != slots[p].key());
    }
}

proof fn lemma_slots_count(slots: Seq<Slot>)
    requires
        distinct_keys(slots),
    ensures
        slots_map(slots).dom().finite(),
        slots_map(slots).dom().len() == slots.len(),
    decreases slots.len(),
{
    if slots.len() == 0 {
        assert(slots_map(slots).dom() =~= Set::<Key>::empty());
    } else {
        let rest = slots.drop_last();
        let k = slots.last().key();
        lemma_slots_count(rest);
        assert(!has_key(rest, k)) by {
            if has_key(rest, k) {
                let p = position(rest, k);
                assert(slots[p].key() == k);
                assert(slots[p].key() != slots[slots.len() - 1].key());
            }
        }
        assert(slots_map(slots).dom() =~= slots_map(rest).dom().insert(k)) by {
            assert forall|x: Key| slots_map(slots).dom().contains(x) implies slots_map(
                rest,
            ).dom().insert(k).contains(x) by {
                let p = position(slots, x);
                if p < slots.len() - 1 {
                    assert(rest[p].key() == x);
                }
            }
            assert forall|x: Key| slots_map(rest).dom().insert(k).contains(x) implies slots_map(
                slots,
            ).dom().contains(x) by {
                if x == k {
                    assert(slots[slots.len() - 1].key() == x);
                } else {
                    let p = position(rest, x);
                    assert(slots[p].key() == x);
                }
            }
        }
    }
}

/// Replacing the slot at `i` by one with the same key binds that key anew and keeps
/// the rest.
proof fn lemma_replace(slots: Seq<Slot>, i: int, slot: Slot)
    requires
        distinct_keys(slots),
        0 <= i < slots.len(),
        slot.key() == slots[i].key(),
    ensures
        distinct_keys(slots.update(i, slot)),
        slots_map(slots.update(i, slot)) == slots_map(slots).insert(slot.key(), slot.record()),
{
    let after = slots.update(i, slot);
    assert(distinct_keys(after)) by {
        assert forall|a: int, b: int| 0 <= a < b < after.len() implies (#[trigger] after[a]).key()
            != (#[trigger] after[b]).key() by {
            assert(slots[a].key() != slots[b].key());
        }
    }
    assert forall|k: Key| has_key(after, k) == has_key(slots, k) by {
        if has_key(after, k) {
            let p = position(after, k);
            assert(slots[p].key() == k);
        }
        if has_key(slots, k) {
            let p = position(slots, k);
            assert(after[p].key() == k);
        }
    }
    assert forall|k: Key| has_key(after, k) implies #[trigger] slots_map(after)[k] == slots_map(
        slots,
    ).insert(slot.key(), slot.record())[k] by {
        let p = position(after, k);
        lemma_position(after, p);
        lemma_position(slots, p);
    }
    assert(has_key(slots, slot.key()));
    assert(slots_map(after) =~= slots_map(slots).insert(slot.key(), slot.record()));
}

/// Appending a slot with a new key binds that key and keeps the rest.
proof fn lemma_append(slots: Seq<Slot>, slot: Slot)
    requires
        distinct_keys(slots),
        !has_key(slots, slot.key()),
    ensures
        distinct_keys(slots.push(slot)),
        slots_map(slots.push(slot)) == slots_map(slots).insert(slot.key(), slot.record()),
{
    let after = slots.push(slot);
    assert(distinct_keys(after)) by {
        assert forall|a: int, b: int| 0 <= a < b < after.len() implies (#[trigger] after[a]).key()
            != (#[trigger] after[b]).key() by {
            if b < slots.len() {
                assert(slots[a].key() != slots[b].key());
            } else {
                assert(slots[a].key() != slot.key());
            }
        }
    }
    assert forall|k: Key| has_key(after, k) == (has_key(slots, k) || k == slot.key()) by {
        if has_key(after, k) {
            let p = position(after, k);
            if p < slots.len() {
                assert(slots[p].key() == k);
            }
        }
        if has_key(slots, k) {
            let p = position(slots, k);
            assert(after[p].key() == k);
        }
        if k == slot.key() {
            assert(after[slots.len() as int].key() == k);
        }
    }
    assert forall|k: Key| has_key(after, k) implies #[trigger] slots_map(after)[k] == slots_map(
        slots,
    ).insert(slot.key(), slot.record())[k] by {
        let p = position(after, k);
        lemma_position(after, p);
        if p < slots.len() {
            lemma_position(slots, p);
        }
    }
    assert(slots_map(after) =~= slots_map(slots).insert(slot.key(), slot.record()));
}

/// Which records of a project an enumeration asks for.
pub enum Selector<'a> {
    /// Every record.
    All,
    /// The records whose metadata names this entity type.
    OfType(&'a str),
    /// The records whose metadata names this file.
    InFile(&'a str),
}

/// A record is among those that the selector asks for.
pub open spec fn selects(selector: Selector<'_>, record: Record) -> bool {
    match selector {
        Selector::All => true,
        Selector::OfType(t) => record.metadata.contains_key("type"@) && record.metadata["type"@]
            == t@,
        Selector::InFile(f) => record.metadata.contains_key("file"@) && record.metadata["file"@]
            == f@,
    }
}

/// The ids of the records of a namespace that the selector asks for.
pub open spec fn selected_ids(records: Map<Seq<char>, Record>, selector: Selector<'_>) -> Set<
    Seq<char>,
> {
    Set::new(|id: Seq<char>| records.contains_key(id) && selects(selector, records[id]))
}

/// A store in memory, bound to one project of a keyspace.
pub struct MemoryVectorStore {
    key_prefix: String,
    keyspace: Keyspace,
}

impl MemoryVectorStore {
    /// The project prefix that the store is bound to.
    pub closed spec fn prefix(&self) -> Seq<char> {
        self.key_prefix@
    }

    /// The records of all projects in the keyspace under the store.
    pub closed spec fn shared(&self) -> Map<Key, Record> {
        self.keyspace@
    }

    /// The keyspace under the store holds every key once.
    pub closed spec fn consistent(&self) -> bool {
        self.keyspace.well_formed()
    }

    /// A store for the project on a keyspace of its own, without records.
    pub fn new(key_prefix: &str) -> (store: MemoryVectorStore)
        ensures
            store.well_formed(),
            store.prefix() == key_prefix@,
            store.shared() == Map::<Key, Record>::empty(),
    {
        MemoryVectorStore { key_prefix: owned(key_prefix), keyspace: Keyspace::new() }
    }

    /// A store for the project on an existing keyspace.
    pub fn attach(key_prefix: &str, keyspace: Keyspace) -> (store: MemoryVectorStore)
        requires
            keyspace.well_formed(),
        ensures
            store.well_formed(),
            store.prefix() == key_prefix@,
            store.shared() == keyspace@,
    {
        MemoryVectorStore { key_prefix: owned(key_prefix), keyspace }
    }

    /// Gives the keyspace back, for a store of another project to attach to.
    pub fn detach(self) -> (keyspace: Keyspace)
        requires
            self.well_formed(),
        ensures
            keyspace.well_formed(),
            keyspace@ == self.shared(),
    {
        self.keyspace
    }

    /// The project prefix that the store is bound to.
    pub fn key_prefix(&self) -> (r: &str)
        ensures
            r@ == self.prefix(),
    {
        self.key_prefix.as_str()
    }

    /// The ids of the project's records that the selector asks for, each once.
    pub fn ids_where(&self, selector: Selector<'_>) -> (ids: Vec<String>)
        requires
            self.well_formed(),
        ensures
            enumerates(ids@, selected_ids(self.records(), selector)),
    {
        let mut ids: Vec<String> = Vec::new();
        let ghost mut picked: Seq<int> = Seq::empty();
        let ghost slots = self.keyspace.slots@;
        let ghost project = self.key_prefix@;
        let mut i: usize = 0;
        while i < self.keyspace.slots.len()
            invariant
                i <= slots.len(),
                slots == self.keyspace.slots@,
                project == self.key_prefix@,
                distinct_keys(slots),
                ids@.len() == picked.len(),
                forall|t: int| 0 <= t < picked.len() ==> 0 <= #[trigger] picked[t] < i,
                forall|a: int, b: int| 0 <= a < b < picked.len() ==> picked[a] < picked[b],
                forall|t: int|
                    0 <= t < picked.len() ==> (#[trigger] ids@[t])@ == slots[picked[t]].entity_id@
                        && slots[picked[t]].project@ == project && selects(
                        selector,
                        slots[picked[t]].record(),
                    ),
                forall|j: int|
                    0 <= j < i && (#[trigger] slots[j]).project@ == project && selects(
                        selector,
                        slots[j].record(),
                    ) ==> exists|t: int| 0 <= t < picked.len() && #[trigger] picked[t] == j,
            decreases slots.len() - i,
        {
            let slot = &self.keyspace.slots[i];
            let wanted = str_eq(slot.project.as_str(), self.key_prefix.as_str()) && match selector {
                Selector::All => true,
                Selector::OfType(t) => slot.metadata.holds("type", t),
                Selector::InFile(f) => slot.metadata.holds("file", f),
            };
            if wanted {
                let ghost listed = ids@;
                ids.push(slot.entity_id.clone());
                proof {
                    let ghost before = picked;
                    picked = picked.push(i as int);
                    assert(slots[i as int].record().metadata == slot.metadata@);
                    assert forall|t: int| 0 <= t < picked.len() implies (#[trigger] ids@[t])@
                        == slots[picked[t]].entity_id@ && slots[picked[t]].project@ == project
                        && selects(selector, slots[picked[t]].record()) by {
                        if t < before.len() {
                            assert(ids@[t] == listed[t]);
                            assert(picked[t] == before[t]);
                        }
                    }
                    assert forall|j: int|
                        0 <= j < i + 1 && (#[trigger] slots[j]).project@ == project && selects(
                            selector,
                            slots[j].record(),
                        ) implies exists|t: int| 0 <= t < picked.len() && #[trigger] picked[t]
                        == j by {
                        if j < i {
                            let t = choose|t: int| 0 <= t < before.len() && #[trigger] before[t] == j;
                            assert(picked[t] == j);
                        } else {
                            assert(picked[before.len() as int] == j);
                        }
                    }
                }
            }
            i = i + 1;
        }
        proof {
            let records = self.records();
            let wanted = selected_ids(records, selector);
            assert forall|a: int, b: int| 0 <= a < b < ids@.len() implies ids@[a]@ != ids@[b]@ by {
                assert(slots[picked[a]].key() != slots[picked[b]].key());
            }
            assert forall|t: int| 0 <= t < ids@.len() implies wanted.contains(
                #[trigger] ids@[t]@,
            ) by {
                lemma_position(slots, picked[t]);
            }
            assert forall|id: Seq<char>| wanted.contains(id) implies exists|t: int|
                0 <= t < ids@.len() && #[trigger] ids@[t]@ == id by {
                let p = position(slots, (project, id));
                lemma_position(slots, p);
                let t = choose|t: int| 0 <= t < picked.len() && #[trigger] picked[t] == p;
                assert(ids@[t]@ == id);
            }
        }
        ids
    }

    /// The ids of the `top_k` entities of the project most similar to the query, best
    /// first: a search without filters.
    pub fn similarity_search<K: Fn(&[u32], &[u32]) -> u32>(
        &self,
        query: &[u32],
        top_k: usize,
        kernel: &K,
    ) -> (ids: Vec<String>)
        requires
            self.well_formed(),
            kernel_total(kernel),
        ensures
            ids@.len() <= top_k,
            exists|out: Seq<SearchResult>|
                #![trigger ids_of(out)]
                search_selection(
                    self.records(),
                    readable_ids(self),
                    kernel,
                    query,
                    SearchOptions {
                        top_k,
                        min_score: None,
                        entity_types: None,
                        file_filter: None,
                    },
                    out,
                ) && ids_of(out) == Seq::new(ids@.len(), |i: int| ids@[i]@),
    {
        similarity_search(self, query, top_k, kernel)
    }

    /// The ids of the project's entities of one type: the per-type index.
    pub fn entity_ids_of_type(&self, entity_type: &str) -> (ids: Vec<String>)
        requires
            self.well_formed(),
        ensures
            enumerates(ids@, selected_ids(self.records(), Selector::OfType(entity_type))),
    {
        self.ids_where(Selector::OfType(entity_type))
    }

    /// The ids of the project's entities of one file: the per-file index.
    pub fn entity_ids_in_file(&self, file: &str) -> (ids: Vec<String>)
        requires
            self.well_formed(),
        ensures
            enumerates(ids@, selected_ids(self.records(), Selector::InFile(file))),
    {
        self.ids_where(Selector::InFile(file))
    }
}

impl VectorStore for MemoryVectorStore {
    open spec fn well_formed(&self) -> bool {
        self.consistent()
    }

    open spec fn records(&self) -> Map<Seq<char>, Record> {
        namespace(self.shared(), self.prefix())
    }

    open spec fn enumerable(&self) -> bool {
        true
    }

    open spec fn vector_readable(&self, entity_id: Seq<char>) -> bool {
        true
    }

    open spec fn metadata_readable(&self, entity_id: Seq<char>) -> bool {
        true
    }

    open spec fn accepts(&self, entity_id: Seq<char>) -> bool {
        true
    }

    fn upsert_embedding(
        &mut self,
        entity_id: &str,
        embedding: &[u32],
        file: Option<&str>,
        entity_type: Option<&str>,
    ) -> (r: Result<(), StoreError>)
        ensures
            final(self).prefix() == old(self).prefix(),
            r is Ok <==> embedding@.len() > 0,
            r is Ok ==> final(self).shared() == old(self).shared().insert(
                (old(self).prefix(), entity_id@),
                record_spec(entity_id@, embedding@, text_of(file), text_of(entity_type)),
            ),
            r is Err ==> final(self).shared() == old(self).shared(),
    {
        if embedding.len() == 0 {
            return Err(StoreError::InvalidInput);
        }
        let type_label = label(entity_type);
        let file_label = label(file);
        let slot = Slot {
            project: self.key_prefix.clone(),
            entity_id: owned(entity_id),
            vector: copy_vector(embedding),
            metadata: derive_metadata(
                entity_id,
                type_label.as_str(),
                file_label.as_str(),
                embedding.len(),
            ),
        };
        let ghost before = self.keyspace.slots@;
        match self.keyspace.find(self.key_prefix.as_str(), entity_id) {
            Some(i) => {
                proof {
                    lemma_replace(before, i as int, slot);
                }
                self.keyspace.slots.set(i, slot);
            },
            None => {
                proof {
                    lemma_append(before, slot);
                }
                self.keyspace.slots.push(slot);
            },
        }
        proof {
            lemma_namespace_insert(
                old(self).shared(),
                self.prefix(),
                entity_id@,
                record_spec(entity_id@, embedding@, text_of(file), text_of(entity_type)),
            );
        }
        Ok(())
    }

    fn get_all_entity_ids(&self) -> (r: Result<Vec<String>, StoreError>)
        ensures
            r is Ok,
    {
        let ids = self.ids_where(Selector::All);
        proof {
            assert(selected_ids(self.records(), Selector::All) =~= self.records().dom());
        }
        Ok(ids)
    }

    fn get_entity_vector(&self, entity_id: &str) -> (r: Result<Vec<u32>, StoreError>)
        ensures
            r is Ok <==> self.records().contains_key(entity_id@),
            r is Err ==> r == Err::<Vec<u32>, StoreError>(StoreError::NotFound),
    {
        match self.keyspace.find(self.key_prefix.as_str(), entity_id) {
            Some(i) => {
                proof {
                    lemma_position(self.keyspace.slots@, i as int);
                }
                Ok(copy_vector(self.keyspace.slots[i].vector.as_slice()))
            },
            None => Err(StoreError::NotFound),
        }
    }

    fn get_entity_metadata(&self, entity_id: &str) -> (r: Result<Metadata, StoreError>)
        ensures
            r is Ok <==> self.records().contains_key(entity_id@),
            r is Err ==> r == Err::<Metadata, StoreError>(StoreError::NotFound),
    {
        match self.keyspace.find(self.key_prefix.as_str(), entity_id) {
            Some(i) => {
                proof {
                    lemma_position(self.keyspace.slots@, i as int);
                }
                Ok(self.keyspace.slots[i].metadata.clone())
            },
            None => Err(StoreError::NotFound),
        }
    }
}

/// Writing a record under a project's key changes that project's namespace as an
/// upsert does.
pub proof fn lemma_namespace_insert(
    keyspace: Map<Key, Record>,
    project: Seq<char>,
    entity_id: Seq<char>,
    record: Record,
)
    ensures
        namespace(keyspace.insert((project, entity_id), record), project) == namespace(
            keyspace,
            project,
        ).insert(entity_id, record),
{
    assert(namespace(keyspace.insert((project, entity_id), record), project) =~= namespace(
        keyspace,
        project,
    ).insert(entity_id, record));
}

/// Projects are isolated: a write under one project prefix leaves the namespace of
/// every other prefix as it was, so no entity written under one project is ever
/// enumerated or read under another.
pub proof fn lemma_projects_isolated(
    keyspace: Map<Key, Record>,
    writer: Seq<char>,
    reader: Seq<char>,
    entity_id: Seq<char>,
    record: Record,
)
    requires
        writer != reader,
    ensures
        namespace(keyspace.insert((writer, entity_id), record), reader) == namespace(
            keyspace,
            reader,
        ),
        namespace(keyspace.insert((writer, entity_id), record), reader).dom() == namespace(
            keyspace,
            reader,
        ).dom(),
{
    assert(namespace(keyspace.insert((writer, entity_id), record), reader) =~= namespace(
        keyspace,
        reader,
    ));
}

/// A keyspace without records has no record under any project.
pub proof fn lemma_empty_namespace(project: Seq<char>)
    ensures
        namespace(Map::<Key, Record>::empty(), project) == Map::<Seq<char>, Record>::empty(),
{
    assert(namespace(Map::<Key, Record>::empty(), project) =~= Map::<Seq<char>, Record>::empty());
}

/// An upsert enters its entity in the index of its type and in the index of its file.
pub proof fn lemma_upsert_indexes(
    records: Map<Seq<char>, Record>,
    entity_id: Seq<char>,
    embedding: Seq<u32>,
    file: Option<Seq<char>>,
    entity_type: Option<Seq<char>>,
    type_label: &str,
    file_label: &str,
)
    requires
        type_label@ == label_spec(entity_type),
        file_label@ == label_spec(file),
    ensures
        selected_ids(
            upsert_spec(records, entity_id, embedding, file, entity_type),
            Selector::OfType(type_label),
        ).contains(entity_id),
        selected_ids(
            upsert_spec(records, entity_id, embedding, file, entity_type),
            Selector::InFile(file_label),
        ).contains(entity_id),
        selected_ids(
            upsert_spec(records, entity_id, embedding, file, entity_type),
            Selector::All,
        ).contains(entity_id),
{
    lemma_derived_metadata(
        entity_id,
        label_spec(entity_type),
        label_spec(file),
        embedding.len(),
    );
}

} // verus!
