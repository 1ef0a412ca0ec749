//! Storage of embeddings with their metadata, one namespace per project.

use crate::metadata::Metadata;
use crate::text::{decimal, decimal_spec, join, owned, text_of};
pub use crate::redis_store::RedisVectorStore;
use vstd::prelude::*;

verus! {

/// Why a store operation failed.
#[derive(Debug, Clone, PartialEq, Eq)]
pub enum StoreError {
    /// The caller handed over something the store does not accept, such as an empty vector.
    InvalidInput,
    /// No record exists under the entity id.
    NotFound,
    /// The backend could not be reached or could not encode or decode a value.
    Backend(String),
}

/// The words for an error.
pub open spec fn describe_spec(error: StoreError) -> Seq<char> {
    match error {
        StoreError::InvalidInput => "invalid input"@,
        StoreError::NotFound => "not found"@,
        StoreError::Backend(reason) => "backend error: "@ + reason@,
    }
}

impl StoreError {
    /// The error in words.
    pub fn describe(&self) -> (r: String)
        ensures
            r@ == describe_spec(*self),
    {
        match self {
            StoreError::InvalidInput => owned("invalid input"),
            StoreError::NotFound => owned("not found"),
            StoreError::Backend(reason) => join("backend error: ", reason.as_str()),
        }
    }
}

/// What a store holds for one entity.
pub ghost struct Record {
    pub vector: Seq<u32>,
    pub metadata: Map<Seq<char>, Seq<char>>,
}

/// The label stored where the caller names no file or no entity type.
pub open spec fn label_spec(label: Option<Seq<char>>) -> Seq<char> {
    match label {
        Some(s) => s,
        None => "unknown"@,
    }
}

/// The metadata that an upsert derives from its arguments.
pub open spec fn derived_metadata(
    entity_id: Seq<char>,
    entity_type: Seq<char>,
    file: Seq<char>,
    dimension: nat,
) -> Map<Seq<char>, Seq<char>> {
    Map::<Seq<char>, Seq<char>>::empty().insert("id"@, entity_id).insert(
        "type"@,
        entity_type,
    ).insert("file"@, file).insert("vector_length"@, decimal_spec(dimension))
}

/// The record that an upsert writes.
pub open spec fn record_spec(
    entity_id: Seq<char>,
    embedding: Seq<u32>,
    file: Option<Seq<char>>,
    entity_type: Option<Seq<char>>,
) -> Record {
    Record {
        vector: embedding,
        metadata: derived_metadata(
            entity_id,
            label_spec(entity_type),
            label_spec(file),
            embedding.len(),
        ),
    }
}

/// The records of a namespace after an upsert: the record under `entity_id` is
/// replaced as a whole, every other record is kept.
pub open spec fn upsert_spec(
    records: Map<Seq<char>, Record>,
    entity_id: Seq<char>,
    embedding: Seq<u32>,
    file: Option<Seq<char>>,
    entity_type: Option<Seq<char>>,
) -> Map<Seq<char>, Record> {
    records.insert(entity_id, record_spec(entity_id, embedding, file, entity_type))
}

/// `ids` lists the members of `domain`, each exactly once.
pub open spec fn enumerates(ids: Seq<String>, domain: Set<Seq<char>>) -> bool {
    &&& forall|i: int, j: int| 0 <= i < j < ids.len() ==> ids[i]@ != ids[j]@
    &&& forall|i: int| 0 <= i < ids.len() ==> domain.contains(#[trigger] ids[i]@)
    &&& forall|id: Seq<char>|
        domain.contains(id) ==> exists|i: int| 0 <= i < ids.len() && #[trigger] ids[i]@ == id
}

/// A store of embeddings for the entities of one project.
///
/// An implementation is bound to its project when it is made; no operation takes
/// a key of the backend, so records of another project cannot be named through it.
pub trait VectorStore {
    /// What the store needs to hold of itself between calls.
    open spec fn well_formed(&self) -> bool {
        true
    }

    /// The records of the project, by entity id. An implementation in verified
    /// code defines it; the default stands in where the implementation is not
    /// verified.
    open spec fn records(&self) -> Map<Seq<char>, Record> {
        arbitrary()
    }

    /// The backend can list the entities of the project. Like the three answers
    /// below, this says how the backend behind the store answers: a store answers
    /// the same call in the same way for as long as it is not written to.
    open spec fn enumerable(&self) -> bool {
        arbitrary()
    }

    /// The backend can hand out the vector of the entity.
    open spec fn vector_readable(&self, entity_id: Seq<char>) -> bool {
        arbitrary()
    }

    /// The backend can hand out the metadata of the entity.
    open spec fn metadata_readable(&self, entity_id: Seq<char>) -> bool {
        arbitrary()
    }

    /// The backend takes a record for the entity.
    open spec fn accepts(&self, entity_id: Seq<char>) -> bool {
        arbitrary()
    }

    /// Writes the embedding of an entity with the metadata derived from the
    /// arguments, replacing an earlier record of that entity as a whole. An empty
    /// embedding is rejected; a call that fails leaves the records as they were.
    fn upsert_embedding(
        &mut self,
        entity_id: &str,
        embedding: &[u32],
        file: Option<&str>,
        entity_type: Option<&str>,
    ) -> (r: Result<(), StoreError>)
        requires
            old(self).well_formed(),
        ensures
            final(self).well_formed(),
            forall|id: Seq<char>| #[trigger] final(self).accepts(id) == old(self).accepts(id),
            r is Ok <==> embedding@.len() > 0 && old(self).accepts(entity_id@),
            embedding@.len() == 0 ==> r == Err::<(), StoreError>(StoreError::InvalidInput),
            r is Ok ==> final(self).records() == upsert_spec(
                old(self).records(),
                entity_id@,
                embedding@,
                text_of(file),
                text_of(entity_type),
            ),
            r is Err ==> final(self).records() == old(self).records(),
    ;

    /// The ids of all entities of the project, each once.
    fn get_all_entity_ids(&self) -> (r: Result<Vec<String>, StoreError>)
        requires
            self.well_formed(),
        ensures
            r is Ok <==> self.enumerable(),
            r is Ok ==> enumerates(r->Ok_0@, self.records().dom()),
    ;

    /// The vector stored for an entity.
    fn get_entity_vector(&self, entity_id: &str) -> (r: Result<Vec<u32>, StoreError>)
        requires
            self.well_formed(),
        ensures
            r is Ok <==> self.records().contains_key(entity_id@) && self.vector_readable(
                entity_id@,
            ),
            r is Ok ==> r->Ok_0@ == self.records()[entity_id@].vector,
            r == Err::<Vec<u32>, StoreError>(StoreError::NotFound) ==> !self.records().contains_key(
                entity_id@,
            ),
            !self.records().contains_key(entity_id@) && self.vector_readable(entity_id@) ==> r
                == Err::<Vec<u32>, StoreError>(StoreError::NotFound),
    ;

    /// The metadata stored for an entity.
    fn get_entity_metadata(&self, entity_id: &str) -> (r: Result<Metadata, StoreError>)
        requires
            self.well_formed(),
        ensures
            r is Ok <==> self.records().contains_key(entity_id@) && self.metadata_readable(
                entity_id@,
            ),
            r is Ok ==> r->Ok_0@ == self.records()[entity_id@].metadata,
            r == Err::<Metadata, StoreError>(StoreError::NotFound) ==> !self.records().contains_key(
                entity_id@,
            ),
            !self.records().contains_key(entity_id@) && self.metadata_readable(entity_id@) ==> r
                == Err::<Metadata, StoreError>(StoreError::NotFound),
    ;
}

/// The ids of the records of a store that the backend can hand out in full, vector
/// and metadata.
pub open spec fn readable_ids<S: VectorStore>(store: &S) -> Set<Seq<char>> {
    Set::new(
        |id: Seq<char>|
            store.records().contains_key(id) && store.vector_readable(id)
                && store.metadata_readable(id),
    )
}

/// The ids for which the backend of a store takes a record.
pub open spec fn accepted_ids<S: VectorStore>(store: &S) -> Set<Seq<char>> {
    Set::new(|id: Seq<char>| store.accepts(id))
}

/// A copy of a vector.
pub fn copy_vector(v: &[u32]) -> (r: Vec<u32>)
    ensures
        r@ == v@,
{
    let mut r: Vec<u32> = Vec::new();
    let mut i: usize = 0;
    while i < v.len()
        invariant
            i <= v@.len(),
            r@ == v@.take(i as int),
        decreases v@.len() - i,
    {
        r.push(v[i]);
        assert(v@.take(i as int).push(v@[i as int]) =~= v@.take(i + 1));
        i = i + 1;
    }
    assert(v@.take(v@.len() as int) =~= v@);
    r
}

/// The label to store for an optional file or entity type.
pub fn label(given: Option<&str>) -> (r: String)
    ensures
        r@ == label_spec(text_of(given)),
{
    match given {
        Some(s) => owned(s),
        None => owned("unknown"),
    }
}

/// Builds the metadata that an upsert stores.
pub fn derive_metadata(entity_id: &str, entity_type: &str, file: &str, dimension: usize) -> (m:
    Metadata)
    ensures
        m@ == derived_metadata(entity_id@, entity_type@, file@, dimension as nat),
{
    let mut m = Metadata::new();
    m.insert("id", entity_id);
    m.insert("type", entity_type);
    m.insert("file", file);
    let length = decimal(dimension);
    m.insert("vector_length", length.as_str());
    m
}

/// A vector that was written under an entity id is the vector that is read back
/// under it, whatever the namespace held before.
pub proof fn lemma_upsert_then_read(
    records: Map<Seq<char>, Record>,
    entity_id: Seq<char>,
    embedding: Seq<u32>,
    file: Option<Seq<char>>,
    entity_type: Option<Seq<char>>,
)
    ensures
        upsert_spec(records, entity_id, embedding, file, entity_type).contains_key(entity_id),
        upsert_spec(records, entity_id, embedding, file, entity_type)[entity_id].vector
            == embedding,
{
}

/// An upsert replaces the record of its entity as a whole and touches no other:
/// nothing of the earlier record of that entity is left, and the record of every
/// other entity is as before.
pub proof fn lemma_upsert_replaces(
    records: Map<Seq<char>, Record>,
    entity_id: Seq<char>,
    embedding: Seq<u32>,
    file: Option<Seq<char>>,
    entity_type: Option<Seq<char>>,
    other: Seq<char>,
)
    ensures
        upsert_spec(records, entity_id, embedding, file, entity_type)[entity_id] == record_spec(
            entity_id,
            embedding,
            file,
            entity_type,
        ),
        other != entity_id ==> upsert_spec(
            records,
            entity_id,
            embedding,
            file,
            entity_type,
        ).contains_key(other) == records.contains_key(other),
        other != entity_id && records.contains_key(other) ==> upsert_spec(
            records,
            entity_id,
            embedding,
            file,
            entity_type,
        )[other] == records[other],
{
}

/// Of two upserts of one entity, the later one wins: the records are as if the
/// earlier one had not been made.
pub proof fn lemma_last_write_wins(
    records: Map<Seq<char>, Record>,
    entity_id: Seq<char>,
    first: Seq<u32>,
    first_file: Option<Seq<char>>,
    first_type: Option<Seq<char>>,
    second: Seq<u32>,
    second_file: Option<Seq<char>>,
    second_type: Option<Seq<char>>,
)
    ensures
        upsert_spec(
            upsert_spec(records, entity_id, first, first_file, first_type),
            entity_id,
            second,
            second_file,
            second_type,
        ) == upsert_spec(records, entity_id, second, second_file, second_type),
{
    assert(upsert_spec(
        upsert_spec(records, entity_id, first, first_file, first_type),
        entity_id,
        second,
        second_file,
        second_type,
    ) =~= upsert_spec(records, entity_id, second, second_file, second_type));
}

/// Upserts of two different entities can be made in either order.
pub proof fn lemma_upserts_commute(
    records: Map<Seq<char>, Record>,
    a: Seq<char>,
    a_vector: Seq<u32>,
    a_file: Option<Seq<char>>,
    a_type: Option<Seq<char>>,
    b: Seq<char>,
    b_vector: Seq<u32>,
    b_file: Option<Seq<char>>,
    b_type: Option<Seq<char>>,
)
    requires
        a != b,
    ensures
        upsert_spec(upsert_spec(records, a, a_vector, a_file, a_type), b, b_vector, b_file, b_type)
            == upsert_spec(
            upsert_spec(records, b, b_vector, b_file, b_type),
            a,
            a_vector,
            a_file,
            a_type,
        ),
{
    assert(upsert_spec(
        upsert_spec(records, a, a_vector, a_file, a_type),
        b,
        b_vector,
        b_file,
        b_type,
    ) =~= upsert_spec(
        upsert_spec(records, b, b_vector, b_file, b_type),
        a,
        a_vector,
        a_file,
        a_type,
    ));
}

/// The metadata that an upsert derives binds `id`, `type` and `file` to the
/// entity id and to the two labels.
pub proof fn lemma_derived_metadata(
    entity_id: Seq<char>,
    entity_type: Seq<char>,
    file: Seq<char>,
    dimension: nat,
)
    ensures
        derived_metadata(entity_id, entity_type, file, dimension).contains_key("id"@),
        derived_metadata(entity_id, entity_type, file, dimension)["id"@] == entity_id,
        derived_metadata(entity_id, entity_type, file, dimension).contains_key("type"@),
        derived_metadata(entity_id, entity_type, file, dimension)["type"@] == entity_type,
        derived_metadata(entity_id, entity_type, file, dimension).contains_key("file"@),
        derived_metadata(entity_id, entity_type, file, dimension)["file"@] == file,
        derived_metadata(entity_id, entity_type, file, dimension).contains_key("vector_length"@),
        derived_metadata(entity_id, entity_type, file, dimension)["vector_length"@]
            == decimal_spec(dimension),
{
    reveal_strlit("id");
    reveal_strlit("type");
    reveal_strlit("file");
    reveal_strlit("vector_length");
    assert("id"@.len() == 2);
    assert("type"@.len() == 4);
    assert("file"@.len() == 4);
    assert("vector_length"@.len() == 13);
    assert("type"@[0] == 't');
    assert("file"@[0] == 'f');
}

} // verus!
