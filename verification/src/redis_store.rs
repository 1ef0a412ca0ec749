//! The mapping of a project's records onto the keys and values of a Redis server.
//!
//! Nothing here talks to a server: the store computes which keys a record lives
//! under and which commands write it, and the caller runs them.

use crate::json::{json_object_text, members_map, write_document, Field, Member};
use crate::text::{decimal, decimal_spec, join, owned, text_of};
use crate::vector_store::{label, label_spec, StoreError};
use vstd::prelude::*;

verus! {

/// The key of a project: prefix, component and discriminator, joined by colons.
pub open spec fn key_spec(prefix: Seq<char>, component: Seq<char>, discriminator: Seq<char>) -> Seq<
    char,
> {
    prefix + ":"@ + component + ":"@ + discriminator
}

/// The members of the metadata document of a record.
pub open spec fn metadata_members(
    entity_id: Seq<char>,
    entity_type: Seq<char>,
    file: Seq<char>,
    dimension: nat,
) -> Map<Seq<char>, Field> {
    Map::<Seq<char>, Field>::empty().insert("id"@, Field::Text(entity_id)).insert(
        "type"@,
        Field::Text(entity_type),
    ).insert("file"@, Field::Text(file)).insert("vector_length"@, Field::Number(dimension as int))
}

/// The metadata document of a record: the JSON object of its members, or `None`
/// where the encoder fails.
pub open spec fn metadata_json_spec(
    entity_id: Seq<char>,
    entity_type: Seq<char>,
    file: Seq<char>,
    dimension: nat,
) -> Option<Seq<char>> {
    json_object_text(metadata_members(entity_id, entity_type, file, dimension))
}

/// The members of the metadata document of a record, in the order in which they
/// are entered.
pub fn metadata_fields(entity_id: &str, entity_type: &str, file: &str, dimension: usize) -> (list:
    Vec<Member>)
    ensures
        members_map(list@, list@.len()) == metadata_members(
            entity_id@,
            entity_type@,
            file@,
            dimension as nat,
        ),
{
    let mut list: Vec<Member> = Vec::new();
    list.push(Member::Text { name: owned("id"), text: owned(entity_id) });
    list.push(Member::Text { name: owned("type"), text: owned(entity_type) });
    list.push(Member::Text { name: owned("file"), text: owned(file) });
    list.push(Member::Count { name: owned("vector_length"), number: dimension as u64 });
    proof {
        reveal_with_fuel(members_map, 5);
    }
    list
}

/// The metadata document of a record.
pub fn metadata_json(entity_id: &str, entity_type: &str, file: &str, dimension: usize) -> (r:
    Result<String, StoreError>)
    ensures
        match r {
            Ok(document) => metadata_json_spec(entity_id@, entity_type@, file@, dimension as nat)
                == Some(document@),
            Err(e) => metadata_json_spec(entity_id@, entity_type@, file@, dimension as nat)
                is None && e is Backend,
        },
{
    let fields = metadata_fields(entity_id, entity_type, file, dimension);
    write_document(&fields)
}

/// A command for the server.
#[derive(Debug)]
pub enum RedisCommand {
    /// `SET`: bind the key to the value.
    Bind { key: String, value: String },
    /// `SADD`: add the member to the set under the key.
    Add { key: String, member: String },
    /// `HSET`: bind the field of the hash under the key to the value.
    Put { key: String, field: String, value: String },
    /// `HDEL`: remove the field of the hash under the key.
    Drop { key: String, field: String },
    /// `SREM`: remove the member from the set under the key.
    Discard { key: String, member: String },
    /// `DEL`: remove the key.
    Delete { key: String },
}

/// A command as plain values.
pub ghost enum Command {
    Bind { key: Seq<char>, value: Seq<char> },
    Add { key: Seq<char>, member: Seq<char> },
    Put { key: Seq<char>, field: Seq<char>, value: Seq<char> },
    Drop { key: Seq<char>, field: Seq<char> },
    Discard { key: Seq<char>, member: Seq<char> },
    Delete { key: Seq<char> },
}

impl View for RedisCommand {
    type V = Command;

    open spec fn view(&self) -> Command {
        match self {
            RedisCommand::Bind { key, value } => Command::Bind { key: key@, value: value@ },
            RedisCommand::Add { key, member } => Command::Add { key: key@, member: member@ },
            RedisCommand::Put { key, field, value } => Command::Put {
                key: key@,
                field: field@,
                value: value@,
            },
            RedisCommand::Drop { key, field } => Command::Drop { key: key@, field: field@ },
            RedisCommand::Discard { key, member } => Command::Discard {
                key: key@,
                member: member@,
            },
            RedisCommand::Delete { key } => Command::Delete { key: key@ },
        }
    }
}

/// The commands of a list as plain values.
pub open spec fn commands(list: Seq<RedisCommand>) -> Seq<Command> {
    Seq::new(list.len(), |i: int| list[i]@)
}

/// The commands that write one record: the vector, the metadata, and the entries
/// in the index of all entities, of the entity type and of the file.
pub open spec fn upsert_commands_spec(
    prefix: Seq<char>,
    entity_id: Seq<char>,
    vector_json: Seq<char>,
    metadata_json: Seq<char>,
    entity_type: Seq<char>,
    file: Seq<char>,
) -> Seq<Command> {
    seq![
        Command::Bind { key: key_spec(prefix, "vector"@, entity_id), value: vector_json },
        Command::Bind { key: key_spec(prefix, "metadata"@, entity_id), value: metadata_json },
        Command::Add { key: key_spec(prefix, "entities"@, "all"@), member: entity_id },
        Command::Add { key: key_spec(prefix, "index"@, entity_type), member: entity_id },
        Command::Add { key: key_spec(prefix, "file_index"@, file), member: entity_id },
    ]
}

/// A store on a Redis server, bound to the prefix of one project.
#[derive(Debug)]
pub struct RedisVectorStore {
    redis_url: String,
    key_prefix: String,
}

impl RedisVectorStore {
    /// The address of the server.
    pub closed spec fn url(&self) -> Seq<char> {
        self.redis_url@
    }

    /// The prefix of the project.
    pub closed spec fn prefix(&self) -> Seq<char> {
        self.key_prefix@
    }

    /// A store for the project with this prefix on the server at this address.
    pub fn new(redis_url: &str, key_prefix: &str) -> (store: RedisVectorStore)
        ensures
            store.url() == redis_url@,
            store.prefix() == key_prefix@,
    {
        RedisVectorStore { redis_url: owned(redis_url), key_prefix: owned(key_prefix) }
    }

    /// The address of the server.
    pub fn redis_url(&self) -> (r: &str)
        ensures
            r@ == self.url(),
    {
        self.redis_url.as_str()
    }

    /// The prefix of the project.
    pub fn key_prefix(&self) -> (r: &str)
        ensures
            r@ == self.prefix(),
    {
        self.key_prefix.as_str()
    }

    /// The key of the project for a component and a discriminator.
    pub fn make_key(&self, component: &str, discriminator: &str) -> (key: String)
        ensures
            key@ == key_spec(self.prefix(), component@, discriminator@),
    {
        let mut key = join(self.key_prefix.as_str(), ":");
        key.append(component);
        key.append(":");
        key.append(discriminator);
        key
    }

    /// The key of the vector of an entity.
    pub fn vector_key(&self, entity_id: &str) -> (key: String)
        ensures
            key@ == key_spec(self.prefix(), "vector"@, entity_id@),
    {
        self.make_key("vector", entity_id)
    }

    /// The key of the metadata of an entity.
    pub fn metadata_key(&self, entity_id: &str) -> (key: String)
        ensures
            key@ == key_spec(self.prefix(), "metadata"@, entity_id@),
    {
        self.make_key("metadata", entity_id)
    }

    /// The key of the set of all entity ids of the project.
    pub fn entities_key(&self) -> (key: String)
        ensures
            key@ == key_spec(self.prefix(), "entities"@, "all"@),
    {
        self.make_key("entities", "all")
    }

    /// The key of the set of the entity ids of one entity type.
    pub fn type_index_key(&self, entity_type: &str) -> (key: String)
        ensures
            key@ == key_spec(self.prefix(), "index"@, entity_type@),
    {
        self.make_key("index", entity_type)
    }

    /// The key of the set of the entity ids of one file.
    pub fn file_index_key(&self, file: &str) -> (key: String)
        ensures
            key@ == key_spec(self.prefix(), "file_index"@, file@),
    {
        self.make_key("file_index", file)
    }

    /// The commands that write the embedding of an entity, to be run together.
    ///
    /// `vector_json` is the vector as the caller encoded it and `dimension` its
    /// length. An empty vector is rejected. A missing file or entity type is
    /// written as `unknown`.
    pub fn upsert_embedding(
        &self,
        entity_id: &str,
        vector_json: &str,
        dimension: usize,
        file: Option<&str>,
        entity_type: Option<&str>,
    ) -> (r: Result<Vec<RedisCommand>, StoreError>)
        ensures
            dimension == 0 ==> r == Err::<Vec<RedisCommand>, StoreError>(StoreError::InvalidInput),
            dimension > 0 ==> match metadata_json_spec(
                entity_id@,
                label_spec(text_of(entity_type)),
                label_spec(text_of(file)),
                dimension as nat,
            ) {
                Some(document) => r is Ok && commands(r->Ok_0@) == upsert_commands_spec(
                    self.prefix(),
                    entity_id@,
                    vector_json@,
                    document,
                    label_spec(text_of(entity_type)),
                    label_spec(text_of(file)),
                ),
                None => r is Err && r->Err_0 is Backend,
            },
    {
        if dimension == 0 {
            return Err(StoreError::InvalidInput);
        }
        let type_label = label(entity_type);
        let file_label = label(file);
        let document = match metadata_json(
            entity_id,
            type_label.as_str(),
            file_label.as_str(),
            dimension,
        ) {
            Ok(document) => document,
            Err(e) => {
                return Err(e);
            },
        };
        Ok(
            self.record_commands(
                entity_id,
                vector_json,
                document.as_str(),
                type_label.as_str(),
                file_label.as_str(),
            ),
        )
    }

    /// The commands that write one record, given its two documents and its labels.
    pub fn record_commands(
        &self,
        entity_id: &str,
        vector_json: &str,
        metadata_json: &str,
        entity_type: &str,
        file: &str,
    ) -> (list: Vec<RedisCommand>)
        ensures
            commands(list@) == upsert_commands_spec(
                self.prefix(),
                entity_id@,
                vector_json@,
                metadata_json@,
                entity_type@,
                file@,
            ),
    {
        let mut list: Vec<RedisCommand> = Vec::new();
        list.push(RedisCommand::Bind { key: self.vector_key(entity_id), value: owned(vector_json) });
        list.push(
            RedisCommand::Bind { key: self.metadata_key(entity_id), value: owned(metadata_json) },
        );
        list.push(RedisCommand::Add { key: self.entities_key(), member: owned(entity_id) });
        list.push(
            RedisCommand::Add { key: self.type_index_key(entity_type), member: owned(entity_id) },
        );
        list.push(RedisCommand::Add { key: self.file_index_key(file), member: owned(entity_id) });
        assert(commands(list@) =~= upsert_commands_spec(
            self.prefix(),
            entity_id@,
            vector_json@,
            metadata_json@,
            entity_type@,
            file@,
        ));
        list
    }

    /// The commands that write a vector under an entity type, with no file named.
    pub fn upsert(&self, entity_type: &str, key: &str, vector_json: &str, dimension: usize) -> (r:
        Result<Vec<RedisCommand>, StoreError>)
        ensures
            dimension == 0 ==> r == Err::<Vec<RedisCommand>, StoreError>(StoreError::InvalidInput),
            dimension > 0 ==> match metadata_json_spec(
                key@,
                entity_type@,
                "unknown"@,
                dimension as nat,
            ) {
                Some(document) => r is Ok && commands(r->Ok_0@) == upsert_commands_spec(
                    self.prefix(),
                    key@,
                    vector_json@,
                    document,
                    entity_type@,
                    "unknown"@,
                ),
                None => r is Err && r->Err_0 is Backend,
            },
    {
        self.upsert_embedding(key, vector_json, dimension, Some("unknown"), Some(entity_type))
    }
}

/// No character of the text is a colon.
pub open spec fn colon_free(text: Seq<char>) -> bool {
    forall|i: int| 0 <= i < text.len() ==> text[i] != ':'
}

proof fn lemma_colon_literal()
    ensures
        ":"@.len() == 1,
        ":"@[0] == ':',
{
    reveal_strlit(":");
}

/// The keys of two projects are different keys, whatever their components and
/// discriminators, where the prefixes of the projects are a common head followed
/// by two different names that hold no colon. The head may hold colons: the
/// prefixes that the commands make are `code_index:` and the name of the project.
pub proof fn lemma_keys_of_projects_differ(
    head: Seq<char>,
    a: Seq<char>,
    b: Seq<char>,
    component_a: Seq<char>,
    discriminator_a: Seq<char>,
    component_b: Seq<char>,
    discriminator_b: Seq<char>,
)
    requires
        a != b,
        colon_free(a),
        colon_free(b),
    ensures
        key_spec(head + a, component_a, discriminator_a) != key_spec(
            head + b,
            component_b,
            discriminator_b,
        ),
{
    lemma_colon_literal();
    let ka = key_spec(head + a, component_a, discriminator_a);
    let kb = key_spec(head + b, component_b, discriminator_b);
    let h = head.len() as int;
    if ka == kb {
        assert(ka[h + a.len()] == ':');
        assert(kb[h + b.len()] == ':');
        if a.len() < b.len() {
            assert(kb[h + a.len()] == b[a.len() as int]);
        } else if b.len() < a.len() {
            assert(ka[h + b.len()] == a[b.len() as int]);
        } else {
            assert forall|i: int| 0 <= i < a.len() implies a[i] == b[i] by {
                assert(ka[h + i] == a[i]);
                assert(kb[h + i] == b[i]);
            }
            assert(a =~= b);
        }
    }
}

/// Two projects with different names that hold no colon share no key: the
/// prefixes that their commands work under keep their records apart.
pub proof fn lemma_project_keys_differ(
    name_a: Seq<char>,
    name_b: Seq<char>,
    component_a: Seq<char>,
    discriminator_a: Seq<char>,
    component_b: Seq<char>,
    discriminator_b: Seq<char>,
)
    requires
        name_a != name_b,
        colon_free(name_a),
        colon_free(name_b),
    ensures
        key_spec("code_index:"@ + name_a, component_a, discriminator_a) != key_spec(
            "code_index:"@ + name_b,
            component_b,
            discriminator_b,
        ),
{
    lemma_keys_of_projects_differ(
        "code_index:"@,
        name_a,
        name_b,
        component_a,
        discriminator_a,
        component_b,
        discriminator_b,
    );
}

/// Under one prefix, keys with components that hold no colon are the same key
/// only if component and discriminator are the same.
pub proof fn lemma_keys_of_a_project_differ(
    prefix: Seq<char>,
    component_a: Seq<char>,
    discriminator_a: Seq<char>,
    component_b: Seq<char>,
    discriminator_b: Seq<char>,
)
    requires
        colon_free(component_a),
        colon_free(component_b),
        key_spec(prefix, component_a, discriminator_a) == key_spec(
            prefix,
            component_b,
            discriminator_b,
        ),
    ensures
        component_a == component_b,
        discriminator_a == discriminator_b,
{
    lemma_colon_literal();
    let ka = key_spec(prefix, component_a, discriminator_a);
    let kb = key_spec(prefix, component_b, discriminator_b);
    let start: int = prefix.len() as int + 1;
    assert(ka[start + component_a.len()] == ':');
    assert(kb[start + component_b.len()] == ':');
    if component_a.len() < component_b.len() {
        assert(kb[start + component_a.len()] == component_b[component_a.len() as int]);
    } else if component_b.len() < component_a.len() {
        assert(ka[start + component_b.len()] == component_a[component_b.len() as int]);
    } else {
        assert forall|i: int| 0 <= i < component_a.len() implies component_a[i]
            == component_b[i] by {
            assert(ka[start + i] == component_a[i]);
            assert(kb[start + i] == component_b[i]);
        }
        assert(component_a =~= component_b);
        let rest: int = start + component_a.len() + 1;
        assert(ka.len() == rest + discriminator_a.len());
        assert(kb.len() == rest + discriminator_b.len());
        assert forall|i: int| 0 <= i < discriminator_a.len() implies discriminator_a[i]
            == discriminator_b[i] by {
            assert(ka[rest + i] == discriminator_a[i]);
            assert(kb[rest + i] == discriminator_b[i]);
        }
        assert(discriminator_a =~= discriminator_b);
    }
}

} // verus!
