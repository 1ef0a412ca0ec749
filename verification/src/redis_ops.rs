//! The classic index of files and entities on a Redis server: its keys, its
//! documents, and the commands that write and clear it. The caller runs the
//! commands.

use crate::ast_parser::CodeEntity;
use crate::json::{json_object_text, members_map, write_document, Field, Member};
use crate::redis_store::{commands, Command, RedisCommand};
use crate::text::{join, owned, to_chars};
use crate::vector_store::StoreError;
use vstd::prelude::*;
use vstd::string::*;

verus! {

/// The key of the content of a file.
pub open spec fn file_key_spec(prefix: Seq<char>, rel_path: Seq<char>) -> Seq<char> {
    prefix + ":files:"@ + rel_path
}

/// The key of the set of all indexed files.
pub open spec fn file_index_key_spec(prefix: Seq<char>) -> Seq<char> {
    prefix + ":file_index"@
}

/// The key of the hash of all entities of one type.
pub open spec fn type_key_spec(prefix: Seq<char>, entity_type: Seq<char>) -> Seq<char> {
    prefix + ":"@ + entity_type + "s"@
}

/// The key of the set of the entities of one type and name.
pub open spec fn search_key_spec(prefix: Seq<char>, entity_type: Seq<char>, name: Seq<char>) -> Seq<
    char,
> {
    prefix + ":search_index:"@ + entity_type + ":"@ + name
}

/// The key of the set of the entities of one file.
pub open spec fn file_entities_key_spec(prefix: Seq<char>, rel_path: Seq<char>) -> Seq<char> {
    prefix + ":file_entities:"@ + rel_path
}

/// How an entity is entered in the set of its file: its type and its id.
pub open spec fn member_spec(entity_type: Seq<char>, entity_id: Seq<char>) -> Seq<char> {
    entity_type + ":"@ + entity_id
}

/// The key of the content of a file.
pub fn file_key(key_prefix: &str, rel_path: &str) -> (key: String)
    ensures
        key@ == file_key_spec(key_prefix@, rel_path@),
{
    let mut key = join(key_prefix, ":files:");
    key.append(rel_path);
    key
}

/// The key of the set of all indexed files.
pub fn file_index_key(key_prefix: &str) -> (key: String)
    ensures
        key@ == file_index_key_spec(key_prefix@),
{
    join(key_prefix, ":file_index")
}

/// The key of the hash of all entities of one type.
pub fn type_key(key_prefix: &str, entity_type: &str) -> (key: String)
    ensures
        key@ == type_key_spec(key_prefix@, entity_type@),
{
    let mut key = join(key_prefix, ":");
    key.append(entity_type);
    key.append("s");
    key
}

/// The key of the set of the entities of one type and name.
pub fn search_key(key_prefix: &str, entity_type: &str, name: &str) -> (key: String)
    ensures
        key@ == search_key_spec(key_prefix@, entity_type@, name@),
{
    let mut key = join(key_prefix, ":search_index:");
    key.append(entity_type);
    key.append(":");
    key.append(name);
    key
}

/// The key of the set of the entities of one file.
pub fn file_entities_key(key_prefix: &str, rel_path: &str) -> (key: String)
    ensures
        key@ == file_entities_key_spec(key_prefix@, rel_path@),
{
    let mut key = join(key_prefix, ":file_entities:");
    key.append(rel_path);
    key
}

/// How an entity is entered in the set of its file.
pub fn member(entity_type: &str, entity_id: &str) -> (r: String)
    ensures
        r@ == member_spec(entity_type@, entity_id@),
{
    let mut r = join(entity_type, ":");
    r.append(entity_id);
    r
}

/// The position of the first colon at or after `from`, or the length of the text
/// where there is none.
pub open spec fn next_colon(text: Seq<char>, from: int) -> int
    decreases text.len() - from,
{
    if from < 0 || from >= text.len() {
        text.len() as int
    } else if text[from] == ':' {
        from
    } else {
        next_colon(text, from + 1)
    }
}

/// The position behind the last colon of the first `n` characters, or zero where
/// they hold none.
pub open spec fn after_last_colon(text: Seq<char>, n: int) -> int
    decreases n,
{
    if n <= 0 || n > text.len() {
        0
    } else if text[n - 1] == ':' {
        n
    } else {
        after_last_colon(text, n - 1)
    }
}

/// The entity type of a member: what stands before its first colon.
pub open spec fn member_type(member: Seq<char>) -> Seq<char> {
    member.subrange(0, next_colon(member, 0))
}

/// The entity id of a member: what stands behind its first colon; nothing where
/// it holds no colon.
pub open spec fn member_id(member: Seq<char>) -> Seq<char> {
    if next_colon(member, 0) < member.len() {
        member.subrange(next_colon(member, 0) + 1, member.len() as int)
    } else {
        Seq::empty()
    }
}

/// What stands behind the last colon of a text; all of it where it holds none.
pub open spec fn last_segment_spec(text: Seq<char>) -> Seq<char> {
    text.subrange(after_last_colon(text, text.len() as int), text.len() as int)
}

/// Splits a member of a file's set into entity type and entity id.
pub fn split_member(member: &str) -> (r: (&str, &str))
    ensures
        r.0@ == member_type(member@),
        r.1@ == member_id(member@),
{
    let chars = to_chars(member);
    let mut at: usize = 0;
    while at < chars.len() && chars[at] != ':'
        invariant
            at <= chars@.len(),
            next_colon(chars@, 0) == next_colon(chars@, at as int),
        decreases chars@.len() - at,
    {
        at = at + 1;
    }
    let entity_type = member.substring_char(0, at);
    if at < chars.len() {
        (entity_type, member.substring_char(at + 1, chars.len()))
    } else {
        let nothing = member.substring_char(at, at);
        assert(nothing@ =~= Seq::<char>::empty());
        (entity_type, nothing)
    }
}

/// What stands behind the last colon of a text.
pub fn last_segment(text: &str) -> (r: &str)
    ensures
        r@ == last_segment_spec(text@),
{
    let chars = to_chars(text);
    let mut start: usize = chars.len();
    while start > 0 && chars[start - 1] != ':'
        invariant
            start <= chars@.len(),
            after_last_colon(chars@, chars@.len() as int) == after_last_colon(
                chars@,
                start as int,
            ),
        decreases start,
    {
        start = start - 1;
    }
    text.substring_char(start, chars.len())
}

/// The members of the document of a file.
pub open spec fn file_members(
    rel_path: Seq<char>,
    content: Seq<char>,
    size: nat,
    last_modified: int,
) -> Map<Seq<char>, Field> {
    Map::<Seq<char>, Field>::empty().insert("path"@, Field::Text(rel_path)).insert(
        "content"@,
        Field::Text(content),
    ).insert("size"@, Field::Number(size as int)).insert(
        "last_modified"@,
        Field::Number(last_modified),
    )
}

/// The document of a file: the JSON object of its members, or `None` where the
/// encoder fails.
pub open spec fn file_document_spec(
    rel_path: Seq<char>,
    content: Seq<char>,
    size: nat,
    last_modified: int,
) -> Option<Seq<char>> {
    json_object_text(file_members(rel_path, content, size, last_modified))
}

/// The members of the document of a file, in the order in which they are entered.
pub fn file_fields(rel_path: &str, content: &str, size: usize, last_modified: i64) -> (list: Vec<
    Member,
>)
    ensures
        members_map(list@, list@.len()) == file_members(
            rel_path@,
            content@,
            size as nat,
            last_modified as int,
        ),
{
    let mut list: Vec<Member> = Vec::new();
    list.push(Member::Text { name: owned("path"), text: owned(rel_path) });
    list.push(Member::Text { name: owned("content"), text: owned(content) });
    list.push(Member::Count { name: owned("size"), number: size as u64 });
    list.push(Member::Integer { name: owned("last_modified"), number: last_modified });
    proof {
        reveal_with_fuel(members_map, 5);
    }
    list
}

/// The commands that store the content of a file, given its document.
pub fn file_commands(key_prefix: &str, rel_path: &str, document: &str) -> (list: Vec<RedisCommand>)
    ensures
        commands(list@) == store_file_spec(key_prefix@, rel_path@, document@),
{
    let mut list: Vec<RedisCommand> = Vec::new();
    list.push(RedisCommand::Bind { key: file_key(key_prefix, rel_path), value: owned(document) });
    list.push(RedisCommand::Add { key: file_index_key(key_prefix), member: owned(rel_path) });
    assert(commands(list@) =~= store_file_spec(key_prefix@, rel_path@, document@));
    list
}

/// The commands that store the content of a file and enter it in the set of all
/// files.
pub open spec fn store_file_spec(prefix: Seq<char>, rel_path: Seq<char>, document: Seq<char>) -> Seq<
    Command,
> {
    seq![
        Command::Bind { key: file_key_spec(prefix, rel_path), value: document },
        Command::Add { key: file_index_key_spec(prefix), member: rel_path },
    ]
}

/// The commands that store the content of a file.
pub fn store_file_content(
    key_prefix: &str,
    rel_path: &str,
    content: &str,
    size: usize,
    last_modified: i64,
) -> (r: Result<Vec<RedisCommand>, StoreError>)
    ensures
        match file_document_spec(rel_path@, content@, size as nat, last_modified as int) {
            Some(document) => r is Ok && commands(r->Ok_0@) == store_file_spec(
                key_prefix@,
                rel_path@,
                document,
            ),
            None => r is Err && r->Err_0 is Backend,
        },
{
    let fields = file_fields(rel_path, content, size, last_modified);
    match write_document(&fields) {
        Ok(document) => Ok(file_commands(key_prefix, rel_path, document.as_str())),
        Err(e) => Err(e),
    }
}

/// The commands that store one entity, given its document: the entity under its
/// name in the hash of its type, and its name in the sets by which it is found.
pub open spec fn store_entity_spec(
    prefix: Seq<char>,
    entity_type: Seq<char>,
    name: Seq<char>,
    file_path: Seq<char>,
    document: Seq<char>,
) -> Seq<Command> {
    seq![
        Command::Put { key: type_key_spec(prefix, entity_type), field: name, value: document },
        Command::Add { key: search_key_spec(prefix, entity_type, name), member: name },
        Command::Add {
            key: file_entities_key_spec(prefix, file_path),
            member: member_spec(entity_type, name),
        },
    ]
}

/// The commands that store one entity, given its document.
pub fn store_code_entity(key_prefix: &str, entity: &CodeEntity, document: &str) -> (list: Vec<
    RedisCommand,
>)
    ensures
        commands(list@) == store_entity_spec(
            key_prefix@,
            entity.entity_type@,
            entity.name@,
            entity.file_path@,
            document@,
        ),
{
    let mut list: Vec<RedisCommand> = Vec::new();
    let entity_type = entity.entity_type.as_str();
    let name = entity.name.as_str();
    list.push(
        RedisCommand::Put {
            key: type_key(key_prefix, entity_type),
            field: owned(name),
            value: owned(document),
        },
    );
    list.push(
        RedisCommand::Add { key: search_key(key_prefix, entity_type, name), member: owned(name) },
    );
    list.push(
        RedisCommand::Add {
            key: file_entities_key(key_prefix, entity.file_path.as_str()),
            member: member(entity_type, name),
        },
    );
    assert(commands(list@) =~= store_entity_spec(
        key_prefix@,
        entity.entity_type@,
        entity.name@,
        entity.file_path@,
        document@,
    ));
    list
}

/// The document of the entity at `i`; nothing where the list of documents is too
/// short.
pub open spec fn document_at(documents: Seq<String>, i: int) -> Seq<char> {
    if 0 <= i < documents.len() {
        documents[i]@
    } else {
        Seq::empty()
    }
}

/// The commands that store the first `n` entities, each with its document.
pub open spec fn store_entities_spec(
    prefix: Seq<char>,
    entities: Seq<CodeEntity>,
    documents: Seq<String>,
    n: nat,
) -> Seq<Command>
    decreases n,
{
    if n == 0 || n > entities.len() {
        Seq::empty()
    } else {
        store_entities_spec(prefix, entities, documents, (n - 1) as nat) + store_entity_spec(
            prefix,
            entities[n - 1].entity_type@,
            entities[n - 1].name@,
            entities[n - 1].file_path@,
            document_at(documents, n - 1),
        )
    }
}

/// The commands that store the entities, given the document of each in turn.
pub fn store_code_entities(key_prefix: &str, entities: &[CodeEntity], documents: &Vec<String>) -> (list:
    Vec<RedisCommand>)
    ensures
        commands(list@) == store_entities_spec(
            key_prefix@,
            entities@,
            documents@,
            entities@.len(),
        ),
{
    let mut list: Vec<RedisCommand> = Vec::new();
    let mut i: usize = 0;
    assert(commands(list@) =~= store_entities_spec(key_prefix@, entities@, documents@, 0));
    while i < entities.len()
        invariant
            i <= entities@.len(),
            commands(list@) == store_entities_spec(key_prefix@, entities@, documents@, i as nat),
        decreases entities@.len() - i,
    {
        let ghost before = commands(list@);
        let ghost stored = list@;
        let mut more = if i < documents.len() {
            store_code_entity(key_prefix, &entities[i], documents[i].as_str())
        } else {
            let nothing = "";
            proof {
                reveal_strlit("");
                assert(nothing@ =~= Seq::<char>::empty());
            }
            store_code_entity(key_prefix, &entities[i], nothing)
        };
        let ghost added = more@;
        list.append(&mut more);
        proof {
            assert(list@ =~= stored + added);
            assert(commands(list@) =~= before + commands(added));
        }
        i = i + 1;
    }
    list
}

/// The commands that remove one member of a file's set from the hash of its type
/// and from the set by which it is found.
pub open spec fn clear_member_spec(prefix: Seq<char>, member: Seq<char>) -> Seq<Command> {
    seq![
        Command::Drop { key: type_key_spec(prefix, member_type(member)), field: member_id(member) },
        Command::Discard {
            key: search_key_spec(
                prefix,
                member_type(member),
                last_segment_spec(member_id(member)),
            ),
            member: member_id(member),
        },
    ]
}

/// The commands that remove the first `n` members.
pub open spec fn clear_members_spec(prefix: Seq<char>, members: Seq<String>, n: nat) -> Seq<Command>
    decreases n,
{
    if n == 0 || n > members.len() {
        Seq::empty()
    } else {
        clear_members_spec(prefix, members, (n - 1) as nat) + clear_member_spec(
            prefix,
            members[n - 1]@,
        )
    }
}

/// The commands that remove a file itself: the set of its entities, its content,
/// and its entry in the set of all files.
pub open spec fn clear_file_spec(prefix: Seq<char>, rel_path: Seq<char>) -> Seq<Command> {
    seq![
        Command::Delete { key: file_entities_key_spec(prefix, rel_path) },
        Command::Delete { key: file_key_spec(prefix, rel_path) },
        Command::Discard { key: file_index_key_spec(prefix), member: rel_path },
    ]
}

/// The commands that clear a file from the index, given the members of the set of
/// its entities: each entity is removed, then the file itself.
pub fn clear_file_data(key_prefix: &str, rel_path: &str, members: &Vec<String>) -> (list: Vec<
    RedisCommand,
>)
    ensures
        commands(list@) == clear_members_spec(key_prefix@, members@, members@.len())
            + clear_file_spec(key_prefix@, rel_path@),
{
    let mut list: Vec<RedisCommand> = Vec::new();
    let mut i: usize = 0;
    assert(commands(list@) =~= clear_members_spec(key_prefix@, members@, 0));
    while i < members.len()
        invariant
            i <= members@.len(),
            commands(list@) == clear_members_spec(key_prefix@, members@, i as nat),
        decreases members@.len() - i,
    {
        let ghost before = commands(list@);
        let (entity_type, id_part) = split_member(members[i].as_str());
        let name = last_segment(id_part);
        list.push(
            RedisCommand::Drop { key: type_key(key_prefix, entity_type), field: owned(id_part) },
        );
        list.push(
            RedisCommand::Discard {
                key: search_key(key_prefix, entity_type, name),
                member: owned(id_part),
            },
        );
        assert(commands(list@) =~= before + clear_member_spec(key_prefix@, members@[i as int]@));
        i = i + 1;
    }
    let ghost cleared = commands(list@);
    list.push(RedisCommand::Delete { key: file_entities_key(key_prefix, rel_path) });
    list.push(RedisCommand::Delete { key: file_key(key_prefix, rel_path) });
    list.push(RedisCommand::Discard { key: file_index_key(key_prefix), member: owned(rel_path) });
    assert(commands(list@) =~= cleared + clear_file_spec(key_prefix@, rel_path@));
    list
}

} // verus!
