//! A line-by-line scan of a source text for the functions and classes that its
//! lines declare. It reads Rust and Python alike and parses neither.

use crate::text::{contains, join, occurs_in, owned, to_chars, trim, trimmed};
use vstd::prelude::*;
use vstd::string::*;

verus! {

/// An entity that the scan found: its id, the text to embed, and its entity type.
pub type Found = (Seq<char>, Seq<char>, Seq<char>);

/// The position of the first line feed at or after `pos`, or the length of the
/// text where there is none.
pub open spec fn line_end(text: Seq<char>, pos: int) -> int
    decreases text.len() - pos,
{
    if pos < 0 || pos >= text.len() {
        text.len() as int
    } else if text[pos] == '\n' {
        pos
    } else {
        line_end(text, pos + 1)
    }
}

/// Where the line that starts at `pos` stops: before its line feed, and before the
/// carriage return in front of that line feed, if there is one.
pub open spec fn line_stop(text: Seq<char>, pos: int) -> int {
    let end = line_end(text, pos);
    if end < text.len() && end > pos && text[end - 1] == '\r' {
        end - 1
    } else {
        end
    }
}

/// The position of the first space or `delimiter` at or after `from`, or the
/// length of the line where there is none.
pub open spec fn next_delimiter(line: Seq<char>, delimiter: char, from: int) -> int
    decreases line.len() - from,
{
    if from < 0 || from >= line.len() {
        line.len() as int
    } else if line[from] == delimiter || line[from] == ' ' {
        from
    } else {
        next_delimiter(line, delimiter, from + 1)
    }
}

/// The second of the parts that spaces and `delimiter` split the line into, or
/// `None` where the line holds neither.
pub open spec fn second_part(line: Seq<char>, delimiter: char) -> Option<Seq<char>> {
    let first = next_delimiter(line, delimiter, 0);
    if first >= line.len() {
        None
    } else {
        Some(line.subrange(first + 1, next_delimiter(line, delimiter, first + 1)))
    }
}

/// The entity of a name: the id is made of the keyword, the file name and the
/// name; the text to embed of the keyword and the name.
pub open spec fn named(
    keyword: Seq<char>,
    entity_type: Seq<char>,
    file_name: Seq<char>,
    name: Seq<char>,
) -> Found {
    (keyword + ":"@ + file_name + ":"@ + name, keyword + " "@ + name, entity_type)
}

/// The entity that the second part of a line names, if the part is there and is
/// more than whitespace.
pub open spec fn part_entity(
    part: Option<Seq<char>>,
    keyword: Seq<char>,
    entity_type: Seq<char>,
    file_name: Seq<char>,
) -> Seq<Found> {
    match part {
        None => Seq::empty(),
        Some(p) => if trimmed(p).len() == 0 {
            Seq::empty()
        } else {
            seq![named(keyword, entity_type, file_name, trimmed(p))]
        },
    }
}

/// The entity that a line declares, if any. A line that holds `fn ` or `def `
/// declares a function, named by what stands between the first and the second
/// space or opening bracket. Any other line that holds `class ` declares a class,
/// named by what stands between the first and the second space or colon.
pub open spec fn line_entities(line: Seq<char>, file_name: Seq<char>) -> Seq<Found> {
    if occurs_in("fn "@, line) || occurs_in("def "@, line) {
        part_entity(second_part(line, '('), "fn"@, "function"@, file_name)
    } else if occurs_in("class "@, line) {
        part_entity(second_part(line, ':'), "class"@, "class"@, file_name)
    } else {
        Seq::empty()
    }
}

/// The entities of the lines of the text from position `pos` on.
pub open spec fn entities_from(text: Seq<char>, file_name: Seq<char>, pos: int) -> Seq<Found>
    decreases text.len() - pos,
{
    if pos < 0 || pos >= text.len() {
        Seq::empty()
    } else {
        let end = line_end(text, pos);
        let line = text.subrange(pos, line_stop(text, pos));
        if end < pos || end >= text.len() {
            line_entities(line, file_name)
        } else {
            line_entities(line, file_name) + entities_from(text, file_name, end + 1)
        }
    }
}

/// The entities of a list as plain values.
pub open spec fn found(list: Seq<(String, String, String)>) -> Seq<Found> {
    Seq::new(list.len(), |i: int| (list[i].0@, list[i].1@, list[i].2@))
}

proof fn lemma_line_end_bounds(text: Seq<char>, pos: int)
    requires
        0 <= pos <= text.len(),
    ensures
        pos <= line_end(text, pos) <= text.len(),
        line_end(text, pos) < text.len() ==> text[line_end(text, pos)] == '\n',
    decreases text.len() - pos,
{
    if pos < text.len() && text[pos] != '\n' {
        lemma_line_end_bounds(text, pos + 1);
    }
}

fn find_line_end(chars: &Vec<char>, pos: usize) -> (end: usize)
    requires
        pos <= chars@.len(),
    ensures
        end == line_end(chars@, pos as int),
        pos <= end <= chars@.len(),
{
    let mut end = pos;
    while end < chars.len() && chars[end] != '\n'
        invariant
            pos <= end <= chars@.len(),
            line_end(chars@, pos as int) == line_end(chars@, end as int),
        decreases chars@.len() - end,
    {
        end = end + 1;
    }
    end
}

fn find_delimiter(line: &Vec<char>, delimiter: char, from: usize) -> (at: usize)
    requires
        from <= line@.len(),
    ensures
        at == next_delimiter(line@, delimiter, from as int),
        from <= at <= line@.len(),
{
    let mut at = from;
    while at < line.len() && line[at] != delimiter && line[at] != ' '
        invariant
            from <= at <= line@.len(),
            next_delimiter(line@, delimiter, from as int) == next_delimiter(
                line@,
                delimiter,
                at as int,
            ),
        decreases line@.len() - at,
    {
        at = at + 1;
    }
    at
}

/// The second of the parts that spaces and `delimiter` split the line into.
pub fn second_of(line: &str, delimiter: char) -> (part: Option<&str>)
    ensures
        match part {
            Some(p) => second_part(line@, delimiter) == Some(p@),
            None => second_part(line@, delimiter) is None,
        },
{
    let chars = to_chars(line);
    let first = find_delimiter(&chars, delimiter, 0);
    if first >= chars.len() {
        return None;
    }
    let second = find_delimiter(&chars, delimiter, first + 1);
    Some(line.substring_char(first + 1, second))
}

fn push_named(
    part: Option<&str>,
    keyword: &str,
    entity_type: &str,
    file_name: &str,
    list: &mut Vec<(String, String, String)>,
)
    ensures
        found(final(list)@) == found(old(list)@) + part_entity(
            match part {
                Some(p) => Some(p@),
                None => None,
            },
            keyword@,
            entity_type@,
            file_name@,
        ),
{
    let ghost before = found(list@);
    match part {
        Some(p) => {
            let name = trim(p);
            if !name.is_empty() {
                let mut id = join(keyword, ":");
                id.append(file_name);
                id.append(":");
                id.append(name);
                let mut text = join(keyword, " ");
                text.append(name);
                list.push((id, text, owned(entity_type)));
                assert(found(list@) =~= before.push(
                    named(keyword@, entity_type@, file_name@, name@),
                ));
            }
        },
        None => {},
    }
    assert(found(list@) =~= before + part_entity(
        match part {
            Some(p) => Some(p@),
            None => None,
        },
        keyword@,
        entity_type@,
        file_name@,
    ));
}

/// Appends the entity that a line declares, if any.
pub fn scan_line(line: &str, file_name: &str, list: &mut Vec<(String, String, String)>)
    ensures
        found(final(list)@) == found(old(list)@) + line_entities(line@, file_name@),
{
    let ghost before = found(list@);
    if contains(line, "fn ") || contains(line, "def ") {
        push_named(second_of(line, '('), "fn", "function", file_name, list);
    } else if contains(line, "class ") {
        push_named(second_of(line, ':'), "class", "class", file_name, list);
    } else {
        assert(found(list@) =~= before + line_entities(line@, file_name@));
    }
}

/// Scans the lines of a source text for the functions and classes that they
/// declare. `file_name` is the name of the file that the text stands in; it goes
/// into the ids. The scan never fails.
pub fn extract_entities(content: &str, file_name: &str) -> (r: Result<
    Vec<(String, String, String)>,
    String,
>)
    ensures
        r is Ok,
        found(r->Ok_0@) == entities_from(content@, file_name@, 0),
{
    let chars = to_chars(content);
    let mut list: Vec<(String, String, String)> = Vec::new();
    let mut pos: usize = 0;
    assert(found(list@) + entities_from(content@, file_name@, 0) =~= entities_from(
        content@,
        file_name@,
        0,
    ));
    while pos < chars.len()
        invariant
            pos <= chars@.len(),
            chars@ == content@,
            found(list@) + entities_from(content@, file_name@, pos as int) == entities_from(
                content@,
                file_name@,
                0,
            ),
        decreases chars@.len() - pos,
    {
        let ghost before = found(list@);
        let end = find_line_end(&chars, pos);
        let stop = if end < chars.len() && end > pos && chars[end - 1] == '\r' {
            end - 1
        } else {
            end
        };
        let line = content.substring_char(pos, stop);
        scan_line(line, file_name, &mut list);
        proof {
            assert(found(list@) =~= before + line_entities(line@, file_name@));
            assert(entities_from(content@, file_name@, end + 1) =~= if end < chars@.len() {
                entities_from(content@, file_name@, end + 1)
            } else {
                Seq::<Found>::empty()
            });
            assert(entities_from(content@, file_name@, pos as int) =~= line_entities(
                line@,
                file_name@,
            ) + entities_from(content@, file_name@, end + 1));
        }
        if end < chars.len() {
            pos = end + 1;
        } else {
            pos = end;
        }
    }
    proof {
        assert(entities_from(content@, file_name@, pos as int) =~= Seq::<Found>::empty());
        assert(found(list@) =~= entities_from(content@, file_name@, 0));
    }
    Ok(list)
}

} // verus!
