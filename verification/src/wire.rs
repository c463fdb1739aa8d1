//! How the values of the protocol stand in JSON: texts, numbers, lists of
//! them, optional identifiers, and tables from a name to a list of names.

use crate::json::{
    items_view, lemma_view_array, lemma_view_object, members_view, Json, JsonView,
};
use vstd::prelude::*;

verus! {

/// The text that a field holds, where it is there and is a string.
pub open spec fn as_text(field: Option<JsonView>) -> Option<Seq<char>> {
    match field {
        Some(JsonView::Str(text)) => Some(text),
        _ => None,
    }
}

/// The number that a field holds, where it is there and fits.
pub open spec fn as_number(field: Option<JsonView>) -> Option<usize> {
    match field {
        Some(JsonView::Number(n)) => if n <= usize::MAX {
            Some(n as usize)
        } else {
            None
        },
        _ => None,
    }
}

/// An optional identifier: a field that is missing or null holds none, a
/// number that fits is one, and anything else is a fault (`None`).
pub open spec fn as_id(field: Option<JsonView>) -> Option<Option<usize>> {
    match field {
        None => Some(None),
        Some(JsonView::Null) => Some(None),
        Some(other) => match as_number(Some(other)) {
            Some(n) => Some(Some(n)),
            None => None,
        },
    }
}

/// The texts that a field holds, where it is an array of strings.
pub open spec fn as_texts(field: Option<JsonView>) -> Option<Seq<Seq<char>>> {
    match field {
        Some(JsonView::Array(items)) => if forall|i: int|
            0 <= i < items.len() ==> as_text(Some(#[trigger] items[i])) is Some {
            Some(items.map_values(|item: JsonView| as_text(Some(item))->0))
        } else {
            None
        },
        _ => None,
    }
}

/// The numbers that a field holds, where it is an array of numbers that fit.
pub open spec fn as_numbers(field: Option<JsonView>) -> Option<Seq<usize>> {
    match field {
        Some(JsonView::Array(items)) => if forall|i: int|
            0 <= i < items.len() ==> as_number(Some(#[trigger] items[i])) is Some {
            Some(items.map_values(|item: JsonView| as_number(Some(item))->0))
        } else {
            None
        },
        _ => None,
    }
}

/// The table that a field holds, where it is an object whose members are
/// arrays of strings: each member's key with its texts, in the object's order.
pub open spec fn as_table(field: Option<JsonView>) -> Option<Seq<(Seq<char>, Seq<Seq<char>>)>> {
    match field {
        Some(JsonView::Object(members)) => if forall|i: int|
            0 <= i < members.len() ==> as_texts(Some((#[trigger] members[i]).1)) is Some {
            Some(
                members.map_values(
                    |member: (Seq<char>, JsonView)| (member.0, as_texts(Some(member.1))->0),
                ),
            )
        } else {
            None
        },
        _ => None,
    }
}

/// A text as JSON.
pub open spec fn text_json(text: Seq<char>) -> JsonView {
    JsonView::Str(text)
}

/// A number as JSON.
pub open spec fn number_json(n: usize) -> JsonView {
    JsonView::Number(n as nat)
}

/// An optional identifier as JSON: null where there is none.
pub open spec fn id_json(id: Option<usize>) -> JsonView {
    match id {
        Some(n) => number_json(n),
        None => JsonView::Null,
    }
}

/// A list of texts as JSON.
pub open spec fn texts_json(texts: Seq<Seq<char>>) -> JsonView {
    JsonView::Array(texts.map_values(|text: Seq<char>| text_json(text)))
}

/// A list of numbers as JSON.
pub open spec fn numbers_json(numbers: Seq<usize>) -> JsonView {
    JsonView::Array(numbers.map_values(|n: usize| number_json(n)))
}

/// A table as JSON: one member for each row, in the table's order.
pub open spec fn table_json(table: Seq<(Seq<char>, Seq<Seq<char>>)>) -> JsonView {
    JsonView::Object(
        table.map_values(|row: (Seq<char>, Seq<Seq<char>>)| (row.0, texts_json(row.1))),
    )
}

/// Whether no two rows of a table have the same name.
pub open spec fn distinct_rows(table: Seq<(Seq<char>, Seq<Seq<char>>)>) -> bool {
    forall|i: int, j: int| 0 <= i < j < table.len() ==> table[i].0 != table[j].0
}

/// A list of texts that was written reads back as it was.
pub proof fn lemma_texts_read_back(texts: Seq<Seq<char>>)
    ensures
        as_texts(Some(texts_json(texts))) == Some(texts),
{
    assert(as_texts(Some(texts_json(texts)))->0 =~= texts);
}

/// A list of numbers that was written reads back as it was.
pub proof fn lemma_numbers_read_back(numbers: Seq<usize>)
    ensures
        as_numbers(Some(numbers_json(numbers))) == Some(numbers),
{
    assert(as_numbers(Some(numbers_json(numbers)))->0 =~= numbers);
}

/// A table that was written reads back as it was.
pub proof fn lemma_table_read_back(table: Seq<(Seq<char>, Seq<Seq<char>>)>)
    ensures
        as_table(Some(table_json(table))) == Some(table),
{
    let members = table_json(table)->Object_0;
    assert forall|i: int| 0 <= i < members.len() implies as_texts(
        Some((#[trigger] members[i]).1),
    ) == Some(table[i].1) by {
        lemma_texts_read_back(table[i].1);
    }
    assert(as_table(Some(table_json(table)))->0 =~= table);
}

/// Texts, numbers, identifiers and lists of them have a text form once
/// written.
pub proof fn lemma_written_renderable(
    text: Seq<char>,
    n: usize,
    id: Option<usize>,
    texts: Seq<Seq<char>>,
    numbers: Seq<usize>,
)
    ensures
        text_json(text).renderable(),
        number_json(n).renderable(),
        id_json(id).renderable(),
        texts_json(texts).renderable(),
        numbers_json(numbers).renderable(),
{
    reveal_with_fuel(JsonView::renderable, 2);
}

/// A table that was written has a text form exactly where no two of its
/// rows have one name.
pub proof fn lemma_table_renderable(table: Seq<(Seq<char>, Seq<Seq<char>>)>)
    ensures
        table_json(table).renderable() <==> distinct_rows(table),
{
    let members = table_json(table)->Object_0;
    assert forall|i: int| 0 <= i < members.len() implies (#[trigger] members[i]).1.renderable() by {
        lemma_written_renderable(Seq::empty(), 0, None, table[i].1, Seq::empty());
    }
    if distinct_rows(table) {
        assert forall|i: int, j: int| 0 <= i < j < members.len() implies members[i].0
            != members[j].0 by {
            assert(members[i].0 == table[i].0 && members[j].0 == table[j].0);
        }
    }
    if table_json(table).renderable() {
        assert forall|i: int, j: int| 0 <= i < j < table.len() implies table[i].0
            != table[j].0 by {
            assert(members[i].0 == table[i].0 && members[j].0 == table[j].0);
        }
    }
}

/// Reads a text.
pub fn read_text(field: Option<&Json>) -> (text: Option<String>)
    ensures
        match text {
            Some(t) => as_text(view_of(field)) == Some(t@),
            None => as_text(view_of(field)) is None,
        },
{
    match field {
        Some(Json::Str(text)) => Some(text.clone()),
        _ => None,
    }
}

/// The value of a field that was looked up.
pub open spec fn view_of(field: Option<&Json>) -> Option<JsonView> {
    match field {
        Some(json) => Some(json@),
        None => None,
    }
}

/// Reads a number.
pub fn read_number(field: Option<&Json>) -> (n: Option<usize>)
    ensures
        n == as_number(view_of(field)),
{
    match field {
        Some(Json::Number(n)) => if *n <= usize::MAX as u64 {
            Some(*n as usize)
        } else {
            None
        },
        _ => None,
    }
}

/// Reads an optional identifier. The outer `None` is a fault.
pub fn read_id(field: Option<&Json>) -> (id: Option<Option<usize>>)
    ensures
        id == as_id(view_of(field)),
{
    match field {
        None => Some(None),
        Some(Json::Null) => Some(None),
        Some(other) => match read_number(Some(other)) {
            Some(n) => Some(Some(n)),
            None => None,
        },
    }
}

/// The values of a list of texts, as they lie in memory.
pub open spec fn texts_view(texts: Seq<String>) -> Seq<Seq<char>> {
    texts.map_values(|text: String| text@)
}

/// Reads a list of texts.
pub fn read_texts(field: Option<&Json>) -> (texts: Option<Vec<String>>)
    ensures
        match texts {
            Some(t) => as_texts(view_of(field)) == Some(texts_view(t@)),
            None => as_texts(view_of(field)) is None,
        },
{
    match field {
        Some(Json::Array(items)) => {
            proof {
                lemma_view_array(*items);
            }
            let mut out: Vec<String> = Vec::new();
            let mut i: usize = 0;
            while i < items.len()
                invariant
                    i <= items.len(),
                    out.len() == i,
                    view_of(field) == Some(JsonView::Array(items_view(items@))),
                    forall|k: int| 0 <= k < i ==> as_text(Some(items@[k]@)) == Some(out@[k]@),
                decreases items.len() - i,
            {
                match read_text(Some(&items[i])) {
                    Some(text) => out.push(text),
                    None => {
                        assert(items_view(items@)[i as int] == items@[i as int]@);
                        return None;
                    },
                }
                i += 1;
            }
            proof {
                let trees = items_view(items@);
                assert forall|k: int| 0 <= k < trees.len() implies as_text(
                    Some(#[trigger] trees[k]),
                ) is Some by {
                    assert(as_text(Some(items@[k]@)) == Some(out@[k]@));
                }
                assert(as_texts(Some(JsonView::Array(trees)))->0 =~= texts_view(out@));
            }
            Some(out)
        },
        _ => None,
    }
}

/// Reads a list of numbers.
pub fn read_numbers(field: Option<&Json>) -> (numbers: Option<Vec<usize>>)
    ensures
        match numbers {
            Some(n) => as_numbers(view_of(field)) == Some(n@),
            None => as_numbers(view_of(field)) is None,
        },
{
    match field {
        Some(Json::Array(items)) => {
            proof {
                lemma_view_array(*items);
            }
            let mut out: Vec<usize> = Vec::new();
            let mut i: usize = 0;
            while i < items.len()
                invariant
                    i <= items.len(),
                    out.len() == i,
                    view_of(field) == Some(JsonView::Array(items_view(items@))),
                    forall|k: int| 0 <= k < i ==> as_number(Some(items@[k]@)) == Some(out@[k]),
                decreases items.len() - i,
            {
                match read_number(Some(&items[i])) {
                    Some(n) => out.push(n),
                    None => {
                        assert(items_view(items@)[i as int] == items@[i as int]@);
                        return None;
                    },
                }
                i += 1;
            }
            proof {
                let trees = items_view(items@);
                assert forall|k: int| 0 <= k < trees.len() implies as_number(
                    Some(#[trigger] trees[k]),
                ) is Some by {
                    assert(as_number(Some(items@[k]@)) == Some(out@[k]));
                }
                assert(as_numbers(Some(JsonView::Array(trees)))->0 =~= out@);
            }
            Some(out)
        },
        _ => None,
    }
}

/// The value of a table, as it lies in memory.
pub open spec fn table_view(table: Seq<(String, Vec<String>)>) -> Seq<(Seq<char>, Seq<Seq<char>>)> {
    table.map_values(|row: (String, Vec<String>)| (row.0@, texts_view(row.1@)))
}

/// Reads a table.
pub fn read_table(field: Option<&Json>) -> (table: Option<Vec<(String, Vec<String>)>>)
    ensures
        match table {
            Some(t) => as_table(view_of(field)) == Some(table_view(t@)),
            None => as_table(view_of(field)) is None,
        },
{
    match field {
        Some(Json::Object(members)) => {
            proof {
                lemma_view_object(*members);
            }
            let mut out: Vec<(String, Vec<String>)> = Vec::new();
            let mut i: usize = 0;
            while i < members.len()
                invariant
                    i <= members.len(),
                    out.len() == i,
                    view_of(field) == Some(JsonView::Object(members_view(members@))),
                    forall|k: int|
                        0 <= k < i ==> as_texts(Some(members@[k].1@)) == Some(
                            texts_view(out@[k].1@),
                        ),
                    forall|k: int| 0 <= k < i ==> members@[k].0@ == out@[k].0@,
                decreases members.len() - i,
            {
                match read_texts(Some(&members[i].1)) {
                    Some(texts) => out.push((members[i].0.clone(), texts)),
                    None => {
                        assert(members_view(members@)[i as int].1 == members@[i as int].1@);
                        return None;
                    },
                }
                i += 1;
            }
            proof {
                let trees = members_view(members@);
                assert forall|k: int| 0 <= k < trees.len() implies as_texts(
                    Some((#[trigger] trees[k]).1),
                ) is Some by {
                    assert(as_texts(Some(members@[k].1@)) == Some(texts_view(out@[k].1@)));
                }
                assert(as_table(Some(JsonView::Object(trees)))->0 =~= table_view(out@));
            }
            Some(out)
        },
        _ => None,
    }
}

/// Writes a text.
pub fn write_text(text: &String) -> (json: Json)
    ensures
        json@ == text_json(text@),
{
    Json::Str(text.clone())
}

/// Writes a number.
pub fn write_number(n: usize) -> (json: Json)
    ensures
        json@ == number_json(n),
{
    Json::Number(n as u64)
}

/// Writes an optional identifier.
pub fn write_id(id: Option<usize>) -> (json: Json)
    ensures
        json@ == id_json(id),
{
    match id {
        Some(n) => write_number(n),
        None => Json::Null,
    }
}

/// Writes a list of texts.
pub fn write_texts(texts: &Vec<String>) -> (json: Json)
    ensures
        json@ == texts_json(texts_view(texts@)),
{
    let mut items: Vec<Json> = Vec::new();
    let mut i: usize = 0;
    while i < texts.len()
        invariant
            i <= texts.len(),
            items.len() == i,
            forall|k: int| 0 <= k < i ==> items@[k]@ == text_json(texts@[k]@),
        decreases texts.len() - i,
    {
        items.push(write_text(&texts[i]));
        i += 1;
    }
    proof {
        lemma_view_array(items);
        assert(items_view(items@) =~= texts_json(texts_view(texts@))->Array_0);
    }
    Json::Array(items)
}

/// Writes a list of numbers.
pub fn write_numbers(numbers: &Vec<usize>) -> (json: Json)
    ensures
        json@ == numbers_json(numbers@),
{
    let mut items: Vec<Json> = Vec::new();
    let mut i: usize = 0;
    while i < numbers.len()
        invariant
            i <= numbers.len(),
            items.len() == i,
            forall|k: int| 0 <= k < i ==> items@[k]@ == number_json(numbers@[k]),
        decreases numbers.len() - i,
    {
        items.push(write_number(numbers[i]));
        i += 1;
    }
    proof {
        lemma_view_array(items);
        assert(items_view(items@) =~= numbers_json(numbers@)->Array_0);
    }
    Json::Array(items)
}

/// Writes a table.
pub fn write_table(table: &Vec<(String, Vec<String>)>) -> (json: Json)
    ensures
        json@ == table_json(table_view(table@)),
{
    let mut members: Vec<(String, Json)> = Vec::new();
    let mut i: usize = 0;
    while i < table.len()
        invariant
            i <= table.len(),
            members.len() == i,
            forall|k: int| 0 <= k < i ==> members@[k].0@ == table@[k].0@,
            forall|k: int| 0 <= k < i ==> members@[k].1@ == texts_json(texts_view(table@[k].1@)),
        decreases table.len() - i,
    {
        members.push((table[i].0.clone(), write_texts(&table[i].1)));
        i += 1;
    }
    proof {
        lemma_view_object(members);
        assert(members_view(members@) =~= table_json(table_view(table@))->Object_0);
    }
    Json::Object(members)
}

} // verus!
