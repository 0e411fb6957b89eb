use vstd::prelude::*;

use crate::book::Book;
use serde_json::Value;

verus! {

#[verifier::external_type_specification]
#[verifier::external_body]
pub struct ExValue(serde_json::Value);

/// A JSON document as plain values. Numbers keep their written form; an
/// object's members come in the order serde_json's map yields them.
#[derive(Debug, PartialEq)]
pub enum Json {
    Null,
    Bool(bool),
    Number(String),
    Text(String),
    Array(Vec<Json>),
    Object(Vec<(String, Json)>),
}

/// The JSON string literal that serde_json writes for `s`, quotes and escapes included.
pub uninterp spec fn json_string_of(s: Seq<char>) -> Seq<char>;

/// Relies on `serde_json::to_string` applied to a `str`: the JSON string
/// literal for it, which depends on the characters alone. Writing a `str`
/// into a `Vec` has no failing step, so the call always returns `Ok`.
#[verifier::external_body]
fn json_string(s: &str) -> (r: String)
    ensures
        r@ == json_string_of(s@),
{
    serde_json::to_string(s).unwrap()
}

/// The document that serde_json reads from `text`, or `None` where `text` is
/// not JSON.
pub uninterp spec fn json_parse_of(text: Seq<char>) -> Option<Json>;

/// Relies on `serde_json::from_str::<Value>`: the document read from the text,
/// which depends on the text alone.
#[verifier::external_body]
pub fn parse_json(text: &str) -> (r: Option<Json>)
    ensures
        r == json_parse_of(text@),
{
    serde_json::from_str::<Value>(text).ok().map(json_of_value)
}

/// Moves each variant of serde_json's `Value` into the matching `Json`
/// variant; a number is kept as serde_json writes it (`Number`'s `Display`).
#[verifier::external_body]
fn json_of_value(v: Value) -> Json {
    match v {
        Value::Null => Json::Null,
        Value::Bool(b) => Json::Bool(b),
        Value::Number(n) => Json::Number(n.to_string()),
        Value::String(s) => Json::Text(s),
        Value::Array(a) => Json::Array(a.into_iter().map(json_of_value).collect()),
        Value::Object(m) => Json::Object(m.into_iter().map(|(k, x)| (k, json_of_value(x))).collect()),
    }
}

/// The value of the first member named `key` among `fields`.
pub open spec fn field_of(fields: Seq<(String, Json)>, key: Seq<char>) -> Option<Json>
    decreases fields.len(),
{
    if fields.len() == 0 {
        None
    } else if fields[0].0@ == key {
        Some(fields[0].1)
    } else {
        field_of(fields.drop_first(), key)
    }
}

/// The member `key` of `v`, where `v` is an object that has one.
pub open spec fn member_of(v: Json, key: Seq<char>) -> Option<Json> {
    match v {
        Json::Object(fields) => field_of(fields@, key),
        _ => None,
    }
}

/// The text of a string value.
pub open spec fn text_in(v: Option<Json>) -> Option<String> {
    match v {
        Some(Json::Text(s)) => Some(s),
        _ => None,
    }
}

/// The elements of an array value.
pub open spec fn elements_in(v: Option<Json>) -> Option<Seq<Json>> {
    match v {
        Some(Json::Array(a)) => Some(a@),
        _ => None,
    }
}

/// The value that an optional reference points to.
pub open spec fn owned(v: Option<&Json>) -> Option<Json> {
    match v {
        Some(j) => Some(*j),
        None => None,
    }
}

/// The member `key` of `v`, where `v` is an object that has one.
pub fn member<'a>(v: &'a Json, key: &str) -> (r: Option<&'a Json>)
    ensures
        match r {
            Some(j) => member_of(*v, key@) == Some(*j),
            None => member_of(*v, key@) is None,
        },
{
    match v {
        Json::Object(fields) => {
            let k = String::from_str(key);
            let mut i: usize = 0;
            assert(fields@.subrange(0, fields@.len() as int) =~= fields@);
            while i < fields.len()
                invariant
                    i <= fields@.len(),
                    k@ == key@,
                    *v == Json::Object(*fields),
                    field_of(fields@.subrange(i as int, fields@.len() as int), key@) == field_of(
                        fields@,
                        key@,
                    ),
                decreases fields@.len() - i,
            {
                let ghost rest = fields@.subrange(i as int, fields@.len() as int);
                assert(rest.drop_first() =~= fields@.subrange(i + 1, fields@.len() as int));
                assert(rest[0] == fields@[i as int]);
                if fields[i].0 == k {
                    assert(field_of(rest, key@) == Some(rest[0].1));
                    return Some(&fields[i].1);
                }
                i += 1;
            }
            None
        },
        _ => None,
    }
}

/// The text of `v`, where it is a string.
pub fn text_of(v: Option<&Json>) -> (r: Option<&String>)
    ensures
        match r {
            Some(s) => text_in(owned(v)) == Some(*s),
            None => text_in(owned(v)) is None,
        },
{
    match v {
        Some(Json::Text(s)) => Some(s),
        _ => None,
    }
}

/// The elements of `v`, where it is an array.
pub fn elements_of(v: Option<&Json>) -> (r: Option<&Vec<Json>>)
    ensures
        match r {
            Some(a) => elements_in(owned(v)) == Some(a@),
            None => elements_in(owned(v)) is None,
        },
{
    match v {
        Some(Json::Array(a)) => Some(a),
        _ => None,
    }
}

/// One record as stored: `{"isbn":..,"name":..,"author":..}`.
pub open spec fn record_json(b: Book) -> Seq<char> {
    "{\"isbn\":"@ + json_string_of(b.isbn@) + ",\"name\":"@ + json_string_of(b.name@)
        + ",\"author\":"@ + json_string_of(b.author@) + "}"@
}

/// The records of `s` as stored, separated by commas.
pub open spec fn records_json(s: Seq<Book>) -> Seq<char>
    decreases s.len(),
{
    if s.len() == 0 {
        Seq::empty()
    } else if s.len() == 1 {
        record_json(s[0])
    } else {
        records_json(s.drop_last()) + ","@ + record_json(s.last())
    }
}

/// The stored form of a registry: a JSON array of its records, in order.
pub open spec fn registry_json(s: Seq<Book>) -> Seq<char> {
    "["@ + records_json(s) + "]"@
}

/// The stored form of one record.
pub fn encode_record(b: &Book) -> (r: String)
    ensures
        r@ == record_json(*b),
{
    let isbn = json_string(b.isbn.as_str());
    let name = json_string(b.name.as_str());
    let author = json_string(b.author.as_str());
    let mut out = String::from_str("{\"isbn\":");
    out.append(isbn.as_str());
    out.append(",\"name\":");
    out.append(name.as_str());
    out.append(",\"author\":");
    out.append(author.as_str());
    out.append("}");
    out
}

/// The stored form of a sequence of records.
pub fn encode_records(books: &Vec<Book>) -> (r: String)
    ensures
        r@ == registry_json(books@),
{
    let mut out = String::from_str("[");
    let mut i: usize = 0;
    while i < books.len()
        invariant
            i <= books@.len(),
            out@ == "["@ + records_json(books@.take(i as int)),
        decreases books@.len() - i,
    {
        let ghost prev = books@.take(i as int);
        let ghost next = books@.take(i + 1);
        assert(next.drop_last() =~= prev);
        assert(next.last() == books@[i as int]);
        let rec = encode_record(&books[i]);
        if i > 0 {
            out.append(",");
            out.append(rec.as_str());
            assert(out@ =~= "["@ + (records_json(prev) + ","@ + record_json(books@[i as int])));
        } else {
            out.append(rec.as_str());
            assert(next =~= seq![books@[0]]);
            assert(out@ =~= "["@ + record_json(books@[0]));
        }
        i += 1;
    }
    assert(books@.take(i as int) =~= books@);
    out.append("]");
    out
}

/// The record that a stored object describes: its string members `isbn`,
/// `name` and `author` (others are ignored).
pub open spec fn record_in(item: Json) -> Option<Book> {
    match (
        text_in(member_of(item, "isbn"@)),
        text_in(member_of(item, "name"@)),
        text_in(member_of(item, "author"@)),
    ) {
        (Some(isbn), Some(name), Some(author)) => Some(Book { isbn, name, author }),
        _ => None,
    }
}

/// The records of a stored registry, in order: the document must be an
/// array whose every element describes a record.
pub open spec fn records_of(doc: Option<Json>) -> Option<Seq<Book>> {
    match doc {
        Some(Json::Array(items)) => if forall|k: int|
            0 <= k < items@.len() ==> #[trigger] record_in(items@[k]) is Some {
            Some(items@.map_values(|j: Json| record_in(j).unwrap()))
        } else {
            None
        },
        _ => None,
    }
}

/// The string member `key` of `v`, copied.
pub(crate) fn string_member(v: &Json, key: &str) -> (r: Option<String>)
    ensures
        r == text_in(member_of(*v, key@)),
{
    match text_of(member(v, key)) {
        Some(s) => Some(s.clone()),
        None => None,
    }
}

/// The record that a stored object describes.
fn decode_record(item: &Json) -> (r: Option<Book>)
    ensures
        r == record_in(*item),
{
    let isbn = string_member(item, "isbn");
    let name = string_member(item, "name");
    let author = string_member(item, "author");
    match (isbn, name, author) {
        (Some(isbn), Some(name), Some(author)) => Some(Book { isbn, name, author }),
        _ => None,
    }
}

/// Reads the records of a stored registry, in order; `None` where the text
/// is not a JSON array of such objects.
pub fn decode_records(text: &str) -> (r: Option<Vec<Book>>)
    ensures
        match records_of(json_parse_of(text@)) {
            Some(s) => r matches Some(v) && v@ == s,
            None => r is None,
        },
{
    let doc = match parse_json(text) {
        Some(v) => v,
        None => return None,
    };
    let items = match &doc {
        Json::Array(a) => a,
        _ => return None,
    };
    let mut out: Vec<Book> = Vec::new();
    let mut i: usize = 0;
    while i < items.len()
        invariant
            i <= items@.len(),
            Some(doc) == json_parse_of(text@),
            doc == Json::Array(*items),
            forall|k: int| 0 <= k < i ==> #[trigger] record_in(items@[k]) is Some,
            out@ == items@.take(i as int).map_values(|j: Json| record_in(j).unwrap()),
        decreases items@.len() - i,
    {
        match decode_record(&items[i]) {
            Some(b) => out.push(b),
            None => return None,
        }
        i += 1;
        assert(out@ =~= items@.take(i as int).map_values(|j: Json| record_in(j).unwrap()));
    }
    assert(items@.take(i as int) =~= items@);
    Some(out)
}

} // verus!
