use vstd::prelude::*;

use crate::book::{Book, Error, LookupCause};
use crate::json::{
    elements_in, elements_of, json_parse_of, member, member_of, parse_json, string_member, text_in,
    text_of, Json,
};

verus! {

/// The record for `isbn` from a lookup's title and first author; a lookup
/// failure where either is missing.
pub fn book_from_volume(isbn: &str, title: Option<String>, author: Option<String>) -> (r: Result<
    Book,
    Error,
>)
    ensures
        match (title, author) {
            (Some(t), Some(a)) => r matches Ok(b) && b.isbn@ == isbn@ && b.name == t && b.author
                == a,
            _ => r matches Err(Error::LookupFailed { isbn: k, cause }) && k@ == isbn@ && cause
                == LookupCause::MissingField,
        },
{
    match (title, author) {
        (Some(t), Some(a)) => Ok(Book { isbn: String::from_str(isbn), name: t, author: a }),
        _ => Err(Error::LookupFailed { isbn: String::from_str(isbn), cause: LookupCause::MissingField }),
    }
}

/// What a lookup response yields: the title and the first author of the
/// first element of `items` (under `volumeInfo`), or why there are none.
pub open spec fn volume_fields(doc: Option<Json>) -> Result<(String, String), LookupCause> {
    match doc {
        None => Err(LookupCause::Malformed),
        Some(d) => match elements_in(member_of(d, "items"@)) {
            None => Err(LookupCause::NoItems),
            Some(items) => if items.len() == 0 {
                Err(LookupCause::NoItems)
            } else {
                match member_of(items[0], "volumeInfo"@) {
                    None => Err(LookupCause::MissingField),
                    Some(info) => {
                        let title = text_in(member_of(info, "title"@));
                        let author = match elements_in(member_of(info, "authors"@)) {
                            Some(a) => if a.len() > 0 {
                                text_in(Some(a[0]))
                            } else {
                                None
                            },
                            None => None,
                        };
                        match (title, author) {
                            (Some(t), Some(a)) => Ok((t, a)),
                            _ => Err(LookupCause::MissingField),
                        }
                    },
                }
            },
        },
    }
}

/// The record for `isbn` that a lookup response document describes.
pub fn book_from_document(isbn: &str, doc: &Json) -> (r: Result<Book, Error>)
    ensures
        match volume_fields(Some(*doc)) {
            Ok((t, a)) => r matches Ok(b) && b.isbn@ == isbn@ && b.name == t && b.author == a,
            Err(c) => r matches Err(Error::LookupFailed { isbn: k, cause }) && k@ == isbn@
                && cause == c,
        },
{
    let items = match elements_of(member(doc, "items")) {
        Some(a) => a,
        None => {
            return Err(Error::LookupFailed { isbn: String::from_str(isbn), cause: LookupCause::NoItems });
        },
    };
    if items.len() == 0 {
        return Err(Error::LookupFailed { isbn: String::from_str(isbn), cause: LookupCause::NoItems });
    }
    let info = match member(&items[0], "volumeInfo") {
        Some(v) => v,
        None => {
            return Err(Error::LookupFailed { isbn: String::from_str(isbn), cause: LookupCause::MissingField });
        },
    };
    let title = string_member(info, "title");
    let author = match elements_of(member(info, "authors")) {
        Some(a) => {
            if a.len() == 0 {
                None
            } else {
                match text_of(Some(&a[0])) {
                    Some(s) => Some(s.clone()),
                    None => None,
                }
            }
        },
        None => None,
    };
    book_from_volume(isbn, title, author)
}

/// Reads a bibliographic service response for `isbn`.
pub fn get_book(isbn: &str, response: &str) -> (r: Result<Book, Error>)
    ensures
        match volume_fields(json_parse_of(response@)) {
            Ok((t, a)) => r matches Ok(b) && b.isbn@ == isbn@ && b.name == t && b.author == a,
            Err(c) => r matches Err(Error::LookupFailed { isbn: k, cause }) && k@ == isbn@
                && cause == c,
        },
{
    match parse_json(response) {
        Some(doc) => book_from_document(isbn, &doc),
        None => Err(Error::LookupFailed { isbn: String::from_str(isbn), cause: LookupCause::Malformed }),
    }
}

} // verus!
