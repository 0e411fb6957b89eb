//! What each request does to a registry that the caller holds exclusively.
use vstd::prelude::*;

use crate::book::{message_of, Book, Error};
use crate::registry::{holds_isbn, title_has, Books};

verus! {

/// The text answer to a mutating request, and whether the registry changed
/// (and so must be stored again).
pub struct Reply {
    pub text: String,
    pub changed: bool,
}

/// Every record, in registry order.
pub fn get_all(books: &Books) -> (r: Vec<Book>)
    ensures
        r@ == books@,
{
    books.get_all()
}

/// The record with this ISBN.
pub fn get(books: &Books, isbn: &str) -> (r: Result<Book, Error>)
    ensures
        r is Ok <==> holds_isbn(books@, isbn@),
        match r {
            Ok(b) => b.isbn@ == isbn@ && exists|i: int| 0 <= i < books@.len() && books@[i] == b,
            Err(e) => e matches Error::NotFound { isbn: k } && k@ == isbn@,
        },
{
    books.find(String::from_str(isbn))
}

/// The records whose title contains `q`.
pub fn search(books: &Books, q: &str) -> (r: Result<Vec<Book>, Error>)
    ensures
        match r {
            Ok(v) => v@ == books@.filter(title_has(q@)) && v@.len() > 0,
            Err(e) => e == Error::NoMatch && books@.filter(title_has(q@)).len() == 0,
        },
{
    books.search(q)
}

/// Inserts an already enriched record: "Success", or the duplicate message.
pub fn add(books: &mut Books, book: Book) -> (r: Reply)
    requires
        old(books).wf(),
    ensures
        final(books).wf(),
        r.changed == !holds_isbn(old(books)@, book.isbn@),
        r.changed ==> r.text@ == "Success"@ && final(books)@ == old(books)@.push(book),
        !r.changed ==> r.text@ == message_of(Error::AlreadyExists { isbn: book.isbn })
            && final(books)@ == old(books)@,
{
    match books.add(book) {
        Ok(()) => Reply { text: String::from_str("Success"), changed: true },
        Err(e) => Reply { text: e.message(), changed: false },
    }
}

/// Removes the record with this ISBN: "Success", or the not-found message.
pub fn remove(books: &mut Books, isbn: &str) -> (r: Reply)
    requires
        old(books).wf(),
    ensures
        final(books).wf(),
        r.changed == holds_isbn(old(books)@, isbn@),
        r.changed ==> r.text@ == "Success"@ && exists|i: int|
            0 <= i < old(books)@.len() && old(books)@[i].isbn@ == isbn@ && final(books)@ == old(
                books,
            )@.remove(i),
        !r.changed ==> r.text@ == "Book with ISBN "@ + isbn@ + " not found"@ && final(books)@
            == old(books)@,
{
    match books.remove(isbn) {
        Ok(()) => Reply { text: String::from_str("Success"), changed: true },
        Err(e) => Reply { text: e.message(), changed: false },
    }
}

} // verus!
