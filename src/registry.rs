use vstd::prelude::*;

use crate::book::{Book, Error};
use crate::json::{decode_records, encode_records, json_parse_of, records_of, registry_json};

verus! {

/// `needle` occurs as a contiguous run of `hay`.
pub open spec fn contains_seq(hay: Seq<char>, needle: Seq<char>) -> bool {
    exists|i: int|
        0 <= i && i + needle.len() <= hay.len() && #[trigger] hay.subrange(i, i + needle.len())
            == needle
}

/// Relies on `str::contains` with a `&str` pattern: true exactly when the
/// pattern occurs in the string as a contiguous substring (case-sensitive).
#[verifier::external_body]
fn str_contains(hay: &str, needle: &str) -> (r: bool)
    ensures
        r == contains_seq(hay@, needle@),
{
    hay.contains(needle)
}

/// Some record of `s` has this ISBN.
pub open spec fn holds_isbn(s: Seq<Book>, isbn: Seq<char>) -> bool {
    exists|i: int| 0 <= i < s.len() && #[trigger] s[i].isbn@ == isbn
}

/// No two records of `s` share an ISBN.
pub open spec fn unique_isbns(s: Seq<Book>) -> bool {
    forall|i: int, j: int|
        0 <= i < s.len() && 0 <= j < s.len() && i != j ==> #[trigger] s[i].isbn@ != #[trigger] s[j].isbn@
}

/// The records whose title holds `q`.
pub open spec fn title_has(q: Seq<char>) -> spec_fn(Book) -> bool {
    |b: Book| contains_seq(b.name@, q)
}

/// The registry: records in insertion order, at most one per ISBN.
pub struct Books {
    books: Vec<Book>,
}

impl View for Books {
    type V = Seq<Book>;

    closed spec fn view(&self) -> Seq<Book> {
        self.books@
    }
}

impl Books {
    pub open spec fn wf(&self) -> bool {
        unique_isbns(self@)
    }

    /// An empty registry.
    pub fn new() -> (r: Books)
        ensures
            r.wf(),
            r@ == Seq::<Book>::empty(),
    {
        Books { books: Vec::new() }
    }

    /// A registry holding `records` in order; refused where two share an ISBN.
    pub fn from_records(records: Vec<Book>) -> (r: Result<Books, Error>)
        ensures
            r is Ok <==> unique_isbns(records@),
            match r {
                Ok(b) => b.wf() && b@ == records@,
                Err(e) => e matches Error::AlreadyExists { isbn } && holds_isbn(records@, isbn@),
            },
    {
        let mut reg = Books::new();
        let mut i: usize = 0;
        while i < records.len()
            invariant
                i <= records@.len(),
                reg.wf(),
                reg@ == records@.take(i as int),
            decreases records@.len() - i,
        {
            let b = records[i].clone();
            match reg.add(b) {
                Ok(()) => {},
                Err(e) => {
                    proof {
                        let j = choose|j: int| 0 <= j < reg@.len() && #[trigger] reg@[j].isbn@ == records@[i as int].isbn@;
                        assert(records@[j] == reg@[j]);
                        assert(!unique_isbns(records@));
                    }
                    return Err(e);
                },
            }
            i += 1;
            assert(reg@ =~= records@.take(i as int));
        }
        assert(records@.take(i as int) =~= records@);
        Ok(reg)
    }

    /// Reads a stored registry. `Unreadable` where the text is not an array
    /// of records; `AlreadyExists` where two records share an ISBN.
    pub fn from_json(text: &str) -> (r: Result<Books, Error>)
        ensures
            match records_of(json_parse_of(text@)) {
                Some(s) => (r is Ok <==> unique_isbns(s)) && match r {
                    Ok(b) => b.wf() && b@ == s,
                    Err(e) => e matches Error::AlreadyExists { isbn } && holds_isbn(s, isbn@),
                },
                None => r matches Err(Error::Unreadable),
            },
    {
        match decode_records(text) {
            Some(records) => Books::from_records(records),
            None => Err(Error::Unreadable),
        }
    }

    /// The stored form of the registry: a JSON array of its records in order.
    pub fn to_json(&self) -> (r: String)
        ensures
            r@ == registry_json(self@),
    {
        encode_records(&self.books)
    }

    /// A snapshot of every record, in registry order.
    pub fn get_all(&self) -> (r: Vec<Book>)
        ensures
            r@ == self@,
    {
        let mut out: Vec<Book> = Vec::new();
        let mut i: usize = 0;
        while i < self.books.len()
            invariant
                i <= self.books@.len(),
                out@ == self.books@.take(i as int),
            decreases self.books@.len() - i,
        {
            out.push(self.books[i].clone());
            i += 1;
            assert(out@ =~= self.books@.take(i as int));
        }
        assert(self.books@.take(i as int) =~= self.books@);
        out
    }

    /// The index of the first record with this ISBN.
    fn position(&self, isbn: &String) -> (r: Option<usize>)
        ensures
            match r {
                Some(i) => i < self@.len() && self@[i as int].isbn@ == isbn@,
                None => !holds_isbn(self@, isbn@),
            },
    {
        let mut i: usize = 0;
        while i < self.books.len()
            invariant
                i <= self.books@.len(),
                forall|k: int| 0 <= k < i ==> self.books@[k].isbn@ != isbn@,
            decreases self.books@.len() - i,
        {
            if self.books[i].isbn == *isbn {
                return Some(i);
            }
            i += 1;
        }
        None
    }

    /// The record with this ISBN.
    pub fn find(&self, isbn: String) -> (r: Result<Book, Error>)
        ensures
            r is Ok <==> holds_isbn(self@, isbn@),
            match r {
                Ok(b) => b.isbn@ == isbn@ && exists|i: int| 0 <= i < self@.len() && self@[i] == b,
                Err(e) => e == Error::NotFound { isbn },
            },
    {
        match self.position(&isbn) {
            Some(i) => Ok(self.books[i].clone()),
            None => Err(Error::NotFound { isbn }),
        }
    }

    /// Appends `book` unless its ISBN is already present.
    pub fn add(&mut self, book: Book) -> (r: Result<(), Error>)
        requires
            old(self).wf(),
        ensures
            final(self).wf(),
            holds_isbn(old(self)@, book.isbn@) ==> r == Err::<(), Error>(
                Error::AlreadyExists { isbn: book.isbn },
            ) && final(self)@ == old(self)@,
            !holds_isbn(old(self)@, book.isbn@) ==> r is Ok && final(self)@ == old(self)@.push(
                book,
            ),
    {
        match self.position(&book.isbn) {
            Some(_) => Err(Error::AlreadyExists { isbn: book.isbn }),
            None => {
                self.books.push(book);
                assert forall|i: int, j: int|
                    0 <= i < self@.len() && 0 <= j < self@.len() && i != j implies
                    #[trigger] self@[i].isbn@ != #[trigger] self@[j].isbn@ by {
                    if i == self@.len() - 1 {
                        assert(old(self)@[j].isbn@ == self@[j].isbn@);
                    } else if j == self@.len() - 1 {
                        assert(old(self)@[i].isbn@ == self@[i].isbn@);
                    }
                }
                Ok(())
            },
        }
    }

    /// Removes the record with this ISBN, keeping the others in order.
    pub fn remove(&mut self, isbn: &str) -> (r: Result<(), Error>)
        requires
            old(self).wf(),
        ensures
            final(self).wf(),
            !holds_isbn(old(self)@, isbn@) ==> (match r {
                Err(Error::NotFound { isbn: k }) => k@ == isbn@,
                _ => false,
            }) && final(self)@ == old(self)@,
            holds_isbn(old(self)@, isbn@) ==> r is Ok && exists|i: int|
                0 <= i < old(self)@.len() && old(self)@[i].isbn@ == isbn@ && final(self)@ == old(
                    self,
                )@.remove(i),
    {
        let key = String::from_str(isbn);
        match self.position(&key) {
            Some(i) => {
                self.books.remove(i);
                assert(old(self)@[i as int].isbn@ == isbn@);
                assert forall|a: int, b: int|
                    0 <= a < self@.len() && 0 <= b < self@.len() && a != b implies
                    #[trigger] self@[a].isbn@ != #[trigger] self@[b].isbn@ by {
                    let a0 = if a < i { a } else { a + 1 };
                    let b0 = if b < i { b } else { b + 1 };
                    assert(self@[a] == old(self)@[a0]);
                    assert(self@[b] == old(self)@[b0]);
                }
                Ok(())
            },
            None => Err(Error::NotFound { isbn: key }),
        }
    }

    /// Every record whose title contains `name`, in registry order.
    pub fn search(&self, name: &str) -> (r: Result<Vec<Book>, Error>)
        ensures
            match r {
                Ok(v) => v@ == self@.filter(title_has(name@)) && v@.len() > 0,
                Err(e) => e == Error::NoMatch && self@.filter(title_has(name@)).len() == 0,
            },
    {
        let mut found: Vec<Book> = Vec::new();
        let mut i: usize = 0;
        while i < self.books.len()
            invariant
                i <= self.books@.len(),
                found@ == self.books@.take(i as int).filter(title_has(name@)),
            decreases self.books@.len() - i,
        {
            let ghost prev = self.books@.take(i as int);
            let ghost next = self.books@.take(i + 1);
            assert(next.drop_last() =~= prev);
            assert(next.last() == self.books@[i as int]);
            proof {
                reveal(Seq::filter);
            }
            if str_contains(self.books[i].name.as_str(), name) {
                found.push(self.books[i].clone());
            }
            i += 1;
        }
        assert(self.books@.take(i as int) =~= self.books@);
        if found.len() == 0 {
            Err(Error::NoMatch)
        } else {
            Ok(found)
        }
    }
}

/// After `r` is appended to a registry that lacked its ISBN, every record
/// with that ISBN is `r`: finding it gives back a record equal to `r`.
pub proof fn lemma_find_after_add(before: Seq<Book>, r: Book)
    requires
        unique_isbns(before),
        !holds_isbn(before, r.isbn@),
    ensures
        holds_isbn(before.push(r), r.isbn@),
        forall|i: int|
            0 <= i < before.push(r).len() && #[trigger] before.push(r)[i].isbn@ == r.isbn@ ==> before.push(
                r,
            )[i] == r,
{
    let after = before.push(r);
    assert(after[before.len() as int] == r);
    assert forall|i: int| 0 <= i < after.len() && #[trigger] after[i].isbn@ == r.isbn@ implies after[i] == r by {
        if i < before.len() {
            assert(before[i] == after[i]);
        }
    }
}

/// Removing the record at `i` from a registry with unique ISBNs leaves no
/// record with that ISBN: a later find of it fails.
pub proof fn lemma_find_after_remove(s: Seq<Book>, i: int)
    requires
        unique_isbns(s),
        0 <= i < s.len(),
    ensures
        !holds_isbn(s.remove(i), s[i].isbn@),
{
    let t = s.remove(i);
    assert forall|k: int| 0 <= k < t.len() implies #[trigger] t[k].isbn@ != s[i].isbn@ by {
        let k0 = if k < i { k } else { k + 1 };
        assert(t[k] == s[k0]);
    }
}

/// Two adds with different ISBNs, both absent, succeed in either order, and
/// both records are listed afterwards.
pub proof fn lemma_two_adds_distinct(s: Seq<Book>, a: Book, b: Book)
    requires
        unique_isbns(s),
        !holds_isbn(s, a.isbn@),
        !holds_isbn(s, b.isbn@),
        a.isbn@ != b.isbn@,
    ensures
        !holds_isbn(s.push(a), b.isbn@),
        !holds_isbn(s.push(b), a.isbn@),
        s.push(a).push(b).contains(a) && s.push(a).push(b).contains(b),
        s.push(b).push(a).contains(a) && s.push(b).push(a).contains(b),
{
    assert forall|k: int| 0 <= k < s.push(a).len() implies #[trigger] s.push(a)[k].isbn@ != b.isbn@ by {
        if k < s.len() {
            assert(s.push(a)[k] == s[k]);
        }
    }
    assert forall|k: int| 0 <= k < s.push(b).len() implies #[trigger] s.push(b)[k].isbn@ != a.isbn@ by {
        if k < s.len() {
            assert(s.push(b)[k] == s[k]);
        }
    }
    assert(s.push(a).push(b)[s.len() as int] == a);
    assert(s.push(a).push(b)[s.len() as int + 1] == b);
    assert(s.push(b).push(a)[s.len() as int] == b);
    assert(s.push(b).push(a)[s.len() as int + 1] == a);
}

/// Two adds with the same ISBN, run one after the other: once the first has
/// appended its record, the second finds that ISBN present and is refused.
pub proof fn lemma_two_adds_same(s: Seq<Book>, a: Book, b: Book)
    requires
        a.isbn@ == b.isbn@,
    ensures
        holds_isbn(s.push(a), b.isbn@),
{
    assert(s.push(a)[s.len() as int] == a);
}

} // verus!
