use vstd::prelude::*;

verus! {

/// One catalog entry. `name` holds the title (the wire format calls it "name").
#[derive(Debug, PartialEq, Eq)]
pub struct Book {
    pub isbn: String,
    pub name: String,
    pub author: String,
}

impl Book {
    pub fn new(isbn: String, name: String, author: String) -> (r: Book)
        ensures
            r == (Book { isbn, name, author }),
    {
        Book { isbn, name, author }
    }
}

impl Clone for Book {
    fn clone(&self) -> (r: Book)
        ensures
            r == *self,
    {
        Book { isbn: self.isbn.clone(), name: self.name.clone(), author: self.author.clone() }
    }
}

/// Why an enrichment lookup gave no record.
#[derive(Debug, PartialEq, Eq, Clone, Copy)]
pub enum LookupCause {
    /// The remote call itself failed.
    Transport,
    /// The response body is not JSON.
    Malformed,
    /// The response holds no result item.
    NoItems,
    /// The first item lacks its title or its first author.
    MissingField,
}

#[derive(Debug, PartialEq, Eq)]
pub enum Error {
    /// No record has this ISBN.
    NotFound { isbn: String },
    /// A search matched no title.
    NoMatch,
    /// A record with this ISBN is already in the registry.
    AlreadyExists { isbn: String },
    /// The bibliographic service gave no usable record for this ISBN.
    LookupFailed { isbn: String, cause: LookupCause },
    /// The stored form of the registry could not be written.
    PersistenceFailed,
    /// A stored registry does not have the expected shape.
    Unreadable,
}

pub open spec fn message_of(e: Error) -> Seq<char> {
    match e {
        Error::NotFound { isbn } => "Book with ISBN "@ + isbn@ + " not found"@,
        Error::NoMatch => "No book found"@,
        Error::AlreadyExists { .. } => "Book already exists in DB"@,
        Error::LookupFailed { isbn, .. } => "Lookup failed for ISBN "@ + isbn@,
        Error::PersistenceFailed => "Could not save the catalog"@,
        Error::Unreadable => "The stored catalog cannot be read"@,
    }
}

impl Error {
    /// The text that callers show for this failure.
    pub fn message(&self) -> (r: String)
        ensures
            r@ == message_of(*self),
    {
        match self {
            Error::NotFound { isbn } => {
                let mut m = String::from_str("Book with ISBN ");
                m.append(isbn.as_str());
                m.append(" not found");
                m
            },
            Error::NoMatch => String::from_str("No book found"),
            Error::AlreadyExists { .. } => String::from_str("Book already exists in DB"),
            Error::LookupFailed { isbn, .. } => {
                let mut m = String::from_str("Lookup failed for ISBN ");
                m.append(isbn.as_str());
                m
            },
            Error::PersistenceFailed => String::from_str("Could not save the catalog"),
            Error::Unreadable => String::from_str("The stored catalog cannot be read"),
        }
    }
}

} // verus!
