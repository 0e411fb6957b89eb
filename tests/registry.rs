use book_registry::book::{Book, Error, LookupCause};
use book_registry::handlers;
use book_registry::json::{decode_records, parse_json, Json};
use book_registry::lookup::{book_from_document, book_from_volume, get_book};
use book_registry::registry::Books;

fn book(isbn: &str, name: &str, author: &str) -> Book {
    Book::new(isbn.to_string(), name.to_string(), author.to_string())
}

#[test]
fn empty_add_duplicate_remove_scenario() {
    let mut books = Books::new();
    let input = book("111", "A", "X");
    assert_eq!(books.add(input.clone()), Ok(()));
    assert_eq!(books.get_all(), vec![input.clone()]);
    assert_eq!(
        books.add(book("111", "A", "X")),
        Err(Error::AlreadyExists { isbn: "111".to_string() })
    );
    assert_eq!(books.get_all().len(), 1);
    assert_eq!(books.remove("111"), Ok(()));
    assert!(books.get_all().is_empty());
}

#[test]
fn search_is_case_sensitive_substring() {
    let mut books = Books::new();
    books.add(book("1", "Harry Potter", "Rowling")).unwrap();
    books.add(book("2", "harry potter", "Rowling")).unwrap();
    books.add(book("3", "Har Potter", "Rowling")).unwrap();
    let found = books.search("Harry").unwrap();
    assert_eq!(found, vec![book("1", "Harry Potter", "Rowling")]);
}

#[test]
fn search_keeps_registry_order() {
    let mut books = Books::new();
    books.add(book("1", "Rust in Action", "McNamara")).unwrap();
    books.add(book("2", "Go in Action", "Kennedy")).unwrap();
    books.add(book("3", "Programming Rust", "Blandy")).unwrap();
    let found = books.search("Rust").unwrap();
    assert_eq!(found.iter().map(|b| b.isbn.as_str()).collect::<Vec<_>>(), vec!["1", "3"]);
    assert_eq!(books.search(""), Ok(books.get_all()));
}

#[test]
fn search_without_match_fails() {
    let mut books = Books::new();
    assert_eq!(books.search("x"), Err(Error::NoMatch));
    books.add(book("1", "Dune", "Herbert")).unwrap();
    assert_eq!(books.search("dune"), Err(Error::NoMatch));
}

#[test]
fn find_after_add_returns_the_record() {
    let mut books = Books::new();
    books.add(book("9", "B", "Y")).unwrap();
    let r = book("10", "C", "Z");
    books.add(r.clone()).unwrap();
    assert_eq!(books.find("10".to_string()), Ok(r));
}

#[test]
fn find_after_remove_fails() {
    let mut books = Books::new();
    books.add(book("10", "C", "Z")).unwrap();
    books.remove("10").unwrap();
    assert_eq!(
        books.find("10".to_string()),
        Err(Error::NotFound { isbn: "10".to_string() })
    );
}

#[test]
fn duplicate_add_leaves_registry_unchanged() {
    let mut books = Books::new();
    books.add(book("1", "A", "X")).unwrap();
    books.add(book("2", "B", "Y")).unwrap();
    let before = books.get_all();
    assert_eq!(
        books.add(book("1", "Other", "Other")),
        Err(Error::AlreadyExists { isbn: "1".to_string() })
    );
    assert_eq!(books.get_all(), before);
}

#[test]
fn remove_absent_leaves_registry_unchanged() {
    let mut books = Books::new();
    books.add(book("1", "A", "X")).unwrap();
    let before = books.get_all();
    assert_eq!(books.remove("2"), Err(Error::NotFound { isbn: "2".to_string() }));
    assert_eq!(books.get_all(), before);
}

#[test]
fn remove_keeps_order_of_the_rest() {
    let mut books = Books::new();
    books.add(book("1", "A", "X")).unwrap();
    books.add(book("2", "B", "Y")).unwrap();
    books.add(book("3", "C", "Z")).unwrap();
    books.remove("2").unwrap();
    assert_eq!(books.get_all(), vec![book("1", "A", "X"), book("3", "C", "Z")]);
}

#[test]
fn two_adds_with_distinct_isbns_both_succeed() {
    let mut books = Books::new();
    assert!(handlers::add(&mut books, book("1", "A", "X")).changed);
    assert!(handlers::add(&mut books, book("2", "B", "Y")).changed);
    let all = books.get_all();
    assert!(all.contains(&book("1", "A", "X")));
    assert!(all.contains(&book("2", "B", "Y")));
}

#[test]
fn two_adds_with_one_isbn_succeed_once() {
    let mut books = Books::new();
    let first = handlers::add(&mut books, book("1", "A", "X"));
    let second = handlers::add(&mut books, book("1", "B", "Y"));
    assert_eq!(first.text, "Success");
    assert!(first.changed);
    assert_eq!(second.text, "Book already exists in DB");
    assert!(!second.changed);
    assert_eq!(books.get_all(), vec![book("1", "A", "X")]);
}

#[test]
fn handlers_report_in_text() {
    let mut books = Books::new();
    handlers::add(&mut books, book("1", "A", "X"));
    let miss = handlers::remove(&mut books, "5");
    assert_eq!(miss.text, "Book with ISBN 5 not found");
    assert!(!miss.changed);
    let hit = handlers::remove(&mut books, "1");
    assert_eq!(hit.text, "Success");
    assert!(hit.changed);
    assert_eq!(handlers::get(&books, "1"), Err(Error::NotFound { isbn: "1".to_string() }));
    assert_eq!(handlers::search(&books, "A"), Err(Error::NoMatch));
    assert!(handlers::get_all(&books).is_empty());
}

#[test]
fn error_messages() {
    assert_eq!(Error::NotFound { isbn: "42".to_string() }.message(), "Book with ISBN 42 not found");
    assert_eq!(Error::NoMatch.message(), "No book found");
    assert_eq!(Error::AlreadyExists { isbn: "1".to_string() }.message(), "Book already exists in DB");
    assert_eq!(
        Error::LookupFailed { isbn: "7".to_string(), cause: LookupCause::NoItems }.message(),
        "Lookup failed for ISBN 7"
    );
}

#[test]
fn from_records_refuses_duplicate_isbns() {
    let records = vec![book("1", "A", "X"), book("2", "B", "Y"), book("1", "C", "Z")];
    assert!(matches!(
        Books::from_records(records),
        Err(Error::AlreadyExists { isbn }) if isbn == "1"
    ));
    let ok = Books::from_records(vec![book("1", "A", "X"), book("2", "B", "Y")]).unwrap();
    assert_eq!(ok.get_all().len(), 2);
}

#[test]
fn stored_form_is_exact() {
    let mut books = Books::new();
    assert_eq!(books.to_json(), "[]");
    books.add(book("111", "A", "X")).unwrap();
    assert_eq!(books.to_json(), r#"[{"isbn":"111","name":"A","author":"X"}]"#);
    books.add(book("2", "Say \"hi\"", "Back\\slash")).unwrap();
    assert_eq!(
        books.to_json(),
        r#"[{"isbn":"111","name":"A","author":"X"},{"isbn":"2","name":"Say \"hi\"","author":"Back\\slash"}]"#
    );
}

#[test]
fn store_then_reload_round_trips() {
    let mut books = Books::new();
    books.add(book("3", "Line\nbreak", "Ünïcode ✓")).unwrap();
    books.add(book("1", "Say \"hi\"", "Tab\there")).unwrap();
    books.add(book("2", "", "")).unwrap();
    let text = books.to_json();
    let again = Books::from_json(&text).unwrap();
    assert_eq!(again.get_all(), books.get_all());
    let parsed: serde_json::Value = serde_json::from_str(&text).unwrap();
    assert_eq!(parsed[0]["name"].as_str(), Some("Line\nbreak"));
}

#[test]
fn reading_a_stored_registry() {
    let text = r#" [ {"name": "A", "author": "X", "isbn": "111"} ] "#;
    let books = Books::from_json(text).unwrap();
    assert_eq!(books.get_all(), vec![book("111", "A", "X")]);
    assert!(matches!(Books::from_json("not json"), Err(Error::Unreadable)));
    assert!(matches!(Books::from_json(r#"{"isbn":"1"}"#), Err(Error::Unreadable)));
    assert!(matches!(Books::from_json(r#"[{"isbn":"1","name":"A"}]"#), Err(Error::Unreadable)));
    assert!(matches!(
        Books::from_json(r#"[{"isbn":"1","name":"A","author":"X"},{"isbn":"1","name":"B","author":"Y"}]"#),
        Err(Error::AlreadyExists { .. })
    ));
}

const RESPONSE: &str = r#"{"kind":"books#volumes","totalItems":1,"items":[{"volumeInfo":{"title":"The Rust Programming Language","authors":["Steve Klabnik","Carol Nichols"]}}]}"#;

#[test]
fn lookup_takes_title_and_first_author() {
    assert_eq!(
        get_book("9781718500440", RESPONSE),
        Ok(book("9781718500440", "The Rust Programming Language", "Steve Klabnik"))
    );
}

#[test]
fn lookup_failures() {
    let failed = |cause| Err(Error::LookupFailed { isbn: "1".to_string(), cause });
    assert_eq!(get_book("1", "<html>"), failed(LookupCause::Malformed));
    assert_eq!(get_book("1", r#"{"totalItems":0}"#), failed(LookupCause::NoItems));
    assert_eq!(get_book("1", r#"{"items":[]}"#), failed(LookupCause::NoItems));
    assert_eq!(get_book("1", r#"{"items":[{}]}"#), failed(LookupCause::MissingField));
    assert_eq!(
        get_book("1", r#"{"items":[{"volumeInfo":{"title":"T"}}]}"#),
        failed(LookupCause::MissingField)
    );
    assert_eq!(
        get_book("1", r#"{"items":[{"volumeInfo":{"title":"T","authors":[]}}]}"#),
        failed(LookupCause::MissingField)
    );
    assert_eq!(
        get_book("1", r#"{"items":[{"volumeInfo":{"authors":["A"]}}]}"#),
        failed(LookupCause::MissingField)
    );
}

#[test]
fn volume_fields_make_a_record() {
    assert_eq!(
        book_from_volume("5", Some("T".to_string()), Some("A".to_string())),
        Ok(book("5", "T", "A"))
    );
    assert_eq!(
        book_from_volume("5", None, Some("A".to_string())),
        Err(Error::LookupFailed { isbn: "5".to_string(), cause: LookupCause::MissingField })
    );
}

#[test]
fn lookup_keeps_first_item_and_first_author_only() {
    let body = r#"{"items":[{"volumeInfo":{"title":"First","authors":["A1","A2","A3"]}},{"volumeInfo":{"title":"Second","authors":["B"]}}]}"#;
    assert_eq!(get_book("77", body), Ok(book("77", "First", "A1")));
    assert_eq!(get_book("77", body), get_book("77", body));
}

#[test]
fn lookup_from_a_parsed_document() {
    let doc = parse_json(RESPONSE).unwrap();
    assert_eq!(
        book_from_document("5", &doc),
        Ok(book("5", "The Rust Programming Language", "Steve Klabnik"))
    );
    assert_eq!(
        book_from_document("5", &Json::Null),
        Err(Error::LookupFailed { isbn: "5".to_string(), cause: LookupCause::NoItems })
    );
}

#[test]
fn parsing_gives_plain_values() {
    let doc = parse_json(r#"{"a":[1,true,null,"x"]}"#).unwrap();
    assert_eq!(
        doc,
        Json::Object(vec![(
            "a".to_string(),
            Json::Array(vec![
                Json::Number("1".to_string()),
                Json::Bool(true),
                Json::Null,
                Json::Text("x".to_string()),
            ])
        )])
    );
    assert_eq!(parse_json("{"), None);
}

#[test]
fn decoding_ignores_other_members_and_needs_strings() {
    let text = r#"[{"isbn":"1","name":"A","author":"X","year":1999}]"#;
    assert_eq!(decode_records(text), Some(vec![book("1", "A", "X")]));
    assert_eq!(decode_records(r#"[{"isbn":1,"name":"A","author":"X"}]"#), None);
    assert_eq!(decode_records("[]"), Some(vec![]));
}
