use rlms::book::{book_from_record, Author, Book, Cover, OpenLibraryBook, Subject, WorkLink};

fn record() -> OpenLibraryBook {
    OpenLibraryBook {
        title: "Signals".to_string(),
        authors: vec![Author { name: "Kim".to_string() }],
        publish_date: "1999".to_string(),
        number_of_pages: Some(320),
        cover: Some(Cover { small: Some("s.jpg".to_string()), medium: None, large: Some("l.jpg".to_string()) }),
        works: Some(vec![WorkLink { key: "/works/OL1W".to_string() }]),
        subjects: Some(vec![Subject { name: "Radio".to_string() }]),
        publishers: None,
    }
}

#[test]
fn book_from_lookup_record() {
    let b = book_from_record("0306406152", record());
    assert_eq!(b.get_id(), None);
    assert_eq!(b.get_isbn(), "0306406152");
    assert_eq!(b.get_title(), "Signals");
    assert_eq!(b.get_authors()[0].name, "Kim");
    assert_eq!(b.get_pub_date(), "1999");
    assert_eq!(b.get_number_of_pages(), Some(320));
    assert_eq!(b.get_works().unwrap()[0].key, "/works/OL1W");
    assert_eq!(b.get_subjects().unwrap()[0].name, "Radio");
    assert!(b.get_publishers().is_none());
    assert!(b.has_cover());
    assert_eq!(b.get_covers().unwrap().small.as_deref(), Some("s.jpg"));
}

#[test]
fn cover_by_size_ignores_case() {
    let b = book_from_record("0306406152", record());
    assert_eq!(b.get_cover_by_size("small").map(|s| s.as_str()), Some("s.jpg"));
    assert_eq!(b.get_cover_by_size("LARGE").map(|s| s.as_str()), Some("l.jpg"));
    assert_eq!(b.get_cover_by_size("Medium"), None);
    assert_eq!(b.get_cover_by_size("huge"), None);
    let bare = Book::default();
    assert_eq!(bare.get_cover_by_size("small"), None);
    assert!(!bare.has_cover());
}

#[test]
fn new_book_has_no_id() {
    let b = Book::new_without_id(
        "9780306406157".to_string(),
        "T".to_string(),
        vec![],
        String::new(),
        None,
        None,
        None,
        None,
        None,
    );
    assert_eq!(b.book_id, None);
    assert_eq!(b.isbn, "9780306406157");
}
