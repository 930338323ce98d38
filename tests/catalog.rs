use rlms::book::{Author, Book};
use rlms::catalog::{BookCatalog, BookRecord, CatalogError};

fn book(title: &str, authors: &[&str]) -> Book {
    let mut b = Book::default();
    b.title = title.to_string();
    b.authors = authors.iter().map(|a| Author { name: a.to_string() }).collect();
    b
}

#[test]
fn add_then_list_shows_book_once() {
    let mut c = BookCatalog::new();
    let id = c.add_to_library(1, "0306406152", &book("Signals", &["Kim", "Lee"])).unwrap();
    let list = c.list_for_user(1);
    assert_eq!(list.iter().filter(|b| b.book_id == id).count(), 1);
    assert_eq!(list[0].title, "Signals");
    assert_eq!(list[0].primary_author.as_deref(), Some("Kim"));
    assert_eq!(list[0].isbn, "0306406152");
}

#[test]
fn adding_same_isbn_twice_is_a_duplicate() {
    let mut c = BookCatalog::new();
    c.add_to_library(1, "0306406152", &book("Signals", &["Kim"])).unwrap();
    assert_eq!(
        c.add_to_library(1, "0306406152", &book("Signals", &["Kim"])),
        Err(CatalogError::DuplicateMembership)
    );
    assert_eq!(c.list_for_user(1).len(), 1);
}

#[test]
fn invalid_isbn_is_refused() {
    let mut c = BookCatalog::new();
    assert_eq!(c.add_to_library(1, "123456789", &book("X", &[])), Err(CatalogError::InvalidIsbn));
    assert!(c.books().is_empty());
}

#[test]
fn second_user_shares_the_stored_book() {
    let mut c = BookCatalog::new();
    let a = c.add_to_library(1, "9780306406157", &book("Signals", &["Kim"])).unwrap();
    let b = c.add_to_library(2, "9780306406157", &book("Other title", &[])).unwrap();
    assert_eq!(a, b);
    assert_eq!(c.books().len(), 1);
    assert_eq!(c.memberships().len(), 2);
}

#[test]
fn book_without_authors_has_no_primary_author() {
    let mut c = BookCatalog::new();
    c.add_to_library(1, "0306406152", &book("Anonymous", &[])).unwrap();
    assert_eq!(c.list_for_user(1)[0].primary_author, None);
}

#[test]
fn remove_leaves_other_users_and_the_book() {
    let mut c = BookCatalog::new();
    let id = c.add_to_library(1, "0306406152", &book("Signals", &["Kim"])).unwrap();
    c.add_to_library(2, "0306406152", &book("Signals", &["Kim"])).unwrap();
    let other = c.add_to_library(1, "9780306406157", &book("Noise", &["Ray"])).unwrap();
    assert_eq!(c.remove_from_library(1, id), Ok(()));
    let mine: Vec<u32> = c.list_for_user(1).iter().map(|b| b.book_id).collect();
    assert_eq!(mine, vec![other]);
    let theirs: Vec<u32> = c.list_for_user(2).iter().map(|b| b.book_id).collect();
    assert_eq!(theirs, vec![id]);
    assert!(c.book_exists(id));
}

#[test]
fn remove_errors() {
    let mut c = BookCatalog::new();
    let id = c.add_to_library(1, "0306406152", &book("Signals", &["Kim"])).unwrap();
    assert_eq!(c.remove_from_library(1, 42), Err(CatalogError::BookNotFound));
    assert_eq!(c.remove_from_library(2, id), Err(CatalogError::NotInLibrary));
    assert_eq!(c.remove_from_library(1, id), Ok(()));
    assert_eq!(c.remove_from_library(1, id), Err(CatalogError::NotInLibrary));
}

#[test]
fn listing_keeps_insertion_order() {
    let mut c = BookCatalog::new();
    let a = c.add_to_library(5, "0306406152", &book("A", &["x"])).unwrap();
    let b = c.add_to_library(5, "9780306406157", &book("B", &["y"])).unwrap();
    let ids: Vec<u32> = c.list_for_user(5).iter().map(|r| r.book_id).collect();
    assert_eq!(ids, vec![a, b]);
    assert!(c.list_for_user(6).is_empty());
}

#[test]
fn loading_checks_ids_and_references() {
    let mut c = BookCatalog::new();
    let rec = |id: u32| BookRecord {
        book_id: id,
        title: "T".to_string(),
        primary_author: None,
        isbn: "0306406152".to_string(),
    };
    assert_eq!(c.load_book(rec(4)), Ok(()));
    assert_eq!(c.load_book(rec(4)), Err(CatalogError::DuplicateBookId));
    assert_eq!(c.load_book(rec(0)), Err(CatalogError::InvalidBookId));
    assert_eq!(c.load_membership(1, 4), Ok(()));
    assert_eq!(c.load_membership(1, 4), Err(CatalogError::DuplicateMembership));
    assert_eq!(c.load_membership(1, 5), Err(CatalogError::BookNotFound));
    // new books are numbered after the loaded ones
    let id = c.add_to_library(1, "9780306406157", &book("New", &[])).unwrap();
    assert_eq!(id, 5);
}
