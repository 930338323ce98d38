//! Bibliographic records as the catalog service returns them, and the book
//! built from such a record.
use vstd::prelude::*;
use vstd::string::StringExecFns;

use crate::text::to_lowercase;

verus! {

#[derive(Debug)]
pub struct Subject {
    pub name: String,
}

#[derive(Debug)]
pub struct Publisher {
    pub name: String,
}

#[derive(Debug)]
pub struct Author {
    pub name: String,
}

#[derive(Debug)]
pub struct Cover {
    pub small: Option<String>,
    pub medium: Option<String>,
    pub large: Option<String>,
}

#[derive(Debug)]
pub struct WorkLink {
    pub key: String,
}

impl Clone for Subject {
    fn clone(&self) -> (r: Self)
        ensures
            r == *self,
    {
        Subject { name: self.name.clone() }
    }
}

impl Clone for Publisher {
    fn clone(&self) -> (r: Self)
        ensures
            r == *self,
    {
        Publisher { name: self.name.clone() }
    }
}

impl Clone for Author {
    fn clone(&self) -> (r: Self)
        ensures
            r == *self,
    {
        Author { name: self.name.clone() }
    }
}

impl Clone for Cover {
    fn clone(&self) -> (r: Self)
        ensures
            r == *self,
    {
        Cover { small: self.small.clone(), medium: self.medium.clone(), large: self.large.clone() }
    }
}

impl Clone for WorkLink {
    fn clone(&self) -> (r: Self)
        ensures
            r == *self,
    {
        WorkLink { key: self.key.clone() }
    }
}

/// A book with everything the catalog service may know of it; `book_id` is
/// set once the book is stored.
#[derive(Debug)]
pub struct Book {
    pub book_id: Option<u32>,
    pub isbn: String,
    pub title: String,
    pub authors: Vec<Author>,
    pub publish_date: String,
    pub number_of_pages: Option<u32>,
    pub cover: Option<Cover>,
    pub works: Option<Vec<WorkLink>>,
    pub subjects: Option<Vec<Subject>>,
    pub publishers: Option<Vec<Publisher>>,
}

/// The record that the catalog service returns for one ISBN.
#[derive(Debug)]
pub struct OpenLibraryBook {
    pub title: String,
    pub authors: Vec<Author>,
    pub publish_date: String,
    pub number_of_pages: Option<u32>,
    pub cover: Option<Cover>,
    pub works: Option<Vec<WorkLink>>,
    pub subjects: Option<Vec<Subject>>,
    pub publishers: Option<Vec<Publisher>>,
}

fn copy_vec<T: Clone>(v: &Vec<T>) -> (r: Vec<T>)
    requires
        forall|a: T, b: T| #[trigger] cloned(a, b) ==> a == b,
    ensures
        r@ == v@,
{
    let r = v.clone();
    assert(r@ =~= v@);
    r
}

/// The items of an optional list.
pub open spec fn opt_items<T>(v: Option<Vec<T>>) -> Option<Seq<T>> {
    match v {
        Some(items) => Some(items@),
        None => None,
    }
}

fn copy_opt_vec<T: Clone>(v: &Option<Vec<T>>) -> (r: Option<Vec<T>>)
    requires
        forall|a: T, b: T| #[trigger] cloned(a, b) ==> a == b,
    ensures
        opt_items(r) == opt_items(*v),
{
    match v {
        Some(items) => Some(copy_vec(items)),
        None => None,
    }
}

/// The size of a cover picture, named by one of the words `small`, `medium`
/// and `large` in any case.
pub open spec fn cover_url(cover: Option<Cover>, which: Seq<char>) -> Option<String> {
    match cover {
        Some(c) => if which == "small"@ {
            c.small
        } else if which == "medium"@ {
            c.medium
        } else if which == "large"@ {
            c.large
        } else {
            None
        },
        None => None,
    }
}

/// `r` refers to the string `u` holds, or both are absent.
pub open spec fn same_url(r: Option<&String>, u: Option<String>) -> bool {
    match r {
        Some(s) => u == Some(*s),
        None => u is None,
    }
}

impl Default for Book {
    fn default() -> (r: Book)
        ensures
            r.book_id is None,
            r.isbn@.len() == 0,
            r.title@.len() == 0,
            r.authors@.len() == 0,
            r.publish_date@.len() == 0,
            r.number_of_pages is None,
            r.cover is None,
            r.works is None,
            r.subjects is None,
            r.publishers is None,
    {
        Book {
            book_id: None,
            isbn: String::new(),
            title: String::new(),
            authors: Vec::new(),
            publish_date: String::new(),
            number_of_pages: None,
            cover: None,
            works: None,
            subjects: None,
            publishers: None,
        }
    }
}

impl Book {
    /// A book that is not stored yet.
    pub fn new_without_id(
        isbn: String,
        title: String,
        authors: Vec<Author>,
        publish_date: String,
        number_of_pages: Option<u32>,
        cover: Option<Cover>,
        works: Option<Vec<WorkLink>>,
        subjects: Option<Vec<Subject>>,
        publishers: Option<Vec<Publisher>>,
    ) -> (r: Self)
        ensures
            r == (Book {
                book_id: None,
                isbn,
                title,
                authors,
                publish_date,
                number_of_pages,
                cover,
                works,
                subjects,
                publishers,
            }),
    {
        Self {
            book_id: None,
            isbn,
            title,
            authors,
            publish_date,
            number_of_pages,
            cover,
            works,
            subjects,
            publishers,
        }
    }

    pub fn get_id(&self) -> (r: Option<u32>)
        ensures
            r == self.book_id,
    {
        self.book_id
    }

    pub fn get_isbn(&self) -> (r: String)
        ensures
            r == self.isbn,
    {
        self.isbn.clone()
    }

    pub fn get_title(&self) -> (r: String)
        ensures
            r == self.title,
    {
        self.title.clone()
    }

    pub fn get_authors(&self) -> (r: Vec<Author>)
        ensures
            r@ == self.authors@,
    {
        copy_vec(&self.authors)
    }

    pub fn get_pub_date(&self) -> (r: String)
        ensures
            r == self.publish_date,
    {
        self.publish_date.clone()
    }

    pub fn get_number_of_pages(&self) -> (r: Option<u32>)
        ensures
            r == self.number_of_pages,
    {
        self.number_of_pages
    }

    pub fn get_works(&self) -> (r: Option<Vec<WorkLink>>)
        ensures
            opt_items(r) == opt_items(self.works),
    {
        copy_opt_vec(&self.works)
    }

    pub fn get_subjects(&self) -> (r: Option<Vec<Subject>>)
        ensures
            opt_items(r) == opt_items(self.subjects),
    {
        copy_opt_vec(&self.subjects)
    }

    pub fn get_publishers(&self) -> (r: Option<Vec<Publisher>>)
        ensures
            opt_items(r) == opt_items(self.publishers),
    {
        copy_opt_vec(&self.publishers)
    }

    pub fn has_cover(&self) -> (r: bool)
        ensures
            r == self.cover is Some,
    {
        self.cover.is_some()
    }

    pub fn get_covers(&self) -> (r: Option<Cover>)
        ensures
            r == self.cover,
    {
        self.cover.clone()
    }

    fn get_small_cover(&self) -> (r: Option<&String>)
        ensures
            same_url(r, cover_url(self.cover, "small"@)),
    {
        match &self.cover {
            Some(c) => match &c.small {
                Some(s) => Some(s),
                None => None,
            },
            None => None,
        }
    }

    fn get_medium_cover(&self) -> (r: Option<&String>)
        ensures
            same_url(r, cover_url(self.cover, "medium"@)),
    {
        proof {
            reveal_strlit("small");
            reveal_strlit("medium");
            assert("medium"@.len() != "small"@.len());
        }
        match &self.cover {
            Some(c) => match &c.medium {
                Some(s) => Some(s),
                None => None,
            },
            None => None,
        }
    }

    fn get_large_cover(&self) -> (r: Option<&String>)
        ensures
            same_url(r, cover_url(self.cover, "large"@)),
    {
        proof {
            reveal_strlit("small");
            reveal_strlit("medium");
            reveal_strlit("large");
            assert("large"@[0] != "small"@[0]);
            assert("large"@.len() != "medium"@.len());
        }
        match &self.cover {
            Some(c) => match &c.large {
                Some(s) => Some(s),
                None => None,
            },
            None => None,
        }
    }

    /// The cover picture URL of the size named by `size`, whatever its case;
    /// `None` for any other word or when the size is missing.
    pub fn get_cover_by_size(&self, size: &str) -> (r: Option<&String>)
        ensures
            same_url(r, cover_url(self.cover, crate::text::lowercase_of(size@))),
    {
        let lower = to_lowercase(size);
        if lower == "small".to_owned() {
            self.get_small_cover()
        } else if lower == "medium".to_owned() {
            self.get_medium_cover()
        } else if lower == "large".to_owned() {
            self.get_large_cover()
        } else {
            None
        }
    }
}

/// The book that a lookup of `isbn` yields from the service's record; it is
/// not stored yet.
pub fn book_from_record(isbn: &str, record: OpenLibraryBook) -> (r: Book)
    ensures
        r.book_id is None,
        r.isbn@ == isbn@,
        r.title == record.title,
        r.authors == record.authors,
        r.publish_date == record.publish_date,
        r.number_of_pages == record.number_of_pages,
        r.cover == record.cover,
        r.works == record.works,
        r.subjects == record.subjects,
        r.publishers == record.publishers,
{
    Book {
        book_id: None,
        isbn: isbn.to_owned(),
        title: record.title,
        authors: record.authors,
        publish_date: record.publish_date,
        number_of_pages: record.number_of_pages,
        cover: record.cover,
        works: record.works,
        subjects: record.subjects,
        publishers: record.publishers,
    }
}

} // verus!
