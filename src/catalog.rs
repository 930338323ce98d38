//! The book catalog: stored books and the memberships that put a book in a
//! user's library.
use vstd::prelude::*;

use crate::book::{Author, Book};
use crate::isbn::{is_valid_isbn, isbn_ok};

verus! {

/// Why a catalog operation was refused.
#[derive(Debug, Clone, Copy, PartialEq, Eq, Structural)]
pub enum CatalogError {
    InvalidIsbn,
    DuplicateMembership,
    CatalogFull,
    BookNotFound,
    NotInLibrary,
    InvalidBookId,
    DuplicateBookId,
}

/// A stored book: what the catalog keeps of a bibliographic record.
#[derive(Debug)]
pub struct BookRecord {
    pub book_id: u32,
    pub title: String,
    pub primary_author: Option<String>,
    pub isbn: String,
}

impl Clone for BookRecord {
    fn clone(&self) -> (r: Self)
        ensures
            r == *self,
    {
        BookRecord {
            book_id: self.book_id,
            title: self.title.clone(),
            primary_author: self.primary_author.clone(),
            isbn: self.isbn.clone(),
        }
    }
}

/// Books, and the `(user_id, book_id)` pairs that put them in libraries.
pub struct BookCatalog {
    books: Vec<BookRecord>,
    memberships: Vec<(i32, u32)>,
    next_id: u64,
}

/// The mathematical content of a `BookCatalog`.
pub struct CatalogView {
    pub books: Seq<BookRecord>,
    pub memberships: Seq<(i32, u32)>,
    pub next_id: int,
}

impl View for BookCatalog {
    type V = CatalogView;

    closed spec fn view(&self) -> CatalogView {
        CatalogView {
            books: self.books@,
            memberships: self.memberships@,
            next_id: self.next_id as int,
        }
    }
}

/// The book ids of `user`'s memberships, in the order they were made.
pub open spec fn listed_ids(ms: Seq<(i32, u32)>, user: i32) -> Seq<u32>
    decreases ms.len(),
{
    if ms.len() == 0 {
        Seq::empty()
    } else if ms.last().0 == user {
        listed_ids(ms.drop_last(), user).push(ms.last().1)
    } else {
        listed_ids(ms.drop_last(), user)
    }
}

/// How many times `x` occurs in `s`.
pub open spec fn occurrences(s: Seq<u32>, x: u32) -> nat
    decreases s.len(),
{
    if s.len() == 0 {
        0
    } else {
        occurrences(s.drop_last(), x) + if s.last() == x {
            1nat
        } else {
            0nat
        }
    }
}

/// The index of the first book with this ISBN, or -1.
pub open spec fn isbn_position(books: Seq<BookRecord>, isbn: Seq<char>) -> int
    decreases books.len(),
{
    if books.len() == 0 {
        -1
    } else {
        let p = isbn_position(books.drop_last(), isbn);
        if p >= 0 {
            p
        } else if books.last().isbn@ == isbn {
            books.len() - 1
        } else {
            -1
        }
    }
}

/// The name of the first author, if there is one.
pub open spec fn first_author(authors: Seq<Author>) -> Option<Seq<char>> {
    if authors.len() > 0 {
        Some(authors[0].name@)
    } else {
        None
    }
}

/// The text of an optional string.
pub open spec fn opt_text(s: Option<String>) -> Option<Seq<char>> {
    match s {
        Some(t) => Some(t@),
        None => None,
    }
}

impl CatalogView {
    /// Ids are positive, below the next id and unique; memberships are
    /// unique pairs and each names a stored book.
    pub open spec fn wf(self) -> bool {
        &&& 1 <= self.next_id <= u32::MAX + 1
        &&& forall|i: int|
            0 <= i < self.books.len() ==> 1 <= #[trigger] self.books[i].book_id < self.next_id
        &&& forall|i: int, j: int|
            0 <= i < self.books.len() && 0 <= j < self.books.len() && i != j
                ==> #[trigger] self.books[i].book_id != #[trigger] self.books[j].book_id
        &&& forall|i: int, j: int|
            0 <= i < self.memberships.len() && 0 <= j < self.memberships.len() && i != j
                ==> #[trigger] self.memberships[i] != #[trigger] self.memberships[j]
        &&& forall|i: int|
            0 <= i < self.memberships.len() ==> self.has_book(#[trigger] self.memberships[i].1)
    }

    pub open spec fn has_book(self, book_id: u32) -> bool {
        exists|i: int| 0 <= i < self.books.len() && #[trigger] self.books[i].book_id == book_id
    }

    pub open spec fn holds(self, user_id: i32, book_id: u32) -> bool {
        self.memberships.contains((user_id, book_id))
    }

    /// The ids of the books in a user's library.
    pub open spec fn listing(self, user_id: i32) -> Seq<u32> {
        listed_ids(self.memberships, user_id)
    }
}

/// The refusal that adding this ISBN to `user_id`'s library owes, or `None`.
pub open spec fn add_error(c: CatalogView, user_id: i32, isbn: Seq<char>) -> Option<CatalogError> {
    let p = isbn_position(c.books, isbn);
    if !isbn_ok(isbn) {
        Some(CatalogError::InvalidIsbn)
    } else if p >= 0 && c.holds(user_id, c.books[p].book_id) {
        Some(CatalogError::DuplicateMembership)
    } else if p < 0 && c.next_id > u32::MAX {
        Some(CatalogError::CatalogFull)
    } else {
        None
    }
}

/// How adding a book relates the catalog before (`c1`) and after (`c2`) to
/// the result. A stored book with the same ISBN is reused; otherwise a new
/// book is stored under the next id with the record's title and first
/// author. Either way one membership is appended.
pub open spec fn added(
    c1: CatalogView,
    c2: CatalogView,
    user_id: i32,
    isbn: Seq<char>,
    title: Seq<char>,
    authors: Seq<Author>,
    r: Result<u32, CatalogError>,
) -> bool {
    let p = isbn_position(c1.books, isbn);
    match add_error(c1, user_id, isbn) {
        Some(err) => r == Err::<u32, CatalogError>(err) && c2 == c1,
        None => {
            &&& r is Ok
            &&& c2.memberships == c1.memberships.push((user_id, r->Ok_0))
            &&& if p >= 0 {
                &&& r->Ok_0 == c1.books[p].book_id
                &&& c2.books == c1.books
                &&& c2.next_id == c1.next_id
            } else {
                &&& r->Ok_0 == c1.next_id
                &&& c2.next_id == c1.next_id + 1
                &&& c2.books.len() == c1.books.len() + 1
                &&& c2.books == c1.books.push(c2.books.last())
                &&& c2.books.last().book_id == r->Ok_0
                &&& c2.books.last().title@ == title
                &&& opt_text(c2.books.last().primary_author) == first_author(authors)
                &&& c2.books.last().isbn@ == isbn
            }
        },
    }
}

/// The refusal that removing `book_id` from `user_id`'s library owes, or
/// `None`: the book must exist at all, then be in this user's library.
pub open spec fn remove_error(c: CatalogView, user_id: i32, book_id: u32) -> Option<CatalogError> {
    if !c.has_book(book_id) {
        Some(CatalogError::BookNotFound)
    } else if !c.holds(user_id, book_id) {
        Some(CatalogError::NotInLibrary)
    } else {
        None
    }
}

/// How removing a membership relates the catalog before and after: only the
/// one pair `(user_id, book_id)` goes; books stay.
pub open spec fn removed(
    c1: CatalogView,
    c2: CatalogView,
    user_id: i32,
    book_id: u32,
    r: Result<(), CatalogError>,
) -> bool {
    match remove_error(c1, user_id, book_id) {
        Some(err) => r == Err::<(), CatalogError>(err) && c2 == c1,
        None => {
            &&& r is Ok
            &&& c2.books == c1.books
            &&& c2.next_id == c1.next_id
            &&& exists|k: int|
                0 <= k < c1.memberships.len() && #[trigger] c1.memberships[k] == (user_id, book_id)
                    && c2.memberships == c1.memberships.remove(k)
        },
    }
}

proof fn lemma_isbn_position_none(books: Seq<BookRecord>, isbn: Seq<char>)
    requires
        forall|j: int| 0 <= j < books.len() ==> (#[trigger] books[j]).isbn@ != isbn,
    ensures
        isbn_position(books, isbn) == -1,
    decreases books.len(),
{
    if books.len() > 0 {
        let prefix = books.drop_last();
        assert forall|j: int| 0 <= j < prefix.len() implies (#[trigger] prefix[j]).isbn@ != isbn by {
            assert(prefix[j] == books[j]);
        }
        lemma_isbn_position_none(prefix, isbn);
        assert(books.last() == books[books.len() - 1]);
    }
}

proof fn lemma_isbn_position_first(books: Seq<BookRecord>, isbn: Seq<char>, i: int)
    requires
        0 <= i < books.len(),
        books[i].isbn@ == isbn,
        forall|j: int| 0 <= j < i ==> (#[trigger] books[j]).isbn@ != isbn,
    ensures
        isbn_position(books, isbn) == i,
    decreases books.len(),
{
    let prefix = books.drop_last();
    if i == books.len() - 1 {
        assert forall|j: int| 0 <= j < prefix.len() implies (#[trigger] prefix[j]).isbn@ != isbn by {
            assert(prefix[j] == books[j]);
        }
        lemma_isbn_position_none(prefix, isbn);
    } else {
        assert forall|j: int| 0 <= j < i implies (#[trigger] prefix[j]).isbn@ != isbn by {
            assert(prefix[j] == books[j]);
        }
        assert(prefix[i] == books[i]);
        lemma_isbn_position_first(prefix, isbn, i);
    }
}

impl BookCatalog {
    /// An empty catalog.
    pub fn new() -> (r: BookCatalog)
        ensures
            r@.wf(),
            r@.books.len() == 0,
            r@.memberships.len() == 0,
            r@.next_id == 1,
    {
        BookCatalog { books: Vec::new(), memberships: Vec::new(), next_id: 1 }
    }

    /// The stored books, in the order they were added.
    pub fn books(&self) -> (r: &Vec<BookRecord>)
        ensures
            r@ == self@.books,
    {
        &self.books
    }

    /// The memberships, in the order they were made.
    pub fn memberships(&self) -> (r: &Vec<(i32, u32)>)
        ensures
            r@ == self@.memberships,
    {
        &self.memberships
    }

    fn find_book(&self, book_id: u32) -> (r: Option<usize>)
        ensures
            match r {
                Some(i) => i < self@.books.len() && self@.books[i as int].book_id == book_id,
                None => !self@.has_book(book_id),
            },
    {
        let mut i: usize = 0;
        while i < self.books.len()
            invariant
                0 <= i <= self.books@.len(),
                forall|k: int| 0 <= k < i ==> #[trigger] self.books@[k].book_id != book_id,
            decreases self.books@.len() - i,
        {
            if self.books[i].book_id == book_id {
                return Some(i);
            }
            i = i + 1;
        }
        None
    }

    fn find_isbn(&self, isbn: &String) -> (r: Option<usize>)
        ensures
            match r {
                Some(i) => i < self@.books.len() && i == isbn_position(self@.books, isbn@),
                None => isbn_position(self@.books, isbn@) == -1,
            },
    {
        let mut i: usize = 0;
        while i < self.books.len()
            invariant
                0 <= i <= self.books@.len(),
                forall|k: int| 0 <= k < i ==> (#[trigger] self.books@[k]).isbn@ != isbn@,
            decreases self.books@.len() - i,
        {
            if self.books[i].isbn == *isbn {
                proof {
                    lemma_isbn_position_first(self.books@, isbn@, i as int);
                }
                return Some(i);
            }
            i = i + 1;
        }
        proof {
            lemma_isbn_position_none(self.books@, isbn@);
        }
        None
    }

    fn find_membership(&self, user_id: i32, book_id: u32) -> (r: Option<usize>)
        ensures
            match r {
                Some(k) => k < self@.memberships.len() && self@.memberships[k as int] == (
                user_id,
                book_id,
                ),
                None => !self@.holds(user_id, book_id),
            },
    {
        let mut k: usize = 0;
        while k < self.memberships.len()
            invariant
                0 <= k <= self.memberships@.len(),
                forall|j: int| 0 <= j < k ==> #[trigger] self.memberships@[j] != (user_id, book_id),
            decreases self.memberships@.len() - k,
        {
            let m = self.memberships[k];
            if m.0 == user_id && m.1 == book_id {
                return Some(k);
            }
            k = k + 1;
        }
        None
    }

    /// True when a book with this id is stored, whoever holds it.
    pub fn book_exists(&self, book_id: u32) -> (r: bool)
        ensures
            r == self@.has_book(book_id),
    {
        self.find_book(book_id).is_some()
    }

    /// Adds a book read back from storage, keeping ids unique.
    pub fn load_book(&mut self, rec: BookRecord) -> (r: Result<(), CatalogError>)
        requires
            old(self)@.wf(),
        ensures
            final(self)@.wf(),
            r == (if rec.book_id == 0 {
                Err::<(), CatalogError>(CatalogError::InvalidBookId)
            } else if old(self)@.has_book(rec.book_id) {
                Err(CatalogError::DuplicateBookId)
            } else {
                Ok(())
            }),
            r is Ok ==> final(self)@.books == old(self)@.books.push(rec),
            final(self)@.memberships == old(self)@.memberships,
            r is Err ==> final(self)@ == old(self)@,
    {
        if rec.book_id == 0 {
            return Err(CatalogError::InvalidBookId);
        }
        if self.find_book(rec.book_id).is_some() {
            return Err(CatalogError::DuplicateBookId);
        }
        let id = rec.book_id;
        self.books.push(rec);
        if self.next_id <= id as u64 {
            self.next_id = id as u64 + 1;
        }
        proof {
            assert forall|i: int| 0 <= i < self@.memberships.len() implies self@.has_book(
                #[trigger] self@.memberships[i].1,
            ) by {
                assert(old(self)@.memberships[i] == self@.memberships[i]);
                assert(old(self)@.has_book(old(self)@.memberships[i].1));
                let b = choose|j: int|
                    0 <= j < old(self)@.books.len() && #[trigger] old(self)@.books[j].book_id
                        == self@.memberships[i].1;
                assert(self@.books[b] == old(self)@.books[b]);
            }
        }
        Ok(())
    }

    /// Adds a membership read back from storage: the book must be stored and
    /// the pair new.
    pub fn load_membership(&mut self, user_id: i32, book_id: u32) -> (r: Result<(), CatalogError>)
        requires
            old(self)@.wf(),
        ensures
            final(self)@.wf(),
            r == (if !old(self)@.has_book(book_id) {
                Err::<(), CatalogError>(CatalogError::BookNotFound)
            } else if old(self)@.holds(user_id, book_id) {
                Err(CatalogError::DuplicateMembership)
            } else {
                Ok(())
            }),
            r is Ok ==> final(self)@.memberships == old(self)@.memberships.push((user_id, book_id)),
            final(self)@.books == old(self)@.books,
            r is Err ==> final(self)@ == old(self)@,
    {
        if self.find_book(book_id).is_none() {
            return Err(CatalogError::BookNotFound);
        }
        if self.find_membership(user_id, book_id).is_some() {
            return Err(CatalogError::DuplicateMembership);
        }
        let ghost c1 = self@;
        self.memberships.push((user_id, book_id));
        proof {
            self.lemma_push_membership(c1, user_id, book_id);
        }
        Ok(())
    }

    /// Puts the book with this ISBN in `user_id`'s library, storing it first
    /// from `book` (title and first author) unless a book with the same ISBN
    /// is stored already. See `added` for the outcome.
    pub fn add_to_library(&mut self, user_id: i32, isbn: &str, book: &Book) -> (r: Result<
        u32,
        CatalogError,
    >)
        requires
            old(self)@.wf(),
        ensures
            final(self)@.wf(),
            added(old(self)@, final(self)@, user_id, isbn@, book.title@, book.authors@, r),
    {
        if !is_valid_isbn(isbn) {
            return Err(CatalogError::InvalidIsbn);
        }
        let key = isbn.to_owned();
        let ghost c1 = self@;
        match self.find_isbn(&key) {
            Some(p) => {
                let id = self.books[p].book_id;
                if self.find_membership(user_id, id).is_some() {
                    return Err(CatalogError::DuplicateMembership);
                }
                self.memberships.push((user_id, id));
                proof {
                    assert(c1.has_book(c1.books[p as int].book_id));
                    self.lemma_push_membership(c1, user_id, id);
                }
                Ok(id)
            },
            None => {
                if self.next_id > u32::MAX as u64 {
                    return Err(CatalogError::CatalogFull);
                }
                let id = self.next_id as u32;
                let author = if book.authors.len() > 0 {
                    Some(book.authors[0].name.clone())
                } else {
                    None
                };
                let rec = BookRecord {
                    book_id: id,
                    title: book.title.clone(),
                    primary_author: author,
                    isbn: key,
                };
                self.books.push(rec);
                self.next_id = self.next_id + 1;
                let ghost c_mid = self@;
                proof {
                    assert forall|i: int| 0 <= i < c_mid.memberships.len() implies c_mid.has_book(
                        #[trigger] c_mid.memberships[i].1,
                    ) by {
                        assert(c1.has_book(c1.memberships[i].1));
                        let b = choose|j: int|
                            0 <= j < c1.books.len() && #[trigger] c1.books[j].book_id
                                == c1.memberships[i].1;
                        assert(c_mid.books[b] == c1.books[b]);
                    }
                    assert forall|i: int| 0 <= i < c1.memberships.len() implies #[trigger] c1.memberships[i]
                        != (user_id, id) by {
                        assert(c1.has_book(c1.memberships[i].1));
                    }
                    assert(c_mid.has_book(id)) by {
                        assert(c_mid.books[c_mid.books.len() - 1].book_id == id);
                    }
                    assert(c_mid.wf()) by {
                        assert forall|i: int, j: int|
                            0 <= i < c_mid.books.len() && 0 <= j < c_mid.books.len() && i != j
                                implies #[trigger] c_mid.books[i].book_id
                            != #[trigger] c_mid.books[j].book_id by {
                            if i < c1.books.len() {
                                assert(c_mid.books[i] == c1.books[i]);
                            }
                            if j < c1.books.len() {
                                assert(c_mid.books[j] == c1.books[j]);
                            }
                        }
                    }
                }
                self.memberships.push((user_id, id));
                proof {
                    self.lemma_push_membership(c_mid, user_id, id);
                }
                Ok(id)
            },
        }
    }

    proof fn lemma_push_membership(&self, c: CatalogView, user_id: i32, book_id: u32)
        requires
            c.wf(),
            c.has_book(book_id),
            !c.holds(user_id, book_id),
            self@.books == c.books,
            self@.next_id == c.next_id,
            self@.memberships == c.memberships.push((user_id, book_id)),
        ensures
            self@.wf(),
    {
        let ms = self@.memberships;
        assert forall|i: int, j: int|
            0 <= i < ms.len() && 0 <= j < ms.len() && i != j implies #[trigger] ms[i]
            != #[trigger] ms[j] by {
            if i == ms.len() - 1 {
                assert(!c.memberships.contains(ms[i]));
                assert(c.memberships[j] == ms[j]);
            } else if j == ms.len() - 1 {
                assert(!c.memberships.contains(ms[j]));
                assert(c.memberships[i] == ms[i]);
            } else {
                assert(c.memberships[i] == ms[i]);
                assert(c.memberships[j] == ms[j]);
            }
        }
        assert forall|i: int| 0 <= i < ms.len() implies self@.has_book(#[trigger] ms[i].1) by {
            if i < c.memberships.len() {
                assert(c.memberships[i] == ms[i]);
                assert(c.has_book(c.memberships[i].1));
            }
        }
    }

    /// The books in `user_id`'s library, in the order they were added.
    pub fn list_for_user(&self, user_id: i32) -> (r: Vec<BookRecord>)
        requires
            self@.wf(),
        ensures
            r@.len() == self@.listing(user_id).len(),
            forall|i: int|
                0 <= i < r@.len() ==> #[trigger] r@[i].book_id == self@.listing(user_id)[i]
                    && self@.books.contains(r@[i]),
    {
        let mut out: Vec<BookRecord> = Vec::new();
        let mut k: usize = 0;
        while k < self.memberships.len()
            invariant
                self@.wf(),
                0 <= k <= self@.memberships.len(),
                out@.len() == listed_ids(self@.memberships.subrange(0, k as int), user_id).len(),
                forall|i: int|
                    0 <= i < out@.len() ==> #[trigger] out@[i].book_id == listed_ids(
                        self@.memberships.subrange(0, k as int),
                        user_id,
                    )[i] && self@.books.contains(out@[i]),
            decreases self@.memberships.len() - k,
        {
            let m = self.memberships[k];
            let ghost before = self@.memberships.subrange(0, k as int);
            let ghost after = self@.memberships.subrange(0, k + 1);
            proof {
                assert(after.drop_last() =~= before);
                assert(after.last() == m);
            }
            if m.0 == user_id {
                proof {
                    assert(self@.has_book(self@.memberships[k as int].1));
                }
                match self.find_book(m.1) {
                    Some(b) => {
                        out.push(self.books[b].clone());
                        proof {
                            assert(self@.books[b as int] == out@.last());
                            assert(self@.books.contains(out@[out@.len() - 1]));
                        }
                    },
                    None => {},
                }
            }
            k = k + 1;
        }
        proof {
            assert(self@.memberships.subrange(0, k as int) =~= self@.memberships);
        }
        out
    }

    /// Takes the book out of `user_id`'s library, leaving the stored book and
    /// every other membership. See `removed` for the outcome.
    pub fn remove_from_library(&mut self, user_id: i32, book_id: u32) -> (r: Result<(), CatalogError>)
        requires
            old(self)@.wf(),
        ensures
            final(self)@.wf(),
            removed(old(self)@, final(self)@, user_id, book_id, r),
    {
        if self.find_book(book_id).is_none() {
            return Err(CatalogError::BookNotFound);
        }
        let k = match self.find_membership(user_id, book_id) {
            Some(k) => k,
            None => {
                return Err(CatalogError::NotInLibrary);
            },
        };
        let ghost c1 = self@;
        self.memberships.remove(k);
        proof {
            let ms = self@.memberships;
            assert(ms =~= c1.memberships.remove(k as int));
            assert forall|i: int| 0 <= i < ms.len() implies #[trigger] ms[i] == c1.memberships[
                if i < k {
                    i
                } else {
                    i + 1
                }] by {}
            assert forall|i: int, j: int|
                0 <= i < ms.len() && 0 <= j < ms.len() && i != j implies #[trigger] ms[i]
                != #[trigger] ms[j] by {
                let i1 = if i < k { i } else { i + 1 };
                let j1 = if j < k { j } else { j + 1 };
                assert(ms[i] == c1.memberships[i1]);
                assert(ms[j] == c1.memberships[j1]);
            }
            assert forall|i: int| 0 <= i < ms.len() implies self@.has_book(#[trigger] ms[i].1) by {
                let i1 = if i < k { i } else { i + 1 };
                assert(ms[i] == c1.memberships[i1]);
                assert(c1.has_book(c1.memberships[i1].1));
            }
            assert(c1.memberships[k as int] == (user_id, book_id));
        }
        Ok(())
    }
}

proof fn lemma_listed_only_held(ms: Seq<(i32, u32)>, user_id: i32, x: u32)
    requires
        occurrences(listed_ids(ms, user_id), x) > 0,
    ensures
        ms.contains((user_id, x)),
    decreases ms.len(),
{
    if ms.len() > 0 {
        let prefix = ms.drop_last();
        if ms.last().0 == user_id && ms.last().1 == x {
            assert(ms[ms.len() - 1] == (user_id, x));
        } else {
            if ms.last().0 == user_id {
                assert(listed_ids(ms, user_id).drop_last() =~= listed_ids(prefix, user_id));
            }
            lemma_listed_only_held(prefix, user_id, x);
            let j = choose|j: int| 0 <= j < prefix.len() && prefix[j] == (user_id, x);
            assert(ms[j] == prefix[j]);
        }
    }
}

proof fn lemma_listed_after_push(ms: Seq<(i32, u32)>, user_id: i32, x: u32)
    ensures
        listed_ids(ms.push((user_id, x)), user_id) == listed_ids(ms, user_id).push(x),
{
    assert(ms.push((user_id, x)).drop_last() =~= ms);
}

proof fn lemma_listed_after_remove(ms: Seq<(i32, u32)>, k: int, user_id: i32)
    requires
        0 <= k < ms.len(),
        ms[k].0 != user_id,
    ensures
        listed_ids(ms.remove(k), user_id) == listed_ids(ms, user_id),
    decreases ms.len(),
{
    let r = ms.remove(k);
    if k == ms.len() - 1 {
        assert(r =~= ms.drop_last());
    } else {
        assert(r.drop_last() =~= ms.drop_last().remove(k));
        assert(r.last() == ms.last());
        lemma_listed_after_remove(ms.drop_last(), k, user_id);
    }
}

/// Adding a book and then listing the same user's library shows the book
/// exactly once.
pub proof fn lemma_add_then_list(
    c1: CatalogView,
    c2: CatalogView,
    user_id: i32,
    isbn: Seq<char>,
    title: Seq<char>,
    authors: Seq<Author>,
    r: Result<u32, CatalogError>,
)
    requires
        c1.wf(),
        added(c1, c2, user_id, isbn, title, authors, r),
        r is Ok,
    ensures
        occurrences(c2.listing(user_id), r->Ok_0) == 1,
{
    let id = r->Ok_0;
    let p = isbn_position(c1.books, isbn);
    assert(!c1.holds(user_id, id)) by {
        if p < 0 && c1.holds(user_id, id) {
            let j = choose|j: int| 0 <= j < c1.memberships.len() && c1.memberships[j] == (user_id, id);
            assert(c1.has_book(c1.memberships[j].1));
        }
    }
    if occurrences(c1.listing(user_id), id) > 0 {
        lemma_listed_only_held(c1.memberships, user_id, id);
    }
    lemma_listed_after_push(c1.memberships, user_id, id);
    assert(c2.listing(user_id).drop_last() =~= c1.listing(user_id));
}

/// Removing a book from one user's library takes it out of that user's
/// listing and leaves every other user's listing as it was, including users
/// who hold the same book.
pub proof fn lemma_remove_then_list(
    c1: CatalogView,
    c2: CatalogView,
    user_id: i32,
    book_id: u32,
    r: Result<(), CatalogError>,
    other: i32,
)
    requires
        c1.wf(),
        removed(c1, c2, user_id, book_id, r),
        r is Ok,
        other != user_id,
    ensures
        occurrences(c2.listing(user_id), book_id) == 0,
        c2.listing(other) == c1.listing(other),
{
    let k = choose|k: int|
        0 <= k < c1.memberships.len() && #[trigger] c1.memberships[k] == (user_id, book_id)
            && c2.memberships == c1.memberships.remove(k);
    lemma_listed_after_remove(c1.memberships, k, other);
    if occurrences(c2.listing(user_id), book_id) > 0 {
        lemma_listed_only_held(c2.memberships, user_id, book_id);
        let j = choose|j: int| 0 <= j < c2.memberships.len() && c2.memberships[j] == (user_id, book_id);
        let j1 = if j < k { j } else { j + 1 };
        assert(c2.memberships[j] == c1.memberships[j1]);
    }
}

} // verus!
