//! The decisions around a catalog-service lookup by ISBN: which ISBN is
//! asked for, where, under which key the answer comes, and whether the
//! service answered at all.
use vstd::prelude::*;
use vstd::string::StringExecFns;

use crate::isbn::{is_valid_isbn, isbn_ok};
use crate::text::{trim, trimmed};

verus! {

/// Why a lookup gave no record.
#[derive(Debug, Clone, Copy, PartialEq, Eq, Structural)]
pub enum LookupError {
    InvalidIsbn,
    HttpStatus(u16),
    Transport,
    Malformed,
    NotFound,
}

/// The ISBN to look up: the input trimmed, if it is a valid ISBN.
pub fn prepare_lookup(isbn: &str) -> (r: Result<String, LookupError>)
    ensures
        isbn_ok(trimmed(isbn@)) ==> r is Ok && r->Ok_0@ == trimmed(isbn@),
        !isbn_ok(trimmed(isbn@)) ==> r == Err::<String, LookupError>(LookupError::InvalidIsbn),
{
    let t = trim(isbn);
    if !is_valid_isbn(t) {
        return Err(LookupError::InvalidIsbn);
    }
    Ok(t.to_owned())
}

/// The address that asks the catalog service for one ISBN's data as JSON.
pub fn lookup_url(isbn: &str) -> (r: String)
    ensures
        r@ == "https://openlibrary.org/api/books?bibkeys=ISBN:"@ + isbn@
            + "&format=json&jscmd=data"@,
{
    let mut url = "https://openlibrary.org/api/books?bibkeys=ISBN:".to_owned();
    url.append(isbn);
    url.append("&format=json&jscmd=data");
    url
}

/// The key under which the service's answer holds the record.
pub fn lookup_key(isbn: &str) -> (r: String)
    ensures
        r@ == "ISBN:"@ + isbn@,
{
    let mut key = "ISBN:".to_owned();
    key.append(isbn);
    key
}

/// An HTTP status in the 2xx range is an answer; any other is an error.
pub fn check_status(code: u16) -> (r: Result<(), LookupError>)
    ensures
        200 <= code <= 299 ==> r is Ok,
        !(200 <= code <= 299) ==> r == Err::<(), LookupError>(LookupError::HttpStatus(code)),
{
    if 200 <= code && code <= 299 {
        Ok(())
    } else {
        Err(LookupError::HttpStatus(code))
    }
}

} // verus!
