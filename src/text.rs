//! Character and string operations of the standard library that the
//! library's rules are written over.
use vstd::prelude::*;

verus! {

/// What `char::is_whitespace` answers: the Unicode `White_Space` property.
pub uninterp spec fn whitespace_char(c: char) -> bool;

/// What `char::is_alphabetic` answers: the Unicode `Alphabetic` property.
pub uninterp spec fn alphabetic_char(c: char) -> bool;

/// What `char::is_alphanumeric` answers: Unicode `Alphabetic` or numeric.
pub uninterp spec fn alphanumeric_char(c: char) -> bool;

/// What `char::is_uppercase` answers: the Unicode `Uppercase` property.
pub uninterp spec fn uppercase_char(c: char) -> bool;

/// What `char::is_lowercase` answers: the Unicode `Lowercase` property.
pub uninterp spec fn lowercase_char(c: char) -> bool;

/// What `str::to_lowercase` returns: the Unicode lowercase mapping of each
/// character, with the context rule for a final capital sigma.
pub uninterp spec fn lowercase_of(s: Seq<char>) -> Seq<char>;

/// `s` with its leading whitespace removed.
pub open spec fn trim_start_of(s: Seq<char>) -> Seq<char>
    decreases s.len(),
{
    if s.len() > 0 && whitespace_char(s[0]) {
        trim_start_of(s.drop_first())
    } else {
        s
    }
}

/// `s` with its trailing whitespace removed.
pub open spec fn trim_end_of(s: Seq<char>) -> Seq<char>
    decreases s.len(),
{
    if s.len() > 0 && whitespace_char(s.last()) {
        trim_end_of(s.drop_last())
    } else {
        s
    }
}

/// `s` with leading and trailing whitespace removed.
pub open spec fn trimmed(s: Seq<char>) -> Seq<char> {
    trim_end_of(trim_start_of(s))
}

/// Relies on `String::push`: appends one character.
#[verifier::external_body]
pub(crate) fn push_char(s: &mut String, c: char)
    ensures
        final(s)@ == old(s)@.push(c),
{
    s.push(c)
}

/// Relies on `str::trim`: removes leading and trailing characters for which
/// `char::is_whitespace` holds.
#[verifier::external_body]
pub(crate) fn trim(s: &str) -> (r: &str)
    ensures
        r@ == trimmed(s@),
{
    s.trim()
}

/// Relies on `str::to_lowercase`: the lowercase mapping of the whole string,
/// which depends on its characters alone.
#[verifier::external_body]
pub(crate) fn to_lowercase(s: &str) -> (r: String)
    ensures
        r@ == lowercase_of(s@),
        s@.len() == 0 ==> r@.len() == 0,
{
    s.to_lowercase()
}

/// Relies on `char::is_whitespace`.
#[verifier::external_body]
pub(crate) fn is_whitespace(c: char) -> (r: bool)
    ensures
        r == whitespace_char(c),
{
    c.is_whitespace()
}

/// Relies on `char::is_alphabetic`.
#[verifier::external_body]
pub(crate) fn is_alphabetic(c: char) -> (r: bool)
    ensures
        r == alphabetic_char(c),
{
    c.is_alphabetic()
}

/// Relies on `char::is_alphanumeric`.
#[verifier::external_body]
pub(crate) fn is_alphanumeric(c: char) -> (r: bool)
    ensures
        r == alphanumeric_char(c),
{
    c.is_alphanumeric()
}

/// Relies on `char::is_uppercase`.
#[verifier::external_body]
pub(crate) fn is_uppercase(c: char) -> (r: bool)
    ensures
        r == uppercase_char(c),
{
    c.is_uppercase()
}

/// Relies on `char::is_lowercase`.
#[verifier::external_body]
pub(crate) fn is_lowercase(c: char) -> (r: bool)
    ensures
        r == lowercase_char(c),
{
    c.is_lowercase()
}

} // verus!
