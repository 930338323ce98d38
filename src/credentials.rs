//! Salts, password hashing and the password and name policies.
use vstd::prelude::*;
use vstd::string::StringExecFns;

use rand::Rng;

use crate::isbn::is_decimal_digit;
use crate::text::{
    alphabetic_char, alphanumeric_char, is_alphabetic, is_alphanumeric, is_lowercase,
    is_uppercase, is_whitespace, lowercase_char, push_char, uppercase_char, whitespace_char,
};

verus! {

/// The error type of the `bcrypt` crate.
#[verifier::external_type_specification]
#[verifier::external_body]
pub struct ExBcryptError(bcrypt::BcryptError);

/// What `bcrypt::verify(password, hash)` returns, with its error collapsed
/// to `None`: it depends on the two strings alone.
pub uninterp spec fn bcrypt_verify_outcome(password: Seq<char>, hash: Seq<char>) -> Option<bool>;

/// `candidate` reproduces the stored bcrypt `hash`.
pub open spec fn hash_verifies(candidate: Seq<char>, hash: Seq<char>) -> bool {
    bcrypt_verify_outcome(candidate, hash) == Some(true)
}

/// A character a salt may hold: printable ASCII from `!` to `~`, which leaves
/// out space and every control character.
pub open spec fn is_salt_char(c: char) -> bool {
    '!' <= c && c <= '~'
}

/// The password policy: at least eight characters, with an uppercase letter,
/// a lowercase letter, a decimal digit and a character that is neither a
/// letter nor a digit.
pub open spec fn safe_password(s: Seq<char>) -> bool {
    &&& s.len() >= 8
    &&& exists|i: int| 0 <= i < s.len() && uppercase_char(#[trigger] s[i])
    &&& exists|i: int| 0 <= i < s.len() && lowercase_char(#[trigger] s[i])
    &&& exists|i: int| 0 <= i < s.len() && is_decimal_digit(#[trigger] s[i])
    &&& exists|i: int| 0 <= i < s.len() && !alphanumeric_char(#[trigger] s[i])
}

/// A character allowed in a person's name: a letter, whitespace or a hyphen.
pub open spec fn is_name_char(c: char) -> bool {
    alphabetic_char(c) || whitespace_char(c) || c == '-'
}

/// A name is non-empty and made of letters, whitespace and hyphens.
pub open spec fn valid_name(s: Seq<char>) -> bool {
    s.len() > 0 && forall|i: int| 0 <= i < s.len() ==> is_name_char(#[trigger] s[i])
}

/// Relies on `rand::thread_rng` and `Rng::gen_range`: a number drawn from
/// `0..n`, which panics on an empty range.
#[verifier::external_body]
fn random_below(n: usize) -> (r: usize)
    requires
        n > 0,
    ensures
        r < n,
{
    rand::thread_rng().gen_range(0..n)
}

/// Relies on `bcrypt::hash` at `bcrypt::DEFAULT_COST`: the hash embeds a
/// random salt and the cost, and `bcrypt::verify` accepts the same password
/// against it.
#[verifier::external_body]
fn bcrypt_hash(password: &str) -> (r: Result<String, bcrypt::BcryptError>)
    ensures
        r is Ok ==> hash_verifies(password@, r->Ok_0@),
{
    bcrypt::hash(password, bcrypt::DEFAULT_COST)
}

/// Relies on `bcrypt::verify`: re-hashes `password` with the cost and salt
/// read from `hash` and compares; a malformed hash is an error.
#[verifier::external_body]
fn bcrypt_verify(password: &str, hash: &str) -> (r: Option<bool>)
    ensures
        r == bcrypt_verify_outcome(password@, hash@),
{
    bcrypt::verify(password, hash).ok()
}

/// A random salt of `length` printable characters from `!` to `~`.
pub fn generate_salt(length: usize) -> (r: String)
    ensures
        r@.len() == length,
        forall|i: int| 0 <= i < length ==> is_salt_char(#[trigger] r@[i]),
{
    let mut allowed: Vec<char> = Vec::new();
    let mut b: u8 = 33;
    while b <= 126
        invariant
            33 <= b <= 127,
            allowed@.len() == b - 33,
            forall|k: int| 0 <= k < allowed@.len() ==> is_salt_char(#[trigger] allowed@[k]),
        decreases 127 - b,
    {
        let c = b as char;
        allowed.push(c);
        b = b + 1;
    }
    let mut salt = String::new();
    let mut i: usize = 0;
    while i < length
        invariant
            0 <= i <= length,
            allowed@.len() == 94,
            forall|k: int| 0 <= k < allowed@.len() ==> is_salt_char(#[trigger] allowed@[k]),
            salt@.len() == i,
            forall|k: int| 0 <= k < i ==> is_salt_char(#[trigger] salt@[k]),
        decreases length - i,
    {
        let k = random_below(allowed.len());
        push_char(&mut salt, allowed[k]);
        i = i + 1;
    }
    salt
}

/// Hashes `password` followed by `salt` with bcrypt; whatever hash comes
/// back, `verify_hash` accepts the same salted password against it.
pub fn hash_password(password: &str, salt: &str) -> (r: Result<String, bcrypt::BcryptError>)
    ensures
        r is Ok ==> hash_verifies(password@ + salt@, r->Ok_0@),
{
    let mut salted = password.to_owned();
    salted.append(salt);
    bcrypt_hash(salted.as_str())
}

/// True when `candidate` (a password followed by its salt) reproduces the
/// stored bcrypt hash; a malformed hash gives false.
pub fn verify_hash(candidate: &str, hashed: &str) -> (r: bool)
    ensures
        r == hash_verifies(candidate@, hashed@),
{
    match bcrypt_verify(candidate, hashed) {
        Some(ok) => ok,
        None => false,
    }
}

/// Checks the password policy of `safe_password`.
pub fn is_safe_password(password: &str) -> (r: bool)
    ensures
        r == safe_password(password@),
{
    let n = password.unicode_len();
    let mut has_upper = false;
    let mut has_lower = false;
    let mut has_digit = false;
    let mut has_special = false;
    let mut i: usize = 0;
    while i < n
        invariant
            n == password@.len(),
            0 <= i <= n,
            has_upper == exists|k: int| 0 <= k < i && uppercase_char(#[trigger] password@[k]),
            has_lower == exists|k: int| 0 <= k < i && lowercase_char(#[trigger] password@[k]),
            has_digit == exists|k: int| 0 <= k < i && is_decimal_digit(#[trigger] password@[k]),
            has_special == exists|k: int|
                0 <= k < i && !alphanumeric_char(#[trigger] password@[k]),
        decreases n - i,
    {
        let c = password.get_char(i);
        if is_uppercase(c) {
            has_upper = true;
        }
        if is_lowercase(c) {
            has_lower = true;
        }
        if '0' <= c && c <= '9' {
            has_digit = true;
        }
        if !is_alphanumeric(c) {
            has_special = true;
        }
        i = i + 1;
    }
    n >= 8 && has_upper && has_lower && has_digit && has_special
}

/// Checks that a name is non-empty and holds only letters, whitespace and
/// hyphens.
pub fn is_valid_name(name: &str) -> (r: bool)
    ensures
        r == valid_name(name@),
{
    let n = name.unicode_len();
    if n == 0 {
        return false;
    }
    let mut i: usize = 0;
    while i < n
        invariant
            n == name@.len(),
            0 <= i <= n,
            forall|k: int| 0 <= k < i ==> is_name_char(#[trigger] name@[k]),
        decreases n - i,
    {
        let c = name.get_char(i);
        if !(is_alphabetic(c) || is_whitespace(c) || c == '-') {
            return false;
        }
        i = i + 1;
    }
    true
}

} // verus!
