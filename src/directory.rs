//! The user directory: identities with their salted credentials, unique by
//! case-normalised email, with registration and sign-in.
use vstd::prelude::*;
use vstd::string::StringExecFns;

use validator::ValidateEmail;

use crate::credentials::{
    generate_salt, hash_password, hash_verifies, is_safe_password, is_salt_char, is_valid_name,
    safe_password, valid_name, verify_hash,
};
use crate::text::{lowercase_of, to_lowercase, trim, trimmed};
use crate::user::{anonymous_view, User, UserView};

verus! {

/// What `validator::ValidateEmail::validate_email` answers for a string: the
/// user part and the domain part (or its IDNA form) match the address
/// grammar and length limits.
pub uninterp spec fn email_is_valid(s: Seq<char>) -> bool;

/// Relies on `validator::ValidateEmail::validate_email` on `&str`; it rejects
/// the empty string and any string without `@`.
#[verifier::external_body]
fn validate_email(s: &str) -> (r: bool)
    ensures
        r == email_is_valid(s@),
        s@.len() == 0 ==> !r,
        (forall|i: int| 0 <= i < s@.len() ==> s@[i] != '@') ==> !r,
{
    s.validate_email()
}

/// Number of characters in a freshly generated salt.
pub const SALT_LENGTH: usize = 25;

/// Why an account operation was refused.
#[derive(Debug, Clone, Copy, PartialEq, Eq, Structural)]
pub enum AccountError {
    InvalidEmail,
    DuplicateEmail,
    InvalidFirstname,
    InvalidLastname,
    WeakPassword,
    PasswordMismatch,
    AdministratorExists,
    HashFailure,
    DirectoryFull,
    InvalidUserId,
    DuplicateUserId,
}

/// One user with the credential that belongs to it.
pub struct UserRecord {
    pub user_id: i32,
    pub email: String,
    pub firstname: String,
    pub lastname: String,
    pub salt: String,
    pub password_hash: String,
    pub is_admin: bool,
}

/// All users, each with its salt and hash; ids are assigned in increasing
/// order from 1.
pub struct UserDirectory {
    records: Vec<UserRecord>,
    next_id: i64,
}

/// The mathematical content of a `UserDirectory`.
pub struct DirectoryView {
    pub records: Seq<UserRecord>,
    pub next_id: int,
}

impl View for UserDirectory {
    type V = DirectoryView;

    closed spec fn view(&self) -> DirectoryView {
        DirectoryView { records: self.records@, next_id: self.next_id as int }
    }
}

impl DirectoryView {
    /// Ids are positive, below the next id, and unique; emails are unique.
    pub open spec fn wf(self) -> bool {
        &&& 1 <= self.next_id <= i32::MAX + 1
        &&& forall|i: int|
            0 <= i < self.records.len() ==> 1 <= #[trigger] self.records[i].user_id < self.next_id
        &&& forall|i: int, j: int|
            0 <= i < self.records.len() && 0 <= j < self.records.len() && i != j
                ==> #[trigger] self.records[i].user_id != #[trigger] self.records[j].user_id
        &&& forall|i: int, j: int|
            0 <= i < self.records.len() && 0 <= j < self.records.len() && i != j
                ==> #[trigger] self.records[i].email@ != #[trigger] self.records[j].email@
    }

    pub open spec fn has_email(self, email: Seq<char>) -> bool {
        exists|i: int| 0 <= i < self.records.len() && #[trigger] self.records[i].email@ == email
    }

    pub open spec fn has_id(self, id: i32) -> bool {
        exists|i: int| 0 <= i < self.records.len() && #[trigger] self.records[i].user_id == id
    }

    pub open spec fn has_admin(self) -> bool {
        exists|i: int| 0 <= i < self.records.len() && #[trigger] self.records[i].is_admin
    }
}

/// The form in which emails are stored and looked up: trimmed, then
/// lowercased.
pub open spec fn normalized_email(s: Seq<char>) -> Seq<char> {
    lowercase_of(trimmed(s))
}

/// The refusal that registering these values owes, checked in this order, or
/// `None` when the account can be created.
pub open spec fn registration_error(
    d: DirectoryView,
    email: Seq<char>,
    firstname: Seq<char>,
    lastname: Seq<char>,
    password: Seq<char>,
    is_admin: bool,
) -> Option<AccountError> {
    let e = normalized_email(email);
    if !email_is_valid(e) {
        Some(AccountError::InvalidEmail)
    } else if d.has_email(e) {
        Some(AccountError::DuplicateEmail)
    } else if is_admin && d.has_admin() {
        Some(AccountError::AdministratorExists)
    } else if !valid_name(firstname) {
        Some(AccountError::InvalidFirstname)
    } else if !valid_name(lastname) {
        Some(AccountError::InvalidLastname)
    } else if !safe_password(password) {
        Some(AccountError::WeakPassword)
    } else if d.next_id > i32::MAX {
        Some(AccountError::DirectoryFull)
    } else {
        None
    }
}

/// `rec` is the record that a successful registration under `id` stores: the
/// normalised email, the names, a fresh salt and a hash of password + salt.
pub open spec fn new_record(
    rec: UserRecord,
    id: i32,
    email: Seq<char>,
    firstname: Seq<char>,
    lastname: Seq<char>,
    password: Seq<char>,
    is_admin: bool,
) -> bool {
    &&& rec.user_id == id
    &&& rec.email@ == normalized_email(email)
    &&& rec.firstname@ == firstname
    &&& rec.lastname@ == lastname
    &&& rec.salt@.len() == SALT_LENGTH
    &&& forall|i: int| 0 <= i < rec.salt@.len() ==> is_salt_char(#[trigger] rec.salt@[i])
    &&& hash_verifies(password + rec.salt@, rec.password_hash@)
    &&& rec.is_admin == is_admin
}

/// How a registration relates the directory before (`d1`) and after (`d2`)
/// to its result: a refusal leaves the directory as it was; success appends
/// one new record under the next id. Only hashing, which the bcrypt crate
/// performs, may fail on values that pass every check.
pub open spec fn registered(
    d1: DirectoryView,
    d2: DirectoryView,
    email: Seq<char>,
    firstname: Seq<char>,
    lastname: Seq<char>,
    password: Seq<char>,
    is_admin: bool,
    r: Result<i32, AccountError>,
) -> bool {
    match registration_error(d1, email, firstname, lastname, password, is_admin) {
        Some(err) => r == Err::<i32, AccountError>(err) && d2 == d1,
        None => match r {
            Ok(id) => {
                &&& id == d1.next_id
                &&& d2.next_id == d1.next_id + 1
                &&& d2.records.len() == d1.records.len() + 1
                &&& d2.records == d1.records.push(d2.records.last())
                &&& new_record(d2.records.last(), id, email, firstname, lastname, password, is_admin)
            },
            Err(err) => err == AccountError::HashFailure && d2 == d1,
        },
    }
}

/// The profile that a record presents once signed in.
pub open spec fn profile_of(rec: UserRecord) -> UserView {
    UserView {
        user_id: rec.user_id,
        email: rec.email@,
        firstname: rec.firstname@,
        lastname: rec.lastname@,
        is_admin: rec.is_admin,
    }
}

/// Sign-in succeeds when a user has the normalised email and password + that
/// user's salt reproduces the stored hash.
pub open spec fn login_ok(d: DirectoryView, email: Seq<char>, password: Seq<char>) -> bool {
    exists|i: int|
        0 <= i < d.records.len() && #[trigger] d.records[i].email@ == normalized_email(email)
            && hash_verifies(password + d.records[i].salt@, d.records[i].password_hash@)
}

/// Trims and lowercases an email address.
pub fn normalize_email(input: &str) -> (r: String)
    ensures
        r@ == normalized_email(input@),
{
    to_lowercase(trim(input))
}

impl UserDirectory {
    /// An empty directory.
    pub fn new() -> (r: UserDirectory)
        ensures
            r@.wf(),
            r@.records.len() == 0,
            r@.next_id == 1,
    {
        UserDirectory { records: Vec::new(), next_id: 1 }
    }

    /// The records, in the order they were added.
    pub fn records(&self) -> (r: &Vec<UserRecord>)
        ensures
            r@ == self@.records,
    {
        &self.records
    }

    fn find_email(&self, email: &String) -> (r: Option<usize>)
        ensures
            match r {
                Some(i) => i < self@.records.len() && self@.records[i as int].email@ == email@,
                None => !self@.has_email(email@),
            },
    {
        let mut i: usize = 0;
        while i < self.records.len()
            invariant
                0 <= i <= self.records@.len(),
                forall|k: int| 0 <= k < i ==> #[trigger] self.records@[k].email@ != email@,
            decreases self.records@.len() - i,
        {
            if self.records[i].email == *email {
                return Some(i);
            }
            i = i + 1;
        }
        None
    }

    fn find_id(&self, id: i32) -> (r: Option<usize>)
        ensures
            match r {
                Some(i) => i < self@.records.len() && self@.records[i as int].user_id == id,
                None => !self@.has_id(id),
            },
    {
        let mut i: usize = 0;
        while i < self.records.len()
            invariant
                0 <= i <= self.records@.len(),
                forall|k: int| 0 <= k < i ==> #[trigger] self.records@[k].user_id != id,
            decreases self.records@.len() - i,
        {
            if self.records[i].user_id == id {
                return Some(i);
            }
            i = i + 1;
        }
        None
    }

    /// Adds a record read back from storage, keeping ids and emails unique.
    pub fn load_record(&mut self, rec: UserRecord) -> (r: Result<(), AccountError>)
        requires
            old(self)@.wf(),
        ensures
            final(self)@.wf(),
            r == (if rec.user_id < 1 {
                Err::<(), AccountError>(AccountError::InvalidUserId)
            } else if old(self)@.has_id(rec.user_id) {
                Err(AccountError::DuplicateUserId)
            } else if old(self)@.has_email(rec.email@) {
                Err(AccountError::DuplicateEmail)
            } else {
                Ok(())
            }),
            r is Ok ==> final(self)@.records == old(self)@.records.push(rec),
            r is Err ==> final(self)@ == old(self)@,
    {
        if rec.user_id < 1 {
            return Err(AccountError::InvalidUserId);
        }
        if self.find_id(rec.user_id).is_some() {
            return Err(AccountError::DuplicateUserId);
        }
        if self.find_email(&rec.email).is_some() {
            return Err(AccountError::DuplicateEmail);
        }
        let id = rec.user_id;
        self.records.push(rec);
        if self.next_id <= id as i64 {
            self.next_id = id as i64 + 1;
        }
        Ok(())
    }

    /// Registers an account after checking, in order: a well-formed email
    /// not yet taken, the single administrator, both names, and the password
    /// policy. The email is stored trimmed and lowercased.
    fn register_account(
        &mut self,
        email: &str,
        firstname: &str,
        lastname: &str,
        password: &str,
        is_admin: bool,
    ) -> (r: Result<i32, AccountError>)
        requires
            old(self)@.wf(),
        ensures
            final(self)@.wf(),
            registered(
                old(self)@,
                final(self)@,
                email@,
                firstname@,
                lastname@,
                password@,
                is_admin,
                r,
            ),
    {
        let e = normalize_email(email);
        if !validate_email(e.as_str()) {
            return Err(AccountError::InvalidEmail);
        }
        if self.find_email(&e).is_some() {
            return Err(AccountError::DuplicateEmail);
        }
        if is_admin && self.any_admin() {
            return Err(AccountError::AdministratorExists);
        }
        if !is_valid_name(firstname) {
            return Err(AccountError::InvalidFirstname);
        }
        if !is_valid_name(lastname) {
            return Err(AccountError::InvalidLastname);
        }
        if !is_safe_password(password) {
            return Err(AccountError::WeakPassword);
        }
        if self.next_id > i32::MAX as i64 {
            return Err(AccountError::DirectoryFull);
        }
        let salt = generate_salt(SALT_LENGTH);
        let hashed = match hash_password(password, salt.as_str()) {
            Ok(h) => h,
            Err(_) => {
                return Err(AccountError::HashFailure);
            },
        };
        let id = self.next_id as i32;
        let rec = UserRecord {
            user_id: id,
            email: e,
            firstname: firstname.to_owned(),
            lastname: lastname.to_owned(),
            salt,
            password_hash: hashed,
            is_admin,
        };
        self.records.push(rec);
        self.next_id = self.next_id + 1;
        Ok(id)
    }

    fn any_admin(&self) -> (r: bool)
        ensures
            r == self@.has_admin(),
    {
        let mut i: usize = 0;
        while i < self.records.len()
            invariant
                0 <= i <= self.records@.len(),
                forall|k: int| 0 <= k < i ==> !(#[trigger] self.records@[k].is_admin),
            decreases self.records@.len() - i,
        {
            if self.records[i].is_admin {
                assert(self@.records[i as int].is_admin);
                return true;
            }
            i = i + 1;
        }
        false
    }
}

/// Registers an ordinary user; see `registered` for the outcome.
pub fn register_user(
    directory: &mut UserDirectory,
    email: &str,
    firstname: &str,
    lastname: &str,
    password: &str,
) -> (r: Result<i32, AccountError>)
    requires
        old(directory)@.wf(),
    ensures
        final(directory)@.wf(),
        registered(
            old(directory)@,
            final(directory)@,
            email@,
            firstname@,
            lastname@,
            password@,
            false,
            r,
        ),
{
    directory.register_account(email, firstname, lastname, password, false)
}

/// Registers the administrator at first setup; refused once an
/// administrator exists. See `registered` for the outcome.
pub fn create_initial_administrator(
    directory: &mut UserDirectory,
    email: &str,
    firstname: &str,
    lastname: &str,
    password: &str,
) -> (r: Result<i32, AccountError>)
    requires
        old(directory)@.wf(),
    ensures
        final(directory)@.wf(),
        registered(
            old(directory)@,
            final(directory)@,
            email@,
            firstname@,
            lastname@,
            password@,
            true,
            r,
        ),
{
    directory.register_account(email, firstname, lastname, password, true)
}

/// Signs a user in: looks the normalised email up and checks password + the
/// stored salt against the stored hash. On success the full profile comes
/// back with `true`; otherwise the anonymous profile with `false`, the same
/// whether the email or the password was wrong.
pub fn login_user(directory: &UserDirectory, email: &str, password: &str) -> (r: (User, bool))
    requires
        directory@.wf(),
    ensures
        r.1 == login_ok(directory@, email@, password@),
        r.1 ==> exists|i: int|
            0 <= i < directory@.records.len()
                && #[trigger] directory@.records[i].email@ == normalized_email(email@)
                && r.0@ == profile_of(directory@.records[i]),
        !r.1 ==> r.0@ == anonymous_view(),
{
    let mut user = User::default();
    let e = normalize_email(email);
    let i = match directory.find_email(&e) {
        Some(i) => i,
        None => {
            return (user, false);
        },
    };
    let rec = &directory.records[i];
    let mut salted = password.to_owned();
    salted.append(rec.salt.as_str());
    if verify_hash(salted.as_str(), rec.password_hash.as_str()) {
        user.set_user_id(rec.user_id);
        user.set_email(rec.email.as_str());
        user.set_firstname(rec.firstname.as_str());
        user.set_lastname(rec.lastname.as_str());
        user.set_is_admin(rec.is_admin);
        assert(directory@.records[i as int].email@ == normalized_email(email@));
        (user, true)
    } else {
        proof {
            assert forall|j: int|
                0 <= j < directory@.records.len() && #[trigger] directory@.records[j].email@
                    == normalized_email(email@) implies j == i by {}
        }
        (user, false)
    }
}

/// True when a user has exactly this (already normalised) email.
pub fn email_exists(directory: &UserDirectory, email: &str) -> (r: bool)
    ensures
        r == directory@.has_email(email@),
{
    directory.find_email(&email.to_owned()).is_some()
}

/// The id of the user with this (already normalised) email.
pub fn get_user_id_by_email(directory: &UserDirectory, email: &str) -> (r: Option<i32>)
    ensures
        match r {
            Some(id) => exists|i: int|
                0 <= i < directory@.records.len() && #[trigger] directory@.records[i].email@
                    == email@ && directory@.records[i].user_id == id,
            None => !directory@.has_email(email@),
        },
{
    match directory.find_email(&email.to_owned()) {
        Some(i) => Some(directory.records[i].user_id),
        None => None,
    }
}

/// The record at index `i` has id `id`.
pub open spec fn record_with_id(d: DirectoryView, id: i32, i: int) -> bool {
    0 <= i < d.records.len() && d.records[i].user_id == id
}

/// The salt of the user with this id.
pub fn get_user_salt_by_id(directory: &UserDirectory, user_id: &i32) -> (r: Option<String>)
    ensures
        match r {
            Some(s) => exists|i: int|
                #[trigger] record_with_id(directory@, *user_id, i) && s@ == directory@.records[i].salt@,
            None => !directory@.has_id(*user_id),
        },
{
    match directory.find_id(*user_id) {
        Some(i) => {
            assert(record_with_id(directory@, *user_id, i as int));
            Some(directory.records[i].salt.clone())
        },
        None => None,
    }
}

/// The stored password hash of the user with this id.
pub fn get_user_password_by_id(directory: &UserDirectory, user_id: &i32) -> (r: Option<String>)
    ensures
        match r {
            Some(s) => exists|i: int|
                #[trigger] record_with_id(directory@, *user_id, i) && s@
                    == directory@.records[i].password_hash@,
            None => !directory@.has_id(*user_id),
        },
{
    match directory.find_id(*user_id) {
        Some(i) => {
            assert(record_with_id(directory@, *user_id, i as int));
            Some(directory.records[i].password_hash.clone())
        },
        None => None,
    }
}

/// The first name of the user with this id.
pub fn get_user_firstname_by_id(directory: &UserDirectory, user_id: &i32) -> (r: Option<String>)
    ensures
        match r {
            Some(s) => exists|i: int|
                #[trigger] record_with_id(directory@, *user_id, i) && s@
                    == directory@.records[i].firstname@,
            None => !directory@.has_id(*user_id),
        },
{
    match directory.find_id(*user_id) {
        Some(i) => {
            assert(record_with_id(directory@, *user_id, i as int));
            Some(directory.records[i].firstname.clone())
        },
        None => None,
    }
}

/// The last name of the user with this id.
pub fn get_user_lastname_by_id(directory: &UserDirectory, user_id: &i32) -> (r: Option<String>)
    ensures
        match r {
            Some(s) => exists|i: int|
                #[trigger] record_with_id(directory@, *user_id, i) && s@
                    == directory@.records[i].lastname@,
            None => !directory@.has_id(*user_id),
        },
{
    match directory.find_id(*user_id) {
        Some(i) => {
            assert(record_with_id(directory@, *user_id, i as int));
            Some(directory.records[i].lastname.clone())
        },
        None => None,
    }
}

/// True when the user with this id is an administrator; false for an
/// unknown id.
pub fn get_user_is_admin_by_id(directory: &UserDirectory, user_id: &i32) -> (r: bool)
    requires
        directory@.wf(),
    ensures
        r == exists|i: int|
            #[trigger] record_with_id(directory@, *user_id, i) && directory@.records[i].is_admin,
{
    match directory.find_id(*user_id) {
        Some(i) => {
            assert(record_with_id(directory@, *user_id, i as int));
            assert forall|j: int| #[trigger] record_with_id(directory@, *user_id, j) implies j
                == i by {}
            directory.records[i].is_admin
        },
        None => false,
    }
}

/// What the email prompt of registration decides for one input: the
/// normalised address when it is well formed and not yet taken.
pub fn check_new_email(directory: &UserDirectory, input: &str) -> (r: Result<String, AccountError>)
    ensures
        !email_is_valid(normalized_email(input@)) ==> r == Err::<String, AccountError>(
            AccountError::InvalidEmail,
        ),
        email_is_valid(normalized_email(input@)) && directory@.has_email(normalized_email(input@))
            ==> r == Err::<String, AccountError>(AccountError::DuplicateEmail),
        email_is_valid(normalized_email(input@)) && !directory@.has_email(normalized_email(input@))
            ==> r is Ok && r->Ok_0@ == normalized_email(input@),
{
    let e = normalize_email(input);
    if !validate_email(e.as_str()) {
        return Err(AccountError::InvalidEmail);
    }
    if directory.find_email(&e).is_some() {
        return Err(AccountError::DuplicateEmail);
    }
    Ok(e)
}

/// What the password prompt of registration decides for a password and its
/// re-entry: both are trimmed; the password must meet the policy, then match
/// the re-entry.
pub fn check_new_password(password: &str, confirmation: &str) -> (r: Result<String, AccountError>)
    ensures
        !safe_password(trimmed(password@)) ==> r == Err::<String, AccountError>(
            AccountError::WeakPassword,
        ),
        safe_password(trimmed(password@)) && trimmed(password@) != trimmed(confirmation@) ==> r
            == Err::<String, AccountError>(AccountError::PasswordMismatch),
        safe_password(trimmed(password@)) && trimmed(password@) == trimmed(confirmation@) ==> r
            is Ok && r->Ok_0@ == trimmed(password@),
{
    let p = trim(password).to_owned();
    if !is_safe_password(p.as_str()) {
        return Err(AccountError::WeakPassword);
    }
    let c = trim(confirmation).to_owned();
    if p != c {
        return Err(AccountError::PasswordMismatch);
    }
    Ok(p)
}

/// Emails are unique up to case and surrounding whitespace: once an address
/// is registered, registering any address with the same normalised form is
/// refused as a duplicate, whatever the other values.
pub proof fn lemma_email_case_conflict(
    d0: DirectoryView,
    d1: DirectoryView,
    d2: DirectoryView,
    email1: Seq<char>,
    email2: Seq<char>,
    first1: Seq<char>,
    last1: Seq<char>,
    password1: Seq<char>,
    admin1: bool,
    id: i32,
    first2: Seq<char>,
    last2: Seq<char>,
    password2: Seq<char>,
    admin2: bool,
    r2: Result<i32, AccountError>,
)
    requires
        registered(d0, d1, email1, first1, last1, password1, admin1, Ok(id)),
        registered(d1, d2, email2, first2, last2, password2, admin2, r2),
        normalized_email(email1) == normalized_email(email2),
    ensures
        r2 == Err::<i32, AccountError>(AccountError::DuplicateEmail),
        d2 == d1,
{
    let last = d1.records.len() - 1;
    assert(d1.records[last].email@ == normalized_email(email2));
    assert(d1.has_email(normalized_email(email2)));
}

} // verus!
