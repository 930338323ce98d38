//! The decisions of an interactive session: how many sign-in attempts are
//! allowed, and the steps of taking a book out of one's library.
use vstd::prelude::*;

use crate::catalog::{remove_error, removed, BookCatalog, CatalogError, CatalogView};
use crate::menu::{number_input, parse_number, NumberInput};
use crate::text::trimmed;

verus! {

/// Failed sign-in attempts allowed before the session locks.
pub const MAX_LOGIN_ATTEMPTS: u32 = 3;

/// What the session does after a sign-in attempt.
#[derive(Debug, Clone, Copy, PartialEq, Eq, Structural)]
pub enum LoginOutcome {
    LoggedIn,
    TryAgain,
    LockedOut,
}

/// The count of failed sign-in attempts in one session.
pub struct LoginAttempts {
    failures: u32,
}

impl View for LoginAttempts {
    type V = nat;

    closed spec fn view(&self) -> nat {
        self.failures as nat
    }
}

impl LoginAttempts {
    pub fn new() -> (r: LoginAttempts)
        ensures
            r@ == 0,
    {
        LoginAttempts { failures: 0 }
    }

    pub fn failures(&self) -> (r: u32)
        ensures
            r == self@,
    {
        self.failures
    }

    /// True once the allowed failures are used up.
    pub fn is_locked(&self) -> (r: bool)
        ensures
            r == (self@ >= MAX_LOGIN_ATTEMPTS),
    {
        self.failures >= MAX_LOGIN_ATTEMPTS
    }

    /// Records one attempt. A locked session stays locked whatever the
    /// attempt; otherwise success signs in, and a failure either allows
    /// another try or, at the third failure, locks the session.
    pub fn record_attempt(&mut self, succeeded: bool) -> (r: LoginOutcome)
        requires
            old(self)@ <= MAX_LOGIN_ATTEMPTS,
        ensures
            final(self)@ <= MAX_LOGIN_ATTEMPTS,
            old(self)@ >= MAX_LOGIN_ATTEMPTS ==> r == LoginOutcome::LockedOut && final(self)@
                == old(self)@,
            old(self)@ < MAX_LOGIN_ATTEMPTS && succeeded ==> r == LoginOutcome::LoggedIn
                && final(self)@ == old(self)@,
            old(self)@ < MAX_LOGIN_ATTEMPTS && !succeeded ==> final(self)@ == old(self)@ + 1 && r
                == (if final(self)@ >= MAX_LOGIN_ATTEMPTS {
                LoginOutcome::LockedOut
            } else {
                LoginOutcome::TryAgain
            }),
    {
        if self.failures >= MAX_LOGIN_ATTEMPTS {
            return LoginOutcome::LockedOut;
        }
        if succeeded {
            return LoginOutcome::LoggedIn;
        }
        self.failures = self.failures + 1;
        if self.failures >= MAX_LOGIN_ATTEMPTS {
            LoginOutcome::LockedOut
        } else {
            LoginOutcome::TryAgain
        }
    }
}

/// Where the removal of a book from one's library stands.
#[derive(Debug, Clone, Copy, PartialEq, Eq, Structural)]
pub enum DeletePhase {
    AwaitingId,
    AwaitingConfirmation(u32),
    Done,
}

/// What the user answered at the current prompt.
#[derive(Debug)]
pub enum DeleteInput {
    /// A line typed at the book-id prompt.
    Id(String),
    /// The answer to "delete this book?".
    Confirmation(bool),
}

/// What the session tells the user, and does, after a step.
#[derive(Debug, Clone, Copy, PartialEq, Eq, Structural)]
pub enum DeleteAction {
    RejectId,
    NoSuchBook(u32),
    AskConfirmation(u32),
    KeptBook(u32),
    NotInLibrary(u32),
    Deleted(u32),
    Ignored,
}

/// The next phase and action of a step that reads a book id.
pub open spec fn id_step(c: CatalogView, line: Seq<char>) -> (DeletePhase, DeleteAction) {
    match number_input(trimmed(line), u32::MAX as u64) {
        NumberInput::Value(v) => if c.has_book(v as u32) {
            (DeletePhase::AwaitingConfirmation(v as u32), DeleteAction::AskConfirmation(v as u32))
        } else {
            (DeletePhase::AwaitingId, DeleteAction::NoSuchBook(v as u32))
        },
        _ => (DeletePhase::AwaitingId, DeleteAction::RejectId),
    }
}

/// The next phase and action of a confirmed removal of `book_id`.
pub open spec fn confirmed_step(c: CatalogView, user_id: i32, book_id: u32) -> (
    DeletePhase,
    DeleteAction,
) {
    match remove_error(c, user_id, book_id) {
        None => (DeletePhase::Done, DeleteAction::Deleted(book_id)),
        Some(CatalogError::BookNotFound) => (DeletePhase::AwaitingId, DeleteAction::NoSuchBook(book_id)),
        Some(_) => (DeletePhase::AwaitingId, DeleteAction::NotInLibrary(book_id)),
    }
}

/// One step of removing a book from `user_id`'s library. An id is read as a
/// number and must name a stored book; then a yes removes the membership,
/// a no goes back to the id prompt. Input that does not fit the phase is
/// ignored. The catalog changes only on a confirmed removal.
pub fn delete_step(
    catalog: &mut BookCatalog,
    user_id: i32,
    phase: DeletePhase,
    input: DeleteInput,
) -> (r: (DeletePhase, DeleteAction))
    requires
        old(catalog)@.wf(),
    ensures
        final(catalog)@.wf(),
        match (phase, input) {
            (DeletePhase::AwaitingId, DeleteInput::Id(line)) => r == id_step(old(catalog)@, line@)
                && final(catalog)@ == old(catalog)@,
            (DeletePhase::AwaitingConfirmation(id), DeleteInput::Confirmation(false)) => r == (
                DeletePhase::AwaitingId,
                DeleteAction::KeptBook(id),
            ) && final(catalog)@ == old(catalog)@,
            (DeletePhase::AwaitingConfirmation(id), DeleteInput::Confirmation(true)) => r
                == confirmed_step(old(catalog)@, user_id, id) && removed(
                old(catalog)@,
                final(catalog)@,
                user_id,
                id,
                if r.1 == DeleteAction::Deleted(id) {
                    Ok(())
                } else {
                    Err(remove_error(old(catalog)@, user_id, id)->0)
                },
            ),
            _ => r == (phase, DeleteAction::Ignored) && final(catalog)@ == old(catalog)@,
        },
{
    match (phase, input) {
        (DeletePhase::AwaitingId, DeleteInput::Id(line)) => {
            match parse_number(line.as_str(), u32::MAX as u64) {
                NumberInput::Value(v) => {
                    let id = v as u32;
                    if catalog.book_exists(id) {
                        (DeletePhase::AwaitingConfirmation(id), DeleteAction::AskConfirmation(id))
                    } else {
                        (DeletePhase::AwaitingId, DeleteAction::NoSuchBook(id))
                    }
                },
                _ => (DeletePhase::AwaitingId, DeleteAction::RejectId),
            }
        },
        (DeletePhase::AwaitingConfirmation(id), DeleteInput::Confirmation(false)) => {
            (DeletePhase::AwaitingId, DeleteAction::KeptBook(id))
        },
        (DeletePhase::AwaitingConfirmation(id), DeleteInput::Confirmation(true)) => {
            match catalog.remove_from_library(user_id, id) {
                Ok(()) => (DeletePhase::Done, DeleteAction::Deleted(id)),
                Err(CatalogError::BookNotFound) => (DeletePhase::AwaitingId, DeleteAction::NoSuchBook(id)),
                Err(_) => (DeletePhase::AwaitingId, DeleteAction::NotInLibrary(id)),
            }
        },
        _ => (phase, DeleteAction::Ignored),
    }
}

} // verus!
