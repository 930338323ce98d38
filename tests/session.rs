use rlms::catalog::BookCatalog;
use rlms::book::{Author, Book};
use rlms::directory::{login_user, register_user, UserDirectory};
use rlms::session::{delete_step, DeleteAction, DeleteInput, DeletePhase, LoginAttempts, LoginOutcome};

fn book(title: &str) -> Book {
    let mut b = Book::default();
    b.title = title.to_string();
    b.authors = vec![Author { name: "Someone".to_string() }];
    b
}

#[test]
fn register_then_login_then_lockout() {
    let mut d = UserDirectory::new();
    register_user(&mut d, "a@example.com", "Ann", "Lee", "Str0ng!Pass").unwrap();
    let (_, ok) = login_user(&d, "a@example.com", "Str0ng!Pass");
    let mut attempts = LoginAttempts::new();
    assert_eq!(attempts.record_attempt(ok), LoginOutcome::LoggedIn);

    let mut attempts = LoginAttempts::new();
    let mut outcomes = Vec::new();
    for _ in 0..3 {
        let (user, ok) = login_user(&d, "a@example.com", "Wr0ng!Pass");
        assert_eq!(user.get_user_id(), 0);
        outcomes.push(attempts.record_attempt(ok));
    }
    assert_eq!(outcomes, vec![LoginOutcome::TryAgain, LoginOutcome::TryAgain, LoginOutcome::LockedOut]);
    assert!(attempts.is_locked());
}

#[test]
fn locked_session_stays_locked() {
    let mut a = LoginAttempts::new();
    a.record_attempt(false);
    a.record_attempt(false);
    assert_eq!(a.record_attempt(false), LoginOutcome::LockedOut);
    assert_eq!(a.record_attempt(true), LoginOutcome::LockedOut);
    assert_eq!(a.failures(), 3);
}

#[test]
fn delete_flow_confirmed() {
    let mut c = BookCatalog::new();
    let id = c.add_to_library(1, "0306406152", &book("A")).unwrap();
    let (p, a) = delete_step(&mut c, 1, DeletePhase::AwaitingId, DeleteInput::Id(format!(" {} \n", id)));
    assert_eq!(a, DeleteAction::AskConfirmation(id));
    let (p, a) = delete_step(&mut c, 1, p, DeleteInput::Confirmation(true));
    assert_eq!((p, a), (DeletePhase::Done, DeleteAction::Deleted(id)));
    assert!(c.list_for_user(1).is_empty());
    assert!(c.book_exists(id));
}

#[test]
fn delete_flow_rejections() {
    let mut c = BookCatalog::new();
    let id = c.add_to_library(1, "0306406152", &book("A")).unwrap();
    let start = DeletePhase::AwaitingId;
    assert_eq!(delete_step(&mut c, 1, start, DeleteInput::Id("abc".to_string())), (start, DeleteAction::RejectId));
    assert_eq!(delete_step(&mut c, 1, start, DeleteInput::Id("-1".to_string())), (start, DeleteAction::RejectId));
    assert_eq!(delete_step(&mut c, 1, start, DeleteInput::Id("99".to_string())), (start, DeleteAction::NoSuchBook(99)));
    assert_eq!(delete_step(&mut c, 1, start, DeleteInput::Confirmation(true)), (start, DeleteAction::Ignored));
    let (p, _) = delete_step(&mut c, 1, start, DeleteInput::Id(id.to_string()));
    assert_eq!(delete_step(&mut c, 1, p, DeleteInput::Confirmation(false)), (start, DeleteAction::KeptBook(id)));
    // another user is told the book exists, then that it is not theirs
    let (p, _) = delete_step(&mut c, 2, start, DeleteInput::Id(id.to_string()));
    assert_eq!(delete_step(&mut c, 2, p, DeleteInput::Confirmation(true)), (start, DeleteAction::NotInLibrary(id)));
    assert_eq!(c.list_for_user(1).len(), 1);
}
