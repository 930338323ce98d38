use rlms::credentials::verify_hash;
use rlms::directory::{
    check_new_email, check_new_password, create_initial_administrator, email_exists,
    get_user_firstname_by_id, get_user_id_by_email, get_user_is_admin_by_id,
    get_user_lastname_by_id, get_user_password_by_id, get_user_salt_by_id, login_user,
    normalize_email, register_user, AccountError, UserDirectory, UserRecord, SALT_LENGTH,
};

const GOOD: &str = "Str0ng!Pass";

#[test]
fn email_is_trimmed_and_lowercased() {
    assert_eq!(normalize_email("  A@Example.COM \n"), "a@example.com");
}

#[test]
fn register_stores_normalised_user_with_credential() {
    let mut d = UserDirectory::new();
    let id = register_user(&mut d, " Ann@Example.com", "Ann", "Lee", GOOD).unwrap();
    assert_eq!(id, 1);
    assert!(email_exists(&d, "ann@example.com"));
    assert_eq!(get_user_id_by_email(&d, "ann@example.com"), Some(1));
    assert_eq!(get_user_firstname_by_id(&d, &1).unwrap(), "Ann");
    assert_eq!(get_user_lastname_by_id(&d, &1).unwrap(), "Lee");
    assert!(!get_user_is_admin_by_id(&d, &1));
    let salt = get_user_salt_by_id(&d, &1).unwrap();
    assert_eq!(salt.chars().count(), SALT_LENGTH);
    let hash = get_user_password_by_id(&d, &1).unwrap();
    assert!(verify_hash(&format!("{}{}", GOOD, salt), &hash));
}

#[test]
fn emails_differing_only_in_case_are_duplicates() {
    let mut d = UserDirectory::new();
    register_user(&mut d, "a@example.com", "Ann", "Lee", GOOD).unwrap();
    let r = register_user(&mut d, "A@EXAMPLE.COM", "Bob", "Ray", GOOD);
    assert_eq!(r, Err(AccountError::DuplicateEmail));
    assert_eq!(d.records().len(), 1);
}

#[test]
fn registration_refusals_in_order() {
    let mut d = UserDirectory::new();
    assert_eq!(register_user(&mut d, "not-an-email", "Ann", "Lee", GOOD), Err(AccountError::InvalidEmail));
    assert_eq!(register_user(&mut d, "", "Ann", "Lee", GOOD), Err(AccountError::InvalidEmail));
    assert_eq!(register_user(&mut d, "a@example.com", "", "Lee", GOOD), Err(AccountError::InvalidFirstname));
    assert_eq!(register_user(&mut d, "a@example.com", "Ann", "L33", GOOD), Err(AccountError::InvalidLastname));
    assert_eq!(register_user(&mut d, "a@example.com", "Ann", "Lee", "weak"), Err(AccountError::WeakPassword));
    assert_eq!(d.records().len(), 0);
}

#[test]
fn only_one_administrator() {
    let mut d = UserDirectory::new();
    let id = create_initial_administrator(&mut d, "root@example.com", "Ada", "Min", GOOD).unwrap();
    assert!(get_user_is_admin_by_id(&d, &id));
    assert_eq!(
        create_initial_administrator(&mut d, "other@example.com", "Bea", "Min", GOOD),
        Err(AccountError::AdministratorExists)
    );
}

#[test]
fn login_succeeds_with_right_password() {
    let mut d = UserDirectory::new();
    register_user(&mut d, "a@example.com", "Ann", "Lee", GOOD).unwrap();
    let (user, ok) = login_user(&d, "A@Example.com ", GOOD);
    assert!(ok);
    assert_eq!(user.get_user_id(), 1);
    assert_eq!(user.get_email(), "a@example.com");
    assert_eq!(user.get_firstname(), "Ann");
    assert_eq!(user.get_lastname(), "Lee");
    assert!(!user.get_is_admin());
}

#[test]
fn login_fails_alike_for_unknown_email_and_wrong_password() {
    let mut d = UserDirectory::new();
    register_user(&mut d, "a@example.com", "Ann", "Lee", GOOD).unwrap();
    let (u1, ok1) = login_user(&d, "a@example.com", "Wr0ng!Pass");
    let (u2, ok2) = login_user(&d, "nobody@example.com", GOOD);
    assert!(!ok1 && !ok2);
    assert_eq!(u1.get_user_id(), 0);
    assert_eq!(u2.get_user_id(), 0);
    assert_eq!(u1.get_email(), "");
}

#[test]
fn new_email_checks() {
    let mut d = UserDirectory::new();
    register_user(&mut d, "a@example.com", "Ann", "Lee", GOOD).unwrap();
    assert_eq!(check_new_email(&d, " B@Example.com").unwrap(), "b@example.com");
    assert_eq!(check_new_email(&d, "A@example.com"), Err(AccountError::DuplicateEmail));
    assert_eq!(check_new_email(&d, "abc"), Err(AccountError::InvalidEmail));
}

#[test]
fn new_password_checks() {
    assert_eq!(check_new_password(" Str0ng!Pass ", "Str0ng!Pass").unwrap(), "Str0ng!Pass");
    assert_eq!(check_new_password("Str0ng!Pass", "Str0ng!Pas"), Err(AccountError::PasswordMismatch));
    assert_eq!(check_new_password("weak", "weak"), Err(AccountError::WeakPassword));
}

#[test]
fn loaded_records_keep_ids_and_emails_unique() {
    let mut d = UserDirectory::new();
    let rec = |id: i32, email: &str| UserRecord {
        user_id: id,
        email: email.to_string(),
        firstname: "Ann".to_string(),
        lastname: "Lee".to_string(),
        salt: "s".to_string(),
        password_hash: "h".to_string(),
        is_admin: false,
    };
    assert_eq!(d.load_record(rec(7, "a@example.com")), Ok(()));
    assert_eq!(d.load_record(rec(7, "b@example.com")), Err(AccountError::DuplicateUserId));
    assert_eq!(d.load_record(rec(8, "a@example.com")), Err(AccountError::DuplicateEmail));
    assert_eq!(d.load_record(rec(0, "c@example.com")), Err(AccountError::InvalidUserId));
    assert_eq!(d.records().len(), 1);
}

#[test]
fn unknown_ids_give_nothing() {
    let d = UserDirectory::new();
    assert_eq!(get_user_salt_by_id(&d, &3), None);
    assert_eq!(get_user_id_by_email(&d, "x@example.com"), None);
    assert!(!get_user_is_admin_by_id(&d, &3));
}
