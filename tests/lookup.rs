use rlms::config::{database_file_name, default_config_path, is_valid_database_name, Config};
use rlms::lookup::{check_status, lookup_key, lookup_url, prepare_lookup, LookupError};

#[test]
fn lookup_prepares_trimmed_isbn() {
    assert_eq!(prepare_lookup("  0-306-40615-2\n").unwrap(), "0-306-40615-2");
    assert_eq!(prepare_lookup("12345"), Err(LookupError::InvalidIsbn));
}

#[test]
fn lookup_address_and_key() {
    assert_eq!(
        lookup_url("0306406152"),
        "https://openlibrary.org/api/books?bibkeys=ISBN:0306406152&format=json&jscmd=data"
    );
    assert_eq!(lookup_key("0306406152"), "ISBN:0306406152");
}

#[test]
fn http_status() {
    assert_eq!(check_status(200), Ok(()));
    assert_eq!(check_status(299), Ok(()));
    assert_eq!(check_status(404), Err(LookupError::HttpStatus(404)));
    assert_eq!(check_status(199), Err(LookupError::HttpStatus(199)));
}

#[test]
fn database_names() {
    assert!(is_valid_database_name("library_1"));
    assert!(!is_valid_database_name(""));
    assert!(!is_valid_database_name("my.db"));
    assert!(!is_valid_database_name("my db"));
    assert_eq!(database_file_name("library"), "library.sqlite");
}

#[test]
fn config_defaults() {
    assert_eq!(default_config_path(), "config.json");
    assert!(Config::default().database_file.is_none());
}
