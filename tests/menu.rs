use rlms::menu::{
    continues_session, decode_login_choice, decode_user_choice, is_valid_menu_choice, parse_number,
    parse_yes_no, read_menu_choice, LoginCommand, Menu, MenuInput, NumberInput, UserCommand,
};

#[test]
fn numbers() {
    assert_eq!(parse_number(" 42\n", 100), NumberInput::Value(42));
    assert_eq!(parse_number("+7", 100), NumberInput::Value(7));
    assert_eq!(parse_number("101", 100), NumberInput::TooLarge);
    assert_eq!(parse_number("4294967296", u32::MAX as u64), NumberInput::TooLarge);
    assert_eq!(parse_number("4294967295", u32::MAX as u64), NumberInput::Value(4294967295));
    assert_eq!(parse_number("99999999999999999999999", u64::MAX), NumberInput::TooLarge);
    assert_eq!(parse_number("", 100), NumberInput::NotANumber);
    assert_eq!(parse_number("+", 100), NumberInput::NotANumber);
    assert_eq!(parse_number("1 2", 100), NumberInput::NotANumber);
    assert_eq!(parse_number("-3", 100), NumberInput::NotANumber);
}

#[test]
fn menu_choices() {
    assert!(is_valid_menu_choice(1, Menu::Login));
    assert!(!is_valid_menu_choice(0, Menu::Login));
    assert!(!is_valid_menu_choice(4, Menu::Login));
    assert!(is_valid_menu_choice(0, Menu::User));
    assert!(!is_valid_menu_choice(5, Menu::User));
    assert_eq!(read_menu_choice("2\n", Menu::Login), MenuInput::Choice(2));
    assert_eq!(read_menu_choice("7", Menu::Login), MenuInput::NotOffered);
    assert_eq!(read_menu_choice("x", Menu::User), MenuInput::NotANumber);
    assert_eq!(read_menu_choice("99999999999999999999999", Menu::User), MenuInput::TooLarge);
}

#[test]
fn commands() {
    assert_eq!(decode_login_choice(1), Some(LoginCommand::Login));
    assert_eq!(decode_login_choice(2), Some(LoginCommand::Register));
    assert_eq!(decode_login_choice(3), Some(LoginCommand::Exit));
    assert_eq!(decode_login_choice(0), None);
    assert_eq!(decode_user_choice(0), Some(UserCommand::Logout));
    assert_eq!(decode_user_choice(3), Some(UserCommand::DeleteBook));
    assert_eq!(decode_user_choice(5), None);
    assert!(!continues_session(UserCommand::Logout));
    assert!(continues_session(UserCommand::AddBook));
}

#[test]
fn yes_no() {
    assert_eq!(parse_yes_no("y\n"), Some(true));
    assert_eq!(parse_yes_no(" YES "), Some(true));
    assert_eq!(parse_yes_no("No"), Some(false));
    assert_eq!(parse_yes_no("n"), Some(false));
    assert_eq!(parse_yes_no("maybe"), None);
    assert_eq!(parse_yes_no(""), None);
}
