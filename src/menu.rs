//! Decoding what a user types at the prompts: numbers, menu choices and
//! yes/no answers.
use vstd::prelude::*;

use crate::isbn::{all_digits, digit_value};
use crate::text::{lowercase_of, to_lowercase, trim, trimmed};

verus! {

/// The value of a string of decimal digits.
pub open spec fn decimal_value(s: Seq<char>) -> int
    decreases s.len(),
{
    if s.len() == 0 {
        0
    } else {
        decimal_value(s.drop_last()) * 10 + digit_value(s.last())
    }
}

/// What a typed number turned out to be.
#[derive(Debug, Clone, Copy, PartialEq, Eq, Structural)]
pub enum NumberInput {
    Value(u64),
    TooLarge,
    NotANumber,
}

/// The digits of a number, after an optional leading `+`.
pub open spec fn number_digits(s: Seq<char>) -> Seq<char> {
    if s.len() > 0 && s[0] == '+' {
        s.drop_first()
    } else {
        s
    }
}

/// How a trimmed input reads as an unsigned number no larger than `max`: one
/// or more decimal digits after an optional `+`.
pub open spec fn number_input(s: Seq<char>, max: u64) -> NumberInput {
    let d = number_digits(s);
    if d.len() == 0 || !all_digits(d) {
        NumberInput::NotANumber
    } else if decimal_value(d) > max {
        NumberInput::TooLarge
    } else {
        NumberInput::Value(decimal_value(d) as u64)
    }
}

proof fn lemma_decimal_value_grows(s: Seq<char>)
    requires
        all_digits(s),
    ensures
        decimal_value(s) >= 0,
    decreases s.len(),
{
    if s.len() > 0 {
        let p = s.drop_last();
        assert(all_digits(p)) by {
            assert forall|i: int| 0 <= i < p.len() implies crate::isbn::is_decimal_digit(
                #[trigger] p[i],
            ) by {
                assert(p[i] == s[i]);
            }
        }
        lemma_decimal_value_grows(p);
        assert(crate::isbn::is_decimal_digit(s[s.len() - 1]));
    }
}

/// Reads `input`, after trimming, as an unsigned number no larger than
/// `max`.
pub fn parse_number(input: &str, max: u64) -> (r: NumberInput)
    ensures
        r == number_input(trimmed(input@), max),
{
    let t = trim(input);
    let n = t.unicode_len();
    let start: usize = if n > 0 && t.get_char(0) == '+' {
        1
    } else {
        0
    };
    let ghost d = number_digits(t@);
    proof {
        assert(d =~= t@.subrange(start as int, n as int));
    }
    if start == n {
        return NumberInput::NotANumber;
    }
    let mut value: u64 = 0;
    let mut too_large = false;
    let mut i: usize = start;
    while i < n
        invariant
            n == t@.len(),
            start <= i <= n,
            d == t@.subrange(start as int, n as int),
            d == number_digits(t@),
            t@ == trimmed(input@),
            all_digits(t@.subrange(start as int, i as int)),
            too_large ==> decimal_value(t@.subrange(start as int, i as int)) > max,
            !too_large ==> value == decimal_value(t@.subrange(start as int, i as int)),
            !too_large ==> value <= max,
        decreases n - i,
    {
        let c = t.get_char(i);
        let ghost prev = t@.subrange(start as int, i as int);
        let ghost next = t@.subrange(start as int, i + 1);
        proof {
            assert(next.drop_last() =~= prev);
            assert(next.last() == c);
        }
        if !('0' <= c && c <= '9') {
            proof {
                assert(d[i - start] == c);
                assert(!all_digits(d));
            }
            return NumberInput::NotANumber;
        }
        proof {
            assert(all_digits(next)) by {
                assert forall|k: int| 0 <= k < next.len() implies crate::isbn::is_decimal_digit(
                    #[trigger] next[k],
                ) by {
                    if k < prev.len() {
                        assert(next[k] == prev[k]);
                    }
                }
            }
            lemma_decimal_value_grows(prev);
        }
        let digit: u64 = (c as u64) - ('0' as u64);
        if !too_large {
            let wide: u128 = value as u128 * 10 + digit as u128;
            if wide > max as u128 {
                too_large = true;
            } else {
                value = wide as u64;
            }
        } else {
            proof {
                assert(decimal_value(next) > max) by (nonlinear_arith)
                    requires
                        decimal_value(next) == decimal_value(prev) * 10 + digit_value(c),
                        decimal_value(prev) > max,
                        digit_value(c) >= 0,
                ;
            }
        }
        i = i + 1;
    }
    proof {
        assert(t@.subrange(start as int, n as int) == d);
    }
    if too_large {
        NumberInput::TooLarge
    } else {
        NumberInput::Value(value)
    }
}

/// The two menus a session shows.
#[derive(Debug, Clone, Copy, PartialEq, Eq, Structural)]
pub enum Menu {
    Login,
    User,
}

/// The choices of the login menu.
#[derive(Debug, Clone, Copy, PartialEq, Eq, Structural)]
pub enum LoginCommand {
    Login,
    Register,
    Exit,
}

/// The choices of the signed-in user's menu.
#[derive(Debug, Clone, Copy, PartialEq, Eq, Structural)]
pub enum UserCommand {
    SearchBooks,
    AddBook,
    DeleteBook,
    ModifyPersonalInformation,
    Logout,
}

/// The login menu offers 1 to 3; the user menu offers 0 to 4.
pub open spec fn menu_offers(choice: usize, menu: Menu) -> bool {
    match menu {
        Menu::Login => 1 <= choice <= 3,
        Menu::User => choice <= 4,
    }
}

pub fn is_valid_menu_choice(choice: usize, menu: Menu) -> (r: bool)
    ensures
        r == menu_offers(choice, menu),
{
    match menu {
        Menu::Login => 1 <= choice && choice <= 3,
        Menu::User => choice <= 4,
    }
}

/// What one line typed at a menu prompt amounts to.
#[derive(Debug, Clone, Copy, PartialEq, Eq, Structural)]
pub enum MenuInput {
    Choice(usize),
    NotOffered,
    TooLarge,
    NotANumber,
}

/// Reads a menu choice: a number that the menu offers.
pub fn read_menu_choice(input: &str, menu: Menu) -> (r: MenuInput)
    ensures
        r == (match number_input(trimmed(input@), usize::MAX as u64) {
            NumberInput::Value(v) => if menu_offers(v as usize, menu) {
                MenuInput::Choice(v as usize)
            } else {
                MenuInput::NotOffered
            },
            NumberInput::TooLarge => MenuInput::TooLarge,
            NumberInput::NotANumber => MenuInput::NotANumber,
        }),
{
    match parse_number(input, usize::MAX as u64) {
        NumberInput::Value(v) => {
            let choice = v as usize;
            if is_valid_menu_choice(choice, menu) {
                MenuInput::Choice(choice)
            } else {
                MenuInput::NotOffered
            }
        },
        NumberInput::TooLarge => MenuInput::TooLarge,
        NumberInput::NotANumber => MenuInput::NotANumber,
    }
}

/// The command behind a login-menu number.
pub fn decode_login_choice(choice: usize) -> (r: Option<LoginCommand>)
    ensures
        choice == 1 ==> r == Some(LoginCommand::Login),
        choice == 2 ==> r == Some(LoginCommand::Register),
        choice == 3 ==> r == Some(LoginCommand::Exit),
        !(1 <= choice <= 3) ==> r is None,
{
    match choice {
        1 => Some(LoginCommand::Login),
        2 => Some(LoginCommand::Register),
        3 => Some(LoginCommand::Exit),
        _ => None,
    }
}

/// The command behind a user-menu number.
pub fn decode_user_choice(choice: usize) -> (r: Option<UserCommand>)
    ensures
        choice == 1 ==> r == Some(UserCommand::SearchBooks),
        choice == 2 ==> r == Some(UserCommand::AddBook),
        choice == 3 ==> r == Some(UserCommand::DeleteBook),
        choice == 4 ==> r == Some(UserCommand::ModifyPersonalInformation),
        choice == 0 ==> r == Some(UserCommand::Logout),
        choice > 4 ==> r is None,
{
    match choice {
        0 => Some(UserCommand::Logout),
        1 => Some(UserCommand::SearchBooks),
        2 => Some(UserCommand::AddBook),
        3 => Some(UserCommand::DeleteBook),
        4 => Some(UserCommand::ModifyPersonalInformation),
        _ => None,
    }
}

/// Whether the session goes on after a command: every command but logging
/// out keeps the user menu running.
pub fn continues_session(command: UserCommand) -> (r: bool)
    ensures
        r == (command != UserCommand::Logout),
{
    match command {
        UserCommand::Logout => false,
        _ => true,
    }
}

/// The answer a yes/no prompt reads from a line: after trimming and
/// lowercasing, `y` or `yes` is yes, `n` or `no` is no.
pub open spec fn yes_no_answer(s: Seq<char>) -> Option<bool> {
    let w = lowercase_of(trimmed(s));
    if w == "y"@ || w == "yes"@ {
        Some(true)
    } else if w == "n"@ || w == "no"@ {
        Some(false)
    } else {
        None
    }
}

/// Reads a yes/no answer; `None` asks the prompt to be shown again.
pub fn parse_yes_no(input: &str) -> (r: Option<bool>)
    ensures
        r == yes_no_answer(input@),
{
    let w = to_lowercase(trim(input));
    if w == "y".to_owned() || w == "yes".to_owned() {
        Some(true)
    } else if w == "n".to_owned() || w == "no".to_owned() {
        Some(false)
    } else {
        None
    }
}

} // verus!
