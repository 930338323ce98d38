//! ISBN-10 and ISBN-13 check-digit validation.
use vstd::prelude::*;

use crate::text::push_char;

verus! {

/// A decimal digit `0`..`9`.
pub open spec fn is_decimal_digit(c: char) -> bool {
    '0' <= c && c <= '9'
}

/// The numeric value of a decimal digit.
pub open spec fn digit_value(c: char) -> int {
    c as int - '0' as int
}

/// The decimal digits of `s`, in order, with every other character dropped.
pub open spec fn digits_of(s: Seq<char>) -> Seq<char>
    decreases s.len(),
{
    if s.len() == 0 {
        Seq::empty()
    } else if is_decimal_digit(s.last()) {
        digits_of(s.drop_last()).push(s.last())
    } else {
        digits_of(s.drop_last())
    }
}

/// Every character of `s` is a decimal digit.
pub open spec fn all_digits(s: Seq<char>) -> bool {
    forall|i: int| 0 <= i < s.len() ==> is_decimal_digit(#[trigger] s[i])
}

/// Weighted sum of the first `n` digits with weights 10, 9, 8, ... .
pub open spec fn isbn10_sum(s: Seq<char>, n: nat) -> int
    decreases n,
{
    if n == 0 {
        0
    } else {
        isbn10_sum(s, (n - 1) as nat) + digit_value(s[n - 1]) * (10 - (n - 1))
    }
}

/// Weight of position `i` in an ISBN-13: 1 at even positions, 3 at odd ones.
pub open spec fn isbn13_weight(i: int) -> int {
    if i % 2 == 0 { 1 } else { 3 }
}

/// Weighted sum of the first `n` digits with alternating weights 1 and 3.
pub open spec fn isbn13_sum(s: Seq<char>, n: nat) -> int
    decreases n,
{
    if n == 0 {
        0
    } else {
        isbn13_sum(s, (n - 1) as nat) + digit_value(s[n - 1]) * isbn13_weight(n - 1)
    }
}

/// Ten digits whose weighted sum is divisible by 11.
pub open spec fn isbn10_ok(s: Seq<char>) -> bool {
    s.len() == 10 && all_digits(s) && isbn10_sum(s, 10) % 11 == 0
}

/// Thirteen digits whose weighted sum is divisible by 10.
pub open spec fn isbn13_ok(s: Seq<char>) -> bool {
    s.len() == 13 && all_digits(s) && isbn13_sum(s, 13) % 10 == 0
}

/// A string is a valid ISBN when its digits form a valid ISBN-10 or ISBN-13;
/// every character that is not a decimal digit is ignored.
pub open spec fn isbn_ok(s: Seq<char>) -> bool {
    let d = digits_of(s);
    if d.len() == 10 {
        isbn10_ok(d)
    } else if d.len() == 13 {
        isbn13_ok(d)
    } else {
        false
    }
}

proof fn lemma_isbn10_sum_bounds(s: Seq<char>, n: nat)
    requires
        n <= 10,
        n <= s.len(),
        forall|i: int| 0 <= i < n ==> is_decimal_digit(#[trigger] s[i]),
    ensures
        0 <= isbn10_sum(s, n) <= 90 * n,
    decreases n,
{
    if n > 0 {
        lemma_isbn10_sum_bounds(s, (n - 1) as nat);
        let d = digit_value(s[n - 1]);
        let w = 10 - (n - 1);
        assert(0 <= d * w <= 90) by (nonlinear_arith)
            requires
                0 <= d <= 9,
                1 <= w <= 10,
        ;
        assert(isbn10_sum(s, n) == isbn10_sum(s, (n - 1) as nat) + d * w);
    }
}

proof fn lemma_isbn13_sum_bounds(s: Seq<char>, n: nat)
    requires
        n <= s.len(),
        forall|i: int| 0 <= i < n ==> is_decimal_digit(#[trigger] s[i]),
    ensures
        0 <= isbn13_sum(s, n) <= 27 * n,
    decreases n,
{
    if n > 0 {
        lemma_isbn13_sum_bounds(s, (n - 1) as nat);
    }
}

/// Checks a ten-digit ISBN: all ten characters are digits and the sum of
/// digit times weight (10 down to 1) is divisible by 11.
pub fn is_valid_isbn10(isbn: &str) -> (r: bool)
    ensures
        r == isbn10_ok(isbn@),
{
    let n = isbn.unicode_len();
    if n != 10 {
        return false;
    }
    let mut sum: u32 = 0;
    let mut i: usize = 0;
    while i < n
        invariant
            n == isbn@.len() == 10,
            0 <= i <= n,
            forall|k: int| 0 <= k < i ==> is_decimal_digit(#[trigger] isbn@[k]),
            sum == isbn10_sum(isbn@, i as nat),
        decreases n - i,
    {
        let c = isbn.get_char(i);
        if !('0' <= c && c <= '9') {
            return false;
        }
        proof {
            lemma_isbn10_sum_bounds(isbn@, i as nat);
        }
        let d: u32 = (c as u32) - ('0' as u32);
        let w: u32 = 10 - i as u32;
        assert(d * w <= 90) by (nonlinear_arith)
            requires
                d <= 9,
                w <= 10,
        ;
        sum = sum + d * w;
        i = i + 1;
    }
    sum % 11 == 0
}

/// Checks a thirteen-digit ISBN: all thirteen characters are digits and the
/// sum of digit times weight (1, 3, 1, 3, ...) is divisible by 10.
pub fn is_valid_isbn13(isbn: &str) -> (r: bool)
    ensures
        r == isbn13_ok(isbn@),
{
    let n = isbn.unicode_len();
    if n != 13 {
        return false;
    }
    let mut sum: u32 = 0;
    let mut i: usize = 0;
    while i < n
        invariant
            n == isbn@.len() == 13,
            0 <= i <= n,
            forall|k: int| 0 <= k < i ==> is_decimal_digit(#[trigger] isbn@[k]),
            sum == isbn13_sum(isbn@, i as nat),
        decreases n - i,
    {
        let c = isbn.get_char(i);
        if !('0' <= c && c <= '9') {
            return false;
        }
        proof {
            lemma_isbn13_sum_bounds(isbn@, i as nat);
        }
        let d = (c as u32) - ('0' as u32);
        if i % 2 == 0 {
            sum = sum + d;
        } else {
            sum = sum + d * 3;
        }
        i = i + 1;
    }
    sum % 10 == 0
}

/// Validates an ISBN written with any separators: the decimal digits are
/// taken in order and must form a valid ISBN-10 or ISBN-13.
pub fn is_valid_isbn(isbn: &str) -> (r: bool)
    ensures
        r == isbn_ok(isbn@),
        r ==> digits_of(isbn@).len() == 10 || digits_of(isbn@).len() == 13,
{
    let n = isbn.unicode_len();
    let mut cleaned = String::new();
    let mut i: usize = 0;
    while i < n
        invariant
            n == isbn@.len(),
            0 <= i <= n,
            cleaned@ == digits_of(isbn@.subrange(0, i as int)),
        decreases n - i,
    {
        let c = isbn.get_char(i);
        proof {
            assert(isbn@.subrange(0, i + 1).drop_last() =~= isbn@.subrange(0, i as int));
        }
        if '0' <= c && c <= '9' {
            push_char(&mut cleaned, c);
        }
        i = i + 1;
    }
    proof {
        assert(isbn@.subrange(0, n as int) =~= isbn@);
    }
    let m = cleaned.unicode_len();
    if m == 10 {
        is_valid_isbn10(cleaned.as_str())
    } else if m == 13 {
        is_valid_isbn13(cleaned.as_str())
    } else {
        false
    }
}

/// Only strings with exactly ten or exactly thirteen decimal digits can be
/// valid ISBNs, whatever else they hold.
pub proof fn lemma_isbn_digit_count(s: Seq<char>)
    ensures
        isbn_ok(s) ==> digits_of(s).len() == 10 || digits_of(s).len() == 13,
{
}

} // verus!
