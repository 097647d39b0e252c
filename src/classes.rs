use crate::models::{is_class_char, PasswordCharRule};
use vstd::prelude::*;
use vstd::string::*;

verus! {

/// Some character of `password` belongs to the class of `rule`.
pub open spec fn has_class_char(password: Seq<char>, rule: PasswordCharRule) -> bool {
    exists|i: int| 0 <= i < password.len() && is_class_char(rule, password[i])
}

/// Number of characters of `password` that belong to the class of `rule`.
pub open spec fn class_count(password: Seq<char>, rule: PasswordCharRule) -> nat
    decreases password.len(),
{
    if password.len() == 0 {
        0
    } else {
        class_count(password.drop_last(), rule) + if is_class_char(rule, password.last()) {
            1nat
        } else {
            0nat
        }
    }
}

/// `password` holds a character of exactly the classes whose flag is set.
pub open spec fn has_exactly_classes(
    password: Seq<char>,
    with_symbols: bool,
    with_numbers: bool,
    with_uppercase: bool,
    with_lowercase: bool,
) -> bool {
    &&& has_class_char(password, PasswordCharRule::Symbols) == with_symbols
    &&& has_class_char(password, PasswordCharRule::Digit) == with_numbers
    &&& has_class_char(password, PasswordCharRule::Upper) == with_uppercase
    &&& has_class_char(password, PasswordCharRule::Lower) == with_lowercase
}

/// Whether `c` belongs to the class of `rule`.
pub fn char_in_class(rule: PasswordCharRule, c: char) -> (r: bool)
    ensures
        r == is_class_char(rule, c),
{
    let u = c as u32;
    match rule {
        PasswordCharRule::Symbols => (0x21 <= u && u <= 0x2f) || (0x3a <= u && u <= 0x40) || (0x5b
            <= u && u <= 0x60) || (0x7b <= u && u <= 0x7e),
        PasswordCharRule::Lower => 0x61 <= u && u <= 0x7a,
        PasswordCharRule::Upper => 0x41 <= u && u <= 0x5a,
        PasswordCharRule::Digit => 0x30 <= u && u <= 0x39,
    }
}

/// Checks that `password` holds at least one character of each class whose
/// flag is set, and none of a class whose flag is clear.
pub fn assert_password(
    password: &str,
    should_have_symbol: bool,
    should_have_number: bool,
    should_have_upper: bool,
    should_have_lower: bool,
) -> (r: bool)
    ensures
        r == has_exactly_classes(
            password@,
            should_have_symbol,
            should_have_number,
            should_have_upper,
            should_have_lower,
        ),
{
    let mut has_symbol = false;
    let mut has_number = false;
    let mut has_lower = false;
    let mut has_upper = false;
    let n = password.unicode_len();
    let mut i: usize = 0;
    while i < n
        invariant
            n == password@.len(),
            i <= n,
            has_symbol == has_class_char(password@.take(i as int), PasswordCharRule::Symbols),
            has_number == has_class_char(password@.take(i as int), PasswordCharRule::Digit),
            has_lower == has_class_char(password@.take(i as int), PasswordCharRule::Lower),
            has_upper == has_class_char(password@.take(i as int), PasswordCharRule::Upper),
        decreases n - i,
    {
        let c = password.get_char(i);
        let ghost before = password@.take(i as int);
        let ghost after = password@.take(i + 1);
        assert(after == before.push(c));
        has_symbol = has_symbol || char_in_class(PasswordCharRule::Symbols, c);
        has_number = has_number || char_in_class(PasswordCharRule::Digit, c);
        has_lower = has_lower || char_in_class(PasswordCharRule::Lower, c);
        has_upper = has_upper || char_in_class(PasswordCharRule::Upper, c);
        assert forall|rule: PasswordCharRule|
            #[trigger] has_class_char(after, rule) == (has_class_char(before, rule)
                || is_class_char(rule, c)) by {
            if has_class_char(before, rule) {
                let j = choose|j: int| 0 <= j < before.len() && is_class_char(rule, before[j]);
                assert(after[j] == before[j]);
            }
            if is_class_char(rule, c) {
                assert(after[i as int] == c);
            }
        }
        i += 1;
    }
    assert(password@.take(n as int) == password@);
    has_symbol == should_have_symbol && has_number == should_have_number && has_lower
        == should_have_lower && has_upper == should_have_upper
}

} // verus!
