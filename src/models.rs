use vstd::prelude::*;

verus! {

/// The character class that one position of a password must be drawn from.
#[derive(Clone, Copy, Debug, PartialEq, Eq, Structural)]
pub enum PasswordCharRule {
    Symbols,
    Lower,
    Upper,
    Digit,
}

/// Where a rule is placed when the rule sequence is shuffled.
#[derive(Clone, Copy, Debug, PartialEq, Eq, Structural)]
pub enum InsertDirection {
    Front,
    Back,
}

/// Why a password cannot be generated.
#[derive(Clone, Copy, Debug, PartialEq, Eq, Structural)]
pub enum GeneratorError {
    /// A non-empty password was requested with every character class disabled.
    NoClassEnabled,
}

/// Number of characters in the pool of each class.
pub open spec fn pool_len(rule: PasswordCharRule) -> nat {
    match rule {
        PasswordCharRule::Symbols => 32,
        PasswordCharRule::Lower => 26,
        PasswordCharRule::Upper => 26,
        PasswordCharRule::Digit => 10,
    }
}

/// Code point of the character at position `i` of a class's pool.
///
/// Lowercase is `a..=z`, uppercase `A..=Z`, digits `0..=9`, and symbols are the
/// 32 ASCII punctuation characters in code order:
/// ``!"#$%&'()*+,-./`` then ``:;<=>?@`` then ``[\]^_` `` then ``{|}~``.
pub open spec fn pool_code(rule: PasswordCharRule, i: int) -> int {
    match rule {
        PasswordCharRule::Symbols => if i < 15 {
            0x21 + i
        } else if i < 22 {
            0x3a + (i - 15)
        } else if i < 28 {
            0x5b + (i - 22)
        } else {
            0x7b + (i - 28)
        },
        PasswordCharRule::Lower => 0x61 + i,
        PasswordCharRule::Upper => 0x41 + i,
        PasswordCharRule::Digit => 0x30 + i,
    }
}

/// `s` is exactly the pool of `rule`, in order.
pub open spec fn is_pool(s: Seq<char>, rule: PasswordCharRule) -> bool {
    &&& s.len() == pool_len(rule)
    &&& forall|i: int| 0 <= i < s.len() ==> s[i] as u32 == pool_code(rule, i)
}

/// Every character of a class's pool belongs to that class.
pub proof fn lemma_pool_in_class(s: Seq<char>, rule: PasswordCharRule)
    requires
        is_pool(s, rule),
    ensures
        forall|c: char| s.contains(c) ==> is_class_char(rule, c),
{
    assert forall|c: char| s.contains(c) implies is_class_char(rule, c) by {
        let i = choose|i: int| 0 <= i < s.len() && s[i] == c;
        assert(c as u32 == pool_code(rule, i));
    }
}

/// Character `c` belongs to the class of `rule`.
pub open spec fn is_class_char(rule: PasswordCharRule, c: char) -> bool {
    let u = c as u32;
    match rule {
        PasswordCharRule::Symbols => {
            ||| 0x21 <= u <= 0x2f
            ||| 0x3a <= u <= 0x40
            ||| 0x5b <= u <= 0x60
            ||| 0x7b <= u <= 0x7e
        },
        PasswordCharRule::Lower => 0x61 <= u <= 0x7a,
        PasswordCharRule::Upper => 0x41 <= u <= 0x5a,
        PasswordCharRule::Digit => 0x30 <= u <= 0x39,
    }
}

/// Whether the class of `rule` is switched on by the four flags.
pub open spec fn is_enabled(
    rule: PasswordCharRule,
    with_symbols: bool,
    with_numbers: bool,
    with_uppercase: bool,
    with_lowercase: bool,
) -> bool {
    match rule {
        PasswordCharRule::Symbols => with_symbols,
        PasswordCharRule::Lower => with_lowercase,
        PasswordCharRule::Upper => with_uppercase,
        PasswordCharRule::Digit => with_numbers,
    }
}

/// Character `c` belongs to one of the classes switched on by the four flags.
pub open spec fn in_enabled_class(
    c: char,
    with_symbols: bool,
    with_numbers: bool,
    with_uppercase: bool,
    with_lowercase: bool,
) -> bool {
    ||| with_symbols && is_class_char(PasswordCharRule::Symbols, c)
    ||| with_numbers && is_class_char(PasswordCharRule::Digit, c)
    ||| with_uppercase && is_class_char(PasswordCharRule::Upper, c)
    ||| with_lowercase && is_class_char(PasswordCharRule::Lower, c)
}

/// The enabled rules in their fixed class order: symbols, digits, lowercase, uppercase.
pub open spec fn enabled_rules(
    with_symbols: bool,
    with_numbers: bool,
    with_uppercase: bool,
    with_lowercase: bool,
) -> Seq<PasswordCharRule> {
    (if with_symbols {
        seq![PasswordCharRule::Symbols]
    } else {
        Seq::empty()
    }) + (if with_numbers {
        seq![PasswordCharRule::Digit]
    } else {
        Seq::empty()
    }) + (if with_lowercase {
        seq![PasswordCharRule::Lower]
    } else {
        Seq::empty()
    }) + (if with_uppercase {
        seq![PasswordCharRule::Upper]
    } else {
        Seq::empty()
    })
}

/// `len` positions handed out to `rules` in turn, starting again from the front
/// once every rule had one; empty when there is no rule.
pub open spec fn round_robin(rules: Seq<PasswordCharRule>, len: nat) -> Seq<PasswordCharRule> {
    if rules.len() == 0 {
        Seq::empty()
    } else {
        Seq::new(len, |i: int| rules[i % (rules.len() as int)])
    }
}

/// `rules` turned `shift` times: the front is moved to the back `shift` times.
pub open spec fn rotated(rules: Seq<PasswordCharRule>, shift: int) -> Seq<PasswordCharRule> {
    Seq::new(rules.len(), |j: int| rules[(shift + j) % (rules.len() as int)])
}

/// The rule sequence built by taking the rules of `rules` in order and putting
/// the `i`-th one at the front or the back as `directions[i]` says.
pub open spec fn placed(
    rules: Seq<PasswordCharRule>,
    directions: Seq<InsertDirection>,
) -> Seq<PasswordCharRule>
    decreases rules.len(),
{
    if rules.len() == 0 {
        Seq::empty()
    } else {
        let before = placed(rules.drop_last(), directions);
        match directions[rules.len() - 1] {
            InsertDirection::Back => before.push(rules.last()),
            InsertDirection::Front => seq![rules.last()] + before,
        }
    }
}

/// Placing rules neither adds nor drops any.
pub proof fn lemma_placed_len(rules: Seq<PasswordCharRule>, directions: Seq<InsertDirection>)
    ensures
        placed(rules, directions).len() == rules.len(),
    decreases rules.len(),
{
    if rules.len() > 0 {
        lemma_placed_len(rules.drop_last(), directions);
    }
}

/// Each character of `password` belongs to the class of the rule at its position.
pub open spec fn fits_rules(password: Seq<char>, rules: Seq<PasswordCharRule>) -> bool {
    &&& password.len() == rules.len()
    &&& forall|i: int| 0 <= i < rules.len() ==> is_class_char(rules[i], password[i])
}

/// `password` is one of the passwords that generation can give for these
/// parameters: some placement of the round-robin rules fits it.
pub open spec fn is_generated_password(
    password: Seq<char>,
    len: nat,
    with_symbols: bool,
    with_numbers: bool,
    with_uppercase: bool,
    with_lowercase: bool,
) -> bool {
    exists|directions: Seq<InsertDirection>|
        {
            &&& directions.len() == round_robin(
                enabled_rules(with_symbols, with_numbers, with_uppercase, with_lowercase),
                len,
            ).len()
            &&& fits_rules(
                password,
                placed(
                    round_robin(
                        enabled_rules(with_symbols, with_numbers, with_uppercase, with_lowercase),
                        len,
                    ),
                    directions,
                ),
            )
        }
}

} // verus!
