use crate::classes::{class_count, has_class_char, has_exactly_classes};
use crate::models::{
    enabled_rules, fits_rules, in_enabled_class, is_class_char, is_enabled, is_generated_password,
    lemma_placed_len, placed, round_robin, InsertDirection, PasswordCharRule,
};
use vstd::prelude::*;
use vstd::seq_lib::*;

verus! {

/// A character belongs to at most one class.
pub proof fn lemma_classes_disjoint(a: PasswordCharRule, b: PasswordCharRule, c: char)
    requires
        is_class_char(a, c),
        is_class_char(b, c),
    ensures
        a == b,
{
}

/// The enabled rules are exactly the rules whose class is switched on.
pub proof fn lemma_enabled_rules(
    with_symbols: bool,
    with_numbers: bool,
    with_uppercase: bool,
    with_lowercase: bool,
)
    ensures
        forall|rule: PasswordCharRule|
            #[trigger] enabled_rules(with_symbols, with_numbers, with_uppercase, with_lowercase).contains(rule)
                <==> is_enabled(rule, with_symbols, with_numbers, with_uppercase, with_lowercase),
{
    broadcast use group_seq_properties;

    let s: Seq<PasswordCharRule> = if with_symbols {
        seq![PasswordCharRule::Symbols]
    } else {
        Seq::empty()
    };
    let d: Seq<PasswordCharRule> = if with_numbers {
        seq![PasswordCharRule::Digit]
    } else {
        Seq::empty()
    };
    let l: Seq<PasswordCharRule> = if with_lowercase {
        seq![PasswordCharRule::Lower]
    } else {
        Seq::empty()
    };
    let u: Seq<PasswordCharRule> = if with_uppercase {
        seq![PasswordCharRule::Upper]
    } else {
        Seq::empty()
    };
    assert forall|rule: PasswordCharRule|
        #[trigger] enabled_rules(with_symbols, with_numbers, with_uppercase, with_lowercase).contains(rule)
            <==> is_enabled(rule, with_symbols, with_numbers, with_uppercase, with_lowercase) by {
        assert(s.contains(rule) <==> (with_symbols && rule == PasswordCharRule::Symbols)) by {
            if with_symbols {
                assert(s[0] == PasswordCharRule::Symbols);
            }
        }
        assert(d.contains(rule) <==> (with_numbers && rule == PasswordCharRule::Digit)) by {
            if with_numbers {
                assert(d[0] == PasswordCharRule::Digit);
            }
        }
        assert(l.contains(rule) <==> (with_lowercase && rule == PasswordCharRule::Lower)) by {
            if with_lowercase {
                assert(l[0] == PasswordCharRule::Lower);
            }
        }
        assert(u.contains(rule) <==> (with_uppercase && rule == PasswordCharRule::Upper)) by {
            if with_uppercase {
                assert(u[0] == PasswordCharRule::Upper);
            }
        }
        assert(enabled_rules(with_symbols, with_numbers, with_uppercase, with_lowercase) == s + d
            + l + u);
    }
}

/// Placing rules keeps each rule as many times as it came.
pub proof fn lemma_placed_multiset(rules: Seq<PasswordCharRule>, directions: Seq<InsertDirection>)
    ensures
        placed(rules, directions).to_multiset() == rules.to_multiset(),
    decreases rules.len(),
{
    broadcast use group_to_multiset_ensures;

    if rules.len() > 0 {
        let init = rules.drop_last();
        let x = rules.last();
        let before = placed(init, directions);
        lemma_placed_multiset(init, directions);
        assert(rules == init.push(x));
        match directions[rules.len() - 1] {
            InsertDirection::Back => {},
            InsertDirection::Front => {
                assert(seq![x] + before == before.insert(0, x));
            },
        }
    }
}

/// The round-robin sequence only holds the rules it hands out.
pub proof fn lemma_round_robin_contains(rules: Seq<PasswordCharRule>, len: nat, rule: PasswordCharRule)
    ensures
        round_robin(rules, len).contains(rule) ==> rules.contains(rule),
        rules.contains(rule) && rules.len() <= len ==> round_robin(rules, len).contains(rule),
{
    let rr = round_robin(rules, len);
    let k = rules.len() as int;
    if rr.contains(rule) {
        let i = choose|i: int| 0 <= i < rr.len() && rr[i] == rule;
        vstd::arithmetic::div_mod::lemma_mod_bound(i, k);
        assert(rules[i % k] == rule);
    }
    if rules.contains(rule) && rules.len() <= len {
        let j = choose|j: int| 0 <= j < rules.len() && rules[j] == rule;
        vstd::arithmetic::div_mod::lemma_small_mod(j as nat, k as nat);
        assert(rr[j] == rule);
    }
}

/// Every character of a generated password belongs to an enabled class, and
/// none belongs to a disabled class.
pub proof fn lemma_generated_chars_enabled(
    password: Seq<char>,
    len: nat,
    with_symbols: bool,
    with_numbers: bool,
    with_uppercase: bool,
    with_lowercase: bool,
)
    requires
        is_generated_password(password, len, with_symbols, with_numbers, with_uppercase, with_lowercase),
    ensures
        forall|i: int|
            0 <= i < password.len() ==> in_enabled_class(
                #[trigger] password[i],
                with_symbols,
                with_numbers,
                with_uppercase,
                with_lowercase,
            ),
        forall|i: int, rule: PasswordCharRule|
            0 <= i < password.len() && #[trigger] is_class_char(rule, password[i]) ==> is_enabled(
                rule,
                with_symbols,
                with_numbers,
                with_uppercase,
                with_lowercase,
            ),
{
    broadcast use group_to_multiset_ensures;

    let enabled = enabled_rules(with_symbols, with_numbers, with_uppercase, with_lowercase);
    let distributed = round_robin(enabled, len);
    let directions = choose|directions: Seq<InsertDirection>|
        directions.len() == distributed.len() && fits_rules(password, placed(distributed, directions));
    let rules = placed(distributed, directions);
    lemma_placed_multiset(distributed, directions);
    lemma_enabled_rules(with_symbols, with_numbers, with_uppercase, with_lowercase);
    assert forall|i: int| 0 <= i < password.len() implies is_enabled(
        rules[i],
        with_symbols,
        with_numbers,
        with_uppercase,
        with_lowercase,
    ) && is_class_char(rules[i], password[i]) by {
        assert(rules.contains(rules[i]));
        assert(rules.to_multiset().count(rules[i]) > 0);
        lemma_round_robin_contains(enabled, len, rules[i]);
    }
    assert forall|i: int, rule: PasswordCharRule|
        0 <= i < password.len() && #[trigger] is_class_char(rule, password[i]) implies is_enabled(
        rule,
        with_symbols,
        with_numbers,
        with_uppercase,
        with_lowercase,
    ) by {
        lemma_classes_disjoint(rule, rules[i], password[i]);
    }
}

/// When the password is at least as long as the number of enabled classes,
/// every enabled class has a character in it.
pub proof fn lemma_generated_covers_enabled(
    password: Seq<char>,
    len: nat,
    with_symbols: bool,
    with_numbers: bool,
    with_uppercase: bool,
    with_lowercase: bool,
)
    requires
        is_generated_password(password, len, with_symbols, with_numbers, with_uppercase, with_lowercase),
        len >= enabled_rules(with_symbols, with_numbers, with_uppercase, with_lowercase).len(),
    ensures
        forall|rule: PasswordCharRule|
            is_enabled(rule, with_symbols, with_numbers, with_uppercase, with_lowercase)
                ==> #[trigger] has_class_char(password, rule),
{
    broadcast use group_to_multiset_ensures;

    let enabled = enabled_rules(with_symbols, with_numbers, with_uppercase, with_lowercase);
    let distributed = round_robin(enabled, len);
    let directions = choose|directions: Seq<InsertDirection>|
        directions.len() == distributed.len() && fits_rules(password, placed(distributed, directions));
    let rules = placed(distributed, directions);
    lemma_placed_multiset(distributed, directions);
    lemma_enabled_rules(with_symbols, with_numbers, with_uppercase, with_lowercase);
    assert forall|rule: PasswordCharRule|
        is_enabled(rule, with_symbols, with_numbers, with_uppercase, with_lowercase)
            implies #[trigger] has_class_char(password, rule) by {
        assert(enabled.contains(rule));
        lemma_round_robin_contains(enabled, len, rule);
        assert(distributed.to_multiset().count(rule) > 0);
        assert(rules.contains(rule));
        let m = choose|m: int| 0 <= m < rules.len() && rules[m] == rule;
        assert(is_class_char(rule, password[m]));
    }
}

/// A generated password at least as long as the number of enabled classes holds
/// a character of exactly the enabled classes.
pub proof fn lemma_generated_has_exactly_enabled(
    password: Seq<char>,
    len: nat,
    with_symbols: bool,
    with_numbers: bool,
    with_uppercase: bool,
    with_lowercase: bool,
)
    requires
        is_generated_password(password, len, with_symbols, with_numbers, with_uppercase, with_lowercase),
        len >= enabled_rules(with_symbols, with_numbers, with_uppercase, with_lowercase).len(),
    ensures
        has_exactly_classes(password, with_symbols, with_numbers, with_uppercase, with_lowercase),
{
    lemma_generated_chars_enabled(password, len, with_symbols, with_numbers, with_uppercase, with_lowercase);
    lemma_generated_covers_enabled(password, len, with_symbols, with_numbers, with_uppercase, with_lowercase);
    assert forall|rule: PasswordCharRule| #[trigger] has_class_char(password, rule) implies is_enabled(
        rule,
        with_symbols,
        with_numbers,
        with_uppercase,
        with_lowercase,
    ) by {
        let i = choose|i: int| 0 <= i < password.len() && is_class_char(rule, password[i]);
    }
    assert(has_class_char(password, PasswordCharRule::Symbols) == with_symbols);
    assert(has_class_char(password, PasswordCharRule::Digit) == with_numbers);
    assert(has_class_char(password, PasswordCharRule::Upper) == with_uppercase);
    assert(has_class_char(password, PasswordCharRule::Lower) == with_lowercase);
}

/// A password that fits a rule sequence has as many characters of a class as
/// the sequence has rules for it.
pub proof fn lemma_fits_class_count(
    password: Seq<char>,
    rules: Seq<PasswordCharRule>,
    rule: PasswordCharRule,
)
    requires
        fits_rules(password, rules),
    ensures
        class_count(password, rule) == rules.to_multiset().count(rule),
    decreases password.len(),
{
    broadcast use group_to_multiset_ensures;

    if password.len() > 0 {
        let last = password.len() - 1;
        assert(fits_rules(password.drop_last(), rules.drop_last())) by {
            assert forall|i: int| 0 <= i < last implies is_class_char(
                rules.drop_last()[i],
                password.drop_last()[i],
            ) by {
                assert(is_class_char(rules[i], password[i]));
            }
        }
        lemma_fits_class_count(password.drop_last(), rules.drop_last(), rule);
        assert(rules == rules.drop_last().push(rules.last()));
        assert(is_class_char(rules[last], password[last]));
        if is_class_char(rule, password.last()) {
            lemma_classes_disjoint(rule, rules.last(), password.last());
        }
    }
}

/// A generated password has as many characters of each class as the
/// round-robin distribution gives that class.
pub proof fn lemma_generated_class_counts(
    password: Seq<char>,
    len: nat,
    with_symbols: bool,
    with_numbers: bool,
    with_uppercase: bool,
    with_lowercase: bool,
)
    requires
        is_generated_password(password, len, with_symbols, with_numbers, with_uppercase, with_lowercase),
    ensures
        password.len() == round_robin(
            enabled_rules(with_symbols, with_numbers, with_uppercase, with_lowercase),
            len,
        ).len(),
        forall|rule: PasswordCharRule|
            #[trigger] class_count(password, rule) == round_robin(
                enabled_rules(with_symbols, with_numbers, with_uppercase, with_lowercase),
                len,
            ).to_multiset().count(rule),
{
    let distributed = round_robin(
        enabled_rules(with_symbols, with_numbers, with_uppercase, with_lowercase),
        len,
    );
    let directions = choose|directions: Seq<InsertDirection>|
        directions.len() == distributed.len() && fits_rules(password, placed(distributed, directions));
    lemma_placed_multiset(distributed, directions);
    lemma_placed_len(distributed, directions);
    assert forall|rule: PasswordCharRule|
        #[trigger] class_count(password, rule) == distributed.to_multiset().count(rule) by {
        lemma_fits_class_count(password, placed(distributed, directions), rule);
    }
}

/// Two passwords generated with the same parameters have the same length and
/// the same number of characters of each class; only the characters differ.
pub proof fn lemma_same_class_shape(
    first: Seq<char>,
    second: Seq<char>,
    len: nat,
    with_symbols: bool,
    with_numbers: bool,
    with_uppercase: bool,
    with_lowercase: bool,
)
    requires
        is_generated_password(first, len, with_symbols, with_numbers, with_uppercase, with_lowercase),
        is_generated_password(second, len, with_symbols, with_numbers, with_uppercase, with_lowercase),
    ensures
        first.len() == second.len(),
        forall|rule: PasswordCharRule|
            #[trigger] class_count(first, rule) == class_count(second, rule),
{
    lemma_generated_class_counts(first, len, with_symbols, with_numbers, with_uppercase, with_lowercase);
    lemma_generated_class_counts(second, len, with_symbols, with_numbers, with_uppercase, with_lowercase);
    assert forall|rule: PasswordCharRule|
        #[trigger] class_count(first, rule) == class_count(second, rule) by {
        assert(class_count(first, rule) == round_robin(
            enabled_rules(with_symbols, with_numbers, with_uppercase, with_lowercase),
            len,
        ).to_multiset().count(rule));
    }
}

/// A generated password has the requested length whenever some class is enabled.
pub proof fn lemma_generated_len(
    password: Seq<char>,
    len: nat,
    with_symbols: bool,
    with_numbers: bool,
    with_uppercase: bool,
    with_lowercase: bool,
)
    requires
        is_generated_password(password, len, with_symbols, with_numbers, with_uppercase, with_lowercase),
        with_symbols || with_numbers || with_uppercase || with_lowercase,
    ensures
        password.len() == len,
{
    lemma_generated_class_counts(password, len, with_symbols, with_numbers, with_uppercase, with_lowercase);
    lemma_enabled_rules(with_symbols, with_numbers, with_uppercase, with_lowercase);
    let enabled = enabled_rules(with_symbols, with_numbers, with_uppercase, with_lowercase);
    if with_symbols {
        assert(enabled.contains(PasswordCharRule::Symbols));
    } else if with_numbers {
        assert(enabled.contains(PasswordCharRule::Digit));
    } else if with_uppercase {
        assert(enabled.contains(PasswordCharRule::Upper));
    } else {
        assert(enabled.contains(PasswordCharRule::Lower));
    }
}

/// Round-robin is balanced: the rule at position `j` of `rules` gets `len / k`
/// of the `len` positions, and one more when `j < len % k`, where `k` is the
/// number of rules.
pub proof fn lemma_round_robin_balanced(rules: Seq<PasswordCharRule>, len: nat, j: int)
    requires
        rules.no_duplicates(),
        0 <= j < rules.len(),
    ensures
        round_robin(rules, len).to_multiset().count(rules[j]) == (len as int) / (rules.len() as int) + if j
            < (len as int) % (rules.len() as int) {
            1int
        } else {
            0int
        },
    decreases len,
{
    broadcast use group_to_multiset_ensures;

    let k = rules.len() as int;
    if len == 0 {
        assert(round_robin(rules, len) == Seq::<PasswordCharRule>::empty());
        assert(Seq::<PasswordCharRule>::empty().to_multiset().len() == 0);
        vstd::arithmetic::div_mod::lemma_small_mod(0, k as nat);
        vstd::arithmetic::div_mod::lemma_basic_div(0, k);
    } else {
        let n = (len - 1) as nat;
        lemma_round_robin_balanced(rules, n, j);
        assert(round_robin(rules, len) == round_robin(rules, n).push(rules[(n as int) % k]));
        vstd::arithmetic::div_mod::lemma_fundamental_div_mod(n as int, k);
        vstd::arithmetic::div_mod::lemma_mod_bound(n as int, k);
        let q = n as int / k;
        let m = n as int % k;
        assert(n == q * k + m) by (nonlinear_arith)
            requires
                n == k * q + m,
        ;
        if m + 1 < k {
            vstd::arithmetic::div_mod::lemma_fundamental_div_mod_converse(len as int, k, q, m + 1);
        } else {
            assert(len == (q + 1) * k + 0) by (nonlinear_arith)
                requires
                    len == q * k + m + 1,
                    m + 1 == k,
            ;
            vstd::arithmetic::div_mod::lemma_fundamental_div_mod_converse(len as int, k, q + 1, 0);
        }
        if rules[m] == rules[j] {
            assert(m == j);
        }
    }
}

/// Each class appears at most once among the enabled rules.
pub proof fn lemma_enabled_rules_distinct(
    with_symbols: bool,
    with_numbers: bool,
    with_uppercase: bool,
    with_lowercase: bool,
)
    ensures
        enabled_rules(with_symbols, with_numbers, with_uppercase, with_lowercase).no_duplicates(),
{
    let enabled = enabled_rules(with_symbols, with_numbers, with_uppercase, with_lowercase);
    let code = |rule: PasswordCharRule|
        match rule {
            PasswordCharRule::Symbols => 0int,
            PasswordCharRule::Digit => 1int,
            PasswordCharRule::Lower => 2int,
            PasswordCharRule::Upper => 3int,
        };
    assert forall|a: int, b: int| 0 <= a < b < enabled.len() implies code(enabled[a]) < code(
        enabled[b],
    ) by {
        let s: Seq<PasswordCharRule> = if with_symbols {
            seq![PasswordCharRule::Symbols]
        } else {
            Seq::empty()
        };
        let d: Seq<PasswordCharRule> = if with_numbers {
            seq![PasswordCharRule::Digit]
        } else {
            Seq::empty()
        };
        let l: Seq<PasswordCharRule> = if with_lowercase {
            seq![PasswordCharRule::Lower]
        } else {
            Seq::empty()
        };
        let u: Seq<PasswordCharRule> = if with_uppercase {
            seq![PasswordCharRule::Upper]
        } else {
            Seq::empty()
        };
        assert(enabled == s + d + l + u);
    }
}

/// Each enabled class gets `len / k` or `len / k + 1` characters of a generated
/// password, where `k` is the number of enabled classes.
pub proof fn lemma_generated_balanced(
    password: Seq<char>,
    len: nat,
    with_symbols: bool,
    with_numbers: bool,
    with_uppercase: bool,
    with_lowercase: bool,
    rule: PasswordCharRule,
)
    requires
        is_generated_password(password, len, with_symbols, with_numbers, with_uppercase, with_lowercase),
        is_enabled(rule, with_symbols, with_numbers, with_uppercase, with_lowercase),
    ensures
        ({
            let k = enabled_rules(with_symbols, with_numbers, with_uppercase, with_lowercase).len() as int;
            (len as int) / k <= class_count(password, rule) <= (len as int) / k + 1
        }),
{
    let enabled = enabled_rules(with_symbols, with_numbers, with_uppercase, with_lowercase);
    lemma_enabled_rules(with_symbols, with_numbers, with_uppercase, with_lowercase);
    lemma_enabled_rules_distinct(with_symbols, with_numbers, with_uppercase, with_lowercase);
    lemma_generated_class_counts(password, len, with_symbols, with_numbers, with_uppercase, with_lowercase);
    assert(enabled.contains(rule));
    let j = choose|j: int| 0 <= j < enabled.len() && enabled[j] == rule;
    lemma_round_robin_balanced(enabled, len, j);
    assert(class_count(password, rule) == round_robin(enabled, len).to_multiset().count(rule));
}

} // verus!
