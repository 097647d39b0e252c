use password_generator::classes::char_in_class;
use password_generator::rules::{arrange_rules, distribute_rules};
use password_generator::selection::{select_classes, ClassSelection, PasswordKind};
use password_generator::strength::{strength_basis, StrengthBasis, MAX_POOL_SIZE};
use password_generator::{
    assert_password, Generator, GeneratorError, InsertDirection, PasswordCharRule,
};
use std::collections::VecDeque;
use InsertDirection::{Back, Front};
use PasswordCharRule::{Digit, Lower, Symbols, Upper};

const SYMBOLS: &str = "!\"#$%&'()*+,-./:;<=>?@[\\]^_`{|}~";
const LOWERCASE: &str = "abcdefghijklmnopqrstuvwxyz";
const UPPERCASE: &str = "ABCDEFGHIJKLMNOPQRSTUVWXYZ";
const DIGITS: &str = "0123456789";

fn class_of(c: char) -> PasswordCharRule {
    if SYMBOLS.contains(c) {
        Symbols
    } else if DIGITS.contains(c) {
        Digit
    } else if LOWERCASE.contains(c) {
        Lower
    } else if UPPERCASE.contains(c) {
        Upper
    } else {
        panic!("character {:?} is in no class", c)
    }
}

fn counts(password: &str) -> [usize; 4] {
    let mut counts = [0usize; 4];
    for c in password.chars() {
        let slot = match class_of(c) {
            Symbols => 0,
            Digit => 1,
            Lower => 2,
            Upper => 3,
        };
        counts[slot] += 1;
    }
    counts
}

#[test]
fn distribution_is_round_robin_in_class_order() {
    assert_eq!(
        distribute_rules(6, true, true, true, true),
        vec![Symbols, Digit, Lower, Upper, Symbols, Digit]
    );
    assert_eq!(distribute_rules(5, true, true, false, false), vec![Symbols, Digit, Symbols, Digit, Symbols]);
    assert_eq!(distribute_rules(3, false, false, true, true), vec![Lower, Upper, Lower]);
    assert_eq!(distribute_rules(1, false, true, false, true), vec![Digit]);
    assert_eq!(distribute_rules(0, true, true, true, true), vec![]);
}

#[test]
fn distribution_without_classes_is_empty() {
    assert_eq!(distribute_rules(10, false, false, false, false), vec![]);
}

#[test]
fn distribution_keeps_classes_balanced() {
    let rules = distribute_rules(255, true, true, true, false);
    let symbols = rules.iter().filter(|r| **r == Symbols).count();
    let digits = rules.iter().filter(|r| **r == Digit).count();
    let upper = rules.iter().filter(|r| **r == Upper).count();
    assert_eq!((symbols, digits, upper), (85, 85, 85));
    let rules = distribute_rules(10, true, true, true, true);
    let upper = rules.iter().filter(|r| **r == Upper).count();
    let symbols = rules.iter().filter(|r| **r == Symbols).count();
    assert_eq!((symbols, upper), (3, 2));
}

#[test]
fn arrangement_puts_rules_front_or_back() {
    let arranged = arrange_rules(&vec![Symbols, Digit, Lower, Upper], &vec![Back, Front, Back, Front]);
    assert_eq!(arranged, VecDeque::from(vec![Upper, Digit, Symbols, Lower]));
    let arranged = arrange_rules(&vec![Symbols, Digit], &vec![Back, Back]);
    assert_eq!(arranged, VecDeque::from(vec![Symbols, Digit]));
    let arranged = arrange_rules(&vec![], &vec![]);
    assert!(arranged.is_empty());
}

#[test]
fn pin_scenario_gives_five_digits() {
    let mut generator = Generator::new();
    let password = generator.generate_password(5, false, true, false, false).unwrap();
    assert_eq!(password.chars().count(), 5);
    assert!(password.chars().all(|c| DIGITS.contains(c)));
}

#[test]
fn empty_password_has_zero_strength() {
    let mut generator = Generator::new();
    assert_eq!(generator.generate_password(0, true, true, true, true), Ok(String::new()));
    assert_eq!(strength_basis(0, true, true, true, true), StrengthBasis::Zero);
}

#[test]
fn no_class_enabled_is_refused() {
    let mut generator = Generator::new();
    assert_eq!(
        generator.generate_password(10, false, false, false, false),
        Err(GeneratorError::NoClassEnabled)
    );
    assert_eq!(generator.generate_password(0, false, false, false, false), Ok(String::new()));
}

#[test]
fn every_character_is_in_an_enabled_class() {
    let mut generator = Generator::new();
    for len in 1..=40u8 {
        let password = generator.generate_password(len, true, false, false, true).unwrap();
        for c in password.chars() {
            assert!(SYMBOLS.contains(c) || LOWERCASE.contains(c));
        }
    }
}

#[test]
fn single_character_uses_the_first_enabled_class() {
    let mut generator = Generator::new();
    for _ in 0..50 {
        let password = generator.generate_password(1, false, true, true, true).unwrap();
        assert_eq!(password.chars().count(), 1);
        assert!(DIGITS.contains(password.chars().next().unwrap()));
    }
}

#[test]
fn short_password_covers_each_enabled_class() {
    let mut generator = Generator::new();
    for _ in 0..50 {
        let password = generator.generate_password(4, true, true, true, true).unwrap();
        assert_eq!(counts(&password), [1, 1, 1, 1]);
    }
}

#[test]
fn two_generations_share_class_shape() {
    let mut generator = Generator::new();
    let first = generator.generate_password(11, true, true, false, true).unwrap();
    let second = generator.generate_password(11, true, true, false, true).unwrap();
    assert_eq!(first.chars().count(), second.chars().count());
    assert_eq!(counts(&first), counts(&second));
    assert_eq!(counts(&first), [4, 4, 3, 0]);
}

#[test]
fn longest_password_has_every_class() {
    let mut generator = Generator::new();
    let password = generator.generate_password(255, true, true, true, true).unwrap();
    assert_eq!(password.chars().count(), 255);
    assert_eq!(counts(&password), [64, 64, 64, 63]);
    assert!(assert_password(&password, true, true, true, true));
}

#[test]
fn random_element_comes_from_the_slice() {
    let mut generator = Generator::new();
    let elements = ['x', 'y', 'z'];
    for _ in 0..100 {
        let e = generator.get_random_element(&elements);
        assert!(elements.contains(&e));
    }
    assert_eq!(generator.get_random_element(&[7u32]), 7);
}

#[test]
fn strength_basis_for_short_and_long_passwords() {
    assert_eq!(strength_basis(1, true, false, false, false), StrengthBasis::Zero);
    assert_eq!(strength_basis(0, false, false, false, false), StrengthBasis::Zero);
    assert_eq!(
        strength_basis(10, true, true, true, true),
        StrengthBasis::Keyspace { length: 10, pool_size: 94, max_pool_size: 94 }
    );
    assert_eq!(
        strength_basis(8, false, true, false, true),
        StrengthBasis::Keyspace { length: 8, pool_size: 36, max_pool_size: MAX_POOL_SIZE }
    );
    assert_eq!(
        strength_basis(2, false, false, false, false),
        StrengthBasis::Keyspace { length: 2, pool_size: 0, max_pool_size: 94 }
    );
}

#[test]
fn class_selection_by_kind() {
    let all = ClassSelection { with_symbols: true, with_numbers: true, with_uppercase: true, with_lowercase: true };
    assert_eq!(select_classes(Some(PasswordKind::Random), false, false, false), Some(all));
    assert_eq!(
        select_classes(Some(PasswordKind::Pin), false, true, true),
        Some(ClassSelection { with_symbols: false, with_numbers: true, with_uppercase: false, with_lowercase: false })
    );
    assert_eq!(select_classes(Some(PasswordKind::Memorable), true, true, true), None);
    assert_eq!(
        select_classes(None, true, false, true),
        Some(ClassSelection { with_symbols: false, with_numbers: true, with_uppercase: true, with_lowercase: true })
    );
}

#[test]
fn char_classes_match_the_alphabets() {
    for c in SYMBOLS.chars() {
        assert!(char_in_class(Symbols, c));
        assert!(!char_in_class(Digit, c));
    }
    for c in DIGITS.chars() {
        assert!(char_in_class(Digit, c));
    }
    for c in LOWERCASE.chars() {
        assert!(char_in_class(Lower, c));
        assert!(!char_in_class(Upper, c));
    }
    for c in UPPERCASE.chars() {
        assert!(char_in_class(Upper, c));
    }
    assert!(!char_in_class(Symbols, ' '));
    assert!(!char_in_class(Lower, 'é'));
}

#[test]
fn password_check_reports_missing_and_extra_classes() {
    assert!(assert_password("aB3!", true, true, true, true));
    assert!(!assert_password("aB3", true, true, true, true));
    assert!(!assert_password("aB3!", false, true, true, true));
    assert!(assert_password("", false, false, false, false));
    assert!(assert_password("zz", false, false, false, true));
    assert!(!assert_password("é", false, false, false, true));
}
