use password_generator::{assert_password, Generator};
use std::collections::HashSet;

const DIGITS: &str = "0123456789";

#[test]
fn generate_different_sizes() {
    let mut generator = Generator::new();
    for i in 0..255 {
        let password = generator.generate_password(i, true, true, true, true).unwrap();
        assert_eq!(password.len() as u8, i, "Password is not the right length");
    }
}

#[test]
fn generate_pin() {
    let mut generator = Generator::new();
    let password = generator.generate_password(5, false, true, false, false).unwrap();
    assert_eq!(password.len(), 5, "Password is not the right length");
    for c in password.chars() {
        assert!(DIGITS.contains(c), "Password has something other than a digit");
    }
}

#[test]
fn generate_random() {
    let mut generator = Generator::new();
    let password = generator.generate_password(10, true, true, true, true).unwrap();
    assert_eq!(password.len(), 10, "Password is not the right length");
    assert!(assert_password(&password, true, true, true, true));
}

#[test]
fn generate_with_two_rules() {
    let mut generator = Generator::new();
    let password = generator.generate_password(10, true, true, false, false).unwrap();
    assert_eq!(password.len(), 10, "Password is not the right length");
    assert!(assert_password(&password, true, true, false, false));

    let password = generator.generate_password(10, true, false, true, false).unwrap();
    assert_eq!(password.len(), 10, "Password is not the right length");
    assert!(assert_password(&password, true, false, true, false));

    let password = generator.generate_password(10, true, false, false, true).unwrap();
    assert_eq!(password.len(), 10, "Password is not the right length");
    assert!(assert_password(&password, true, false, false, true));

    let password = generator.generate_password(10, false, true, true, false).unwrap();
    assert_eq!(password.len(), 10, "Password is not the right length");
    assert!(assert_password(&password, false, true, true, false));

    let password = generator.generate_password(10, false, false, true, true).unwrap();
    assert_eq!(password.len(), 10, "Password is not the right length");
    assert!(assert_password(&password, false, false, true, true));
}

#[test]
fn generate_with_lower_upper_digit_rules() {
    let mut generator = Generator::new();
    let password = generator.generate_password(10, false, true, true, true).unwrap();
    assert_eq!(password.len(), 10, "Password is not the right length");
    assert!(assert_password(&password, false, true, true, true));
}

#[test]
fn generate_with_symbol_lower_upper_rules() {
    let mut generator = Generator::new();
    let password = generator.generate_password(10, true, false, true, true).unwrap();
    assert_eq!(password.len(), 10, "Password is not the right length");
    assert!(assert_password(&password, true, false, true, true));
}

#[test]
fn generate_with_symbol_lower_digit_rules() {
    let mut generator = Generator::new();
    let password = generator.generate_password(10, true, true, false, true).unwrap();
    assert_eq!(password.len(), 10, "Password is not the right length");
    assert!(assert_password(&password, true, true, false, true));
}

#[test]
fn generate_with_symbol_upper_digit_rules() {
    let mut generator = Generator::new();
    let password = generator.generate_password(10, true, true, true, false).unwrap();
    assert_eq!(password.len(), 10, "Password is not the right length");
    assert!(assert_password(&password, true, true, true, false));
}

#[test]
fn generate_unique_passwords() {
    let mut generator = Generator::new();
    let mut previously_generated_passwords = HashSet::new();
    for _ in 0..100000 {
        let password = generator.generate_password(10, true, true, true, false).unwrap();
        assert_eq!(password.len(), 10, "Password is not the right length");
        assert!(assert_password(&password, true, true, true, false));
        assert!(
            !previously_generated_passwords.contains(password.as_str()),
            "The password has already been generated"
        );
        previously_generated_passwords.insert(password);
    }
}
