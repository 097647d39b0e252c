//! Generates passwords from configurable character classes (lowercase,
//! uppercase, digits, symbols) and gives what their strength is computed from.

pub mod classes;
pub mod generator;
pub mod lemmas;
pub mod models;
pub mod rules;
pub mod selection;
pub mod strength;

pub use classes::assert_password;
pub use generator::Generator;
pub use models::{GeneratorError, InsertDirection, PasswordCharRule};
