use vstd::prelude::*;

verus! {

/// The kinds of password a user can ask for.
#[derive(Clone, Copy, Debug, PartialEq, Eq, Structural)]
pub enum PasswordKind {
    /// Every class.
    Random,
    /// Digits only.
    Pin,
    /// Words a person can remember; not offered yet.
    Memorable,
}

/// Which character classes a password is drawn from.
#[derive(Clone, Copy, Debug, PartialEq, Eq, Structural)]
pub struct ClassSelection {
    pub with_symbols: bool,
    pub with_numbers: bool,
    pub with_uppercase: bool,
    pub with_lowercase: bool,
}

/// The classes for a request: a random password uses every class and a pin only
/// digits; without a kind, lowercase is always on and the other three classes
/// follow the user's switches. There is none for a memorable password.
pub fn select_classes(
    kind: Option<PasswordKind>,
    numbers: bool,
    symbols: bool,
    capitalized: bool,
) -> (selection: Option<ClassSelection>)
    ensures
        kind == Some(PasswordKind::Random) ==> selection == Some(
            ClassSelection {
                with_symbols: true,
                with_numbers: true,
                with_uppercase: true,
                with_lowercase: true,
            },
        ),
        kind == Some(PasswordKind::Pin) ==> selection == Some(
            ClassSelection {
                with_symbols: false,
                with_numbers: true,
                with_uppercase: false,
                with_lowercase: false,
            },
        ),
        kind == Some(PasswordKind::Memorable) ==> selection is None,
        kind is None ==> selection == Some(
            ClassSelection {
                with_symbols: symbols,
                with_numbers: numbers,
                with_uppercase: capitalized,
                with_lowercase: true,
            },
        ),
{
    match kind {
        Some(PasswordKind::Random) => Some(
            ClassSelection {
                with_symbols: true,
                with_numbers: true,
                with_uppercase: true,
                with_lowercase: true,
            },
        ),
        Some(PasswordKind::Pin) => Some(
            ClassSelection {
                with_symbols: false,
                with_numbers: true,
                with_uppercase: false,
                with_lowercase: false,
            },
        ),
        Some(PasswordKind::Memorable) => None,
        None => Some(
            ClassSelection {
                with_symbols: symbols,
                with_numbers: numbers,
                with_uppercase: capitalized,
                with_lowercase: true,
            },
        ),
    }
}

} // verus!
