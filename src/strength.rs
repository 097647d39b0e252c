use crate::models::{pool_len, PasswordCharRule};
use vstd::prelude::*;

verus! {

/// Size of the pool of every class together.
pub const MAX_POOL_SIZE: u32 = 94;

/// Number of characters a password can draw from with these classes enabled.
pub open spec fn pool_size(
    with_symbols: bool,
    with_numbers: bool,
    with_uppercase: bool,
    with_lowercase: bool,
) -> nat {
    (if with_symbols {
        pool_len(PasswordCharRule::Symbols)
    } else {
        0
    }) + (if with_numbers {
        pool_len(PasswordCharRule::Digit)
    } else {
        0
    }) + (if with_uppercase {
        pool_len(PasswordCharRule::Upper)
    } else {
        0
    }) + (if with_lowercase {
        pool_len(PasswordCharRule::Lower)
    } else {
        0
    })
}

/// What the strength of a password is computed from.
///
/// A password of length 0 or 1 has zero strength. Otherwise the strength is
/// `20 + 80 * log_b(a)` with `a = length ^ pool_size` and
/// `b = 255 ^ max_pool_size`.
#[derive(Clone, Copy, Debug, PartialEq, Eq, Structural)]
pub enum StrengthBasis {
    Zero,
    Keyspace { length: u8, pool_size: u32, max_pool_size: u32 },
}

/// The basis of the strength of a password of `len` characters drawn from the
/// enabled classes.
pub fn strength_basis(
    len: u8,
    with_symbols: bool,
    with_numbers: bool,
    with_uppercase: bool,
    with_lowercase: bool,
) -> (basis: StrengthBasis)
    ensures
        len <= 1 ==> basis == StrengthBasis::Zero,
        len > 1 ==> basis == (StrengthBasis::Keyspace {
            length: len,
            pool_size: pool_size(with_symbols, with_numbers, with_uppercase, with_lowercase) as u32,
            max_pool_size: MAX_POOL_SIZE,
        }),
{
    if len <= 1 {
        return StrengthBasis::Zero;
    }
    let mut size: u32 = 0;
    if with_symbols {
        size += 32;
    }
    if with_numbers {
        size += 10;
    }
    if with_uppercase {
        size += 26;
    }
    if with_lowercase {
        size += 26;
    }
    StrengthBasis::Keyspace { length: len, pool_size: size, max_pool_size: MAX_POOL_SIZE }
}

} // verus!
