use crate::models::{
    enabled_rules, fits_rules, is_class_char, is_generated_password, is_pool, lemma_placed_len,
    lemma_pool_in_class, placed, round_robin, GeneratorError, InsertDirection, PasswordCharRule,
};
use crate::rules::{arrange_rules, distribute_rules};
use rand::rngs::StdRng;
use rand::{Rng, SeedableRng};
use std::collections::VecDeque;
use vstd::prelude::*;

verus! {

#[verifier::external_type_specification]
#[verifier::external_body]
pub struct ExStdRng(StdRng);

/// Relies on `StdRng::from_entropy` (rand_core's `SeedableRng`): a
/// cryptographically secure generator seeded from the operating system.
/// It panics only when the operating system cannot supply entropy.
#[verifier::external_body]
fn rng_from_entropy() -> StdRng {
    StdRng::from_entropy()
}

/// Relies on `Rng::gen_range` over `0..bound`: a value in the half-open range,
/// which must not be empty.
#[verifier::external_body]
fn random_below(rng: &mut StdRng, bound: usize) -> (r: usize)
    requires
        bound > 0,
    ensures
        r < bound,
{
    rng.gen_range(0..bound)
}

/// Appends to `pool` the `count` characters whose codes run up from `first`.
fn push_code_run(pool: &mut Vec<char>, first: u8, count: u8)
    requires
        first as int + count as int <= 0x80,
    ensures
        final(pool)@.len() == old(pool)@.len() + count,
        forall|i: int| 0 <= i < old(pool)@.len() ==> final(pool)@[i] == old(pool)@[i],
        forall|i: int|
            old(pool)@.len() <= i < final(pool)@.len() ==> final(pool)@[i] as u32 == first + (i
                - old(pool)@.len()),
{
    let ghost start = pool@.len();
    let mut k: u8 = 0;
    while k < count
        invariant
            first as int + count as int <= 0x80,
            k <= count,
            pool@.len() == start + k,
            forall|i: int| 0 <= i < start ==> pool@[i] == old(pool)@[i],
            forall|i: int| start <= i < pool@.len() ==> pool@[i] as u32 == first + (i - start),
        decreases count - k,
    {
        let code: u8 = first + k;
        pool.push(code as char);
        k += 1;
    }
}

/// The pool of characters of one class, in code order.
fn class_pool(rule: PasswordCharRule) -> (pool: Vec<char>)
    ensures
        is_pool(pool@, rule),
{
    let mut pool: Vec<char> = Vec::new();
    match rule {
        PasswordCharRule::Symbols => {
            push_code_run(&mut pool, 0x21, 15);
            push_code_run(&mut pool, 0x3a, 7);
            push_code_run(&mut pool, 0x5b, 6);
            push_code_run(&mut pool, 0x7b, 4);
        },
        PasswordCharRule::Lower => push_code_run(&mut pool, 0x61, 26),
        PasswordCharRule::Upper => push_code_run(&mut pool, 0x41, 26),
        PasswordCharRule::Digit => push_code_run(&mut pool, 0x30, 10),
    }
    pool
}

/// Relies on `String::push`: the character is appended at the end.
#[verifier::external_body]
fn push_char(s: &mut String, c: char)
    ensures
        final(s)@ == old(s)@.push(c),
{
    s.push(c)
}

/// Draws one element of `elements`, by a uniformly random index.
fn pick<T: Copy>(rng: &mut StdRng, elements: &[T]) -> (r: T)
    requires
        elements@.len() > 0,
    ensures
        elements@.contains(r),
{
    let i = random_below(rng, elements.len());
    elements[i]
}

/// Generates passwords from the four character pools and a secure random source.
pub struct Generator {
    lower: Vec<char>,
    upper: Vec<char>,
    digit: Vec<char>,
    symbol: Vec<char>,
    rng: StdRng,
}

impl Generator {
    /// Each pool holds exactly the characters of its class.
    pub closed spec fn wf(&self) -> bool {
        &&& is_pool(self.lower@, PasswordCharRule::Lower)
        &&& is_pool(self.upper@, PasswordCharRule::Upper)
        &&& is_pool(self.digit@, PasswordCharRule::Digit)
        &&& is_pool(self.symbol@, PasswordCharRule::Symbols)
    }

    /// Builds the pools and seeds the random source from the operating system.
    pub fn new() -> (generator: Self)
        ensures
            generator.wf(),
    {
        let rng = rng_from_entropy();
        Generator {
            lower: class_pool(PasswordCharRule::Lower),
            upper: class_pool(PasswordCharRule::Upper),
            digit: class_pool(PasswordCharRule::Digit),
            symbol: class_pool(PasswordCharRule::Symbols),
            rng,
        }
    }

    /// Generates a password of `len` characters.
    ///
    /// The positions are first handed out to the enabled classes in turn
    /// (symbols, digits, lowercase, uppercase), then shuffled by putting each
    /// rule at the front or the back on a coin flip, and each position is then
    /// filled with a random character of its class. A non-empty password with
    /// every class disabled is refused.
    pub fn generate_password(
        &mut self,
        len: u8,
        with_symbols: bool,
        with_numbers: bool,
        with_uppercase: bool,
        with_lowercase: bool,
    ) -> (password: Result<String, GeneratorError>)
        requires
            old(self).wf(),
        ensures
            final(self).wf(),
            password is Err <==> (len > 0 && !with_symbols && !with_numbers && !with_uppercase
                && !with_lowercase),
            password is Err ==> password->Err_0 == GeneratorError::NoClassEnabled,
            password matches Ok(p) ==> p@.len() == len && is_generated_password(
                p@,
                len as nat,
                with_symbols,
                with_numbers,
                with_uppercase,
                with_lowercase,
            ),
    {
        if len > 0 && !with_symbols && !with_numbers && !with_uppercase && !with_lowercase {
            return Err(GeneratorError::NoClassEnabled);
        }
        let password_rules = self.generate_password_rules(
            len,
            with_symbols,
            with_numbers,
            with_uppercase,
            with_lowercase,
        );
        let password = self.fill_password(&password_rules);
        proof {
            let distributed = round_robin(
                enabled_rules(with_symbols, with_numbers, with_uppercase, with_lowercase),
                len as nat,
            );
            let directions = choose|directions: Seq<InsertDirection>|
                directions.len() == distributed.len() && password_rules@ == placed(
                    distributed,
                    directions,
                );
            lemma_placed_len(distributed, directions);
        }
        Ok(password)
    }

    /// The round-robin rules for `len` positions, shuffled by coin flips.
    fn generate_password_rules(
        &mut self,
        len: u8,
        with_symbols: bool,
        with_numbers: bool,
        with_uppercase: bool,
        with_lowercase: bool,
    ) -> (rules: VecDeque<PasswordCharRule>)
        requires
            old(self).wf(),
        ensures
            final(self).wf(),
            exists|directions: Seq<InsertDirection>|
                directions.len() == round_robin(
                    enabled_rules(with_symbols, with_numbers, with_uppercase, with_lowercase),
                    len as nat,
                ).len() && rules@ == placed(
                    round_robin(
                        enabled_rules(with_symbols, with_numbers, with_uppercase, with_lowercase),
                        len as nat,
                    ),
                    directions,
                ),
    {
        let distributed = distribute_rules(
            len,
            with_symbols,
            with_numbers,
            with_uppercase,
            with_lowercase,
        );
        let mut directions: Vec<InsertDirection> = Vec::new();
        let mut i: usize = 0;
        while i < distributed.len()
            invariant
                self.wf(),
                i <= distributed@.len(),
                directions@.len() == i,
            decreases distributed@.len() - i,
        {
            let direction = self.get_random_element(
                &[InsertDirection::Back, InsertDirection::Front],
            );
            directions.push(direction);
            i += 1;
        }
        let rules = arrange_rules(&distributed, &directions);
        assert(directions@.len() == distributed@.len() && rules@ == placed(distributed@, directions@));
        rules
    }

    /// Fills each position with a random character of the class of its rule.
    fn fill_password(&mut self, password_rules: &VecDeque<PasswordCharRule>) -> (password: String)
        requires
            old(self).wf(),
        ensures
            final(self).wf(),
            fits_rules(password@, password_rules@),
    {
        let mut password = String::new();
        let mut i: usize = 0;
        while i < password_rules.len()
            invariant
                self.wf(),
                i <= password_rules@.len(),
                fits_rules(password@, password_rules@.take(i as int)),
            decreases password_rules@.len() - i,
        {
            let rule = password_rules[i];
            let c = match rule {
                PasswordCharRule::Upper => pick(&mut self.rng, self.upper.as_slice()),
                PasswordCharRule::Lower => pick(&mut self.rng, self.lower.as_slice()),
                PasswordCharRule::Digit => pick(&mut self.rng, self.digit.as_slice()),
                PasswordCharRule::Symbols => pick(&mut self.rng, self.symbol.as_slice()),
            };
            proof {
                lemma_pool_in_class(self.upper@, PasswordCharRule::Upper);
                lemma_pool_in_class(self.lower@, PasswordCharRule::Lower);
                lemma_pool_in_class(self.digit@, PasswordCharRule::Digit);
                lemma_pool_in_class(self.symbol@, PasswordCharRule::Symbols);
            }
            assert(is_class_char(rule, c));
            push_char(&mut password, c);
            assert(password_rules@.take(i + 1) == password_rules@.take(i as int).push(rule));
            i += 1;
        }
        assert(password_rules@.take(i as int) == password_rules@);
        password
    }

    /// Selects one element of `elements` with the secure random source.
    pub fn get_random_element<T: Copy>(&mut self, elements: &[T]) -> (element: T)
        requires
            elements@.len() > 0,
        ensures
            elements@.contains(element),
            old(self).wf() ==> final(self).wf(),
    {
        pick(&mut self.rng, elements)
    }
}

} // verus!
