use crate::models::{enabled_rules, placed, rotated, round_robin, InsertDirection, PasswordCharRule};
use std::collections::VecDeque;
use vstd::prelude::*;

verus! {

/// Hands out `len` positions to the enabled classes in turn, in the class order
/// symbols, digits, lowercase, uppercase, so that the classes stay balanced.
/// With no class enabled the result is empty.
pub fn distribute_rules(
    len: u8,
    with_symbols: bool,
    with_numbers: bool,
    with_uppercase: bool,
    with_lowercase: bool,
) -> (rules: Vec<PasswordCharRule>)
    ensures
        rules@ == round_robin(
            enabled_rules(with_symbols, with_numbers, with_uppercase, with_lowercase),
            len as nat,
        ),
{
    let ghost enabled = enabled_rules(with_symbols, with_numbers, with_uppercase, with_lowercase);
    let mut queue: VecDeque<PasswordCharRule> = VecDeque::new();
    if with_symbols {
        queue.push_back(PasswordCharRule::Symbols);
    }
    if with_numbers {
        queue.push_back(PasswordCharRule::Digit);
    }
    if with_lowercase {
        queue.push_back(PasswordCharRule::Lower);
    }
    if with_uppercase {
        queue.push_back(PasswordCharRule::Upper);
    }
    assert(queue@ == enabled);
    assert(queue@ == rotated(enabled, 0)) by {
        assert forall|j: int| 0 <= j < enabled.len() implies #[trigger] (j % (enabled.len() as int)) == j by {
            vstd::arithmetic::div_mod::lemma_small_mod(j as nat, enabled.len());
        }
    }
    let mut distributed: Vec<PasswordCharRule> = Vec::new();
    let mut remaining: u8 = len;
    while remaining > 0
        invariant
            enabled == enabled_rules(with_symbols, with_numbers, with_uppercase, with_lowercase),
            remaining <= len,
            queue@ == rotated(enabled, len - remaining),
            distributed@ == round_robin(enabled, (len - remaining) as nat),
        decreases remaining,
    {
        let ghost done: int = len - remaining;
        let ghost k: int = enabled.len() as int;
        if let Some(next) = queue.pop_front() {
            assert(next == enabled[done % k]);
            distributed.push(next);
            queue.push_back(next);
            proof {
                vstd::arithmetic::div_mod::lemma_mod_add_multiples_vanish(done, k);
            }
            assert(queue@ == rotated(enabled, done + 1));
            assert(distributed@ == round_robin(enabled, (done + 1) as nat));
        } else {
            assert(round_robin(enabled, (done + 1) as nat) == Seq::<PasswordCharRule>::empty());
        }
        remaining -= 1;
    }
    distributed
}

/// Shuffles `rules` by taking them in order and putting the `i`-th one at the
/// front or at the back of the result, as `directions[i]` says.
pub fn arrange_rules(
    rules: &Vec<PasswordCharRule>,
    directions: &Vec<InsertDirection>,
) -> (arranged: VecDeque<PasswordCharRule>)
    requires
        directions@.len() == rules@.len(),
    ensures
        arranged@ == placed(rules@, directions@),
{
    let mut arranged: VecDeque<PasswordCharRule> = VecDeque::new();
    let mut i: usize = 0;
    while i < rules.len()
        invariant
            directions@.len() == rules@.len(),
            i <= rules@.len(),
            arranged@ == placed(rules@.take(i as int), directions@),
        decreases rules@.len() - i,
    {
        let rule = rules[i];
        match directions[i] {
            InsertDirection::Back => arranged.push_back(rule),
            InsertDirection::Front => arranged.push_front(rule),
        }
        assert(rules@.take(i + 1).drop_last() == rules@.take(i as int));
        i += 1;
    }
    assert(rules@.take(i as int) == rules@);
    arranged
}

} // verus!
