//! The consensus context: which validator proposes at a height and round.
use vstd::prelude::*;

use crate::height::{Height, Round};
use crate::proposal::{Validator, ValidatorSet};

verus! {

/// The context of this application's consensus.
#[derive(Clone, Copy, Debug)]
pub struct TestContext;

/// The index of the proposer: validators take turns, one step per height and
/// per round.
pub open spec fn proposer_index(height: u64, round: u32, count: nat) -> int {
    ((height - 1) + round) % (count as int)
}

impl TestContext {
    pub fn new() -> (r: TestContext) {
        TestContext
    }

    /// The validator that proposes at `height` and `round`.
    pub fn select_proposer(&self, validator_set: &ValidatorSet, height: Height, round: Round) -> (r: Validator)
        requires
            validator_set.validators@.len() > 0,
            round is Num,
            height.0 >= 1,
        ensures
            r == validator_set.validators@[proposer_index(height.0, round->0, validator_set.validators@.len())],
    {
        let count = validator_set.validators.len();
        let r: u32 = match round {
            Round::Num(r) => r,
            Round::Nil => 0,
        };
        let index = ((height.0 - 1) as u128 + r as u128) % (count as u128);
        assert(index < count);
        validator_set.validators[index as usize]
    }
}

} // verus!
