use vstd::prelude::*;

use crate::error::EvaluationError;

verus! {

/// The largest roll count a request may ask for.
pub const MAX_ROLLS: usize = 100;

/// The largest side count a die may have.
pub const MAX_SIDES: usize = 1000;

/// Declares rand::rngs::ThreadRng, the thread-local generator handle,
/// so that a value of it can be held and passed between draws. It is
/// opaque: nothing is assumed of its state.
#[verifier::external_type_specification]
#[verifier::external_body]
pub struct ExThreadRng(rand::rngs::ThreadRng);

/// Relies on rand::rng: returns a handle to the thread-local random
/// number generator. Nothing is promised of it beyond what each draw
/// promises.
#[verifier::external_body]
fn fresh_rng() -> rand::rngs::ThreadRng {
    rand::rng()
}

/// Relies on rand's Rng::random_range over the inclusive range
/// `1..=sides`: the draw lies in that range, and the call panics only on
/// an empty range, which `sides >= 1` rules out. Nothing more is assumed
/// of the draw: it may differ between two calls on equal arguments.
#[verifier::external_body]
fn roll_once(rng: &mut rand::rngs::ThreadRng, sides: usize) -> (r: usize)
    requires
        1 <= sides,
    ensures
        1 <= r <= sides,
{
    rand::Rng::random_range(rng, 1..=sides)
}

/// A validated dice request: how many dice to roll and how many sides
/// each die has. Built only through `new`, which enforces the bounds.
#[derive(Clone, Copy, Debug, PartialEq, Eq, Structural)]
pub struct RollSpecification {
    pub rolls: usize,
    pub sides: usize,
}

impl RollSpecification {
    /// Both counts are positive and within their limits.
    pub open spec fn wf(self) -> bool {
        &&& 1 <= self.rolls <= MAX_ROLLS
        &&& 1 <= self.sides <= MAX_SIDES
    }

    /// Validates a candidate pair of counts. The zero check comes before
    /// the limit check, so a zero field is reported as `ZeroValue` even
    /// when the other field also exceeds its limit.
    pub fn new(rolls: usize, sides: usize) -> (r: Result<RollSpecification, EvaluationError>)
        ensures
            rolls == 0 || sides == 0 ==> r == Err::<RollSpecification, EvaluationError>(
                EvaluationError::ZeroValue,
            ),
            rolls >= 1 && sides >= 1 && (rolls > MAX_ROLLS || sides > MAX_SIDES) ==> r
                == Err::<RollSpecification, EvaluationError>(EvaluationError::LimitExceeded),
            1 <= rolls <= MAX_ROLLS && 1 <= sides <= MAX_SIDES ==> r == Ok::<
                RollSpecification,
                EvaluationError,
            >(RollSpecification { rolls, sides }),
    {
        if rolls == 0 || sides == 0 {
            Err(EvaluationError::ZeroValue)
        } else if rolls > MAX_ROLLS || sides > MAX_SIDES {
            Err(EvaluationError::LimitExceeded)
        } else {
            Ok(RollSpecification { rolls, sides })
        }
    }

    /// Draws one value per requested roll, each uniformly in
    /// `[1, sides]`, and returns them in draw order.
    pub fn roll(&self) -> (r: Vec<usize>)
        requires
            self.wf(),
        ensures
            r@.len() == self.rolls,
            forall|k: int| 0 <= k < r@.len() ==> 1 <= #[trigger] r@[k] <= self.sides,
    {
        let mut rng = fresh_rng();
        let mut results: Vec<usize> = Vec::new();
        let mut done: usize = 0;
        while done < self.rolls
            invariant
                self.wf(),
                done <= self.rolls,
                results@.len() == done,
                forall|k: int| 0 <= k < results@.len() ==> 1 <= #[trigger] results@[k]
                    <= self.sides,
            decreases self.rolls - done,
        {
            let v = roll_once(&mut rng, self.sides);
            results.push(v);
            done = done + 1;
        }
        results
    }
}

} // verus!
