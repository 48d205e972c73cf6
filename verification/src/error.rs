use vstd::prelude::*;

verus! {

/// Which of the two numeric fields of the dice notation a parse failure
/// concerns: the roll count before the `d`, or the side count after it.
#[derive(Clone, Copy, Debug, PartialEq, Eq, Structural)]
pub enum DiceField {
    Rolls,
    Sides,
}

/// The failures that evaluating a dice request can report. Every failure
/// stems from invalid caller input; none is a server-side fault.
#[derive(Clone, Copy, Debug, PartialEq, Eq, Structural)]
pub enum EvaluationError {
    /// The input does not have the shape `<digits>d<digits>`.
    MalformedInput,
    /// A digit run is too large to represent as a machine integer.
    NonNumericField(DiceField),
    /// The roll count or the side count is zero.
    ZeroValue,
    /// The roll count or the side count exceeds its maximum.
    LimitExceeded,
}

impl EvaluationError {
    /// The human-readable message that a transport layer shows for this
    /// error.
    pub fn message(&self) -> (r: String)
        ensures
            *self == EvaluationError::MalformedInput
                ==> r@ == "Invalid format. Use [rolls]d[sides]."@,
            *self == EvaluationError::NonNumericField(DiceField::Rolls)
                ==> r@ == "Invalid rolls format. Must be a positive integer."@,
            *self == EvaluationError::NonNumericField(DiceField::Sides)
                ==> r@ == "Invalid sides format. Must be a positive integer."@,
            *self == EvaluationError::ZeroValue
                ==> r@ == "Rolls and sides must be greater than 0."@,
            *self == EvaluationError::LimitExceeded
                ==> r@ == "Rolls must be 100 or fewer, and sides must be 1000 or fewer."@,
    {
        match self {
            EvaluationError::MalformedInput => "Invalid format. Use [rolls]d[sides].".to_owned(),
            EvaluationError::NonNumericField(DiceField::Rolls) => {
                "Invalid rolls format. Must be a positive integer.".to_owned()
            },
            EvaluationError::NonNumericField(DiceField::Sides) => {
                "Invalid sides format. Must be a positive integer.".to_owned()
            },
            EvaluationError::ZeroValue => "Rolls and sides must be greater than 0.".to_owned(),
            EvaluationError::LimitExceeded => {
                "Rolls must be 100 or fewer, and sides must be 1000 or fewer.".to_owned()
            },
        }
    }
}

} // verus!
