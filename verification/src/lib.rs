pub mod error;
pub mod evaluate;
pub mod notation;
pub mod roll;

pub use error::{DiceField, EvaluationError};
pub use evaluate::evaluate;
pub use roll::RollSpecification;
