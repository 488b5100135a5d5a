//! The ways in which planning can fail.

use vstd::prelude::*;

verus! {

/// Why a planning step gave no result.
#[derive(Clone, Copy, Debug, PartialEq, Eq, Structural)]
pub enum PlanError {
    /// A value handed in is not one the planner accepts: a farm dimension of
    /// zero, a label or name that nothing goes by, a choice outside the list
    /// offered, a combination that does not fit its layout or season.
    InvalidInput,
    /// No crop combination is known for the chosen season and layout.
    NoCombosAvailable,
}

impl PlanError {
    /// The text of the message, in the model.
    pub open spec fn text(self) -> Seq<char> {
        match self {
            PlanError::InvalidInput => "Invalid input"@,
            PlanError::NoCombosAvailable => "No crops for current season and layout"@,
        }
    }

    /// A short message for the user.
    pub fn message(&self) -> (s: &'static str)
        ensures
            s@ == self.text(),
    {
        match self {
            PlanError::InvalidInput => "Invalid input",
            PlanError::NoCombosAvailable => "No crops for current season and layout",
        }
    }
}

} // verus!
