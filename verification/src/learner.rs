//! The boundary to the learner.

use vstd::prelude::*;

verus! {

/// Failure of the learner, with the text of what went wrong.
#[derive(Debug, Clone, PartialEq, Eq)]
pub enum LearnerError {
    LearnerError(String),
}

impl LearnerError {
    /// Text of the error as shown to a user.
    pub open spec fn spec_message(&self) -> Seq<char> {
        match self {
            LearnerError::LearnerError(detail) => "Learner error: "@ + detail@,
        }
    }

    /// Renders the error as shown to a user.
    pub fn message(&self) -> (text: String)
        ensures
            text@ == self.spec_message(),
    {
        match self {
            LearnerError::LearnerError(detail) => vstd::string::StringExecFns::concat(
                "Learner error: ".to_string(),
                detail.as_str(),
            ),
        }
    }
}

/// Configuration of the link between an inference client and the learner.
#[derive(Debug, Clone, Copy, PartialEq, Eq)]
pub struct CommConfig {}

} // verus!
