//! Failures of an environment.

use vstd::prelude::*;
use vstd::string::StringExecFns;

verus! {

/// Failure of an environment, with the text of what went wrong.
#[derive(Debug, Clone, PartialEq, Eq)]
pub enum EnvError {
    EnvError(String),
}

impl EnvError {
    /// Text of the error as shown to a user.
    pub open spec fn spec_message(&self) -> Seq<char> {
        match self {
            EnvError::EnvError(detail) => "Environment error: "@ + detail@,
        }
    }

    /// Renders the error as shown to a user.
    pub fn message(&self) -> (text: String)
        ensures
            text@ == self.spec_message(),
    {
        match self {
            EnvError::EnvError(detail) => "Environment error: ".to_string().concat(
                detail.as_str(),
            ),
        }
    }
}

} // verus!
