//! Errors of the program.

use vstd::prelude::*;

use crate::text::join2;

verus! {

/// What stopped the program. An error of a file or of the network is given as
/// text.
#[derive(Debug, Clone, PartialEq, Eq)]
pub enum AetherError {
    Config(String),
    Io(String),
}

impl AetherError {
    /// What an error says.
    pub open spec fn said(self) -> Seq<char> {
        match self {
            AetherError::Config(reason) => "config error: "@ + reason@,
            AetherError::Io(reason) => "io error: "@ + reason@,
        }
    }

    /// The message of an error.
    pub fn message(&self) -> (r: String)
        ensures
            r@ == self.said(),
    {
        match self {
            AetherError::Config(reason) => join2("config error: ", reason.as_str()),
            AetherError::Io(reason) => join2("io error: ", reason.as_str()),
        }
    }
}

/// An error says of which kind it is and what the reason was.
pub proof fn errors_give_their_reason(error: AetherError)
    ensures
        error matches AetherError::Config(reason) ==> error.said() == "config error: "@ + reason@,
        error matches AetherError::Io(reason) ==> error.said() == "io error: "@ + reason@,
{
}

} // verus!
