use vstd::prelude::*;

verus! {

/// Why a server could not be run.
#[derive(Debug, Clone, Copy, PartialEq, Eq, Structural)]
pub enum ServerError {
    FailedToBind,
    FailedToAccept,
    FailedToSerialize,
}

impl ServerError {
    /// The error's name, as it is shown to the user.
    pub fn message(&self) -> (text: String)
        ensures
            text@ == match self {
                ServerError::FailedToBind => "FailedToBind"@,
                ServerError::FailedToAccept => "FailedToAccept"@,
                ServerError::FailedToSerialize => "FailedToSerialize"@,
            },
    {
        match self {
            ServerError::FailedToBind => String::from_str("FailedToBind"),
            ServerError::FailedToAccept => String::from_str("FailedToAccept"),
            ServerError::FailedToSerialize => String::from_str("FailedToSerialize"),
        }
    }
}

} // verus!
