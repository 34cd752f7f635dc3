use vstd::prelude::*;

verus! {

/// Why a client could not get going.
#[derive(Debug, Clone, Copy, PartialEq, Eq, Structural)]
pub enum ClientError {
    FailedToConnect,
    FailedToCreateServer,
}

impl ClientError {
    /// The error's name, as it is shown to the user.
    pub fn message(&self) -> (text: String)
        ensures
            text@ == match self {
                ClientError::FailedToConnect => "FailedToConnect"@,
                ClientError::FailedToCreateServer => "FailedToCreateServer"@,
            },
    {
        match self {
            ClientError::FailedToConnect => String::from_str("FailedToConnect"),
            ClientError::FailedToCreateServer => String::from_str("FailedToCreateServer"),
        }
    }
}

} // verus!
