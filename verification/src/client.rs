//! What a client keeps of the server: the last state it was sent and the last error.
pub mod client_error;

pub use client_error::ClientError;

use crate::protocol::{ErrorResponse, ServerState, ServerToClient};
use vstd::prelude::*;

verus! {

/// The last server state a client was sent, and the last error it was told of.
#[derive(Debug, Clone)]
pub struct ServerData {
    pub server_state: Option<ServerState>,
    pub last_error: Option<ErrorResponse>,
}

impl Default for ServerData {
    /// Nothing received yet.
    fn default() -> (data: Self)
        ensures
            data.server_state is None,
            data.last_error is None,
    {
        ServerData { server_state: None, last_error: None }
    }
}

/// Records a message from the server: a state update replaces the known state, an error
/// becomes the last error; the other part is kept.
pub fn update_server_state(data: &mut ServerData, message: ServerToClient)
    ensures
        match message {
            ServerToClient::StateUpdate(state) => {
                &&& final(data).server_state == Some(state)
                &&& final(data).last_error == old(data).last_error
            },
            ServerToClient::Error(error) => {
                &&& final(data).last_error == Some(error)
                &&& final(data).server_state == old(data).server_state
            },
        },
{
    match message {
        ServerToClient::StateUpdate(state) => data.server_state = Some(state),
        ServerToClient::Error(error) => data.last_error = Some(error),
    }
}

} // verus!
