//! State of a backend server.

use vstd::prelude::*;

verus! {

/// State of a backend server managed by a provider.
#[derive(Debug, Clone, Copy, PartialEq, Eq, Hash, Structural)]
#[non_exhaustive]
pub enum ServerState {
    /// The server is online and accepting connections.
    Online,
    /// The server is stopped, ready to be woken up.
    Sleeping,
    /// The server is starting up.
    Starting,
    /// The server is shutting down.
    Stopping,
    /// The server crashed unexpectedly.
    Crashed,
    /// Unable to determine state.
    Unknown,
}

impl ServerState {
    /// Returns `true` if the server can accept player connections.
    pub fn is_joinable(&self) -> (b: bool)
        ensures
            b == (*self == ServerState::Online),
    {
        matches!(self, ServerState::Online)
    }

    /// Returns `true` if the server can be started.
    pub fn is_startable(&self) -> (b: bool)
        ensures
            b == (*self == ServerState::Sleeping || *self == ServerState::Crashed),
    {
        matches!(self, ServerState::Sleeping | ServerState::Crashed)
    }

    /// Returns `true` if a player should wait for the server to start.
    pub fn should_wait(&self) -> (b: bool)
        ensures
            b == (*self == ServerState::Starting),
    {
        matches!(self, ServerState::Starting)
    }

    /// The name of the state, capitalized.
    pub fn as_str(&self) -> (s: &'static str)
        ensures
            s@ == match *self {
                ServerState::Online => "Online"@,
                ServerState::Sleeping => "Sleeping"@,
                ServerState::Starting => "Starting"@,
                ServerState::Stopping => "Stopping"@,
                ServerState::Crashed => "Crashed"@,
                ServerState::Unknown => "Unknown"@,
            },
    {
        match self {
            ServerState::Online => "Online",
            ServerState::Sleeping => "Sleeping",
            ServerState::Starting => "Starting",
            ServerState::Stopping => "Stopping",
            ServerState::Crashed => "Crashed",
            ServerState::Unknown => "Unknown",
        }
    }
}

/// No state is at once joinable and startable, nor joinable and waited for:
/// a player is either let in, or made to wait, or the server is woken.
pub proof fn law_state_predicates_exclusive(s: ServerState)
    ensures
        !(s == ServerState::Online && (s == ServerState::Sleeping || s == ServerState::Crashed)),
        !(s == ServerState::Online && s == ServerState::Starting),
        !(s == ServerState::Starting && (s == ServerState::Sleeping || s == ServerState::Crashed)),
{
}

} // verus!
