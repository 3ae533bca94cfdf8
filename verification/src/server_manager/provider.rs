//! What a provider reports about its server.

use vstd::prelude::*;

use super::state::ServerState;

verus! {

/// Status returned by a provider during a check.
#[derive(Debug, Clone, Copy, PartialEq, Eq, Structural)]
#[non_exhaustive]
pub enum ProviderStatus {
    Running,
    Stopped,
    Starting,
    Stopping,
    Unknown,
}

/// The server state a provider status stands for.
pub open spec fn state_of(status: ProviderStatus) -> ServerState {
    match status {
        ProviderStatus::Running => ServerState::Online,
        ProviderStatus::Stopped => ServerState::Sleeping,
        ProviderStatus::Starting => ServerState::Starting,
        ProviderStatus::Stopping => ServerState::Stopping,
        ProviderStatus::Unknown => ServerState::Unknown,
    }
}

impl From<ProviderStatus> for ServerState {
    fn from(status: ProviderStatus) -> (s: ServerState)
        ensures
            s == state_of(status),
    {
        match status {
            ProviderStatus::Running => ServerState::Online,
            ProviderStatus::Stopped => ServerState::Sleeping,
            ProviderStatus::Starting => ServerState::Starting,
            ProviderStatus::Stopping => ServerState::Stopping,
            ProviderStatus::Unknown => ServerState::Unknown,
        }
    }
}

impl vstd::std_specs::convert::FromSpecImpl<ProviderStatus> for ServerState {
    open spec fn obeys_from_spec() -> bool {
        true
    }

    open spec fn from_spec(status: ProviderStatus) -> ServerState {
        state_of(status)
    }
}

/// No provider status maps to `Crashed`: a crash is only ever concluded by
/// the manager, never reported by a provider.
pub proof fn law_no_status_reports_crash(status: ProviderStatus)
    ensures
        state_of(status) != ServerState::Crashed,
{
}

} // verus!
