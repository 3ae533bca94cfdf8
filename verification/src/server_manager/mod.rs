//! Server management: the states a backend server goes through, and the
//! decisions the providers and the monitor make about it.
//!
//! The network and process work (panel APIs, a local Java process, timers)
//! is done by the caller; this module holds what is decided from its results.

pub mod state;
pub mod provider;
pub mod panel;
pub mod local;
pub mod monitor;

pub use provider::ProviderStatus;
pub use state::ServerState;
