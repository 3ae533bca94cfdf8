//! The decisions of the per-server monitor: how fast it polls, what a state
//! transition tells the players waiting for the server, and when an idle
//! server is shut down. The timers, the polling and the notifications are
//! done by the caller.

use vstd::prelude::*;

use super::provider::ProviderStatus;
use super::state::ServerState;

verus! {

/// How many base poll intervals the monitor waits: one while a server is
/// changing state, six otherwise.
pub fn poll_multiplier(fast_poll: bool) -> (k: u32)
    ensures
        k == if fast_poll {
            1u32
        } else {
            6u32
        },
{
    if fast_poll {
        1
    } else {
        6
    }
}

/// Whether the monitor skips polling: a crashed server waits until it is
/// started again.
pub fn skips_poll(state: Option<ServerState>) -> (b: bool)
    ensures
        b == (state == Some(ServerState::Crashed)),
{
    match state {
        Some(ServerState::Crashed) => true,
        _ => false,
    }
}

/// What the players waiting for a server are told.
#[derive(Debug, Clone, Copy, PartialEq, Eq, Structural)]
pub enum WaiterNotice {
    /// The server is online.
    Started,
    /// The server's process exited.
    Exited,
}

/// What the monitor does after a poll.
#[derive(Debug, Clone, Copy, PartialEq, Eq, Structural)]
pub struct PollOutcome {
    /// The notice for the waiting players, if any.
    pub notify: Option<WaiterNotice>,
    /// Whether the next poll comes fast.
    pub fast_poll: bool,
    /// Whether to check for auto-shutdown now.
    pub check_auto_shutdown: bool,
}

/// The notice and polling speed a transition into `s` brings, from
/// `fast_poll`.
pub open spec fn transition_outcome(s: ServerState, fast_poll: bool) -> (Option<WaiterNotice>, bool) {
    match s {
        ServerState::Online => (Some(WaiterNotice::Started), false),
        ServerState::Crashed | ServerState::Sleeping => (Some(WaiterNotice::Exited), false),
        ServerState::Starting | ServerState::Stopping => (None, true),
        _ => (None, fast_poll),
    }
}

/// Decides after a poll that returned `status`, where `transition` is the
/// state the server moved into, if it changed: reaching `Online` tells the
/// waiters it started, reaching `Crashed` or `Sleeping` that it exited, and
/// both slow the polling down; `Starting` and `Stopping` speed it up. The
/// auto-shutdown check runs whenever the server is running.
pub fn after_poll(fast_poll: bool, status: ProviderStatus, transition: Option<ServerState>) -> (o: PollOutcome)
    ensures
        o.check_auto_shutdown == (status == ProviderStatus::Running),
        match transition {
            None => o.notify is None && o.fast_poll == fast_poll,
            Some(s) => (o.notify, o.fast_poll) == transition_outcome(s, fast_poll),
        },
{
    let check = match status {
        ProviderStatus::Running => true,
        _ => false,
    };
    let (notify, fast) = match transition {
        None => (None, fast_poll),
        Some(ServerState::Online) => (Some(WaiterNotice::Started), false),
        Some(ServerState::Crashed) | Some(ServerState::Sleeping) => (Some(WaiterNotice::Exited), false),
        Some(ServerState::Starting) | Some(ServerState::Stopping) => (None, true),
        Some(_) => (None, fast_poll),
    };
    PollOutcome { notify, fast_poll: fast, check_auto_shutdown: check }
}

/// The auto-shutdown decision for a running server.
#[derive(Debug, Clone, Copy, PartialEq, Eq, Structural)]
pub enum AutoShutdown {
    /// Record now as the last time a player was seen.
    MarkSeen,
    /// Nothing to do.
    Keep,
    /// Stop the server.
    Stop,
}

/// The auto-shutdown decision for `player_count` players, an idle delay
/// `shutdown_after` and an idle time `idle_for`.
pub open spec fn shutdown_decision(player_count: nat, shutdown_after: Option<u128>, idle_for: Option<u128>) -> AutoShutdown {
    if player_count > 0 {
        AutoShutdown::MarkSeen
    } else {
        match shutdown_after {
            None => AutoShutdown::Keep,
            Some(after) => match idle_for {
                None => AutoShutdown::MarkSeen,
                Some(idle) => if idle >= after {
                    AutoShutdown::Stop
                } else {
                    AutoShutdown::Keep
                },
            },
        }
    }
}

/// Decides auto-shutdown from the player count, the idle delay configured
/// (if any) and the time since a player was last seen (if ever), in the
/// same unit: players present refresh the last-seen time; without a delay
/// nothing happens; a server never seen occupied starts its idle time now;
/// otherwise it stops once idle for the delay.
pub fn auto_shutdown_decision(player_count: usize, shutdown_after: Option<u128>, idle_for: Option<u128>) -> (d: AutoShutdown)
    ensures
        d == shutdown_decision(player_count as nat, shutdown_after, idle_for),
{
    if player_count > 0 {
        return AutoShutdown::MarkSeen;
    }
    match shutdown_after {
        None => AutoShutdown::Keep,
        Some(after) => match idle_for {
            None => AutoShutdown::MarkSeen,
            Some(idle) => if idle >= after {
                AutoShutdown::Stop
            } else {
                AutoShutdown::Keep
            },
        },
    }
}

/// A server with players connected is never shut down, and neither is one
/// without a configured idle delay.
pub proof fn law_occupied_or_unconfigured_never_stops(
    player_count: nat,
    shutdown_after: Option<u128>,
    idle_for: Option<u128>,
)
    requires
        player_count > 0 || shutdown_after is None,
    ensures
        shutdown_decision(player_count, shutdown_after, idle_for) != AutoShutdown::Stop,
{
}

/// What a transition tells the waiting players and does to the polling:
/// reaching `Online` tells them the server started and reaching `Crashed`
/// or `Sleeping` that it exited, and only these notify, each slowing the
/// polling down; reaching `Starting` or `Stopping` notifies nobody and
/// speeds the polling up; reaching `Unknown` changes neither.
pub proof fn law_transition_notices(s: ServerState, fast_poll: bool)
    ensures
        transition_outcome(s, fast_poll).0 == Some(WaiterNotice::Started) <==> s == ServerState::Online,
        transition_outcome(s, fast_poll).0 == Some(WaiterNotice::Exited) <==> (s == ServerState::Crashed || s
            == ServerState::Sleeping),
        transition_outcome(s, fast_poll).0 is Some ==> !transition_outcome(s, fast_poll).1,
        s == ServerState::Starting || s == ServerState::Stopping ==> transition_outcome(s, fast_poll) == (
            None::<WaiterNotice>,
            true,
        ),
        s == ServerState::Unknown ==> transition_outcome(s, fast_poll) == (None::<WaiterNotice>, fast_poll),
{
}

/// The whole auto-shutdown rule: players present always mark the server as
/// seen; an empty server without an idle delay is kept; an empty server
/// never seen occupied starts its idle time (is marked seen); otherwise an
/// empty server stops exactly when its idle time has reached the delay,
/// and is kept before that.
pub proof fn law_auto_shutdown_rule(player_count: nat, shutdown_after: Option<u128>, idle_for: Option<u128>)
    ensures
        player_count > 0 ==> shutdown_decision(player_count, shutdown_after, idle_for) == AutoShutdown::MarkSeen,
        player_count == 0 && shutdown_after is None ==> shutdown_decision(player_count, shutdown_after, idle_for)
            == AutoShutdown::Keep,
        player_count == 0 && shutdown_after is Some && idle_for is None ==> shutdown_decision(
            player_count,
            shutdown_after,
            idle_for,
        ) == AutoShutdown::MarkSeen,
        player_count == 0 && shutdown_after is Some && idle_for is Some ==> (shutdown_decision(
            player_count,
            shutdown_after,
            idle_for,
        ) == AutoShutdown::Stop <==> idle_for.unwrap() >= shutdown_after.unwrap()) && shutdown_decision(
            player_count,
            shutdown_after,
            idle_for,
        ) != AutoShutdown::MarkSeen,
{
}

} // verus!
