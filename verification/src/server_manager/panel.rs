//! What the panel providers (Pterodactyl, Crafty Controller) decide: the
//! URLs they call and what their replies mean. The HTTP requests are made
//! by the caller.

use vstd::prelude::*;
use vstd::string::{StrSliceExecFns, StringExecFns};

use super::provider::ProviderStatus;
use crate::text::str_eq;

verus! {

/// `s` without its trailing `/` characters.
pub open spec fn without_trailing_slashes(s: Seq<char>) -> Seq<char>
    decreases s.len(),
{
    if s.len() > 0 && s.last() == '/' {
        without_trailing_slashes(s.drop_last())
    } else {
        s
    }
}

/// Removes the trailing `/` characters of a panel URL.
pub fn trim_trailing_slashes(url: &str) -> (r: String)
    ensures
        r@ == without_trailing_slashes(url@),
{
    let mut end = url.unicode_len();
    assert(url@.take(end as int) =~= url@);
    loop
        invariant
            end <= url@.len(),
            without_trailing_slashes(url@) == without_trailing_slashes(url@.take(end as int)),
        ensures
            end <= url@.len(),
            without_trailing_slashes(url@) == url@.take(end as int),
        decreases end,
    {
        if end == 0 {
            assert(url@.take(0) =~= Seq::<char>::empty());
            break;
        }
        if url.get_char(end - 1) != '/' {
            assert(url@.take(end as int).last() == url@[end - 1]);
            break;
        }
        assert(url@.take(end as int).drop_last() =~= url@.take(end - 1));
        end = end - 1;
    }
    assert(url@.take(end as int) =~= url@.subrange(0, end as int));
    String::from_str(url.substring_char(0, end))
}

/// The address and credentials of a server on a panel.
#[derive(Debug, Clone)]
pub struct PanelTarget {
    /// The panel's base URL, without trailing slashes.
    pub api_url: String,
    /// The API key sent as a bearer token.
    pub api_key: String,
    /// The server's identifier on the panel.
    pub server_id: String,
}

impl PanelTarget {
    /// A target on the panel at `api_url` (trailing slashes removed).
    pub fn new(api_url: &str, api_key: String, server_id: String) -> (t: PanelTarget)
        ensures
            t.api_url@ == without_trailing_slashes(api_url@),
            t.api_key == api_key,
            t.server_id == server_id,
    {
        PanelTarget { api_url: trim_trailing_slashes(api_url), api_key, server_id }
    }

    /// `<api_url><middle><server_id><suffix>`.
    fn server_url(&self, middle: &str, suffix: &str) -> (u: String)
        ensures
            u@ == self.api_url@ + middle@ + self.server_id@ + suffix@,
    {
        let mut u = String::from_str(self.api_url.as_str());
        u.append(middle);
        u.append(self.server_id.as_str());
        u.append(suffix);
        u
    }

    /// Pterodactyl: the URL power signals are posted to.
    pub fn pterodactyl_power_url(&self) -> (u: String)
        ensures
            u@ == self.api_url@ + "/api/client/servers/"@ + self.server_id@ + "/power"@,
    {
        self.server_url("/api/client/servers/", "/power")
    }

    /// Pterodactyl: the URL the server's resources are read from.
    pub fn pterodactyl_resources_url(&self) -> (u: String)
        ensures
            u@ == self.api_url@ + "/api/client/servers/"@ + self.server_id@ + "/resources"@,
    {
        self.server_url("/api/client/servers/", "/resources")
    }

    /// Crafty: the URL of the start (`start == true`) or stop action.
    pub fn crafty_action_url(&self, start: bool) -> (u: String)
        ensures
            u@ == self.api_url@ + "/api/v2/servers/"@ + self.server_id@ + if start {
                "/action/start_server"@
            } else {
                "/action/stop_server"@
            },
    {
        if start {
            self.server_url("/api/v2/servers/", "/action/start_server")
        } else {
            self.server_url("/api/v2/servers/", "/action/stop_server")
        }
    }

    /// Crafty: the URL the server's stats are read from.
    pub fn crafty_stats_url(&self) -> (u: String)
        ensures
            u@ == self.api_url@ + "/api/v2/servers/"@ + self.server_id@ + "/stats"@,
    {
        self.server_url("/api/v2/servers/", "/stats")
    }
}

/// What a Pterodactyl `current_state` means.
pub open spec fn pterodactyl_status_of(state: Seq<char>) -> ProviderStatus {
    if state == "running"@ {
        ProviderStatus::Running
    } else if state == "starting"@ {
        ProviderStatus::Starting
    } else if state == "stopping"@ {
        ProviderStatus::Stopping
    } else if state == "offline"@ {
        ProviderStatus::Stopped
    } else {
        ProviderStatus::Unknown
    }
}

/// Maps a Pterodactyl `current_state` to a provider status; an unknown
/// state is `Unknown`.
pub fn map_pterodactyl_state(state: &str) -> (s: ProviderStatus)
    ensures
        s == pterodactyl_status_of(state@),
{
    if str_eq(state, "running") {
        ProviderStatus::Running
    } else if str_eq(state, "starting") {
        ProviderStatus::Starting
    } else if str_eq(state, "stopping") {
        ProviderStatus::Stopping
    } else if str_eq(state, "offline") {
        ProviderStatus::Stopped
    } else {
        ProviderStatus::Unknown
    }
}

/// The status a Pterodactyl resources reply gives: its
/// `attributes.current_state`, or `Unknown` when the reply has none.
pub fn pterodactyl_status(current_state: Option<&str>) -> (s: ProviderStatus)
    ensures
        s == match current_state {
            Some(t) => pterodactyl_status_of(t@),
            None => ProviderStatus::Unknown,
        },
{
    match current_state {
        Some(t) => map_pterodactyl_state(t),
        None => ProviderStatus::Unknown,
    }
}

/// The status a Crafty stats reply gives: `data.running` true is
/// `Running`, false is `Stopped`, missing is `Unknown`.
pub fn crafty_status(running: Option<bool>) -> (s: ProviderStatus)
    ensures
        s == match running {
            Some(true) => ProviderStatus::Running,
            Some(false) => ProviderStatus::Stopped,
            None => ProviderStatus::Unknown,
        },
{
    match running {
        Some(true) => ProviderStatus::Running,
        Some(false) => ProviderStatus::Stopped,
        None => ProviderStatus::Unknown,
    }
}

} // verus!
