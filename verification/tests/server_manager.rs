use infrarust::server_manager::local::{is_ready_line, local_status, ExitCheck, LocalCheck};
use infrarust::server_manager::monitor::{
    after_poll, auto_shutdown_decision, poll_multiplier, skips_poll, AutoShutdown, WaiterNotice,
};
use infrarust::server_manager::panel::{
    crafty_status, map_pterodactyl_state, pterodactyl_status, trim_trailing_slashes, PanelTarget,
};
use infrarust::server_manager::{ProviderStatus, ServerState};

#[test]
fn trailing_slashes_are_trimmed() {
    assert_eq!(trim_trailing_slashes("http://panel.local///"), "http://panel.local");
    assert_eq!(trim_trailing_slashes("http://panel.local"), "http://panel.local");
    assert_eq!(trim_trailing_slashes("///"), "");
    assert_eq!(trim_trailing_slashes(""), "");
}

#[test]
fn pterodactyl_urls() {
    let t = PanelTarget::new("https://panel.example/", "key".to_string(), "abc123".to_string());
    assert_eq!(t.api_url, "https://panel.example");
    assert_eq!(t.api_key, "key");
    assert_eq!(t.pterodactyl_power_url(), "https://panel.example/api/client/servers/abc123/power");
    assert_eq!(
        t.pterodactyl_resources_url(),
        "https://panel.example/api/client/servers/abc123/resources"
    );
}

#[test]
fn crafty_urls() {
    let t = PanelTarget::new("http://crafty:8443", "tok".to_string(), "7".to_string());
    assert_eq!(t.crafty_action_url(true), "http://crafty:8443/api/v2/servers/7/action/start_server");
    assert_eq!(t.crafty_action_url(false), "http://crafty:8443/api/v2/servers/7/action/stop_server");
    assert_eq!(t.crafty_stats_url(), "http://crafty:8443/api/v2/servers/7/stats");
}

#[test]
fn pterodactyl_states_map_to_statuses() {
    assert_eq!(map_pterodactyl_state("running"), ProviderStatus::Running);
    assert_eq!(map_pterodactyl_state("starting"), ProviderStatus::Starting);
    assert_eq!(map_pterodactyl_state("stopping"), ProviderStatus::Stopping);
    assert_eq!(map_pterodactyl_state("offline"), ProviderStatus::Stopped);
    assert_eq!(map_pterodactyl_state("Running"), ProviderStatus::Unknown);
    assert_eq!(pterodactyl_status(Some("offline")), ProviderStatus::Stopped);
    assert_eq!(pterodactyl_status(None), ProviderStatus::Unknown);
}

#[test]
fn crafty_running_flag_maps_to_status() {
    assert_eq!(crafty_status(Some(true)), ProviderStatus::Running);
    assert_eq!(crafty_status(Some(false)), ProviderStatus::Stopped);
    assert_eq!(crafty_status(None), ProviderStatus::Unknown);
}

#[test]
fn ready_pattern_is_found_anywhere_in_the_line() {
    let line = "[12:00:01] [Server thread/INFO]: Done (3.2s)! For help, type \"help\"";
    assert!(is_ready_line(line, "Done ("));
    assert!(!is_ready_line(line, "Stopping"));
    assert!(is_ready_line("abc", ""));
    assert!(!is_ready_line("ab", "abc"));
    assert!(is_ready_line("xxabc", "abc"));
}

#[test]
fn local_process_statuses() {
    let none = local_status(None, true);
    assert_eq!(none, LocalCheck { status: ProviderStatus::Stopped, release: false });
    let exited = local_status(Some(ExitCheck::Exited), true);
    assert_eq!(exited, LocalCheck { status: ProviderStatus::Stopped, release: true });
    assert_eq!(local_status(Some(ExitCheck::Running), true).status, ProviderStatus::Running);
    assert_eq!(local_status(Some(ExitCheck::Running), false).status, ProviderStatus::Starting);
    assert_eq!(local_status(Some(ExitCheck::Undetermined), false).status, ProviderStatus::Starting);
}

#[test]
fn poll_speed_and_crash_skip() {
    assert_eq!(poll_multiplier(true), 1);
    assert_eq!(poll_multiplier(false), 6);
    assert!(skips_poll(Some(ServerState::Crashed)));
    assert!(!skips_poll(Some(ServerState::Online)));
    assert!(!skips_poll(None));
}

#[test]
fn transitions_notify_waiters_and_set_poll_speed() {
    let o = after_poll(true, ProviderStatus::Running, Some(ServerState::Online));
    assert_eq!(o.notify, Some(WaiterNotice::Started));
    assert!(!o.fast_poll);
    assert!(o.check_auto_shutdown);

    let o = after_poll(false, ProviderStatus::Stopped, Some(ServerState::Crashed));
    assert_eq!(o.notify, Some(WaiterNotice::Exited));
    assert!(!o.check_auto_shutdown);

    let o = after_poll(true, ProviderStatus::Stopped, Some(ServerState::Sleeping));
    assert_eq!(o.notify, Some(WaiterNotice::Exited));
    assert!(!o.fast_poll);

    let o = after_poll(false, ProviderStatus::Starting, Some(ServerState::Starting));
    assert_eq!(o.notify, None);
    assert!(o.fast_poll);

    let o = after_poll(true, ProviderStatus::Unknown, None);
    assert_eq!(o.notify, None);
    assert!(o.fast_poll);

    let o = after_poll(false, ProviderStatus::Unknown, Some(ServerState::Unknown));
    assert_eq!(o.notify, None);
    assert!(!o.fast_poll);
}

#[test]
fn auto_shutdown_decisions() {
    assert_eq!(auto_shutdown_decision(3, Some(60), Some(1000)), AutoShutdown::MarkSeen);
    assert_eq!(auto_shutdown_decision(0, None, Some(1000)), AutoShutdown::Keep);
    assert_eq!(auto_shutdown_decision(0, Some(60), None), AutoShutdown::MarkSeen);
    assert_eq!(auto_shutdown_decision(0, Some(60), Some(59)), AutoShutdown::Keep);
    assert_eq!(auto_shutdown_decision(0, Some(60), Some(60)), AutoShutdown::Stop);
    assert_eq!(auto_shutdown_decision(0, Some(60), Some(61)), AutoShutdown::Stop);
}

#[test]
fn occupied_or_unconfigured_server_is_never_stopped() {
    for idle in [None, Some(0u128), Some(u128::MAX)] {
        assert_ne!(auto_shutdown_decision(1, Some(0), idle), AutoShutdown::Stop);
        assert_ne!(auto_shutdown_decision(0, None, idle), AutoShutdown::Stop);
    }
}
