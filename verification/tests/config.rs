use mote_shell::config::{
    default_cache_path, discard_config_with, env_secs, hidden_tab_config_with, housekeeping_due,
    housekeeping_interval, session_store_path, state_dir,
};
use std::time::Duration;

#[test]
fn discard_config_override_shortens_idle_threshold() {
    let cfg = discard_config_with(Some(2));
    assert_eq!(Duration::from_secs(cfg.discard_after), Duration::from_secs(2));
    assert!(cfg.keep_pinned_loaded);
    assert_eq!(
        Duration::from_secs(discard_config_with(None).discard_after),
        Duration::from_secs(30 * 60)
    );
}

#[test]
fn hidden_ttl_override_shortens_ttl() {
    let cfg = hidden_tab_config_with(Some(2));
    assert_eq!(cfg.ttl.map(Duration::from_secs), Some(Duration::from_secs(2)));
    assert_eq!(
        hidden_tab_config_with(None).ttl.map(Duration::from_secs),
        Some(Duration::from_secs(720 * 3600))
    );
}

#[test]
fn seconds_are_whole_numbers_of_64_bits() {
    assert_eq!(env_secs(Some("90")), Some(90));
    assert_eq!(env_secs(Some(" \t+7\n")), Some(7));
    assert_eq!(env_secs(Some("007")), Some(7));
    assert_eq!(env_secs(Some("18446744073709551615")), Some(u64::MAX));
    for bad in ["", " ", "+", "-1", "1.5", "0x10", "1 2", "18446744073709551616"] {
        assert_eq!(env_secs(Some(bad)), None, "{bad:?}");
        assert_eq!(bad.trim().parse::<u64>().ok(), None, "{bad:?}");
    }
    assert_eq!(env_secs(None), None);
}

#[test]
fn housekeeping_runs_each_minute_unless_told_otherwise() {
    assert_eq!(housekeeping_interval(None), 60);
    assert_eq!(housekeeping_interval(Some("x")), 60);
    assert_eq!(housekeeping_interval(Some("5")), 5);
    assert!(!housekeeping_due(4, 5));
    assert!(housekeeping_due(5, 5));
}

#[test]
fn state_lives_where_the_environment_says() {
    assert_eq!(state_dir(Some("/x/state"), Some("/home/u")), "/x/state/mote");
    assert_eq!(state_dir(Some("/x/state/"), None), "/x/state/mote");
    assert_eq!(state_dir(Some(""), Some("/home/u")), "/home/u/.local/state/mote");
    assert_eq!(state_dir(None, Some("")), ".mote-state");
    assert_eq!(default_cache_path(None, None), ".mote-state/cef-cache");
    assert_eq!(session_store_path(Some("/s"), None), "/s/mote/session.db");
}
