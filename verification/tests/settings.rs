//! Dialogs and settings.

use octo_dl::app::App;
use octo_dl::bootstrap::api_host_requires_api_key;
use octo_dl::runtime::progress_summary_pct;
use octo_dl::settings::{
    ConfigField, ConfigState, LoginState, Popup, QuitPolicy, SortDirection, SortKey, SortState,
};

fn test_app() -> App {
    App::new(9723, 0, true)
}

#[test]
fn login_state_field_cycling() {
    let mut login = LoginState::new();
    assert_eq!(login.active_field, 0);
    login.active_field = (login.active_field + 1) % LoginState::field_count();
    assert_eq!(login.active_field, 1);
    login.active_field = (login.active_field + 1) % LoginState::field_count();
    assert_eq!(login.active_field, 2);
    login.active_field = (login.active_field + 1) % LoginState::field_count();
    assert_eq!(login.active_field, 0);
}

#[test]
fn config_field_increment_decrement() {
    let mut config = ConfigState::new();
    let initial_chunks = config.config.chunks_per_file;
    config.config.chunks_per_file = config.config.chunks_per_file.saturating_add(1);
    assert_eq!(config.config.chunks_per_file, initial_chunks + 1);
    config.config.chunks_per_file = config.config.chunks_per_file.saturating_sub(1).max(1);
    assert_eq!(config.config.chunks_per_file, initial_chunks);
}

#[test]
fn config_field_toggle_bool() {
    let mut config = ConfigState::new();
    let initial = config.config.force_overwrite;
    config.config.force_overwrite = !config.config.force_overwrite;
    assert_ne!(config.config.force_overwrite, initial);
    config.config.force_overwrite = !config.config.force_overwrite;
    assert_eq!(config.config.force_overwrite, initial);
}

#[test]
fn app_initial_state() {
    let app = test_app();
    assert_eq!(app.popup, Popup::Closed);
    assert_eq!(app.pending_confirmation, None);
    assert!(!app.should_quit);
    assert!(!app.authenticated);
    assert!(app.url_input.is_empty());
    assert!(!app.url_input_active);
    assert!(app.files.is_empty());
    assert_eq!(app.files_completed, 0);
    assert_eq!(app.files_total, 0);
}

#[test]
fn login_state_active_value_mut() {
    let mut login = LoginState::new();

    login.active_field = 0;
    login.active_value_mut().push_str("test@example.com");
    assert_eq!(login.email(), "test@example.com");

    login.active_field = 1;
    login.active_value_mut().push_str("password123");
    assert_eq!(login.password(), "password123");

    login.active_field = 2;
    login.active_value_mut().push_str("123456");
    assert_eq!(login.mfa(), "123456");
}

#[test]
fn set_credentials_rejects_empty() {
    let mut login = LoginState::new();
    assert!(!login.set_credentials(String::new(), "pass".into(), String::new()));
    assert!(!login.set_credentials("user".into(), String::new(), String::new()));
    assert!(!login.has_credentials());
    assert!(login.set_credentials("user@example.com".into(), "pass".into(), String::new()));
    assert!(login.has_credentials());
}

#[test]
fn set_credentials_if_missing_does_not_override() {
    let mut login = LoginState::new();
    login.set_credentials("orig@example.com".into(), "origpass".into(), String::new());
    login.set_credentials_if_missing("new@example.com", "newpass", "123456");
    assert_eq!(login.email(), "orig@example.com");
    assert_eq!(login.password(), "origpass");
    assert_eq!(login.mfa(), "123456");
}

#[test]
fn set_credentials_if_missing_fills_empty() {
    let mut login = LoginState::new();
    login.set_credentials_if_missing("user@example.com", "pass", "");
    assert_eq!(login.email(), "user@example.com");
    assert_eq!(login.password(), "pass");
    assert!(login.has_credentials());
}

#[test]
fn mfa_option_returns_none_when_empty() {
    let mut login = LoginState::new();
    assert!(login.mfa_option().is_none());
    login.set_credentials("u".into(), "p".into(), "123".into());
    assert_eq!(login.mfa_option(), Some("123"));
}

#[test]
fn config_field_labels() {
    assert_eq!(ConfigField::ChunksPerFile.label(), "Chunks per file");
    assert_eq!(
        ConfigField::MegaChunksPerRequest.label(),
        "MEGA chunks/request"
    );
    assert_eq!(ConfigField::ConcurrentFiles.label(), "Concurrent files");
    assert_eq!(ConfigField::ForceOverwrite.label(), "Force overwrite");
    assert_eq!(ConfigField::CleanupOnError.label(), "Cleanup on error");
}

#[test]
fn quit_policy_converts_from_bool() {
    assert_eq!(QuitPolicy::from_bool(true), QuitPolicy::Enabled);
    assert_eq!(QuitPolicy::from_bool(false), QuitPolicy::Disabled);
    assert!(QuitPolicy::Enabled.is_enabled());
    assert!(!QuitPolicy::Disabled.is_enabled());
}

#[test]
fn api_host_policy_treats_bracketed_ipv6_loopback_as_loopback() {
    assert!(!api_host_requires_api_key("[::1]"));
}

#[test]
fn api_host_policy_preserves_non_loopback_host_support() {
    assert!(api_host_requires_api_key("192.0.2.1"));
    assert!(api_host_requires_api_key("[2001:db8::1]"));
    assert!(api_host_requires_api_key("api.example.test"));
    assert!(!api_host_requires_api_key("localhost"));
}

#[test]
fn progress_summary_pct_waits_for_network_bytes() {
    assert_eq!(progress_summary_pct(2, 6_360, 54_790, 0), None);
    assert_eq!(progress_summary_pct(2, 6_360, 54_790, 128), Some(11));
}

#[test]
fn progress_summary_is_silent_at_the_ends() {
    assert_eq!(progress_summary_pct(0, 50, 100, 1), None);
    assert_eq!(progress_summary_pct(1, 50, 0, 1), None);
    assert_eq!(progress_summary_pct(1, 0, 100, 1), None);
    assert_eq!(progress_summary_pct(1, 100, 100, 1), None);
    assert_eq!(progress_summary_pct(1, 99, 100, 1), Some(99));
}

#[test]
fn config_updates_keep_counts_positive() {
    let mut config = ConfigState::new();
    config.apply_config_update(Some(0), Some(7), None, Some(true), None);
    assert_eq!(config.config.chunks_per_file, 1);
    assert_eq!(config.config.mega_chunks_per_request, 7);
    assert_eq!(config.config.concurrent_files, 1);
    assert!(config.config.force_overwrite);
    assert!(!config.config.cleanup_on_error);
}

#[test]
fn lists_of_choices_are_in_dialog_order() {
    assert_eq!(ConfigField::all()[0], ConfigField::ChunksPerFile);
    assert_eq!(ConfigField::all()[4], ConfigField::CleanupOnError);
    assert_eq!(SortKey::all()[0], SortKey::Queue);
    assert_eq!(SortKey::all()[3], SortKey::Percent);
    assert_eq!(SortDirection::Asc.toggled(), SortDirection::Desc);
    assert_eq!(SortDirection::Desc.toggled(), SortDirection::Asc);
    let sort = SortState::new();
    assert_eq!((sort.key, sort.direction, sort.active_field), (SortKey::Queue, SortDirection::Asc, 0));
}
