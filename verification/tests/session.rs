//! Saving sessions, logging in and starting up.

use octo_dl::app::{App, AppStep, Status};
use octo_dl::batching::{Deferral, DeferredPersistence, PendingSessionPersistence, SessionFlush};
use octo_dl::bootstrap::{
    choose_startup_config, startup_port, LoadedConfig, PlainCredentials, StartupConfig,
    StoredSession,
};
use octo_dl::events::{DownloadEvent, DownloadRequest};
use octo_dl::ids::FileIdMap;
use octo_dl::login::{
    eq_ignore_ascii_case, AuthAction, AuthError, AuthFlow, AuthOutcome, AuthReply, AuthTask,
    SavedSession, AUTO_LOGIN_IDLE_DELAY_MS,
};
use octo_dl::paths::{same_place, trim};
use octo_dl::persistence::{
    alternate_session_path, persist_latest_save, removal_candidates, save_wait, SaveStep, SaveWake,
    SessionPersistenceRequest, SESSION_SAVE_DEBOUNCE, SESSION_SAVE_MAX_DELAY,
};
use octo_dl::session::{session_failure, session_write, SessionWrite};
use octo_dl::settings::{DownloadConfig, NoCredentialsFallback, Popup};

fn test_app() -> App {
    App::new(9723, 1_000, true)
}

/// Serves requests one after another, and returns what was written and removed.
fn serve(requests: Vec<SessionPersistenceRequest<String>>) -> (Vec<(String, String)>, Vec<String>) {
    let mut waiting: std::collections::VecDeque<_> = requests.into();
    let mut written = Vec::new();
    let mut removed = Vec::new();
    let mut next = waiting.pop_front();
    while let Some(request) = next {
        next = match request {
            SessionPersistenceRequest::Save { session, path } => {
                let mut current = session;
                loop {
                    let wake = match waiting.pop_front() {
                        Some(request) => SaveWake::Request(request),
                        None => SaveWake::Disconnected,
                    };
                    match persist_latest_save(current, &path, wake) {
                        SaveStep::Wait { session } => current = session,
                        SaveStep::Drop { next } => break Some(next),
                        SaveStep::Save { session } => {
                            written.push((session, path.clone()));
                            break waiting.pop_front();
                        }
                        SaveStep::SaveAndConfirm { session } => {
                            written.push((session, path.clone()));
                            break waiting.pop_front();
                        }
                        SaveStep::SaveThen { session, next } => {
                            written.push((session, path.clone()));
                            break Some(next);
                        }
                    }
                }
            }
            SessionPersistenceRequest::Remove(path) => {
                removed.extend(removal_candidates(path));
                waiting.pop_front()
            }
            SessionPersistenceRequest::Flush => waiting.pop_front(),
        };
    }
    (written, removed)
}

fn save(session: &str, path: &str) -> SessionPersistenceRequest<String> {
    SessionPersistenceRequest::Save {
        session: session.to_string(),
        path: path.to_string(),
    }
}

#[test]
fn save_and_flush_persists_session_snapshot() {
    let (written, removed) = serve(vec![
        save("one", "session.postcard"),
        SessionPersistenceRequest::Flush,
    ]);
    assert_eq!(
        written,
        vec![("one".to_string(), "session.postcard".to_string())]
    );
    assert!(removed.is_empty());
}

#[test]
fn remove_and_flush_deletes_session_file() {
    let (written, removed) = serve(vec![
        SessionPersistenceRequest::Remove("dir/session.postcard".to_string()),
        SessionPersistenceRequest::Flush,
    ]);
    assert!(written.is_empty());
    assert_eq!(
        removed,
        vec![
            "dir/session.postcard".to_string(),
            "dir/session.toml".to_string()
        ]
    );
}

#[test]
fn save_burst_persists_latest_snapshot_before_flush() {
    let (written, _) = serve(vec![
        save("episode-1.mkv", "session.postcard"),
        save("episode-2.mkv", "session.postcard"),
        SessionPersistenceRequest::Flush,
    ]);
    assert_eq!(
        written,
        vec![("episode-2.mkv".to_string(), "session.postcard".to_string())]
    );
}

#[test]
fn remove_cancels_debounced_save_for_same_path() {
    let (written, removed) = serve(vec![
        save("one", "session.postcard"),
        SessionPersistenceRequest::Remove("session.postcard".to_string()),
        SessionPersistenceRequest::Flush,
    ]);
    assert!(written.is_empty());
    assert_eq!(removed[0], "session.postcard");
}

#[test]
fn remove_other_path_does_not_cancel_debounced_save() {
    let (written, removed) = serve(vec![
        save("one", "session.postcard"),
        SessionPersistenceRequest::Remove("other-session.postcard".to_string()),
        SessionPersistenceRequest::Flush,
    ]);
    assert_eq!(
        written,
        vec![("one".to_string(), "session.postcard".to_string())]
    );
    assert_eq!(removed[0], "other-session.postcard");
}

#[test]
fn drop_flushes_pending_save_on_disconnect() {
    let (written, _) = serve(vec![save("one", "session.postcard")]);
    assert_eq!(
        written,
        vec![("one".to_string(), "session.postcard".to_string())]
    );
}

#[test]
fn steady_same_path_save_stream_flushes_within_max_delay() {
    let mut elapsed = SESSION_SAVE_MAX_DELAY - SESSION_SAVE_DEBOUNCE / 2;
    let mut current = "session-0".to_string();
    for index in 1..10 {
        let wait = save_wait(elapsed);
        assert_eq!(wait, SESSION_SAVE_MAX_DELAY - elapsed);
        elapsed += wait / 20;
        match persist_latest_save(
            current,
            "session.postcard",
            SaveWake::Request(save(&format!("session-{index}"), "session.postcard")),
        ) {
            SaveStep::Wait { session } => current = session,
            other => panic!("unexpected step: {other:?}"),
        }
    }
    assert_eq!(save_wait(SESSION_SAVE_MAX_DELAY), 0);
    assert_eq!(save_wait(0), SESSION_SAVE_DEBOUNCE);
    assert_eq!(
        persist_latest_save(current, "session.postcard", SaveWake::Timeout),
        SaveStep::Save {
            session: "session-9".to_string()
        }
    );
}

#[test]
fn the_two_forms_of_a_session_file_stand_for_each_other() {
    assert_eq!(
        alternate_session_path("a/b.postcard").as_deref(),
        Some("a/b.toml")
    );
    assert_eq!(
        alternate_session_path("a/b.toml").as_deref(),
        Some("a/b.postcard")
    );
    assert_eq!(alternate_session_path("a/b.json"), None);
    assert_eq!(alternate_session_path("postcard"), None);
}

#[test]
fn the_end_of_a_path_does_not_hide_the_form_of_a_session_file() {
    for (path, other) in [
        ("s.toml/", "s.postcard"),
        ("s.toml/.", "s.postcard"),
        ("dir//s.toml//", "dir//s.postcard"),
        ("/s.postcard/./", "/s.toml"),
    ] {
        assert_eq!(alternate_session_path(path).as_deref(), Some(other));
        let back = alternate_session_path(other).unwrap();
        assert_eq!(back, trim(path));
        assert!(same_place(&back, path));
        assert_eq!(
            std::path::Path::new(path).with_extension(&other[other.rfind('.').unwrap() + 1..]),
            std::path::Path::new(other)
        );
    }
    for path in [".toml", "a/.toml", "a/.toml/", "s.toml/..", "s.toml/x", "/", ".", ""] {
        assert_eq!(alternate_session_path(path), None);
    }
    assert_eq!(
        removal_candidates("s.toml/".to_string()),
        vec!["s.toml/".to_string(), "s.postcard".to_string()]
    );
}

#[test]
fn paths_name_one_place_where_their_components_agree() {
    let paths = [
        "", ".", "./", "./.", "/", "//", "/.", "a", "./a", "/a", "//a", "/./a", "a/", "a//", "a/.",
        "a/./.", "a/b", "a//b", "a/./b", "a/b/", "a/../b", "a/..", "..", "../", "a/.b", "a/b.",
    ];
    for left in paths {
        for right in paths {
            assert_eq!(
                same_place(left, right),
                std::path::Path::new(left) == std::path::Path::new(right),
                "{left:?} {right:?}"
            );
        }
    }
    assert!(same_place("a//b/.", "a/b"));
    assert!(!same_place("./a", "a"));
}

#[test]
fn a_save_is_replaced_by_one_to_the_same_place_however_it_is_written() {
    let save = |session: &str, path: &str| SaveWake::Request(SessionPersistenceRequest::Save {
        session: session.to_string(),
        path: path.to_string(),
    });
    assert_eq!(
        persist_latest_save("one".to_string(), "dir/s.toml", save("two", "dir//s.toml/")),
        SaveStep::Wait {
            session: "two".to_string()
        }
    );
    assert_eq!(
        persist_latest_save("one".to_string(), "s.toml", save("two", "./s.toml")),
        SaveStep::SaveThen {
            session: "one".to_string(),
            next: SessionPersistenceRequest::Save {
                session: "two".to_string(),
                path: "./s.toml".to_string()
            }
        }
    );
    assert_eq!(
        persist_latest_save(
            "one".to_string(),
            "dir/./s.toml",
            SaveWake::Request(SessionPersistenceRequest::Remove("dir/s.toml".to_string()))
        ),
        SaveStep::Drop {
            next: SessionPersistenceRequest::Remove("dir/s.toml".to_string())
        }
    );
}

#[test]
fn a_fallback_that_is_the_default_configuration_counts_once() {
    let choose = |default_exists: bool| {
        choose_startup_config(
            None,
            "state/config.toml".to_string(),
            default_exists,
            "state//./config.toml".to_string(),
            true,
        )
    };
    assert_eq!(
        choose(true),
        StartupConfig::Default {
            path: "state/config.toml".to_string(),
            fallback: None
        }
    );
    assert_eq!(
        choose(false),
        StartupConfig::Missing {
            path: "state/config.toml".to_string()
        }
    );
}

#[test]
fn changes_after_a_core_save_are_what_a_batch_saves() {
    let mut deferred: DeferredPersistence<String> = DeferredPersistence::new();
    assert!(deferred.want_core_state());
    deferred.begin();
    deferred.begin();
    assert!(!deferred.want_core_state());
    assert!(deferred.begin_change());
    assert_eq!(
        deferred.put_off(PendingSessionPersistence::Save("one".to_string())),
        None
    );
    assert!(!deferred.begin_change());
    assert_eq!(
        deferred.put_off(PendingSessionPersistence::Remove("path".to_string())),
        None
    );
    assert_eq!(deferred.end(false), SessionFlush::Nothing);
    assert_eq!(
        deferred.end(false),
        SessionFlush::Pending(PendingSessionPersistence::Remove("path".to_string()))
    );
    assert_eq!(
        deferred.put_off(PendingSessionPersistence::Save("two".to_string())),
        Some(PendingSessionPersistence::Save("two".to_string()))
    );
    assert_eq!(deferred.end(false), SessionFlush::Nothing);
}

#[test]
fn core_saves_after_a_change_are_what_a_batch_saves() {
    let mut deferred: DeferredPersistence<String> = DeferredPersistence::new();
    deferred.begin();
    assert!(!deferred.begin_change());
    assert_eq!(
        deferred.put_off(PendingSessionPersistence::Save("one".to_string())),
        None
    );
    assert!(!deferred.want_core_state());
    assert_eq!(deferred.end(false), SessionFlush::CoreState);

    deferred.begin();
    assert!(!deferred.want_core_state());
    assert_eq!(deferred.end(true), SessionFlush::Nothing);
    deferred.begin();
    assert_eq!(deferred.end(false), SessionFlush::Nothing);
}

#[test]
fn requests_of_a_batch_are_served_at_its_end() {
    let mut deferral = Deferral::new();
    assert!(deferral.request());
    assert!(deferral.begin());
    assert!(!deferral.begin());
    assert!(!deferral.request());
    assert!(!deferral.request());
    assert!(!deferral.end());
    assert!(deferral.end());
    assert!(!deferral.begin() || !deferral.end());
}

#[test]
fn empty_sessions_are_removed() {
    assert_eq!(session_write(0, 0), SessionWrite::Remove);
    assert_eq!(session_write(1, 0), SessionWrite::Save);
    assert_eq!(session_write(0, 1), SessionWrite::Save);
    assert_eq!(
        session_failure(SessionWrite::Save, Some("full".to_string()), false),
        Some(Status::SessionSaveFailed {
            error: "full".to_string()
        })
    );
    assert_eq!(
        session_failure(SessionWrite::Remove, Some("gone".to_string()), true),
        None
    );
    assert_eq!(session_failure(SessionWrite::Save, None, false), None);
}

#[test]
fn addresses_without_files_are_submitted_again() {
    let steps = test_app().resume_from_restart(
        &vec!["a".to_string(), "b".to_string()],
        &vec!["a".to_string()],
    );
    assert_eq!(
        steps,
        vec![
            AppStep::QueuePlaceholder("b".to_string()),
            AppStep::Send(DownloadRequest::SubmitUrl {
                url: "b".to_string(),
                attempt_ids: FileIdMap::new(),
            }),
        ]
    );
}

#[test]
fn deferred_auto_login_waits_for_idle_before_showing_popup() {
    let mut app = test_app();

    app.schedule_auto_login(NoCredentialsFallback::ShowPopup);
    assert_eq!(app.popup, Popup::Closed);
    assert_eq!(app.poll_deferred_auto_login(1_000), None);

    let due = app
        .poll_deferred_auto_login(1_000 + AUTO_LOGIN_IDLE_DELAY_MS)
        .expect("login should be due");
    assert_eq!(due, NoCredentialsFallback::ShowPopup);
    let (_, task) = app.auto_login(due, None);
    assert_eq!(task, None);
    assert_eq!(app.popup, Popup::Login);
}

#[test]
fn activity_puts_a_login_off() {
    let mut app = test_app();
    app.schedule_auto_login(NoCredentialsFallback::Silent);
    app.note_user_activity(1_500);
    assert_eq!(
        app.poll_deferred_auto_login(1_000 + AUTO_LOGIN_IDLE_DELAY_MS),
        None
    );
    assert_eq!(
        app.poll_deferred_auto_login(1_500 + AUTO_LOGIN_IDLE_DELAY_MS),
        Some(NoCredentialsFallback::Silent)
    );
}

#[test]
fn interactive_startup_defers_auto_login_until_terminal_draws() {
    let mut app = test_app();
    assert!(app.login.set_credentials(
        "saved@example.com".to_string(),
        "saved-secret".to_string(),
        String::new()
    ));

    app.schedule_auto_login(NoCredentialsFallback::ShowPopup);

    assert!(!app.login.logging_in);
    assert!(!app.client_pending);
}

fn task(resume: Option<SavedSession>) -> AuthTask {
    AuthTask {
        email: "user@example.com".to_string(),
        password: "pass".to_string(),
        mfa: None,
        resume,
    }
}

fn saved_session() -> SavedSession {
    SavedSession {
        email: "user@example.com".to_string(),
        session: "blob".to_string(),
    }
}

#[test]
fn a_login_goes_from_client_to_session() {
    let mut flow = AuthFlow::new(task(None));
    assert_eq!(flow.next(AuthReply::Succeeded), AuthAction::BuildClient);
    assert!(matches!(
        flow.next(AuthReply::Succeeded),
        AuthAction::LogIn { email, .. } if email == "user@example.com"
    ));
    assert!(matches!(
        flow.next(AuthReply::Succeeded),
        AuthAction::SaveSession { .. }
    ));
    assert_eq!(
        flow.next(AuthReply::Saved(Some("new".to_string()))),
        AuthAction::Finish(AuthOutcome::LoggedIn {
            saved_session: Some("new".to_string()),
            clear_saved_session: false
        })
    );
}

#[test]
fn a_refused_session_is_cleared() {
    let mut flow = AuthFlow::new(task(Some(saved_session())));
    flow.next(AuthReply::Succeeded);
    assert!(matches!(
        flow.next(AuthReply::Succeeded),
        AuthAction::ResumeSession { session } if session == "blob"
    ));
    assert_eq!(
        flow.next(AuthReply::Failed("expired".to_string())),
        AuthAction::BuildClient
    );
    assert!(matches!(
        flow.next(AuthReply::Succeeded),
        AuthAction::LogIn { .. }
    ));
    let action = flow.next(AuthReply::Failed("wrong".to_string()));
    assert_eq!(
        action,
        AuthAction::Finish(AuthOutcome::Failed {
            error: AuthError::Refused("wrong".to_string()),
            clear_saved_session: true
        })
    );
    let AuthAction::Finish(outcome) = action else {
        panic!("login should be over");
    };
    assert_eq!(
        outcome.event(),
        DownloadEvent::LoginResult {
            success: false,
            error: Some("wrong".to_string()),
            saved_session: None,
            clear_saved_session: true
        }
    );
}

#[test]
fn failures_of_a_login_are_told() {
    assert_eq!(
        AuthError::Http("x".to_string()).text(),
        "Failed to build HTTP client: x"
    );
    assert_eq!(
        AuthError::Client("x".to_string()).text(),
        "Failed to create MEGA client: x"
    );
    assert_eq!(
        AuthError::NoCredentials.text(),
        "No saved credentials available"
    );
    let mut flow = AuthFlow::new(AuthTask {
        email: String::new(),
        password: String::new(),
        mfa: None,
        resume: None,
    });
    flow.next(AuthReply::Succeeded);
    assert_eq!(
        flow.next(AuthReply::Succeeded),
        AuthAction::Finish(AuthOutcome::Failed {
            error: AuthError::NoCredentials,
            clear_saved_session: false
        })
    );
}

#[test]
fn one_login_runs_at_a_time() {
    let mut app = test_app();
    app.login
        .set_credentials("u@e".to_string(), "p".to_string(), "1".to_string());
    let begun = app.begin_login().expect("login should begin");
    assert_eq!(begun.email, "u@e");
    assert_eq!(begun.mfa.as_deref(), Some("1"));
    assert_eq!(app.status, "Logging in...");
    assert_eq!(app.begin_login(), None);
}

#[test]
fn addresses_are_compared_without_case() {
    assert!(eq_ignore_ascii_case("User@Example.com", "user@example.COM"));
    assert!(!eq_ignore_ascii_case("user@example.com", "user@example.org"));
    assert!(!eq_ignore_ascii_case("\u{c4}", "\u{e4}"));
}

fn download_config() -> DownloadConfig {
    DownloadConfig {
        chunks_per_file: 2,
        mega_chunks_per_request: 3,
        concurrent_files: 4,
        force_overwrite: true,
        cleanup_on_error: false,
        path: Some("downloads".to_string()),
    }
}

fn credentials(email: &str, password: &str, mfa: &str) -> PlainCredentials {
    PlainCredentials {
        email: email.to_string(),
        password: password.to_string(),
        mfa: mfa.to_string(),
    }
}

fn loaded(decrypted: Option<PlainCredentials>, saved: Option<StoredSession>) -> LoadedConfig {
    LoadedConfig {
        download: download_config(),
        api_key: None,
        has_credentials: decrypted.is_some(),
        encrypted: false,
        decrypted,
        saved_session: saved,
    }
}

#[test]
fn new_without_explicit_config_loads_default_saved_credentials() {
    let mut app = test_app();
    let applied = app.apply_service_config(
        loaded(
            Some(credentials("saved@example.com", "saved-secret", "654321")),
            None,
        ),
        None,
    );

    assert_eq!(app.login.email(), "saved@example.com");
    assert_eq!(app.login.password(), "saved-secret");
    assert_eq!(app.login.mfa(), "654321");
    assert_eq!(app.config.config, download_config());
    assert!(applied.encrypt_credentials);
    assert!(!applied.failed);
}

#[test]
fn new_without_explicit_config_loads_saved_mega_session() {
    let mut app = test_app();
    app.apply_service_config(
        loaded(
            Some(credentials("saved@example.com", "saved-secret", "")),
            Some(StoredSession {
                stored: "serialized-session".to_string(),
                owner: Some("Saved@example.com".to_string()),
            }),
        ),
        None,
    );
    assert_eq!(
        app.saved_mega_session.as_deref(),
        Some("serialized-session")
    );
}

#[test]
fn sessions_of_others_are_not_used() {
    let mut app = test_app();
    app.apply_service_config(
        loaded(
            Some(credentials("saved@example.com", "saved-secret", "")),
            Some(StoredSession {
                stored: "serialized-session".to_string(),
                owner: Some("other@example.com".to_string()),
            }),
        ),
        None,
    );
    assert_eq!(app.saved_mega_session, None);
}

#[test]
fn a_configuration_without_a_key_gets_a_random_one() {
    let mut app = test_app();
    let applied = app.apply_service_config(loaded(None, None), None);
    let key = applied.new_api_key.expect("a key should be made");
    assert_eq!(app.api_key.as_deref(), Some(key.as_str()));
    assert_eq!(key.len(), 32);
    assert!(key.chars().all(|c| c.is_ascii_hexdigit() && !c.is_ascii_uppercase()));
    assert_eq!(&key[12..13], "4");
    let mut other = test_app();
    let again = other.apply_service_config(loaded(None, None), None);
    assert_ne!(again.new_api_key, Some(key));
}

#[test]
fn credentials_that_cannot_be_read_need_others() {
    let mut unreadable = loaded(None, None);
    unreadable.has_credentials = true;
    let mut app = test_app();
    assert!(app.apply_service_config(unreadable, None).failed);

    let mut unreadable = loaded(None, None);
    unreadable.has_credentials = true;
    let mut app = test_app();
    let applied = app.apply_service_config(unreadable, Some(credentials("env@e", "p", "")));
    assert!(!applied.failed);
    assert_eq!(app.login.email(), "env@e");
}

#[test]
fn implicit_cwd_template_falls_back_to_state_config_credentials() {
    let mut app = test_app();
    app.apply_service_config(loaded(None, None), None);
    app.load_missing_credentials_from_config(
        Some(credentials("saved@example.com", "saved-secret", "654321")),
        Some("state-api-key".to_string()),
    );

    assert_eq!(app.login.email(), "saved@example.com");
    assert_eq!(app.login.password(), "saved-secret");
    assert_eq!(app.login.mfa(), "654321");
    assert!(app.api_key.is_some());
    assert_eq!(
        choose_startup_config(
            None,
            "cwd/config.toml".to_string(),
            true,
            "state/config.toml".to_string(),
            true
        ),
        StartupConfig::Default {
            path: "cwd/config.toml".to_string(),
            fallback: Some("state/config.toml".to_string())
        }
    );
}

#[test]
fn the_login_to_be_saved_holds_the_credentials_that_were_typed() {
    let mut app = test_app();
    assert!(app.login.set_credentials(
        "user@example.com".to_string(),
        "super-secret".to_string(),
        "123456".to_string()
    ));

    let saved = app.persisted_login();
    assert_eq!(
        saved.credentials,
        Some(("user@example.com".to_string(), "super-secret".to_string()))
    );
    assert_eq!(saved.saved_session, None);
    assert_eq!(saved.port, 9723);
    assert_eq!(app.require_credentials("config.toml"), None);
}

#[test]
fn persist_login_credentials_preserves_existing_credentials_when_only_session_changes() {
    let mut app = test_app();
    app.saved_mega_session = Some("serialized-session".to_string());

    let saved = app.persisted_login();
    assert_eq!(saved.credentials, None);
    assert_eq!(saved.saved_session.as_deref(), Some("serialized-session"));
    assert_eq!(
        app.require_credentials("config.toml").as_deref(),
        Some("No credentials in config.toml")
    );
}

#[test]
fn a_named_configuration_outdoes_the_directories_and_the_environment() {
    let config = choose_startup_config(
        Some("root/config.toml".to_string()),
        "downloads/config.toml".to_string(),
        true,
        "state/config.toml".to_string(),
        true,
    );
    assert_eq!(
        config,
        StartupConfig::Explicit {
            path: "root/config.toml".to_string()
        }
    );
    assert_eq!(startup_port(&config, 1234, true, Some(1), 9723), 1234);
    let missing = choose_startup_config(
        None,
        "a".to_string(),
        false,
        "b".to_string(),
        false,
    );
    assert_eq!(
        missing,
        StartupConfig::Missing {
            path: "a".to_string()
        }
    );
    assert_eq!(startup_port(&missing, 1, false, None, 9723), 9723);
}
