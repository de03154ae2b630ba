//! What is published of the application.

use octo_dl::app::{App, AppStep};
use octo_dl::dashboard::{
    aggregate_activity_label, aggregate_transfer_label, clamp_selection, file_detail, is_observed,
    progress_bar, seconds_left, AttachedDashboard, BinaryDashboardPackageId, DashboardCache,
    DashboardCacheKey, DashboardChrome, DashboardFileRow, DashboardFileStatus, DashboardMetrics,
    DashboardRow, DashboardTotals, DashboardUiMode, DownloadDashboardState, TuiRow,
};
use octo_dl::events::FileAccounting;
use octo_dl::ids::{FileIdMap, PackageId};
use octo_dl::model::{
    CoreCommand, FileEntry, FileLifecycle, FileProgressState, FileState, FileStatus, PackageState, PackageStatus,
};
use octo_dl::projection::{folder_label_from_path, percent};
use octo_dl::rows::{shown_speed, VisibleRowsCache};
use octo_dl::settings::UiAction;
use octo_dl::verification::VerificationTarget;

const PACKAGE: PackageId = PackageId {
    raw: 0x0123_4567_89ab_cdef_0123_4567_89ab_cdef,
};

fn test_app() -> App {
    App::new(9723, 0, true)
}

fn queued_file(id: &str, path: &str, size: u64) -> FileState {
    FileState {
        id: id.to_string(),
        package_id: PACKAGE,
        source_url: "https://mega.nz/folder/pkg".to_string(),
        path: path.to_string(),
        size,
        lifecycle: FileLifecycle::Queued,
        progress: FileProgressState {
            visible_completed_bytes: 0,
            verified_existing_bytes: 0,
            downloaded_network_bytes: 0,
            displayed_bytes: 0,
        },
        accounting: FileAccounting::CurrentRun,
    }
}

fn resolve_test_package(app: &mut App, display_name: &str, files: Vec<(&str, &str, u64)>) {
    app.core_state.packages.push(PackageState {
        id: PACKAGE,
        key: "https://mega.nz/folder/pkg".to_string(),
        display_name: display_name.to_string(),
        error: None,
        status: PackageStatus::Queued,
    });
    for (id, path, size) in files {
        app.core_state.put_file(queued_file(id, path, size));
    }
    sync(app);
}

fn sync(app: &mut App) {
    let mut files = Vec::new();
    for at in 0..app.core_state.files.len() {
        let file = app.core_state.files.value(at);
        files.push(FileEntry {
            id: file.id.clone(),
            name: file.path.clone(),
            size: file.size,
            downloaded: file.visible_bytes(),
            status: file.lifecycle.status(),
        });
    }
    for at in 0..app.overlay_files.len() {
        files.push(app.overlay_files.value(at).file().copy());
    }
    app.files = files;
}

fn transfer(app: &mut App, id: &str, bytes: u64) {
    let at = app.core_state.files.find(id).expect("file should be known");
    let file = app.core_state.files.value(at);
    let moved = FileState {
        id: file.id.clone(),
        package_id: file.package_id,
        source_url: file.source_url.clone(),
        path: file.path.clone(),
        size: file.size,
        lifecycle: FileLifecycle::Downloading,
        progress: FileProgressState {
            visible_completed_bytes: bytes,
            verified_existing_bytes: 0,
            downloaded_network_bytes: bytes,
            displayed_bytes: bytes,
        },
        accounting: file.accounting,
    };
    let _ = app.core_state.files.replace(at, moved);
    sync(app);
}

fn state_of(app: &App, rows: &Vec<TuiRow>) -> DownloadDashboardState {
    app.dashboard_state(DashboardUiMode::Tui, false, &FileIdMap::new(), rows)
}

fn loose_file(status: FileStatus) -> FileEntry {
    FileEntry {
        id: "file.bin".to_string(),
        name: "file.bin".to_string(),
        size: 100,
        downloaded: 0,
        status,
    }
}

#[test]
fn dashboard_projection_uses_core_package_totals() {
    let mut app = test_app();
    resolve_test_package(&mut app, "Package", vec![("file.bin", "file.bin", 100)]);
    transfer(&mut app, "file.bin", 40);

    let state = state_of(&app, &Vec::new());

    assert_eq!(state.packages.len(), 1);
    assert_eq!(state.packages[0].present_files, 1);
    assert_eq!(state.packages[0].downloaded_bytes, 40);
    assert_eq!(state.packages[0].percent, 40);
    assert_eq!(state.files[0].status, DashboardFileStatus::Downloading);
}

#[test]
fn dashboard_projection_allows_full_progress_before_complete_status() {
    let mut app = test_app();
    resolve_test_package(&mut app, "Package", vec![("file.bin", "file.bin", 100)]);
    transfer(&mut app, "file.bin", 100);

    let state = state_of(&app, &Vec::new());

    assert_eq!(state.packages[0].downloaded_bytes, 100);
    assert_eq!(state.packages[0].percent, 100);
    assert_eq!(state.files[0].downloaded, 100);
    assert_eq!(state.files[0].status, DashboardFileStatus::Downloading);
}

#[test]
fn dashboard_projection_uses_inflight_verification_for_verify_status() {
    let mut app = test_app();
    app.files.push(loose_file(FileStatus::Queued));
    app.tracking.verifying_files.insert("file.bin".to_string());

    assert_eq!(
        state_of(&app, &Vec::new()).files[0].status,
        DashboardFileStatus::Queued
    );

    app.tracking
        .verification_inflight_files
        .insert("file.bin".to_string());
    assert_eq!(
        state_of(&app, &Vec::new()).files[0].status,
        DashboardFileStatus::Queued
    );

    app.tracking
        .verification_targets
        .insert("file.bin".to_string(), VerificationTarget::Resume);
    assert_eq!(
        state_of(&app, &Vec::new()).files[0].status,
        DashboardFileStatus::Verifying
    );
}

#[test]
fn dashboard_package_ignores_stale_inflight_without_target() {
    let mut app = test_app();
    resolve_test_package(&mut app, "Package", vec![("file.bin", "file.bin", 100)]);
    app.tracking.verifying_files.insert("file.bin".to_string());
    app.tracking
        .verification_inflight_files
        .insert("file.bin".to_string());

    let state = state_of(&app, &Vec::new());

    assert_eq!(state.packages[0].status, PackageStatus::Queued);
    assert_eq!(state.files[0].status, DashboardFileStatus::Queued);
}

#[test]
fn dashboard_projection_hides_empty_failed_packages() {
    let mut app = test_app();
    app.core_state.packages.push(PackageState {
        id: PACKAGE,
        key: "https://mega.nz/folder/failed".to_string(),
        display_name: "Failed".to_string(),
        error: Some("boom".to_string()),
        status: PackageStatus::Failed,
    });

    let state = state_of(&app, &Vec::new());

    assert!(state.packages.is_empty());
    assert!(state.rows.is_empty());
}

#[test]
fn dashboard_state_shows_the_error_of_a_file() {
    let mut app = test_app();
    app.files
        .push(loose_file(FileStatus::Error("network failed".to_string())));
    app.recompute_totals();

    let state = state_of(&app, &Vec::new());
    assert_eq!(
        state.files[0].status,
        DashboardFileStatus::Error {
            message: "network failed".to_string()
        }
    );
}

#[test]
fn an_empty_dashboard_state_holds_what_it_was_made_of() {
    let state = DownloadDashboardState::empty(
        DashboardUiMode::Headless,
        true,
        "ready".to_string(),
        9723,
    );
    assert_eq!(state.status, "ready");
    assert!(state.read_only);
    assert_eq!(state.metrics, DashboardMetrics::empty(9723));
    assert_eq!(state.totals, DashboardTotals::empty());
}

#[test]
fn dashboard_packages_list_files_in_the_order_they_were_moved_to() {
    let mut app = test_app();
    resolve_test_package(
        &mut app,
        "Package",
        vec![
            ("one.bin", "folder/one.bin", 100),
            ("two.bin", "folder/two.bin", 200),
            ("three.bin", "folder/three.bin", 300),
        ],
    );
    let steps = app.handle_ui_action(
        UiAction::MoveFile {
            file_id: "three.bin".to_string(),
            delta: -2,
        },
        &Vec::new(),
    );
    assert_eq!(
        steps,
        vec![AppStep::Command(CoreCommand::MoveFile {
            file_id: "three.bin".to_string(),
            delta: -2
        })]
    );
    for (id, path, size) in [("one.bin", "folder/one.bin", 100), ("two.bin", "folder/two.bin", 200)] {
        assert!(app.core_state.files.remove(id));
        app.core_state.put_file(queued_file(id, path, size));
    }
    sync(&mut app);

    let state = state_of(&app, &Vec::new());

    assert_eq!(state.packages.len(), 1);
    assert_eq!(state.packages[0].id, PACKAGE.to_text());
    assert_eq!(
        state.packages[0].file_ids,
        vec![
            "three.bin".to_string(),
            "one.bin".to_string(),
            "two.bin".to_string()
        ]
    );
}

#[test]
fn dashboard_state_keeps_text_and_empty_package_ids() {
    let mut app = test_app();
    app.upsert_overlay_file(
        FileEntry {
            id: "overlay/with-source.bin".to_string(),
            name: "with-source.bin".to_string(),
            size: 10,
            downloaded: 3,
            status: FileStatus::Queued,
        },
        Some("https://mega.nz/folder/text-id".to_string()),
    );
    app.upsert_overlay_file(
        FileEntry {
            id: "overlay/no-source.bin".to_string(),
            name: "no-source.bin".to_string(),
            size: 20,
            downloaded: 0,
            status: FileStatus::Queued,
        },
        None,
    );
    sync(&mut app);
    let rows = vec![TuiRow::File {
        package_id: None,
        file_id: "overlay/no-source.bin".to_string(),
    }];

    let state = state_of(&app, &rows);

    assert!(state
        .files
        .iter()
        .any(|file| file.id == "overlay/with-source.bin"
            && file.package_id == "https://mega.nz/folder/text-id"));
    assert!(state
        .files
        .iter()
        .any(|file| file.id == "overlay/no-source.bin" && file.package_id.is_empty()));
    assert!(state.rows.iter().any(|row| matches!(
        row,
        DashboardRow::File { package_id, file_id }
            if file_id == "overlay/no-source.bin" && package_id.is_empty()
    )));
}

#[test]
fn core_package_identities_travel_as_numbers() {
    let travelling = BinaryDashboardPackageId::from_dashboard_string(PACKAGE.to_text());
    assert_eq!(travelling, BinaryDashboardPackageId::Core(PACKAGE));
    assert_eq!(travelling.into_dashboard_string(), PACKAGE.to_text());
}

#[test]
fn package_identities_travel_and_come_back() {
    let text = BinaryDashboardPackageId::from_dashboard_string("https://mega.nz/a".to_string());
    assert_eq!(
        text,
        BinaryDashboardPackageId::Text("https://mega.nz/a".to_string())
    );
    assert_eq!(text.into_dashboard_string(), "https://mega.nz/a");
    let empty = BinaryDashboardPackageId::from_dashboard_string(String::new());
    assert_eq!(empty, BinaryDashboardPackageId::Empty);
    assert_eq!(empty.into_dashboard_string(), "");
}

#[test]
fn package_ids_are_written_with_hyphens_and_read_in_every_form() {
    let text = PACKAGE.to_text();
    assert_eq!(text, "01234567-89ab-cdef-0123-456789abcdef");
    assert_eq!(PackageId::parse(&text), Some(PACKAGE));
    assert_eq!(
        PackageId::parse("0123456789ABCDEF0123456789ABCDEF"),
        Some(PACKAGE)
    );
    assert_eq!(PackageId::parse("https://mega.nz/folder/pkg"), None);
    assert_eq!(PackageId::parse(""), None);
}

#[test]
fn tui_dashboard_snapshot_skips_single_internal_receiver() {
    assert!(!is_observed(DashboardUiMode::Tui, 1));
    assert!(is_observed(DashboardUiMode::Tui, 2));
}

#[test]
fn publish_dashboard_snapshot_updates_single_shared_receiver() {
    assert!(is_observed(DashboardUiMode::Headless, 1));
    assert!(!is_observed(DashboardUiMode::Headless, 0));
    let mut app = test_app();
    app.status = "updated from runtime".to_string();
    let state = app.dashboard_state(
        DashboardUiMode::Headless,
        false,
        &FileIdMap::new(),
        &Vec::new(),
    );
    assert_eq!(state.status, "updated from runtime");
}

fn publish(app: &App, cache: &mut DashboardCache) -> Vec<u8> {
    let key = DashboardCacheKey {
        revision: app.dashboard_revision,
        ui_mode: DashboardUiMode::Headless,
        read_only: false,
    };
    if !cache.is_current(key) {
        let state = app.dashboard_state(
            DashboardUiMode::Headless,
            false,
            &FileIdMap::new(),
            &Vec::new(),
        );
        cache.store(key, state.status.into_bytes());
    }
    cache.bytes.clone()
}

#[test]
fn dashboard_snapshot_reuses_cache_until_revision_changes() {
    let mut app = test_app();
    let mut cache = DashboardCache::new();

    app.status = "first".to_string();
    app.mark_dashboard_dirty();
    assert_eq!(publish(&app, &mut cache), b"first");

    app.status = "second".to_string();
    assert_eq!(publish(&app, &mut cache), b"first");

    app.mark_dashboard_dirty();
    assert_eq!(publish(&app, &mut cache), b"second");
}

#[test]
fn dashboard_snapshot_reuses_binary_cache_until_revision_changes() {
    let mut app = test_app();
    let mut cache = DashboardCache::new();

    app.status = "first".to_string();
    app.mark_dashboard_dirty();
    assert_eq!(publish(&app, &mut cache), b"first");
    let first_ptr = cache.bytes.as_ptr();

    app.status = "second".to_string();
    assert_eq!(publish(&app, &mut cache), b"first");
    assert_eq!(cache.bytes.as_ptr(), first_ptr);

    app.mark_dashboard_dirty();
    assert_eq!(publish(&app, &mut cache), b"second");
}

#[test]
fn selected_row_uses_valid_visible_row_cache() {
    let app = test_app();
    let mut cache = VisibleRowsCache::new();
    let key = app.visible_rows_cache_key(17);
    assert!(!cache.is_fresh(key));
    cache.store(
        key,
        vec![TuiRow::File {
            package_id: None,
            file_id: "cached-placeholder".to_string(),
        }],
    );

    assert!(cache.is_fresh(app.visible_rows_cache_key(17)));
    assert!(!cache.is_fresh(app.visible_rows_cache_key(18)));
    assert_eq!(
        cache.selected_row(Some(0)),
        Some(&TuiRow::File {
            package_id: None,
            file_id: "cached-placeholder".to_string(),
        })
    );
    assert_eq!(cache.selected_row(Some(1)), None);
    assert_eq!(cache.selected_row(None), None);
}

#[test]
fn speeds_are_shown_of_transfers_alone() {
    assert_eq!(shown_speed(&loose_file(FileStatus::Downloading), 7), 7);
    assert_eq!(shown_speed(&loose_file(FileStatus::Complete), 7), 0);
    let mut app = test_app();
    app.update_current_speed(9);
    assert_eq!(app.current_speed, 0);
    app.core_state.totals.run_file_downloading = 1;
    app.update_current_speed(9);
    assert_eq!(app.current_speed, 9);
}

#[test]
fn shares_are_whole_percents() {
    assert_eq!(percent(0, 0), 0);
    assert_eq!(percent(1, 3), 33);
    assert_eq!(percent(3, 3), 100);
    assert_eq!(percent(7, 3), 100);
}

#[test]
fn folder_labels_are_the_first_part_of_a_path() {
    assert_eq!(folder_label_from_path("folder/one.bin"), "folder");
    assert_eq!(folder_label_from_path("/folder/one.bin"), "folder");
    assert_eq!(folder_label_from_path("one.bin"), "one.bin");
    assert_eq!(folder_label_from_path("///"), "///");
}

#[test]
fn package_labels_prefer_the_name_of_the_package() {
    let mut app = test_app();
    resolve_test_package(&mut app, "Package", vec![("a", "folder/a", 1)]);
    assert_eq!(
        app.package_label_for_file(&"a".to_string()).as_deref(),
        Some("Package")
    );
    app.core_state.packages[0].display_name = "https://mega.nz/folder/pkg".to_string();
    assert_eq!(
        app.package_label_for_file(&"a".to_string()).as_deref(),
        Some("folder")
    );
    assert_eq!(app.package_label_for_file(&"b".to_string()), None);
}

#[test]
fn selections_stay_on_rows() {
    let mut selected = Some(7);
    clamp_selection(&mut selected, 3);
    assert_eq!(selected, Some(2));
    clamp_selection(&mut selected, 0);
    assert_eq!(selected, None);
    clamp_selection(&mut selected, 5);
    assert_eq!(selected, Some(0));

    let mut attached = AttachedDashboard::new();
    attached.select_delta(1);
    assert_eq!(attached.selected, None);
    let mut state =
        DownloadDashboardState::empty(DashboardUiMode::Attached, true, String::new(), 1);
    for name in ["a", "b", "c"] {
        state.rows.push(DashboardRow::File {
            package_id: String::new(),
            file_id: name.to_string(),
        });
    }
    attached.replace_state(state);
    assert_eq!(attached.selected, Some(0));
    attached.select_delta(2);
    assert_eq!(attached.selected, Some(2));
    attached.select_delta(1);
    assert_eq!(attached.selected, Some(2));
    attached.select_delta(-9);
    assert_eq!(attached.selected, Some(0));
    assert!(!DashboardChrome::read_only().url_input_active);
}

fn row(status: DashboardFileStatus, speed: u64) -> DashboardFileRow {
    DashboardFileRow {
        id: "f".to_string(),
        package_id: String::new(),
        name: "f".to_string(),
        size: 100,
        downloaded: 45,
        speed,
        status,
        package_label: None,
    }
}

#[test]
fn details_tell_how_a_file_fares() {
    assert_eq!(
        file_detail(&row(DashboardFileStatus::Downloading, 10), 45, 4, "10 B"),
        "[████░░░░░░] 45%  10 B/s"
    );
    assert_eq!(
        file_detail(&row(DashboardFileStatus::Downloading, 0), 45, 4, ""),
        "[████░░░░░░] 45%  active"
    );
    assert_eq!(
        file_detail(&row(DashboardFileStatus::Verifying, 0), 145, 14, ""),
        "[██████████] 100%  verify"
    );
    assert_eq!(
        file_detail(&row(DashboardFileStatus::Queued, 0), 0, 0, ""),
        "queued"
    );
    assert_eq!(
        file_detail(&row(DashboardFileStatus::Complete, 0), 0, 0, "100 B"),
        "100 B  done"
    );
    assert_eq!(progress_bar(3, 0, 4), "░░░░");
}

#[test]
fn labels_tell_how_everything_fares() {
    let mut state = DownloadDashboardState::empty(DashboardUiMode::Tui, false, String::new(), 1);
    assert_eq!(aggregate_activity_label(&state), "idle");
    state.files.push(row(DashboardFileStatus::Queued, 0));
    state.files.push(row(DashboardFileStatus::Queued, 0));
    assert_eq!(aggregate_activity_label(&state), "2 queued");
    assert_eq!(aggregate_transfer_label(&state, "", ""), "2 queued");
    state.files.push(row(DashboardFileStatus::Verifying, 0));
    assert_eq!(aggregate_activity_label(&state), "active");

    state.totals.current_speed = 30;
    state.totals.total_size = 100;
    state.totals.total_downloaded = 0;
    assert_eq!(seconds_left(&state.totals), Some(4));
    assert_eq!(
        aggregate_transfer_label(&state, "30 B", "4s"),
        "30 B/s  eta 4s"
    );
    state.totals.total_downloaded = 100;
    assert_eq!(seconds_left(&state.totals), None);
    assert_eq!(aggregate_transfer_label(&state, "30 B", ""), "30 B/s");
}
