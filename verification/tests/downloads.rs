//! The download task: resolving links, collecting files, scheduling and verifying them.

use std::collections::VecDeque;

use octo_dl::batch::{
    collect_node_set, order_items_by_request, successful_submitted_urls, CollectedFiles,
    DownloadItem, FetchedNodeSet, QueuedDownload, RequestedFiles, ResolvedUrl,
};
use octo_dl::collection::collect_batch;
use octo_dl::duplicates::{
    duplicate_path, next_available_duplicate_path, remote_files_match, BatchDestination,
    BatchDuplicateResolver, BatchItemSnapshot,
};
use octo_dl::events::{ByteCount, DownloadEvent, DownloadRequest, ProgressDelta};
use octo_dl::ids::{FileIdMap, FileIdSet, PackageId};
use octo_dl::ordered::{OrderedIds, OrderedMap};
use octo_dl::requests::{
    describe_panic, dlc_sources, expand_dlc_path, expand_path_in, fetch_error, plan_requests,
    queue_download_request_events, DlcOutcome, FetchFailure,
};
use octo_dl::scheduler::{ActiveTask, DownloadOutcome, SchedulerState, TaskResult};
use octo_dl::task::{
    concurrent_limit, file_progress, next_action, pause_cancellation, setup_event, work_for,
    ClientHandOver, RequestQueue, RequestWork, RunAction, Wakeup,
};
use octo_dl::text::decimal_text;
use octo_dl::verification::{
    match_requested, VerificationPass, VerificationProgress, VerificationTarget, VerifyOutcome,
};

fn item(path: &str, size: u64) -> DownloadItem {
    DownloadItem {
        path: path.to_string(),
        handle: format!("handle-{path}"),
        size,
        modified_at: None,
        sparse_checksum: None,
        was_partial: false,
    }
}

fn queued(path: &str, attempt_id: u64) -> QueuedDownload {
    QueuedDownload {
        resolved: ResolvedUrl::direct("https://mega.nz/folder/root"),
        item: item(path, 10),
        attempt_id,
        trust_resume_state: false,
    }
}

fn set_of(ids: &[&str]) -> FileIdSet {
    let mut set = FileIdSet::new();
    for id in ids {
        set.insert(id.to_string());
    }
    set
}

fn texts(ids: &[&str]) -> Vec<String> {
    ids.iter().map(|id| id.to_string()).collect()
}

fn queue_of(ids: &[&str]) -> VecDeque<String> {
    texts(ids).into()
}

fn make_available(scheduler: &mut SchedulerState, ids: &[&str]) {
    for id in ids {
        scheduler
            .available_downloads
            .insert(id.to_string(), queued(id, 0));
    }
}

#[test]
fn scheduler_claim_moves_a_file_to_active_state_as_one_transition() {
    let mut scheduler = SchedulerState::new();
    let file_id = "claimed.bin".to_string();
    scheduler.pending_queue.push_back(file_id.clone());
    scheduler.resume_priority_set.insert(file_id.clone());

    assert!(scheduler.claim_download(&file_id));
    assert!(!scheduler.pending_queue.contains(&file_id));
    assert!(!scheduler.resume_priority_set.contains(&file_id));
    assert!(scheduler.active_downloads.contains(&file_id));
    assert!(!scheduler.claim_download(&file_id));
}

#[test]
fn scheduler_claim_release_restores_queue_and_clears_both_active_indexes() {
    let mut scheduler = SchedulerState::new();
    let file_id = "released.bin".to_string();
    scheduler.pending_queue.push_back(file_id.clone());

    assert!(scheduler.claim_download(&file_id));
    scheduler.release_download_claim(file_id.clone());

    assert_eq!(scheduler.pending_queue, queue_of(&["released.bin"]));
    assert!(!scheduler.active_downloads.contains(&file_id));
}

#[test]
fn resume_priority_targets_block_other_pending_downloads() {
    let mut scheduler = SchedulerState::new();
    let names = ["new-a.bin", "resume-a.bin", "new-b.bin", "resume-b.bin"];
    scheduler.pending_queue = queue_of(&names);
    scheduler.resume_priority_set = set_of(&["resume-a.bin", "resume-b.bin"]);
    make_available(&mut scheduler, &names);

    let selected = scheduler.start_candidates(false, 2);
    assert_eq!(selected, texts(&["resume-a.bin", "resume-b.bin"]));

    scheduler.active_downloads.insert("resume-a.bin".to_string());
    let selected_while_one_resume_active = scheduler.start_candidates(false, 3);

    assert_eq!(
        selected_while_one_resume_active,
        texts(&["resume-b.bin"]),
        "new queued files must stay blocked until the Alt-R resume priority queue is drained"
    );
}

#[test]
fn unavailable_resume_priority_blocks_new_downloads_until_reverify_finishes() {
    let mut scheduler = SchedulerState::new();
    scheduler.pending_queue =
        queue_of(&["new-a.bin", "resume-a.bin", "new-b.bin", "resume-b.bin"]);
    scheduler.resume_priority_set = set_of(&["resume-a.bin", "resume-b.bin"]);
    make_available(&mut scheduler, &["resume-a.bin", "new-a.bin", "new-b.bin"]);
    scheduler.active_downloads.insert("resume-a.bin".to_string());

    let selected = scheduler.start_candidates(false, 2);

    assert!(
        selected.is_empty(),
        "new queued files must remain blocked while another Alt-R file is still being reverified"
    );
}

#[test]
fn reverify_for_unavailable_file_does_not_leave_ghost_resume_priority_entry() {
    let mut scheduler = SchedulerState::new();
    let ghost = "failed-ghost.bin".to_string();

    let paused = scheduler.pause_file_ids(&vec![ghost.clone()]);
    assert!(paused.is_empty());

    let paused_ids = paused
        .iter()
        .map(|download| download.item.path.clone())
        .collect::<Vec<_>>();
    scheduler.mark_resume_priority_file_ids(&paused_ids);

    assert!(
        !scheduler.resume_priority_set.contains(&ghost),
        "failed or otherwise unavailable files must not leave behind resume-priority blockers"
    );
}

#[test]
fn pausing_active_reverify_keeps_desired_download_for_requeue() {
    let file_id = "active.bin".to_string();
    let mut scheduler = SchedulerState::new();
    scheduler.desired_pending_order.push(file_id.clone());
    scheduler.desired_pending_set.insert(file_id.clone());
    scheduler.active_downloads.insert(file_id.clone());

    let paused = scheduler.pause_file_ids(&vec![file_id.clone()]);

    assert!(
        paused.is_empty(),
        "active work has not yielded its queued item"
    );
    assert!(scheduler.desired_pending_set.contains(&file_id));
    assert_eq!(scheduler.desired_pending_order, vec![file_id]);
}

#[test]
fn scheduler_uses_value_identity_for_file_ids() {
    let mut ids = FileIdMap::new();
    ids.insert(String::from("file.bin"), 1u64);

    assert!(ids.contains_key(&String::from("file.bin")));
    ids.insert(String::from("file.bin"), 2);
    assert_eq!(ids.get("file.bin"), Some(&2));
    assert_eq!(ids.keys(), texts(&["file.bin"]));
}

#[test]
fn panicked_download_task_releases_its_scheduler_slot() {
    let mut scheduler = SchedulerState::new();
    let file_id = "panic.bin".to_string();
    scheduler.active_downloads.insert(file_id.clone());
    scheduler.active_task_files.push(ActiveTask {
        task_id: 7,
        file_id: file_id.clone(),
        attempt_id: 4,
    });

    let events = scheduler.handle_download_join_result(TaskResult::Panicked {
        task_id: 7,
        error: "download task panic".to_string(),
    });

    assert!(!scheduler.active_downloads.contains(&file_id));
    assert!(!scheduler.available_downloads.contains_key(&file_id));
    assert!(scheduler.active_task_files.is_empty());
    assert!(events.contains(&DownloadEvent::ScopeError {
        scope: "download".to_string(),
        error: "Download task panicked: download task panic".to_string(),
    }));
}

#[test]
fn finishing_old_attempt_keeps_newer_resolved_download_available() {
    let file_id = "payload.bin".to_string();
    let mut scheduler = SchedulerState::new();
    scheduler.active_downloads.insert(file_id.clone());
    scheduler
        .available_downloads
        .insert(file_id.clone(), queued("payload.bin", 1));
    scheduler.desired_pending_order.push(file_id.clone());
    scheduler.desired_pending_set.insert(file_id.clone());
    scheduler.active_task_files.push(ActiveTask {
        task_id: 3,
        file_id: file_id.clone(),
        attempt_id: 0,
    });

    scheduler.handle_download_join_result(TaskResult::Done {
        task_id: 3,
        file_id: file_id.clone(),
        attempt_id: 0,
        outcome: DownloadOutcome::Finished,
    });

    assert_eq!(
        scheduler
            .available_downloads
            .get("payload.bin")
            .map(|item| item.attempt_id),
        Some(1)
    );
    assert_eq!(scheduler.pending_queue, queue_of(&["payload.bin"]));
}

#[test]
fn panicked_download_task_is_removed_from_available_and_pending_state() {
    let mut scheduler = SchedulerState::new();
    let file_id = "panic-queued.bin".to_string();
    scheduler.active_downloads.insert(file_id.clone());
    scheduler.desired_pending_order.push(file_id.clone());
    scheduler.desired_pending_set.insert(file_id.clone());
    scheduler.pending_queue.push_back(file_id.clone());
    scheduler.active_task_files.push(ActiveTask {
        task_id: 9,
        file_id: file_id.clone(),
        attempt_id: 4,
    });

    scheduler.handle_download_join_result(TaskResult::Panicked {
        task_id: 9,
        error: "download task panic".to_string(),
    });

    assert!(!scheduler.active_downloads.contains(&file_id));
    assert!(!scheduler.pending_queue.contains(&file_id));
    assert!(scheduler.active_task_files.is_empty());
}

#[test]
fn failed_downloads_are_reported_and_forgotten() {
    let mut scheduler = SchedulerState::new();
    make_available(&mut scheduler, &["file.bin"]);
    scheduler.active_downloads.insert("file.bin".to_string());

    let events = scheduler.handle_download_join_result(TaskResult::Done {
        task_id: 1,
        file_id: "file.bin".to_string(),
        attempt_id: 0,
        outcome: DownloadOutcome::Failed {
            error: "boom".to_string(),
        },
    });

    assert_eq!(
        events,
        vec![DownloadEvent::FileError {
            id: "file.bin".to_string(),
            error: "Download failed: boom".to_string(),
            attempt_id: 0,
        }]
    );
    assert!(!scheduler.has_available_download("file.bin"));

    make_available(&mut scheduler, &["file.bin"]);
    scheduler.active_downloads.insert("file.bin".to_string());
    let events = scheduler.handle_download_join_result(TaskResult::Done {
        task_id: 2,
        file_id: "file.bin".to_string(),
        attempt_id: 0,
        outcome: DownloadOutcome::Cancelled,
    });
    assert!(events.is_empty());
    assert!(scheduler.has_available_download("file.bin"));
}

#[test]
fn a_new_order_is_taken_over() {
    let mut scheduler = SchedulerState::new();
    make_available(&mut scheduler, &["a", "b", "c"]);
    scheduler.sync_pending_order(texts(&["b", "a"]));
    assert_eq!(scheduler.pending_queue, queue_of(&["b", "a"]));
    scheduler.sync_pending_order(texts(&["b", "a", "c"]));
    assert_eq!(scheduler.pending_queue, queue_of(&["b", "a", "c"]));
    scheduler.sync_pending_order(texts(&["c"]));
    assert_eq!(scheduler.pending_queue, queue_of(&["c"]));
    assert_eq!(scheduler.start_candidates(true, 4), texts(&[]));
}

#[test]
fn a_verification_takes_files_out_and_puts_them_back() {
    let mut scheduler = SchedulerState::new();
    make_available(&mut scheduler, &["a", "b"]);
    scheduler.sync_pending_order(texts(&["a", "b"]));
    let mut operations = FileIdMap::new();
    operations.insert("a".to_string(), 5u64);

    let paused = scheduler.begin_reverify(&texts(&["a"]), &operations);
    assert_eq!(paused.len(), 1);
    assert_eq!(paused[0].attempt_id, 5);
    assert!(!scheduler.has_available_download("a"));
    assert!(scheduler.resume_priority_set.contains("a"));
    assert_eq!(scheduler.start_candidates(false, 1), texts(&[]));

    let mut paused = paused;
    paused[0].trust_resume_state = true;
    scheduler.finish_reverify(&texts(&["a"]), paused, &set_of(&["a"]));
    assert!(scheduler.has_available_download("a"));
    assert!(scheduler.resume_priority_set.contains("a"));
    assert_eq!(scheduler.start_candidates(false, 1), texts(&["a"]));
}

#[test]
fn drain_ready_requests_collects_follow_up_verification_requests_in_order() {
    let first = DownloadRequest::ReverifyFileIds {
        source_url: "https://mega.nz/folder/root".to_string(),
        file_ids: texts(&["resume-a.bin"]),
    };
    let second = DownloadRequest::VerifyCompletedFileIdsWithOperations {
        source_url: "https://mega.nz/folder/root".to_string(),
        file_ids: texts(&["complete-a.bin"]),
        operation_ids: FileIdMap::new(),
    };
    let late = DownloadRequest::ReverifyFileIds {
        source_url: "https://mega.nz/folder/root".to_string(),
        file_ids: texts(&["resume-b.bin"]),
    };

    let mut pending = RequestQueue::starting_with(first);
    pending.drain_ready_requests(vec![second]);
    assert_eq!(pending.pending.len(), 2);

    let handled_first = pending.next().expect("first request should be pending");
    assert!(matches!(
        handled_first,
        DownloadRequest::ReverifyFileIds { .. }
    ));

    pending.drain_ready_requests(vec![late]);
    assert!(matches!(
        pending.next(),
        Some(DownloadRequest::VerifyCompletedFileIdsWithOperations { .. })
    ));
    assert!(matches!(
        pending.next(),
        Some(DownloadRequest::ReverifyFileIds { file_ids, .. }) if file_ids == texts(&["resume-b.bin"])
    ));
    assert!(pending.next().is_none());
}

#[test]
fn the_task_goes_through_its_work_in_order() {
    assert_eq!(
        next_action(Wakeup::TaskJoined, 0, true),
        Some(RunAction::ApplyResult)
    );
    assert_eq!(
        next_action(Wakeup::Request, 0, true),
        Some(RunAction::HandleRequests)
    );
    assert_eq!(
        next_action(Wakeup::Request, 1, false),
        Some(RunAction::Stop)
    );
    assert_eq!(
        next_action(Wakeup::RequestsClosed, 0, true),
        Some(RunAction::Stop)
    );
    assert_eq!(concurrent_limit(0), 1);
    assert_eq!(concurrent_limit(4), 4);
    assert_eq!(
        work_for(&DownloadRequest::SubmitUrl {
            url: "u".to_string(),
            attempt_ids: FileIdMap::new(),
        }),
        RequestWork::Resolve {
            counts_submission: true
        }
    );
    assert!(matches!(
        setup_event(&ClientHandOver::NoChannel),
        DownloadEvent::ScopeError { scope, error }
            if scope == "setup" && error == "No client channel available"
    ));
}

#[test]
fn transfers_report_under_their_attempt() {
    let progress = file_progress("file.bin", 3);
    assert_eq!(
        progress.on_file_start(9),
        DownloadEvent::FileStart {
            id: "file.bin".to_string(),
            size: 9,
            attempt_id: 3
        }
    );
    assert_eq!(
        progress.on_file_complete(),
        DownloadEvent::FileComplete {
            id: "file.bin".to_string(),
            attempt_id: 3
        }
    );
    assert_eq!(
        progress.on_error("boom"),
        DownloadEvent::FileError {
            id: "file.bin".to_string(),
            error: "boom".to_string(),
            attempt_id: 3
        }
    );
    assert_eq!(
        pause_cancellation("file.bin", 3, true, true),
        Some(DownloadEvent::FileCancelled {
            id: "file.bin".to_string(),
            attempt_id: 3
        })
    );
    assert_eq!(pause_cancellation("file.bin", 3, true, false), None);
}

#[test]
fn describe_panic_handles_known_and_unknown_payloads() {
    assert_eq!(describe_panic(Some("static boom")), "static boom");
    assert_eq!(describe_panic(Some("owned boom")), "owned boom");
    assert_eq!(describe_panic(None), "unknown panic payload");
    assert_eq!(
        fetch_error(&FetchFailure::Failed("x".to_string())),
        "Fetch failed: x"
    );
    assert_eq!(
        fetch_error(&FetchFailure::Panicked("x".to_string())),
        "Fetch panicked: x"
    );
}

#[test]
fn expand_dlc_path_expands_tilde_prefix() {
    let home = dirs::home_dir().expect("home dir should exist for test");
    let expanded = expand_dlc_path("~/Downloads/example.dlc").unwrap();

    assert_eq!(
        expanded,
        format!("{}/Downloads/example.dlc", home.to_string_lossy())
    );
}

#[test]
fn expand_dlc_path_leaves_absolute_paths_unchanged() {
    let path = "/tmp/example.dlc";

    assert_eq!(expand_dlc_path(path).unwrap(), path);
}

#[test]
fn expand_dlc_path_leaves_non_filesystem_inputs_unchanged() {
    assert_eq!(
        expand_dlc_path("bundle.dlc").unwrap(),
        "bundle.dlc".to_string()
    );
    assert_eq!(
        expand_dlc_path("/tmp/archive.dlc").unwrap(),
        "/tmp/archive.dlc".to_string()
    );
}

#[test]
fn a_home_directory_is_needed_for_a_tilde_alone() {
    assert_eq!(
        expand_path_in("~/a.dlc", Some("/home/u")),
        Ok("/home/u/a.dlc".to_string())
    );
    assert_eq!(
        expand_path_in("~/a.dlc", None),
        Err("Could not determine home directory".to_string())
    );
    assert_eq!(expand_path_in("a.dlc", None), Ok("a.dlc".to_string()));
}

#[test]
fn container_files_become_links() {
    let (sources, event) = dlc_sources(
        "bundle.dlc",
        DlcOutcome::Links(texts(&["https://mega.nz/file/a", "https://mega.nz/file/b"])),
    );
    assert_eq!(sources.len(), 2);
    assert_eq!(sources[1].source_url, "https://mega.nz/file/b");
    assert_eq!(sources[1].submitted_url, "bundle.dlc");
    assert!(matches!(event, DownloadEvent::StatusMessage(_)));
    let (none, event) = dlc_sources("bundle.dlc", DlcOutcome::Unreadable("bad".to_string()));
    assert!(none.is_empty());
    assert!(matches!(event, DownloadEvent::ScopeError { scope, .. } if scope == "bundle.dlc"));
}

fn node_set(source_url: &str, submitted_url: &str, files: Option<CollectedFiles>) -> FetchedNodeSet {
    FetchedNodeSet {
        resolved: ResolvedUrl::from_source(source_url.to_string(), submitted_url),
        files,
        requested_files: RequestedFiles::All,
        requested_attempt_ids: FileIdMap::new(),
        submission_attempt_id: 0,
        emit_url_resolved: true,
    }
}

fn found(package: u128, to_download: Vec<DownloadItem>, completed: Vec<DownloadItem>) -> CollectedFiles {
    CollectedFiles {
        to_download,
        completed,
        package_id: PackageId { raw: package },
        package_display_name: format!("Package {package}"),
    }
}

#[test]
fn successful_submitted_urls_deduplicates_only_fetched_submissions() {
    let resolved = vec![
        node_set("https://mega.nz/file/one", "bundle.dlc", None),
        node_set("https://mega.nz/file/two", "bundle.dlc", None),
        node_set(
            "https://mega.nz/file/three",
            "https://mega.nz/folder/direct",
            None,
        ),
    ];

    assert!(successful_submitted_urls(&resolved).is_empty());

    let fetched = vec![
        node_set("a", "bundle.dlc", Some(found(1, Vec::new(), Vec::new()))),
        node_set("b", "bundle.dlc", Some(found(1, Vec::new(), Vec::new()))),
        node_set("c", "c", None),
    ];
    assert_eq!(successful_submitted_urls(&fetched), texts(&["bundle.dlc"]));
}

#[test]
fn queued_events_keep_distinct_source_urls_in_distinct_packages() {
    let left = ResolvedUrl {
        source_url: "https://mega.nz/folder/one".to_string(),
        submitted_url: "bundle.dlc".to_string(),
        package_id: None,
        package_display_name: None,
    };
    let right = ResolvedUrl {
        source_url: "https://mega.nz/folder/two".to_string(),
        submitted_url: "bundle.dlc".to_string(),
        package_id: None,
        package_display_name: None,
    };

    let left_origin = left.file_origin();
    let right_origin = right.file_origin();

    assert_eq!(left_origin.package_id, None);
    assert_eq!(right_origin.package_id, None);
    assert_ne!(left_origin.source_url, right_origin.source_url);
    assert_eq!(left_origin.submitted_url, "bundle.dlc");
    assert_eq!(right_origin.submitted_url, "bundle.dlc");
}

#[test]
fn remote_files_match_prefers_sparse_checksum_then_size_and_date() {
    let left = BatchItemSnapshot {
        size: 100,
        modified_at: Some(123),
        sparse_checksum: Some([7; 16]),
    };
    let same_checksum_different_date = BatchItemSnapshot {
        modified_at: Some(456),
        ..left
    };
    let same_size_and_date_without_checksum = BatchItemSnapshot {
        sparse_checksum: None,
        ..left
    };
    let different_size = BatchItemSnapshot {
        size: 90,
        sparse_checksum: None,
        ..left
    };

    assert!(remote_files_match(&left, &same_checksum_different_date));
    assert!(remote_files_match(
        &BatchItemSnapshot {
            sparse_checksum: None,
            ..left
        },
        &same_size_and_date_without_checksum
    ));
    assert!(!remote_files_match(&left, &different_size));
}

#[test]
fn duplicate_path_renames_file_inside_folder_preserving_extension() {
    assert_eq!(duplicate_path("folder/file.mkv", 2), "folder/file (2).mkv");
    assert_eq!(duplicate_path("folder/file", 3), "folder/file (3)");
}

#[test]
fn duplicate_path_suffixes_are_reserved_across_packages() {
    let mut used_paths = set_of(&["folder/file.mkv", "folder/file (2).mkv"]);

    assert_eq!(
        next_available_duplicate_path("folder/file.mkv", &mut used_paths),
        "folder/file (3).mkv"
    );
    assert!(used_paths.contains("folder/file (3).mkv"));
}

#[test]
fn resolved_url_direct_uses_same_source_and_submission() {
    let resolved = ResolvedUrl::direct("https://mega.nz/file/test");

    assert_eq!(resolved.source_url, "https://mega.nz/file/test");
    assert_eq!(resolved.submitted_url, "https://mega.nz/file/test");
}

#[test]
fn files_of_one_path_are_kept_apart_within_a_package() {
    let mut resolver = BatchDuplicateResolver::new();
    for (package, size) in [(1u128, 10u64), (2, 20), (1, 10), (1, 5), (1, 30)] {
        let mut download = queued("folder/file.mkv", 0);
        download.resolved.package_id = Some(PackageId { raw: package });
        download.item.size = size;
        download.item.modified_at = Some(5);
        resolver.insert(download, BatchDestination::Queued);
    }
    let (kept, completed) = resolver.finish();
    let files: Vec<(&str, u64)> = kept
        .iter()
        .map(|download| (download.item.path.as_str(), download.item.size))
        .collect();
    assert_eq!(
        files,
        vec![
            ("folder/file (3).mkv", 10),
            ("folder/file.mkv", 20),
            ("folder/file (2).mkv", 5),
            ("folder/file.mkv", 30),
        ]
    );
    assert!(completed.is_empty());
}

#[test]
fn arrivals_add_to_their_list_or_change_nothing() {
    let file = |size: u64| {
        let mut download = queued("folder/file.mkv", 0);
        download.resolved.package_id = Some(PackageId { raw: 1 });
        download.item.size = size;
        download.item.modified_at = Some(5);
        download
    };
    let mut resolver = BatchDuplicateResolver::new();
    resolver.insert(file(10), BatchDestination::Queued);
    resolver.insert(file(20), BatchDestination::Completed);
    resolver.insert(file(20), BatchDestination::Queued);
    let (kept, completed) = resolver.finish();
    let named = |files: &[octo_dl::batch::QueuedDownload]| -> Vec<(String, u64)> {
        files
            .iter()
            .map(|download| (download.item.path.clone(), download.item.size))
            .collect()
    };
    assert_eq!(named(&kept), vec![("folder/file (2).mkv".to_string(), 10)]);
    assert_eq!(named(&completed), vec![("folder/file.mkv".to_string(), 20)]);
}

#[test]
fn batches_report_what_was_found() {
    let mut partial = item("b", 30);
    partial.was_partial = true;
    let sets = vec![
        node_set(
            "https://mega.nz/folder/one",
            "https://mega.nz/folder/one",
            Some(found(1, vec![item("a", 10), partial], vec![item("c", 5)])),
        ),
        node_set("https://mega.nz/folder/two", "https://mega.nz/folder/two", None),
    ];

    let batch = collect_batch(&sets);
    assert_eq!(batch.file_total(), 3);
    assert_eq!(batch.total_bytes(), 45);
    assert_eq!((batch.skipped_count, batch.partial_count), (1, 1));
    let events = batch.events();
    assert_eq!(
        events[0],
        DownloadEvent::FilesCollected {
            total: 3,
            skipped: 1,
            partial: 1,
            total_bytes: 45
        }
    );
    assert!(events.contains(&DownloadEvent::UrlResolved {
        url: "https://mega.nz/folder/one".to_string()
    }));
    assert!(!events.contains(&DownloadEvent::UrlResolved {
        url: "https://mega.nz/folder/two".to_string()
    }));
}

#[test]
fn wanted_files_come_in_the_order_of_the_request() {
    let mut wanted = OrderedIds::new();
    wanted.extend(&texts(&["c", "a"]));
    assert!(wanted.contains("a"));
    assert!(!wanted.contains("b"));
    assert_eq!(wanted.get(0).map(String::as_str), Some("c"));
    let requested = RequestedFiles::Only(wanted);
    let ordered = order_items_by_request(vec![item("a", 1), item("b", 1), item("c", 1)], &requested);
    let paths: Vec<&str> = ordered.iter().map(|item| item.path.as_str()).collect();
    assert_eq!(paths, vec!["c", "a"]);

    let mut set = node_set("u", "u", Some(found(4, vec![item("a", 1), item("b", 1)], Vec::new())));
    set.requested_files = requested;
    set.requested_attempt_ids.insert("a".to_string(), 8);
    let collected = collect_node_set(&set);
    assert_eq!(collected.queued_items.len(), 1);
    assert_eq!(collected.queued_items[0].attempt_id, 8);
    assert_eq!(
        collected.queued_items[0].resolved.package_id,
        Some(PackageId { raw: 4 })
    );
}

#[test]
fn url_submission_attempt_is_not_used_as_a_new_file_attempt() {
    let mut set = node_set(
        "https://mega.nz/file/payload",
        "https://mega.nz/file/payload",
        Some(found(1, vec![item("payload.bin", 32)], Vec::new())),
    );
    set.submission_attempt_id = 1;

    let queued = collect_node_set(&set).queued_items;

    assert_eq!(queued.len(), 1);
    assert_eq!(
        queued[0].attempt_id, 0,
        "a URL retry generation must not masquerade as a file retry generation"
    );
}

#[test]
fn ordered_maps_keep_their_order() {
    let mut map: OrderedMap<u8> = OrderedMap::new();
    for (key, value) in [("x", 1), ("y", 2), ("z", 3), ("x", 4)] {
        map.insert(key.to_string(), value);
    }
    assert_eq!(map.len(), 3);
    assert_eq!((map.key(0).as_str(), *map.value(0)), ("x", 4));
    assert!(map.remove("y"));
    assert!(!map.remove("y"));
    assert_eq!(map.find("z"), Some(1));
    assert_eq!(map.find("y"), None);
}

#[test]
fn requests_for_one_link_are_planned_together() {
    let mut attempts = FileIdMap::new();
    attempts.insert("a".to_string(), 2u64);
    let mut tried = FileIdMap::new();
    tried.insert("c".to_string(), 3u64);
    let requests = vec![
        DownloadRequest::ResumeFileIds {
            source_url: "u".to_string(),
            file_ids: texts(&["a"]),
            attempt_ids: attempts,
        },
        DownloadRequest::SubmitUrl {
            url: "v".to_string(),
            attempt_ids: tried,
        },
        DownloadRequest::ResumeFileIds {
            source_url: "u".to_string(),
            file_ids: texts(&["b"]),
            attempt_ids: FileIdMap::new(),
        },
    ];
    let plan = plan_requests(&requests);
    assert_eq!(plan.len(), 2);
    assert_eq!(plan.key(0), "u");
    assert!(matches!(
        &plan.value(0).requested_files,
        RequestedFiles::Only(ids) if ids.len() == 2
    ));
    assert_eq!(plan.value(0).attempt_ids.get("a"), Some(&2));
    assert!(!plan.value(0).emit_url_resolved);
    assert!(plan.value(1).requested_files.keeps("anything"));
    assert_eq!(plan.value(1).attempt_ids.get("c"), Some(&3));
    assert!(plan.value(1).emit_url_resolved);

    let events = queue_download_request_events(&requests[1]);
    assert_eq!(
        events[0],
        DownloadEvent::UrlQueued {
            url: "v".to_string()
        }
    );
}

#[test]
fn verification_reports_are_gathered() {
    let mut progress = VerificationProgress::new("file.bin".to_string());
    assert_eq!(progress.flush_pending(), None);
    let first = progress.on_progress(ProgressDelta {
        total_bytes_delta: 10,
        network_bytes_delta: 0,
    });
    let reported = match first {
        Some(DownloadEvent::VerificationProgress { bytes_delta, .. }) => bytes_delta,
        None => 0,
        Some(other) => panic!("unexpected event: {other:?}"),
    };
    let rest = match progress.flush_pending() {
        Some(DownloadEvent::VerificationProgress { bytes_delta, .. }) => bytes_delta,
        None => 0,
        Some(other) => panic!("unexpected event: {other:?}"),
    };
    assert_eq!(reported + rest, 10);
}

#[test]
fn a_verification_pass_reports_found_and_missing_files() {
    let mut pass = VerificationPass::begin(
        "https://mega.nz/folder/root".to_string(),
        &texts(&["a", "b"]),
        FileIdMap::new(),
        VerificationTarget::Completed,
    );
    let items = pass.found(vec![item("x", 1)], vec![item("a", 100), item("y", 1)]);
    assert_eq!(items.len(), 1);
    assert_eq!(items[0].path, "a");

    let mut progress = VerificationProgress::new("a".to_string());
    let events = pass.finished_item(
        &mut progress,
        &VerifyOutcome::CompletedOk {
            bytes: ByteCount {
                bytes: 100,
                text: "100 B".to_string(),
            },
        },
    );
    assert!(events.contains(&DownloadEvent::CompletedFileVerified {
        id: "a".to_string(),
        bytes: 100
    }));

    let closing = pass.close();
    assert!(closing.iter().any(|event| matches!(
        event,
        DownloadEvent::VerificationSkipped { id, .. } if id == "b"
    ) || matches!(
        event,
        DownloadEvent::FileError { id, .. } if id == "b"
    )));
}

#[test]
fn requested_files_are_crossed_off_once_found() {
    let mut requested = set_of(&["a", "b"]);
    let matched = match_requested(vec![item("a", 1), item("c", 1)], &mut requested);
    assert_eq!(matched.len(), 1);
    assert!(!requested.contains("a"));
    assert!(requested.contains("b"));
    assert_eq!(requested.len(), 1);
}

#[test]
fn numbers_are_written_in_decimal() {
    assert_eq!(decimal_text(0), "0");
    assert_eq!(decimal_text(18_446_744_073_709_551_615), "18446744073709551615");
}
