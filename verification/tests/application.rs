//! The application on top of a small core that is kept in memory.

use std::collections::HashMap;

use octo_dl::app::{App, AppStep, Status};
use octo_dl::batch::{CollectedFiles, DownloadItem, QueuedDownload, ResolvedUrl};
use octo_dl::batching::{
    Deferral, DeferredPersistence, PendingSessionPersistence, SessionFlush,
};
use octo_dl::collection::collect_batch;
use octo_dl::dispatch::SessionPlan;
use octo_dl::effects::{apply_core_effects, CoreApplyPolicy, EffectAction};
use octo_dl::events::{
    DownloadEvent, DownloadRequest, FileAccounting, FileOrigin, ProgressDelta, QueuedFile,
};
use octo_dl::ids::{FileIdMap, PackageId};
use octo_dl::model::{
    CoreCommand, CoreEffect, CoreEvent, FileEntry, FileLifecycle, FileProgressState, FileState,
    FileStatus, PackageState, PackageStatus, ResolvedFile, ResolvedPackage, RunTotals,
};
use octo_dl::requests::{fetched_node_set, plan_requests, queue_download_request_events};
use octo_dl::rows::shown_speed;
use octo_dl::runtime::{
    tick_is_dirty, EventDrain, HeadlessAction, HeadlessLoop, HeadlessWake,
    MAX_DOWNLOAD_EVENTS_PER_TICK,
};
use octo_dl::scheduler::SchedulerState;
use octo_dl::session::{session_write, SessionWrite};
use octo_dl::settings::{Popup, UiAction};
use octo_dl::verification::VerificationTarget;
use tokio_util::sync::CancellationToken;

#[derive(Clone, Debug, PartialEq, Eq)]
struct SavedUrl {
    url: String,
    error: Option<String>,
}

#[derive(Clone, Debug, PartialEq, Eq)]
struct SavedPackage {
    key: String,
    display_name: String,
}

#[derive(Clone, Debug, PartialEq, Eq)]
struct SavedFile {
    id: String,
    path: String,
    visible_completed_bytes: u64,
    downloaded_network_bytes: u64,
}

/// A session as it is saved.
#[derive(Clone, Debug, PartialEq, Eq, Default)]
struct Saved {
    urls: Vec<SavedUrl>,
    packages: Vec<SavedPackage>,
    files: Vec<SavedFile>,
}

/// An application with everything that its steps reach.
struct World {
    app: App,
    tokens: HashMap<String, CancellationToken>,
    sent: Vec<DownloadRequest>,
    session: Option<Saved>,
    latest: Option<Saved>,
    deferred: DeferredPersistence<Saved>,
    session_persists: usize,
    snapshots: usize,
    visible: Deferral,
    pending: Deferral,
    visible_syncs: usize,
    login_begun: usize,
    tasks_started: usize,
}

fn change_of(session: &Saved) -> PendingSessionPersistence<Saved> {
    match session_write(session.urls.len(), session.packages.len()) {
        SessionWrite::Save => PendingSessionPersistence::Save(session.clone()),
        SessionWrite::Remove => PendingSessionPersistence::Remove("session.toml".to_string()),
    }
}

/// Whether the core asks for a save on an event.
fn is_saved(event: &CoreEvent) -> bool {
    !matches!(
        event,
        CoreEvent::FileQueued { .. }
            | CoreEvent::FileStarted { .. }
            | CoreEvent::FileProgress { .. }
            | CoreEvent::FileVerificationProgress { .. }
    )
}

fn package(number: u128) -> PackageId {
    PackageId { raw: number }
}

fn copy_file(file: &FileState) -> FileState {
    FileState {
        id: file.id.clone(),
        package_id: file.package_id,
        source_url: file.source_url.clone(),
        path: file.path.clone(),
        size: file.size,
        lifecycle: match &file.lifecycle {
            FileLifecycle::Planned => FileLifecycle::Planned,
            FileLifecycle::Queued => FileLifecycle::Queued,
            FileLifecycle::Downloading => FileLifecycle::Downloading,
            FileLifecycle::Complete => FileLifecycle::Complete,
            FileLifecycle::Failed { message } => FileLifecycle::Failed {
                message: message.clone(),
            },
        },
        progress: file.progress,
        accounting: file.accounting,
    }
}

impl World {
    fn new() -> World {
        World {
            app: App::new(9723, 0, true),
            tokens: HashMap::new(),
            sent: Vec::new(),
            session: None,
            latest: None,
            deferred: DeferredPersistence::new(),
            session_persists: 0,
            snapshots: 0,
            visible: Deferral::new(),
            pending: Deferral::new(),
            visible_syncs: 0,
            login_begun: 0,
            tasks_started: 0,
        }
    }

    fn file(&self, id: &str) -> &FileState {
        self.app.core_state.get_file(id).expect("file should be known")
    }

    fn visible(&self, id: &str) -> &FileEntry {
        self.app
            .visible_file(&id.to_string())
            .expect("file should be visible")
    }

    fn edit(&mut self, id: &str, change: impl FnOnce(&mut FileState)) {
        if let Some(at) = self.app.core_state.files.find(id) {
            let mut file = copy_file(self.app.core_state.files.value(at));
            change(&mut file);
            let _ = self.app.core_state.files.replace(at, file);
        }
    }

    fn progress(&mut self, id: &str, change: impl FnOnce(&mut FileProgressState)) {
        self.edit(id, |file| {
            change(&mut file.progress);
            let bytes = file.progress.visible_completed_bytes.min(file.size);
            file.progress.visible_completed_bytes = bytes;
            file.progress.displayed_bytes = bytes;
        });
    }

    /// What the core makes of an event, and what it asks for.
    fn reduce(&mut self, event: &CoreEvent) -> Vec<CoreEffect> {
        match event {
            CoreEvent::PackageResolved { package } => {
                let id = package.id.unwrap_or(PackageId {
                    raw: package.key.len() as u128,
                });
                if !self.app.core_state.packages.iter().any(|known| known.id == id) {
                    self.app.core_state.packages.push(PackageState {
                        id,
                        key: package.key.clone(),
                        display_name: package.display_name.clone(),
                        error: None,
                        status: PackageStatus::Queued,
                    });
                }
                if !self.app.core_state.url_order.contains(&package.source_url) {
                    self.app.core_state.url_order.push(package.source_url.clone());
                }
                for file in &package.files {
                    if !self.app.core_state.contains_file(&file.file_id) {
                        self.app.core_state.put_file(FileState {
                            id: file.file_id.clone(),
                            package_id: id,
                            source_url: package.source_url.clone(),
                            path: file.path.clone(),
                            size: file.size,
                            lifecycle: FileLifecycle::Queued,
                            progress: FileProgressState {
                                visible_completed_bytes: 0,
                                verified_existing_bytes: 0,
                                downloaded_network_bytes: 0,
                                displayed_bytes: 0,
                            },
                            accounting: FileAccounting::CurrentRun,
                        });
                    }
                }
            }
            CoreEvent::UrlResolved { url } => {
                let known = (0..self.app.core_state.files.len())
                    .any(|at| self.app.core_state.files.value(at).source_url == *url);
                if !known {
                    self.app.core_state.url_order.retain(|kept| kept != url);
                }
            }
            CoreEvent::FileQueued { file_id } | CoreEvent::FileCancelled { file_id } => {
                self.edit(file_id, |file| {
                    if file.lifecycle != FileLifecycle::Complete {
                        file.lifecycle = FileLifecycle::Queued;
                    }
                });
            }
            CoreEvent::FileStarted { file_id, .. } | CoreEvent::FileResumeStarted { file_id, .. } => {
                self.edit(file_id, |file| {
                    if file.lifecycle != FileLifecycle::Complete {
                        file.lifecycle = FileLifecycle::Downloading;
                    }
                });
            }
            CoreEvent::FileProgress {
                file_id,
                total_bytes_delta,
                network_bytes_delta,
            } => self.progress(file_id, |progress| {
                progress.visible_completed_bytes += total_bytes_delta;
                progress.downloaded_network_bytes += network_bytes_delta;
            }),
            CoreEvent::FileReuseDetected {
                file_id,
                reused_bytes,
                ..
            } => self.progress(file_id, |progress| {
                progress.verified_existing_bytes = *reused_bytes;
                progress.visible_completed_bytes =
                    progress.visible_completed_bytes.max(*reused_bytes);
            }),
            CoreEvent::FileResumeReverified {
                file_id,
                verified_bytes,
                ..
            } => self.progress(file_id, |progress| {
                progress.verified_existing_bytes = *verified_bytes;
                progress.visible_completed_bytes = *verified_bytes;
            }),
            CoreEvent::FileVerificationStarted { file_id } => {
                self.edit(file_id, |file| file.lifecycle = FileLifecycle::Queued);
                self.progress(file_id, |progress| progress.visible_completed_bytes = 0);
            }
            CoreEvent::FileVerificationProgress {
                file_id,
                bytes_delta,
            } => self.progress(file_id, |progress| {
                progress.visible_completed_bytes += bytes_delta;
            }),
            CoreEvent::FileCompleted { file_id } | CoreEvent::FileVerificationCompleted { file_id } => {
                self.edit(file_id, |file| file.lifecycle = FileLifecycle::Complete);
            }
            CoreEvent::FileFailed { file_id, message } => {
                self.edit(file_id, |file| {
                    file.lifecycle = FileLifecycle::Failed {
                        message: message.clone(),
                    };
                });
            }
            CoreEvent::FileDeleted { file_id } => {
                self.app.core_state.files.remove(file_id);
            }
            CoreEvent::PackageDeleted { package_id } => {
                let mut at = 0;
                while at < self.app.core_state.files.len() {
                    if self.app.core_state.files.value(at).package_id == *package_id {
                        let source = self.app.core_state.files.value(at).source_url.clone();
                        self.app.core_state.url_order.retain(|url| *url != source);
                        let key = self.app.core_state.files.key(at);
                        self.app.core_state.files.remove(&key);
                    } else {
                        at += 1;
                    }
                }
                self.app.core_state.packages.retain(|kept| kept.id != *package_id);
            }
            CoreEvent::FileRetryRequested { file_id } => {
                self.edit(file_id, |file| file.lifecycle = FileLifecycle::Queued);
                return vec![CoreEffect::EnqueueFileDownload {
                    file_id: file_id.clone(),
                }];
            }
            CoreEvent::FileResetRequested { file_id } => {
                self.edit(file_id, |file| file.lifecycle = FileLifecycle::Queued);
                self.progress(file_id, |progress| progress.visible_completed_bytes = 0);
                return vec![CoreEffect::EnqueueFileDownload {
                    file_id: file_id.clone(),
                }];
            }
            _ => {}
        }
        Vec::new()
    }

    fn command(&mut self, command: CoreCommand) -> (CoreEvent, Vec<CoreEffect>) {
        let event = match command {
            CoreCommand::SubmitUrl { url } => {
                if !self.app.core_state.url_order.contains(&url) {
                    self.app.core_state.url_order.push(url.clone());
                }
                return (
                    CoreEvent::Tick,
                    vec![CoreEffect::EnqueueUrlResolution { url }],
                );
            }
            CoreCommand::DeleteFile { file_id } => CoreEvent::FileDeleted { file_id },
            CoreCommand::DeletePackage { package_id } => CoreEvent::PackageDeleted { package_id },
            CoreCommand::RetryFile { file_id } => CoreEvent::FileRetryRequested { file_id },
            CoreCommand::ResetFile { file_id } => CoreEvent::FileResetRequested { file_id },
            CoreCommand::MoveFile { file_id, delta } => {
                CoreEvent::FileMoveRequested { file_id, delta }
            }
            CoreCommand::MovePackage { package_id, delta } => {
                CoreEvent::PackageMoveRequested { package_id, delta }
            }
        };
        let effects = self.reduce(&event);
        (event, effects)
    }

    fn pending_ids(&self) -> Vec<String> {
        let files = &self.app.core_state.files;
        (0..files.len())
            .filter(|at| files.value(*at).lifecycle == FileLifecycle::Queued)
            .map(|at| files.key(at))
            .collect()
    }

    fn apply_effects(&mut self, effects: Vec<CoreEffect>, sync_pending: bool) {
        let pending = if sync_pending {
            self.pending_ids()
        } else {
            Vec::new()
        };
        let actions = apply_core_effects(
            &effects,
            &self.app.core_state,
            &self.app.tracking.file_attempt_ids,
            sync_pending,
            self.app.download_task_running,
            &pending,
        );
        for action in actions {
            match action {
                EffectAction::Send(request) => self.sent.push(request),
                EffectAction::SetStatus(status) => self.app.status = status,
                EffectAction::Persist => self.persist_core_state(),
                EffectAction::DeleteOutput { .. } | EffectAction::DeleteResume { .. } => {}
            }
        }
    }

    fn snapshot(&mut self) -> Saved {
        self.snapshots += 1;
        let known = self.session.clone().unwrap_or_default();
        let files = &self.app.core_state.files;
        Saved {
            urls: self
                .app
                .core_state
                .url_order
                .iter()
                .map(|url| SavedUrl {
                    url: url.clone(),
                    error: known
                        .urls
                        .iter()
                        .find(|entry| entry.url == *url)
                        .and_then(|entry| entry.error.clone()),
                })
                .collect(),
            packages: self
                .app
                .core_state
                .packages
                .iter()
                .map(|package| SavedPackage {
                    key: package.key.clone(),
                    display_name: package.display_name.clone(),
                })
                .collect(),
            files: (0..files.len())
                .map(|at| files.value(at))
                .map(|file| SavedFile {
                    id: file.id.clone(),
                    path: file.path.clone(),
                    visible_completed_bytes: file.progress.visible_completed_bytes,
                    downloaded_network_bytes: file.progress.downloaded_network_bytes,
                })
                .collect(),
        }
    }

    fn carry_out(&mut self, change: PendingSessionPersistence<Saved>) {
        self.session_persists += 1;
        self.latest = match change {
            PendingSessionPersistence::Save(session) => Some(session),
            PendingSessionPersistence::Remove(_) => None,
        };
    }

    fn persist_session(&mut self, session: Saved) {
        let _ = self.deferred.begin_change();
        let change = change_of(&session);
        self.session = Some(session);
        if let Some(change) = self.deferred.put_off(change) {
            self.carry_out(change);
        }
    }

    fn persist_core_state(&mut self) {
        if self.deferred.want_core_state() {
            let session = self.snapshot();
            self.persist_session(session);
        }
    }

    fn has_session(&self) -> bool {
        self.session.is_some() || self.deferred.core_state
    }

    fn mutate_session(&mut self, change: impl FnOnce(&mut Saved)) {
        if self.deferred.begin_change() {
            let session = self.snapshot();
            self.persist_session(session);
        }
        if let Some(mut session) = self.session.clone() {
            change(&mut session);
            self.persist_session(session);
        }
    }

    fn session_urls(&self) -> Vec<String> {
        self.session.as_ref().map_or_else(Vec::new, |session| {
            session.urls.iter().map(|entry| entry.url.clone()).collect()
        })
    }

    fn hold_session_url(&mut self, url: &str) {
        self.session.get_or_insert_with(Saved::default).urls.push(SavedUrl {
            url: url.to_string(),
            error: None,
        });
    }

    /// Saves what is left of the session.
    fn finish(&mut self) {
        if self.app.refreshes_session(self.has_session()) {
            self.persist_core_state();
        }
        let shown = self.app.visible_ids();
        self.mutate_session(|session| session.files.retain(|file| shown.contains(&file.id)));
    }

    fn recount(&mut self) {
        let mut totals = RunTotals {
            run_total_bytes: 0,
            run_completed_bytes: 0,
            run_file_completed: 0,
            run_file_total: 0,
            run_file_downloading: 0,
            displayed_network_bytes: 0,
        };
        for at in 0..self.app.core_state.files.len() {
            let file = self.app.core_state.files.value(at);
            totals.run_total_bytes += file.size;
            totals.run_completed_bytes += file.visible_bytes();
            totals.displayed_network_bytes += file.progress.downloaded_network_bytes;
            totals.run_file_total += 1;
            match file.lifecycle {
                FileLifecycle::Complete => totals.run_file_completed += 1,
                FileLifecycle::Downloading => totals.run_file_downloading += 1,
                _ => {}
            }
        }
        self.app.core_state.totals = totals;
    }

    fn settle(&mut self, policy: CoreApplyPolicy, persists: bool, mut effects: Vec<CoreEffect>) {
        self.recount();
        if policy.recompute_totals && persists {
            effects.insert(0, CoreEffect::PersistSession);
        }
        if policy.sync_visible && self.visible.request() {
            self.sync_visible();
        }
        let sync = policy.sync_pending && self.pending.request();
        self.apply_effects(effects, sync);
        if policy.recompute_totals {
            self.app.recompute_totals();
        } else {
            self.app.apply_cached_totals();
        }
    }

    fn apply(&mut self, event: CoreEvent) {
        let effects = self.reduce(&event);
        self.settle(CoreApplyPolicy::for_event(&event), is_saved(&event), effects);
    }

    fn sync_visible(&mut self) {
        self.visible_syncs += 1;
        let mut files: Vec<FileEntry> = Vec::new();
        for at in 0..self.app.core_state.files.len() {
            let file = self.app.core_state.files.value(at);
            files.push(FileEntry {
                id: file.id.clone(),
                name: file.path.clone(),
                size: file.size,
                downloaded: file.visible_bytes(),
                status: file.lifecycle.status(),
            });
        }
        for at in 0..self.app.overlay_files.len() {
            let row = self.app.overlay_files.value(at).file();
            if !self.app.core_state.contains_file(&row.id) {
                files.push(row.copy());
            }
        }
        self.app.files = files;
    }

    fn begin_batch(&mut self) {
        self.deferred.begin();
        self.visible.begin();
        self.pending.begin();
    }

    fn end_batch(&mut self) {
        if self.visible.end() {
            self.sync_visible();
        }
        if self.pending.end() {
            self.apply_effects(Vec::new(), true);
        }
        match self.deferred.end(false) {
            SessionFlush::Nothing => {}
            SessionFlush::CoreState => {
                let session = self.snapshot();
                self.carry_out(change_of(&session));
                self.session = Some(session);
            }
            SessionFlush::Pending(change) => self.carry_out(change),
        }
    }

    fn run(&mut self, steps: Vec<AppStep>) {
        for step in steps {
            self.step(step);
        }
        let kept = &self.app.tracking.cancellation_tokens;
        self.tokens.retain(|id, _| kept.contains(id));
    }

    fn step(&mut self, step: AppStep) {
        match step {
            AppStep::BeginBatch => self.begin_batch(),
            AppStep::EndBatch => self.end_batch(),
            AppStep::Apply(event) => self.apply(event),
            AppStep::ApplyProgress(event) => {
                let effects = self.reduce(&event);
                self.settle(CoreApplyPolicy::for_progress(), false, effects);
            }
            AppStep::Command(command) => {
                let (event, effects) = self.command(command);
                self.settle(CoreApplyPolicy::for_event(&event), is_saved(&event), effects);
            }
            AppStep::EnsureSession => {
                if !self.has_session() {
                    self.persist_session(Saved::default());
                }
            }
            AppStep::SubmitUrl(url) => {
                let steps = self.app.submit_url(url);
                self.run(steps);
            }
            AppStep::RetrySource(url) => {
                let steps = self.app.retry_source_url(url);
                self.run(steps);
            }
            AppStep::QueuePlaceholder(url) => {
                let steps = self.app.queue_url_placeholder(url);
                self.run(steps);
            }
            AppStep::RetryFile(id) => {
                let steps = self.app.perform_retry_file_action(&id);
                self.run(steps);
            }
            AppStep::ResetFile(id) => {
                let steps = self.app.perform_reset_file_action(&id);
                self.run(steps);
            }
            AppStep::SettleFile {
                file_id,
                source_url,
                size,
                counted,
            } => {
                let accounting = if counted {
                    FileAccounting::CurrentRun
                } else {
                    FileAccounting::Preexisting
                };
                self.app.settle_core_file(&file_id, source_url, size, accounting);
                self.recount();
            }
            AppStep::RefreshFile(id) => {
                self.app.refresh_visible_core_file(&id);
            }
            AppStep::RefreshProgress(id) => {
                self.app.refresh_visible_progress_file(&id);
            }
            AppStep::ResetRate(_) | AppStep::ResetAggregateRate | AppStep::ForgetUi(_) => {}
            AppStep::ForgetRow(id) => {
                let steps = self.app.forget_visible_file(&id);
                self.run(steps);
            }
            AppStep::DropOverlay(id) => {
                self.app.overlay_files.remove(&id);
            }
            AppStep::ShowError { id, notice } => {
                let steps = self.app.show_overlay_error(&id, id.clone(), notice.text());
                self.run(steps);
            }
            AppStep::ShowErrorIfUnknown { id, notice } => {
                if !self.app.core_state.contains_file(&id) {
                    let steps = self.app.show_overlay_error(&id, id.clone(), notice.text());
                    self.run(steps);
                }
            }
            AppStep::SyncVisible => {
                if self.visible.request() {
                    self.sync_visible();
                }
            }
            AppStep::RecomputeTotals => self.app.recompute_totals(),
            AppStep::UpdateStatus => self.app.update_download_status_message(),
            AppStep::SetStatus(status) => {
                let size = match &status {
                    Status::Collected { total_bytes, .. } => format!("{total_bytes} B"),
                    Status::Reusing { bytes, .. } | Status::Verified { bytes, .. } => {
                        format!("{bytes} B")
                    }
                    _ => String::new(),
                };
                self.app.status = status.text(&size);
            }
            AppStep::CancelToken(id) => {
                if let Some(token) = self.tokens.get(&id) {
                    token.cancel();
                }
            }
            AppStep::BroadcastPause(_) => {}
            AppStep::Send(request) => self.sent.push(request),
            AppStep::RemoveSessionUrl(url) => {
                self.mutate_session(|session| session.urls.retain(|kept| kept.url != url));
            }
            AppStep::RemoveSessionFile(id) => {
                self.mutate_session(|session| session.files.retain(|kept| kept.id != id));
            }
            AppStep::RemovePackage(id) => {
                let packages = &self.app.core_state.packages;
                let keys: Vec<String> = packages
                    .iter()
                    .filter(|package| package.id == id)
                    .map(|package| package.key.clone())
                    .collect();
                self.app.core_state.url_order.retain(|url| !keys.contains(url));
                self.app.core_state.packages.retain(|package| package.id != id);
                self.mutate_session(|session| {
                    session.urls.retain(|entry| !keys.contains(&entry.url));
                    session.packages.retain(|package| !keys.contains(&package.key));
                });
            }
            AppStep::BeginLogin => self.login_begun += 1,
            AppStep::PersistLogin { .. } => {}
            AppStep::StartDownloadTask => self.tasks_started += 1,
            AppStep::Operation(_) => {}
        }
    }

    fn event(&mut self, event: DownloadEvent) {
        let steps = self.app.handle_download_event(event);
        self.run(steps);
    }

    fn action(&mut self, action: UiAction) {
        let urls = self.session_urls();
        let steps = self.app.handle_ui_action(action, &urls);
        self.run(steps);
    }

    fn drain(&mut self, events: Vec<DownloadEvent>) -> (bool, Vec<DownloadEvent>) {
        let mut drain = EventDrain::new();
        let mut waiting: std::collections::VecDeque<DownloadEvent> = events.into();
        self.begin_batch();
        while drain.wants_more() {
            let Some(event) = waiting.pop_front() else {
                break;
            };
            for event in drain.take(event) {
                self.event(event);
            }
        }
        for event in drain.flush() {
            self.event(event);
        }
        self.end_batch();
        (drain.taken > 0, waiting.into_iter().collect())
    }

    fn token(&mut self, id: &str, attempt_id: u64, token: &CancellationToken) {
        let decision = self.app.handle_token_message(id.to_string(), attempt_id);
        if decision.cancel {
            token.cancel();
        }
        if decision.keep {
            self.tokens.insert(id.to_string(), token.clone());
        }
    }

    fn hold_token(&mut self, id: &str) -> CancellationToken {
        let token = CancellationToken::new();
        self.app.tracking.cancellation_tokens.insert(id.to_string());
        self.tokens.insert(id.to_string(), token.clone());
        token
    }

    fn begin_shutdown(&mut self) -> bool {
        let (steps, waiting) = self.app.begin_shutdown();
        self.run(steps);
        waiting
    }
}

fn resolved(id: PackageId, source_url: &str, files: &[(&str, u64)]) -> CoreEvent {
    CoreEvent::PackageResolved {
        package: ResolvedPackage {
            id: Some(id),
            source_url: source_url.to_string(),
            key: source_url.to_string(),
            display_name: source_url.to_string(),
            files: files
                .iter()
                .map(|(path, size)| ResolvedFile {
                    file_id: path.to_string(),
                    path: path.to_string(),
                    size: *size,
                })
                .collect(),
        },
    }
}

fn resolve_package(world: &mut World, source_url: &str, files: &[(&str, u64)]) -> PackageId {
    let id = package(1);
    world.apply(resolved(id, source_url, files));
    id
}

fn started(id: &str, size: u64) -> CoreEvent {
    CoreEvent::FileStarted {
        file_id: id.to_string(),
        size,
    }
}

fn progressed(id: &str, bytes: u64) -> CoreEvent {
    CoreEvent::FileProgress {
        file_id: id.to_string(),
        total_bytes_delta: bytes,
        network_bytes_delta: bytes,
    }
}

fn mark_verification_inflight(world: &mut World, id: &str) -> String {
    let file_id = id.to_string();
    let tracking = &mut world.app.tracking;
    tracking.verifying_files.insert(file_id.clone());
    tracking.verification_inflight_files.insert(file_id.clone());
    tracking
        .verification_targets
        .insert(file_id.clone(), VerificationTarget::Resume);
    world.apply(CoreEvent::FileVerificationStarted {
        file_id: file_id.clone(),
    });
    file_id
}

fn world_with_file(id: &str, size: u64) -> World {
    let mut world = World::new();
    resolve_package(&mut world, "https://mega.nz/file/root", &[(id, size)]);
    world
}

fn assert_not_verifying(world: &World, id: &str) {
    assert!(!world.app.tracking.verifying_files.contains(id));
    assert!(!world.app.tracking.verification_inflight_files.contains(id));
}

fn delta(bytes: u64) -> ProgressDelta {
    ProgressDelta {
        total_bytes_delta: bytes,
        network_bytes_delta: bytes,
    }
}

#[test]
fn verification_progress_is_ignored_for_skipped_file() {
    let mut world = world_with_file("file.bin", 100);
    world.app.tracking.verifying_files.insert("file.bin".to_string());
    world.apply(CoreEvent::FileVerificationStarted {
        file_id: "file.bin".to_string(),
    });

    let steps = world.app.handle_verification_progress_event("file.bin".to_string(), 45);
    world.run(steps);

    assert_eq!(world.file("file.bin").progress.visible_completed_bytes, 0);
    assert_eq!(world.visible("file.bin").downloaded, 0);
}

#[test]
fn verification_skipped_clears_resume_verification_state() {
    let mut world = world_with_file("file.bin", 100);
    let file_id = mark_verification_inflight(&mut world, "file.bin");

    let steps = world.app.handle_verification_skipped_event(file_id.clone(), false);
    world.run(steps);

    assert_not_verifying(&world, &file_id);
    assert_eq!(world.file(&file_id).progress.visible_completed_bytes, 0);
    assert_eq!(world.visible(&file_id).downloaded, 0);
}

#[test]
fn verification_skipped_restores_completed_file_lifecycle() {
    let mut world = world_with_file("file.bin", 100);
    let file_id = "file.bin".to_string();
    world.apply(CoreEvent::FileCompleted {
        file_id: file_id.clone(),
    });
    world.app.tracking.verifying_files.insert(file_id.clone());
    world.app.tracking.verification_inflight_files.insert(file_id.clone());
    world
        .app
        .tracking
        .verification_targets
        .insert(file_id.clone(), VerificationTarget::Completed);
    world.apply(CoreEvent::FileVerificationStarted {
        file_id: file_id.clone(),
    });

    let steps = world.app.handle_verification_skipped_event(file_id.clone(), true);
    world.run(steps);

    assert_not_verifying(&world, &file_id);
    assert_eq!(world.file(&file_id).lifecycle, FileLifecycle::Complete);
    assert_eq!(world.visible(&file_id).status, FileStatus::Complete);
}

#[test]
fn verification_skipped_ignores_late_progress() {
    let mut world = world_with_file("file.bin", 100);
    let file_id = mark_verification_inflight(&mut world, "file.bin");

    let steps = world.app.handle_verification_skipped_event(file_id.clone(), false);
    world.run(steps);
    let steps = world.app.handle_verification_progress_event(file_id.clone(), 90);
    world.run(steps);

    assert_not_verifying(&world, &file_id);
    assert_eq!(world.file(&file_id).progress.visible_completed_bytes, 0);
    assert_eq!(world.visible(&file_id).downloaded, 0);
}

#[test]
fn file_error_clears_verification_state() {
    let mut world = world_with_file("file.bin", 100);
    let file_id = mark_verification_inflight(&mut world, "file.bin");
    let token = world.hold_token(&file_id);
    world.app.tracking.track_shutdown_pending_file(&file_id);

    let steps = world
        .app
        .handle_file_error_event(file_id.clone(), "network failed".to_string(), 0);
    world.run(steps);

    assert_not_verifying(&world, &file_id);
    assert!(!world.app.tracking.cancellation_tokens.contains(&file_id));
    assert!(!world.app.tracking.shutdown_pending_files.contains(&file_id));
    assert!(!token.is_cancelled());
    assert!(matches!(
        world.file(&file_id).lifecycle,
        FileLifecycle::Failed { .. }
    ));
}

#[test]
fn file_cancelled_clears_verification_state() {
    let mut world = world_with_file("file.bin", 100);
    let file_id = mark_verification_inflight(&mut world, "file.bin");

    let steps = world.app.handle_file_cancelled_event(file_id.clone(), 0);
    world.run(steps);

    assert_not_verifying(&world, &file_id);
    assert_eq!(world.file(&file_id).lifecycle, FileLifecycle::Queued);
}

#[test]
fn file_complete_clears_verification_state() {
    let mut world = world_with_file("file.bin", 100);
    let file_id = mark_verification_inflight(&mut world, "file.bin");
    let token = world.hold_token(&file_id);
    world.app.tracking.track_shutdown_pending_file(&file_id);

    let steps = world.app.handle_file_complete_event(file_id.clone(), 0);
    world.run(steps);

    assert_not_verifying(&world, &file_id);
    assert!(!world.app.tracking.cancellation_tokens.contains(&file_id));
    assert!(!world.app.tracking.shutdown_pending_files.contains(&file_id));
    assert!(!token.is_cancelled());
    assert_eq!(world.file(&file_id).lifecycle, FileLifecycle::Complete);
}

#[test]
fn file_start_clears_verification_state_and_pending_reverify() {
    let mut world = world_with_file("file.bin", 100);
    let file_id = mark_verification_inflight(&mut world, "file.bin");
    world.app.tracking.reverify_pending_files.insert(file_id.clone());

    let steps = world.app.handle_file_start_event(file_id.clone(), 100, 0);
    world.run(steps);

    assert_not_verifying(&world, &file_id);
    assert!(!world.app.tracking.reverify_pending_files.contains(&file_id));
    assert_eq!(world.file(&file_id).lifecycle, FileLifecycle::Downloading);
}

#[test]
fn resume_reverified_without_pending_resume_finishes_verification_state() {
    let mut world = world_with_file("file.bin", 100);
    let file_id = mark_verification_inflight(&mut world, "file.bin");

    let steps = world.app.handle_resume_reverified_event(file_id.clone(), 1, 64);
    world.run(steps);

    assert_not_verifying(&world, &file_id);
    assert_eq!(world.file(&file_id).progress.verified_existing_bytes, 64);
}

#[test]
fn retry_file_clears_verification_state() {
    let mut world = world_with_file("file.bin", 100);
    let file_id = mark_verification_inflight(&mut world, "file.bin");
    world.app.tracking.reverify_pending_files.insert(file_id.clone());

    let steps = world.app.perform_retry_file_action(&file_id);
    world.run(steps);

    assert_not_verifying(&world, &file_id);
    assert!(!world.app.tracking.reverify_pending_files.contains(&file_id));
}

#[test]
fn reset_file_clears_verification_state() {
    let mut world = world_with_file("file.bin", 100);
    let file_id = mark_verification_inflight(&mut world, "file.bin");
    world.app.tracking.reverify_pending_files.insert(file_id.clone());

    let steps = world.app.perform_reset_file_action(&file_id);
    world.run(steps);

    assert_not_verifying(&world, &file_id);
    assert!(!world.app.tracking.reverify_pending_files.contains(&file_id));
    assert!(world.app.tracking.reset_pending_files.contains(&file_id));
}

#[test]
fn delete_file_clears_verification_state() {
    let mut world = world_with_file("file.bin", 100);
    let file_id = mark_verification_inflight(&mut world, "file.bin");
    world.app.tracking.reverify_pending_files.insert(file_id.clone());

    let steps = world.app.perform_delete_file_action(&file_id);
    world.run(steps);

    assert_not_verifying(&world, &file_id);
    assert!(!world.app.tracking.reverify_pending_files.contains(&file_id));
}

#[test]
fn delete_package_clears_verification_state_for_all_files() {
    let mut world = World::new();
    let package_id = resolve_package(
        &mut world,
        "https://mega.nz/folder/root",
        &[("one.bin", 100), ("two.bin", 100)],
    );
    let one = mark_verification_inflight(&mut world, "one.bin");
    let two = mark_verification_inflight(&mut world, "two.bin");
    world.app.tracking.reverify_pending_files.insert(one.clone());
    world.app.tracking.reverify_pending_files.insert(two.clone());

    let steps = world.app.perform_delete_package_action(package_id);
    world.run(steps);

    for file_id in [one, two] {
        assert_not_verifying(&world, &file_id);
        assert!(!world.app.tracking.reverify_pending_files.contains(&file_id));
    }
}

#[test]
fn delete_package_clears_shutdown_pending_state_for_all_files() {
    let mut world = World::new();
    let package_id = resolve_package(
        &mut world,
        "https://mega.nz/folder/root",
        &[("one.bin", 100), ("two.bin", 100)],
    );
    world.app.tracking.track_shutdown_pending_file(&"one.bin".to_string());
    world.app.tracking.track_shutdown_pending_file(&"two.bin".to_string());

    let steps = world.app.perform_delete_package_action(package_id);
    world.run(steps);

    for file_id in ["one.bin", "two.bin"] {
        assert!(!world.app.tracking.shutdown_pending_files.contains(file_id));
    }
}

#[test]
fn reverify_package_with_only_never_started_files_is_noop() {
    let mut world = World::new();
    let package_id = resolve_package(
        &mut world,
        "https://mega.nz/folder/root",
        &[("one.bin", 100), ("two.bin", 100)],
    );

    let steps = world.app.perform_reverify_package_action(package_id);
    world.run(steps);

    assert!(world.app.tracking.verifying_files.is_empty());
    assert!(world.app.tracking.verification_inflight_files.is_empty());
    assert!(world.sent.is_empty());
    assert_eq!(
        world.app.status,
        "No package file(s) have resume data to verify"
    );
}

#[test]
fn reverify_package_clears_stale_verify_state_for_never_started_files() {
    let mut world = World::new();
    let package_id = resolve_package(
        &mut world,
        "https://mega.nz/folder/root",
        &[("one.bin", 100), ("two.bin", 100)],
    );
    for file_id in ["one.bin", "two.bin"] {
        world.app.tracking.verifying_files.insert(file_id.to_string());
        world
            .app
            .tracking
            .verification_inflight_files
            .insert(file_id.to_string());
    }

    let steps = world.app.perform_reverify_package_action(package_id);
    world.run(steps);

    for file_id in ["one.bin", "two.bin"] {
        assert_not_verifying(&world, file_id);
        assert_eq!(world.visible(file_id).status, FileStatus::Queued);
        assert_eq!(world.visible(file_id).downloaded, 0);
    }
    assert!(world.sent.is_empty());
    assert_eq!(
        world.app.status,
        "No package file(s) have resume data to verify"
    );
}

#[test]
fn verification_progress_requires_explicit_target() {
    let mut world = world_with_file("file.bin", 100);
    let file_id = "file.bin".to_string();
    world.app.tracking.verifying_files.insert(file_id.clone());
    world.app.tracking.verification_inflight_files.insert(file_id.clone());
    world.apply(CoreEvent::FileVerificationStarted {
        file_id: file_id.clone(),
    });

    let steps = world.app.handle_verification_progress_event(file_id.clone(), 75);
    world.run(steps);

    assert_eq!(world.file(&file_id).progress.visible_completed_bytes, 0);
    assert_eq!(world.visible(&file_id).downloaded, 0);
}

#[test]
fn reverify_package_includes_failed_file_with_partial_progress() {
    let mut world = World::new();
    let source_url = "https://mega.nz/folder/root";
    let package_id = resolve_package(&mut world, source_url, &[("failed.bin", 100)]);
    world.apply(started("failed.bin", 100));
    world.apply(progressed("failed.bin", 25));
    world.apply(CoreEvent::FileFailed {
        file_id: "failed.bin".to_string(),
        message: "boom".to_string(),
    });

    let steps = world.app.perform_reverify_package_action(package_id);
    world.run(steps);

    assert!(world.app.tracking.verifying_files.contains("failed.bin"));
    assert!(world
        .app
        .tracking
        .verification_inflight_files
        .contains("failed.bin"));
    assert_eq!(
        world.sent,
        vec![DownloadRequest::ReverifyFileIds {
            source_url: source_url.to_string(),
            file_ids: vec!["failed.bin".to_string()],
        }]
    );
}

fn world_with_active_file() -> World {
    let mut world = world_with_file("active.bin", 100);
    world.apply(started("active.bin", 100));
    world.apply(progressed("active.bin", 47));
    world.sync_visible();
    world
}

#[test]
fn reverify_active_file_bumps_attempt_generation() {
    let mut world = world_with_active_file();
    let file_id = "active.bin".to_string();

    let steps = world.app.perform_reverify_file_action(&file_id);
    world.run(steps);

    assert_eq!(world.app.tracking.file_attempt_ids.get(&file_id), Some(&1));
    assert!(world.app.tracking.verifying_files.contains(&file_id));
    assert_eq!(
        world.sent,
        vec![DownloadRequest::ReverifyFileIds {
            source_url: "https://mega.nz/file/root".to_string(),
            file_ids: vec![file_id],
        }]
    );
}

#[test]
fn stale_old_attempt_progress_is_ignored_during_alt_r_reverify() {
    let mut world = world_with_active_file();
    let file_id = "active.bin".to_string();

    let steps = world.app.perform_reverify_file_action(&file_id);
    world.run(steps);
    world.event(DownloadEvent::Progress {
        id: file_id.clone(),
        delta: delta(5),
        attempt_id: 0,
    });

    assert_eq!(world.visible(&file_id).downloaded, 0);
    assert!(world.app.tracking.verifying_files.contains(&file_id));
    assert!(world
        .app
        .tracking
        .verification_inflight_files
        .contains(&file_id));
    assert_eq!(
        world.app.tracking.file_attempt_ids.get(&file_id),
        Some(&1),
        "stale old-attempt events must no longer match after Alt-R on an active file"
    );
}

#[test]
fn stale_old_attempt_cancel_is_ignored_after_alt_r_resume() {
    let mut world = world_with_active_file();
    let file_id = "active.bin".to_string();

    let steps = world.app.perform_reverify_file_action(&file_id);
    world.run(steps);
    world.event(DownloadEvent::ResumeReverified {
        id: file_id.clone(),
        chunks: 1,
        bytes: 47,
    });
    world.event(DownloadEvent::FileStart {
        id: file_id.clone(),
        size: 100,
        attempt_id: 1,
    });
    world.event(DownloadEvent::FileCancelled {
        id: file_id.clone(),
        attempt_id: 0,
    });

    assert_eq!(world.visible(&file_id).downloaded, 47);
    assert_eq!(world.visible(&file_id).status, FileStatus::Downloading);
}

#[test]
fn verification_progress_is_ignored_after_verification_finishes() {
    let mut world = world_with_file("file.bin", 100);
    world.sync_visible();

    let steps = world.app.handle_verification_progress_event("file.bin".to_string(), 45);
    world.run(steps);

    assert_eq!(world.file("file.bin").progress.visible_completed_bytes, 0);
    assert_eq!(world.visible("file.bin").downloaded, 0);
}

#[test]
fn visible_file_context_prefers_core_state_over_stale_visible_row() {
    let mut world = World::new();
    world.apply(CoreEvent::PackageResolved {
        package: ResolvedPackage {
            id: Some(package(1)),
            source_url: "https://mega.nz/file/root".to_string(),
            key: "https://mega.nz/file/root".to_string(),
            display_name: "Package".to_string(),
            files: vec![ResolvedFile {
                file_id: "file.bin".to_string(),
                path: "fresh.bin".to_string(),
                size: 321,
            }],
        },
    });
    world.app.files[0].name = "stale.bin".to_string();
    world.app.files[0].size = 999;
    world.app.files[0].status = FileStatus::Error("stale".to_string());

    let context = world
        .app
        .visible_file_context(&"file.bin".to_string())
        .expect("context should exist");

    assert_eq!(context.artifact_path, "fresh.bin");
    assert_eq!(context.size, 321);
    assert!(matches!(context.status, FileStatus::Queued));
    assert_eq!(
        context.source_url.as_deref(),
        Some("https://mega.nz/file/root")
    );
}

#[test]
fn progress_event_updates_visible_file_without_full_visible_sync() {
    let mut world = world_with_file("file.bin", 100);
    world.apply(started("file.bin", 100));
    let syncs = world.visible_syncs;

    let steps = world.app.handle_file_progress_event("file.bin".to_string(), delta(40), 0);
    world.run(steps);

    assert_eq!(world.visible("file.bin").downloaded, 40);
    assert!(matches!(
        world.visible("file.bin").status,
        FileStatus::Downloading
    ));
    assert_eq!(world.visible_syncs, syncs);
}

#[test]
fn sync_visible_files_rebuilds_visible_file_positions_for_core_rows() {
    let mut world = world_with_file("file.bin", 100);
    world.apply(started("file.bin", 100));

    assert_eq!(world.app.row_of(&"file.bin".to_string()), Some(0));

    let steps = world.app.handle_file_progress_event("file.bin".to_string(), delta(25), 0);
    world.run(steps);

    assert_eq!(world.app.row_of(&"file.bin".to_string()), Some(0));
    assert_eq!(world.app.files[0].downloaded, 25);
}

#[test]
fn verification_progress_updates_visible_file_without_network_rate() {
    let mut world = world_with_file("file.bin", 100);
    let file_id = "file.bin".to_string();
    world.apply(CoreEvent::FileCompleted {
        file_id: file_id.clone(),
    });
    world.app.tracking.verifying_files.insert(file_id.clone());
    world.app.tracking.verification_inflight_files.insert(file_id.clone());
    world
        .app
        .tracking
        .verification_targets
        .insert(file_id.clone(), VerificationTarget::Completed);
    world.apply(CoreEvent::FileVerificationStarted {
        file_id: file_id.clone(),
    });
    world.app.refresh_visible_core_file(&file_id);

    let steps = world.app.handle_verification_progress_event(file_id.clone(), 45);
    world.run(steps);

    assert_eq!(world.visible(&file_id).downloaded, 45);
    assert!(world.app.tracking.verifying_files.contains(&file_id));
    assert_eq!(world.file(&file_id).progress.downloaded_network_bytes, 0);
}

#[test]
fn completed_file_verified_preserves_existing_complete_lifecycle() {
    let mut world = world_with_file("file.bin", 100);
    let file_id = "file.bin".to_string();
    world.apply(CoreEvent::FileCompleted {
        file_id: file_id.clone(),
    });
    world.app.tracking.verifying_files.insert(file_id.clone());
    world.app.tracking.verification_inflight_files.insert(file_id.clone());
    world
        .app
        .tracking
        .verification_targets
        .insert(file_id.clone(), VerificationTarget::Completed);
    world.apply(CoreEvent::FileVerificationStarted {
        file_id: file_id.clone(),
    });
    world.app.refresh_visible_core_file(&file_id);
    assert_eq!(world.file(&file_id).lifecycle, FileLifecycle::Queued);

    let steps = world.app.handle_completed_file_verified_event(file_id.clone(), 100);
    world.run(steps);

    assert!(!world.app.tracking.verifying_files.contains(&file_id));
    assert_eq!(world.file(&file_id).lifecycle, FileLifecycle::Complete);
    assert_eq!(world.visible(&file_id).status, FileStatus::Complete);
    assert_eq!(world.app.status, "Verified file.bin: 100 B");
}

fn queued_file(id: &str, size: u64, source_url: &str, submitted_url: &str) -> QueuedFile {
    QueuedFile {
        id: id.to_string(),
        attempt_id: 0,
        size,
        accounting: FileAccounting::CurrentRun,
        origin: FileOrigin {
            package_id: None,
            package_display_name: None,
            source_url: source_url.to_string(),
            submitted_url: submitted_url.to_string(),
        },
    }
}

#[test]
fn file_queued_does_not_demote_completed_file() {
    let mut world = World::new();
    let source_url = "https://mega.nz/folder/root";
    world.app.core_state.url_order.push(source_url.to_string());
    resolve_package(&mut world, source_url, &[("episode-1.mkv", 128)]);
    world.apply(CoreEvent::FileCompleted {
        file_id: "episode-1.mkv".to_string(),
    });

    world.event(DownloadEvent::FileQueued(queued_file(
        "episode-1.mkv",
        128,
        source_url,
        source_url,
    )));

    assert_eq!(
        world.file("episode-1.mkv").lifecycle,
        FileLifecycle::Complete
    );
}

#[test]
fn file_queued_retires_submitted_url_alias_after_resolution() {
    let mut world = World::new();
    world.app.core_state.url_order.push("bundle.dlc".to_string());
    world.hold_session_url("bundle.dlc");
    let steps = world.app.queue_url_placeholder("bundle.dlc".to_string());
    world.run(steps);

    let mut file = queued_file(
        "episode-1.mkv",
        128,
        "https://mega.nz/folder/resolved",
        "bundle.dlc",
    );
    file.origin.package_id = Some(package(7));
    file.origin.package_display_name = Some("Batch Folder".to_string());
    world.event(DownloadEvent::FileQueued(file));

    assert_eq!(
        world.app.core_state.url_order,
        vec!["https://mega.nz/folder/resolved".to_string()]
    );
    assert!(world.app.overlay_files.find("bundle.dlc").is_none());
    assert_eq!(
        world.session_urls(),
        vec!["https://mega.nz/folder/resolved".to_string()]
    );
}

#[test]
fn file_queued_after_package_delete_is_ignored_when_source_is_untracked() {
    let mut world = World::new();
    let source_url = "https://mega.nz/folder/delete-me";
    let package_id = package(5);

    let steps = world.app.submit_url(source_url.to_string());
    world.run(steps);
    let mut file = queued_file("known.bin", 128, source_url, source_url);
    file.origin.package_id = Some(package_id);
    file.origin.package_display_name = Some("Delete Me".to_string());
    world.event(DownloadEvent::FileQueued(file));
    assert_eq!(world.app.core_state.files.len(), 1);

    world.action(UiAction::DeletePackage(package_id));
    assert_eq!(world.app.core_state.files.len(), 0);
    assert!(world.app.core_state.packages.is_empty());
    assert!(!world.app.core_state.has_tracked_url(source_url));

    let mut file = queued_file("late.bin", 256, source_url, source_url);
    file.origin.package_id = Some(package_id);
    file.origin.package_display_name = Some("Delete Me".to_string());
    world.event(DownloadEvent::FileQueued(file));

    assert!(world.app.files.is_empty());
    assert_eq!(world.app.core_state.files.len(), 0);
    assert!(world.app.core_state.packages.is_empty());
}

#[test]
fn file_queued_clears_stale_error_state() {
    let mut world = World::new();
    world
        .app
        .core_state
        .url_order
        .push("https://mega.nz/folder/root".to_string());
    world.app.files.push(FileEntry {
        id: "file-id".to_string(),
        name: "old-name.mkv".to_string(),
        size: 64,
        downloaded: 17,
        status: FileStatus::Error("stale error".to_string()),
    });

    world.event(DownloadEvent::FileQueued(queued_file(
        "file-id",
        128,
        "https://mega.nz/file/new",
        "https://mega.nz/folder/root",
    )));

    let file = world.visible("file-id");
    assert_eq!(file.name, "file-id");
    assert_eq!(file.size, 128);
    assert_eq!(file.status, FileStatus::Queued);
    assert_eq!(file.downloaded, 0);
    assert_eq!(
        world
            .app
            .visible_file_context(&"file-id".to_string())
            .and_then(|context| context.source_url),
        Some("https://mega.nz/file/new".to_string())
    );
}

#[test]
fn file_queued_bootstraps_and_saves_session() {
    let mut world = World::new();
    let url = "https://mega.nz/file/new";
    let steps = world.app.submit_url(url.to_string());
    world.run(steps);

    world.event(DownloadEvent::FileQueued(queued_file("file-id", 128, url, url)));

    assert_eq!(world.session_urls(), vec![url.to_string()]);
    assert_eq!(world.app.core_state.files.len(), 1);
    assert!(world.app.core_state.contains_file("file-id"));
}

#[test]
fn file_queued_without_explicit_package_id_reuses_existing_package_for_url() {
    let mut world = World::new();
    let url = "https://mega.nz/folder/root";
    world.apply(resolved(package(8), url, &[("episode-1.mkv", 128)]));

    world.event(DownloadEvent::FileQueued(queued_file(
        "episode-1.mkv",
        128,
        url,
        url,
    )));

    assert_eq!(world.file("episode-1.mkv").package_id, package(8));
    assert_eq!(world.app.core_state.packages.len(), 1);
    assert_eq!(world.app.core_state.packages[0].id, package(8));
}

#[test]
fn completed_file_cannot_be_duplicated_by_startup_queue_events() {
    let mut world = World::new();
    let url = "https://mega.nz/file/root";
    world.app.core_state.url_order.push(url.to_string());
    let steps = world.app.upsert_overlay_file(
        FileEntry {
            id: "episode.mkv".to_string(),
            name: "episode.mkv".to_string(),
            size: 128,
            downloaded: 128,
            status: FileStatus::Complete,
        },
        Some(url.to_string()),
    );
    world.run(steps);
    world.app.recompute_totals();

    let mut file = queued_file("episode.mkv", 128, url, url);
    file.accounting = FileAccounting::Preexisting;
    world.event(DownloadEvent::FileQueued(file));
    world.event(DownloadEvent::FileComplete {
        id: "episode.mkv".to_string(),
        attempt_id: 0,
    });

    assert_eq!(world.app.files.len(), 1);
    assert_eq!(world.visible("episode.mkv").status, FileStatus::Complete);
    assert_eq!(world.visible("episode.mkv").downloaded, 128);
    assert_eq!(world.app.files_completed, 1);
    assert_eq!(world.app.files_total, 1);
    assert_eq!(world.app.total_downloaded, 128);
    assert_eq!(world.app.total_size, 128);
}

#[test]
fn cumulative_values_as_deltas_are_capped_at_file_size() {
    let file_size: u64 = 1_000_000;
    let mut world = world_with_file("test.bin", file_size);
    world.event(DownloadEvent::FileStart {
        id: "test.bin".to_string(),
        size: file_size,
        attempt_id: 0,
    });

    for bytes in [100_000u64, 350_000, 700_000, 900_000, 1_000_000] {
        world.event(DownloadEvent::Progress {
            id: "test.bin".to_string(),
            delta: delta(bytes),
            attempt_id: 0,
        });
    }

    assert_eq!(world.visible("test.bin").downloaded, file_size);
    assert_eq!(world.app.total_downloaded, file_size);
}

#[test]
fn url_resolved_updates_session_status_and_clears_overlay() {
    let mut world = World::new();
    let url = "https://mega.nz/folder/root".to_string();
    world.app.core_state.url_order.push(url.clone());

    world.event(DownloadEvent::UrlQueued { url: url.clone() });
    assert!(world.app.overlay_files.find(&url).is_some());

    world.event(DownloadEvent::UrlResolved { url: url.clone() });

    assert!(world.app.overlay_files.find(&url).is_none());
    assert!(world.app.core_state.url_order.is_empty());
    assert!(world.session_urls().is_empty());
}

#[test]
fn url_placeholder_lives_in_overlay_until_resolved() {
    let mut world = World::new();
    let url = "https://mega.nz/folder/root".to_string();

    world.event(DownloadEvent::UrlQueued { url: url.clone() });
    assert!(world.app.overlay_files.find(&url).is_some());
    assert!(world.app.files.iter().any(|file| file.id == url));

    world.event(DownloadEvent::UrlResolved { url: url.clone() });
    assert!(world.app.overlay_files.find(&url).is_none());
    assert!(!world.app.files.iter().any(|file| file.id == url));
}

#[test]
fn url_level_error_replaces_placeholder_in_overlay() {
    let mut world = World::new();
    let url = "https://mega.nz/folder/root".to_string();
    world.app.core_state.url_order.push(url.clone());

    world.event(DownloadEvent::UrlQueued { url: url.clone() });
    world.event(DownloadEvent::ScopeError {
        scope: url.clone(),
        error: "bad folder".to_string(),
    });

    let at = world
        .app
        .overlay_files
        .find(&url)
        .expect("url-level errors should remain in overlay");
    assert_eq!(
        world.app.overlay_files.value(at).file().status,
        FileStatus::Error("bad folder".to_string())
    );
    assert_eq!(world.session_urls(), vec![url]);
}

#[test]
fn submitted_addresses_are_sent_and_shown() {
    let mut world = World::new();
    let url = "https://mega.nz/folder/root";
    let steps = world.app.submit_url(url.to_string());
    world.run(steps);

    assert_eq!(world.visible(url).status, FileStatus::Queued);
    assert!(!world.app.core_state.contains_file(url));
    assert_eq!(
        world.sent,
        vec![DownloadRequest::SubmitUrl {
            url: url.to_string(),
            attempt_ids: FileIdMap::new(),
        }]
    );
}

#[test]
fn deleting_pending_url_removes_it_from_core_state_and_session() {
    let mut world = World::new();
    let url = "https://mega.nz/folder/root".to_string();
    world.hold_session_url(&url);

    let steps = world.app.submit_url(url.clone());
    world.run(steps);
    world.action(UiAction::DeleteFile(url.clone()));

    assert!(world.app.core_state.url_order.is_empty());
    assert!(world.session_urls().is_empty());
    assert!(world.app.files.is_empty());
}

#[test]
fn deleting_one_pending_url_preserves_other_pending_urls_across_shutdown() {
    let mut world = World::new();
    let removed = "https://mega.nz/folder/remove".to_string();
    let kept = "https://mega.nz/folder/keep".to_string();

    for url in [&removed, &kept] {
        let steps = world.app.submit_url(url.clone());
        world.run(steps);
    }
    world.action(UiAction::DeleteFile(removed));
    world.finish();

    assert!(world.app.core_state.has_tracked_url(&kept));
    assert_eq!(world.app.core_state.url_order, vec![kept.clone()]);
    let session = world.session.as_ref().expect("session should remain");
    assert_eq!(session.urls.len(), 1);
    assert_eq!(session.urls[0].url, kept);
    assert!(session.urls[0].error.is_none());
    let latest = world.latest.as_ref().expect("session should be saved");
    assert_eq!(latest.urls.len(), 1);
    assert_eq!(latest.urls[0].url, "https://mega.nz/folder/keep");
}

#[test]
fn deleting_url_level_error_removes_session_url_and_ignores_late_events() {
    let mut world = World::new();
    let url = "https://mega.nz/folder/bad".to_string();
    world.app.core_state.url_order.push(url.clone());
    world.hold_session_url(&url);

    world.event(DownloadEvent::ScopeError {
        scope: url.clone(),
        error: "bad folder".to_string(),
    });
    world.action(UiAction::DeleteFile(url.clone()));

    assert!(world.app.files.is_empty());
    assert!(!world.app.core_state.has_tracked_url(&url));
    assert!(world.session_urls().is_empty());

    world.event(DownloadEvent::UrlResolved { url: url.clone() });
    world.event(DownloadEvent::ScopeError {
        scope: url.clone(),
        error: "late folder error".to_string(),
    });

    assert!(world.app.files.is_empty());
}

#[test]
fn add_urls_collapses_placeholder_visible_syncs() {
    let mut world = World::new();

    world.action(UiAction::AddUrls(vec![
        "https://mega.nz/folder/one".to_string(),
        "https://mega.nz/folder/two".to_string(),
        "https://mega.nz/folder/three".to_string(),
    ]));

    assert_eq!(world.visible_syncs, 1);
    assert_eq!(world.session_persists, 1);
    assert_eq!(world.snapshots, 1);
    assert_eq!(world.app.core_state.url_order.len(), 3);
    assert_eq!(world.app.overlay_files.len(), 3);
    assert_eq!(world.app.status, "Received 3 URL(s) from bookmarklet");
}

fn resolve_root(world: &mut World) {
    world.apply(CoreEvent::PackageResolved {
        package: ResolvedPackage {
            id: Some(package(7)),
            source_url: "https://mega.nz/folder/root".to_string(),
            key: "https://mega.nz/folder/root".to_string(),
            display_name: "Root".to_string(),
            files: vec![ResolvedFile {
                file_id: "episode-1.mkv".to_string(),
                path: "episode-1.mkv".to_string(),
                size: 128,
            }],
        },
    });
}

#[test]
fn deferred_core_persistence_materializes_before_session_mutation() {
    let mut world = World::new();

    world.begin_batch();
    resolve_root(&mut world);
    world.mutate_session(|session| {
        let tracked_url = session
            .urls
            .iter_mut()
            .find(|tracked_url| tracked_url.url == "https://mega.nz/folder/root")
            .expect("package-resolved snapshot should seed the tracked url");
        tracked_url.error = Some("boom".to_string());
    });
    world.end_batch();

    assert_eq!(world.session_persists, 1);
    assert_eq!(world.snapshots, 1);
    assert_eq!(
        world
            .session
            .as_ref()
            .and_then(|session| session
                .urls
                .iter()
                .find(|url| url.url == "https://mega.nz/folder/root"))
            .and_then(|url| url.error.as_deref()),
        Some("boom")
    );
    assert_eq!(world.latest, world.session);
}

#[test]
fn deferred_core_persistence_materializes_once_for_multiple_session_mutations() {
    let mut world = World::new();

    world.begin_batch();
    resolve_root(&mut world);
    world.mutate_session(|session| {
        session.urls[0].error = Some("boom".to_string());
    });
    world.mutate_session(|session| {
        session.packages[0].display_name = "Renamed".to_string();
    });
    world.end_batch();

    assert_eq!(world.session_persists, 1);
    assert_eq!(world.snapshots, 1);
    let session = world.session.as_ref().expect("session should exist");
    assert_eq!(session.urls[0].error.as_deref(), Some("boom"));
    assert_eq!(session.packages[0].display_name, "Renamed");
    assert_eq!(world.latest, world.session);
}

#[test]
fn deferred_core_persistence_allows_session_remove_to_override_batch_snapshot() {
    let mut world = World::new();

    world.begin_batch();
    resolve_root(&mut world);
    world.mutate_session(|session| {
        session.urls.clear();
        session.packages.clear();
    });
    world.end_batch();

    assert_eq!(world.session_persists, 1);
    assert_eq!(world.snapshots, 1);
    let session = world.session.as_ref().expect("session should exist");
    assert!(session.urls.is_empty());
    assert!(session.packages.is_empty());
    assert!(world.latest.is_none());
}

#[test]
fn deferred_core_persistence_materializes_once_for_nested_batches() {
    let mut world = World::new();

    world.begin_batch();
    world.begin_batch();
    for (number, url, path) in [
        (1, "https://mega.nz/folder/a", "episode-a.mkv"),
        (2, "https://mega.nz/folder/b", "episode-b.mkv"),
    ] {
        world.apply(resolved(package(number), url, &[(path, 128)]));
    }
    world.end_batch();
    assert_eq!(world.session_persists, 0);
    world.end_batch();

    assert_eq!(world.session_persists, 1);
    assert_eq!(world.snapshots, 1);
    assert_eq!(world.app.core_state.files.len(), 2);
    assert_eq!(world.app.core_state.packages.len(), 2);
}

#[test]
fn deferred_core_persistence_skips_snapshot_for_non_persist_events() {
    let mut world = World::new();
    resolve_package(
        &mut world,
        "https://mega.nz/folder/root",
        &[("episode-1.mkv", 128)],
    );
    world.session_persists = 0;
    world.snapshots = 0;

    world.begin_batch();
    world.apply(CoreEvent::FileQueued {
        file_id: "episode-1.mkv".to_string(),
    });
    world.apply(started("episode-1.mkv", 128));
    world.end_batch();

    assert_eq!(world.session_persists, 0);
    assert_eq!(world.snapshots, 0);
    assert!(matches!(
        world.file("episode-1.mkv").lifecycle,
        FileLifecycle::Downloading
    ));
}

#[test]
fn shutdown_persists_latest_file_progress_after_non_persisted_progress_events() {
    let mut world = World::new();
    world.run(vec![AppStep::EnsureSession]);
    resolve_package(
        &mut world,
        "https://mega.nz/folder/root",
        &[("episode-1.mkv", 1_000)],
    );
    world.apply(started("episode-1.mkv", 1_000));

    let steps = world.app.handle_file_progress_event("episode-1.mkv".to_string(), delta(400), 0);
    world.run(steps);

    let before = world.latest.as_ref().expect("session should exist before shutdown");
    assert_eq!(before.files[0].id, "episode-1.mkv");
    assert_eq!(before.files[0].visible_completed_bytes, 0);

    world.finish();

    let latest = world.latest.as_ref().expect("session should be saved");
    assert_eq!(latest.files[0].id, "episode-1.mkv");
    assert_eq!(latest.files[0].visible_completed_bytes, 400);
    assert_eq!(latest.files[0].downloaded_network_bytes, 400);
    assert_eq!(world.file("episode-1.mkv").lifecycle, FileLifecycle::Downloading);
}

#[test]
fn addresses_forgotten_in_a_batch_are_not_saved() {
    let mut world = World::new();
    let kept = "https://mega.nz/folder/keep";
    world.begin_batch();
    for url in ["https://mega.nz/folder/gone", kept] {
        let steps = world.app.submit_url(url.to_string());
        world.run(steps);
    }
    world.run(vec![AppStep::RemoveSessionUrl(
        "https://mega.nz/folder/gone".to_string(),
    )]);
    world.end_batch();

    assert_eq!(world.session_persists, 1);
    assert_eq!(world.session_urls(), vec![kept.to_string()]);
    assert_eq!(world.latest, world.session);
}

#[test]
fn of_several_rows_of_a_file_the_last_one_counts() {
    let mut world = world_with_file("file.bin", 100);
    let id = "file.bin".to_string();
    for downloaded in [3, 5] {
        world.app.files.push(FileEntry {
            id: id.clone(),
            name: "old".to_string(),
            size: 1,
            downloaded,
            status: FileStatus::Queued,
        });
    }
    let last = world.app.files.len() - 1;
    assert_eq!(world.app.row_of(&id), Some(last));
    assert_eq!(world.visible("file.bin").downloaded, 5);

    world.progress("file.bin", |progress| progress.visible_completed_bytes = 40);
    assert_eq!(world.app.refresh_visible_progress_file(&id), Some((35, 0)));
    assert_eq!(world.app.files[last].downloaded, 40);
    assert_eq!(world.app.files[last].name, "old");
    assert_eq!(world.app.refresh_visible_core_file(&id), Some((40, 40)));
    assert_eq!(world.app.files[last].name, "file.bin");
    assert_eq!(world.app.files[last - 1].downloaded, 3);

    world.app.core_state.files.remove("file.bin");
    assert_eq!(world.app.rate_baseline(&id), 40);
    assert_eq!(world.app.rate_baseline(&"other.bin".to_string()), 0);
}

#[test]
fn placeholders_and_errors_add_one_overlay_row_at_most() {
    let mut world = World::new();
    let keys = |world: &World| -> Vec<String> {
        (0..world.app.overlay_files.len())
            .map(|at| world.app.overlay_files.key(at))
            .collect()
    };
    let _ = world.app.queue_url_placeholder("a".to_string());
    let _ = world.app.queue_url_placeholder("b".to_string());
    let _ = world.app.queue_url_placeholder("a".to_string());
    assert_eq!(keys(&world), ["a", "b"]);
    for id in ["b", "c"] {
        let _ = world
            .app
            .show_overlay_error(&id.to_string(), id.to_string(), "bad".to_string());
    }
    assert_eq!(keys(&world), ["a", "b", "c"]);
}

#[test]
fn bookmarklet_added_url_placeholder_is_visible_with_existing_packages() {
    let mut world = world_with_file("file.bin", 100);

    world.action(UiAction::AddUrls(vec![
        "https://mega.nz/folder/bookmarklet".to_string(),
    ]));

    let placeholder = world.visible("https://mega.nz/folder/bookmarklet");
    assert_eq!(placeholder.name, "https://mega.nz/folder/bookmarklet");
    assert!(matches!(placeholder.status, FileStatus::Queued));
}

#[test]
fn pending_order_sync_is_immediate_outside_batch() {
    let mut world = World::new();
    world.app.download_task_running = true;

    resolve_package(
        &mut world,
        "https://mega.nz/folder/root",
        &[("episode-1.mkv", 128)],
    );

    assert_eq!(
        world.sent,
        vec![DownloadRequest::SyncPendingOrder {
            file_ids: vec!["episode-1.mkv".to_string()],
        }]
    );
}

#[test]
fn pending_order_sync_collapses_for_nested_batches() {
    let mut world = World::new();
    world.app.download_task_running = true;

    world.begin_batch();
    world.begin_batch();
    world.apply(resolved(
        package(1),
        "https://mega.nz/folder/a",
        &[("episode-a.mkv", 128)],
    ));
    world.apply(resolved(
        package(2),
        "https://mega.nz/folder/b",
        &[("episode-b.mkv", 256)],
    ));
    world.end_batch();
    assert!(world.sent.is_empty());
    world.end_batch();

    assert_eq!(
        world.sent,
        vec![DownloadRequest::SyncPendingOrder {
            file_ids: vec!["episode-a.mkv".to_string(), "episode-b.mkv".to_string()],
        }]
    );
}

#[test]
fn pending_order_sync_skips_noop_batches() {
    let mut world = World::new();
    world.app.download_task_running = true;
    resolve_package(
        &mut world,
        "https://mega.nz/folder/root",
        &[("episode-1.mkv", 128)],
    );
    assert!(matches!(
        world.sent.pop(),
        Some(DownloadRequest::SyncPendingOrder { .. })
    ));

    world.begin_batch();
    world.apply(started("episode-1.mkv", 128));
    world.end_batch();

    assert!(world.sent.is_empty());
}

#[test]
fn drain_download_events_collapses_visible_syncs_for_batched_files() {
    let mut world = World::new();
    world.app.download_task_running = true;
    let url = "https://mega.nz/folder/resolved";
    world.app.core_state.url_order.push(url.to_string());
    let events = [
        ("episode-1.mkv", 128),
        ("episode-2.mkv", 256),
        ("episode-3.mkv", 512),
    ]
    .iter()
    .map(|(name, size)| {
        let mut file = queued_file(name, *size, url, url);
        file.origin.package_id = Some(package(3));
        file.origin.package_display_name = Some("Package".to_string());
        DownloadEvent::FileQueued(file)
    })
    .collect();

    assert!(world.drain(events).0);

    assert_eq!(world.visible_syncs, 1);
    assert_eq!(
        world.sent,
        vec![DownloadRequest::SyncPendingOrder {
            file_ids: vec![
                "episode-1.mkv".to_string(),
                "episode-2.mkv".to_string(),
                "episode-3.mkv".to_string(),
            ],
        }]
    );
    assert_eq!(world.app.core_state.files.len(), 3);
}

#[test]
fn download_status_message_reflects_actual_activity() {
    let mut world = World::new();

    let steps = world.app.upsert_overlay_file(
        FileEntry {
            id: "episode-1.mkv".to_string(),
            name: "episode-1.mkv".to_string(),
            size: 128,
            downloaded: 0,
            status: FileStatus::Queued,
        },
        Some("https://mega.nz/folder/root".to_string()),
    );
    world.run(steps);
    world.app.recompute_totals();
    world.app.update_download_status_message();

    assert_eq!(world.app.status, "");

    let steps = world.app.upsert_overlay_file(
        FileEntry {
            id: "episode-1.mkv".to_string(),
            name: "episode-1.mkv".to_string(),
            size: 128,
            downloaded: 0,
            status: FileStatus::Downloading,
        },
        Some("https://mega.nz/folder/root".to_string()),
    );
    world.run(steps);
    world.app.update_download_status_message();

    assert_eq!(world.app.status, "");
}

#[test]
fn download_status_message_uses_core_downloading_totals() {
    let mut world = World::new();
    resolve_package(
        &mut world,
        "https://mega.nz/folder/root",
        &[("episode-1.mkv", 128)],
    );
    world.apply(started("episode-1.mkv", 128));
    world.app.files.clear();

    world.app.update_download_status_message();

    assert_eq!(world.app.status, "Downloading (0/1)");
}

#[test]
fn login_failure_status_adds_single_context_prefix() {
    let mut world = World::new();

    let steps = world.app.complete_login(
        false,
        Some("invalid RSA private key format".to_string()),
        None,
        false,
    );
    world.run(steps);

    assert_eq!(
        world.app.login.error.as_deref(),
        Some("invalid RSA private key format")
    );
    assert_eq!(
        world.app.status,
        "Login failed: invalid RSA private key format"
    );
}

#[test]
fn a_login_starts_the_download_task() {
    let mut world = World::new();
    world.app.popup = Popup::Login;

    world.event(DownloadEvent::LoginResult {
        success: true,
        error: None,
        saved_session: Some("blob".to_string()),
        clear_saved_session: false,
    });

    assert!(world.app.authenticated);
    assert!(world.app.download_task_running);
    assert_eq!(world.tasks_started, 1);
    assert_eq!(world.app.popup, Popup::Closed);
    assert_eq!(world.app.saved_mega_session.as_deref(), Some("blob"));
}

#[test]
fn downloading_file_can_reach_full_progress_before_complete_event() {
    let mut world = world_with_file("file-id", 100);

    world.event(DownloadEvent::FileStart {
        id: "file-id".to_string(),
        size: 100,
        attempt_id: 0,
    });
    world.event(DownloadEvent::Progress {
        id: "file-id".to_string(),
        delta: delta(100),
        attempt_id: 0,
    });

    assert_eq!(world.visible("file-id").downloaded, 100);
    assert_eq!(world.visible("file-id").status, FileStatus::Downloading);
    assert_eq!(world.app.total_downloaded, 100);
    assert_eq!(world.app.total_size, 100);

    world.event(DownloadEvent::FileComplete {
        id: "file-id".to_string(),
        attempt_id: 0,
    });

    assert_eq!(world.visible("file-id").downloaded, 100);
    assert_eq!(world.visible("file-id").status, FileStatus::Complete);
    assert_eq!(world.app.total_downloaded, 100);
}

#[test]
fn stale_start_does_not_demote_completed_file() {
    let mut world = world_with_file("file-id", 100);
    world.apply(CoreEvent::FileCompleted {
        file_id: "file-id".to_string(),
    });
    world.sync_visible();

    world.event(DownloadEvent::FileStart {
        id: "file-id".to_string(),
        size: 100,
        attempt_id: 0,
    });

    assert_eq!(world.visible("file-id").downloaded, 100);
    assert_eq!(world.visible("file-id").status, FileStatus::Complete);
    assert_eq!(world.app.total_downloaded, 100);
}

#[test]
fn resume_reuse_then_progress_keeps_file_bandwidth_on_fresh_bytes_only() {
    let mut world = world_with_file("file-id", 100);

    world.event(DownloadEvent::FileStart {
        id: "file-id".to_string(),
        size: 100,
        attempt_id: 0,
    });
    world.event(DownloadEvent::ResumeReused {
        id: "file-id".to_string(),
        chunks: 1,
        bytes: 60,
        attempt_id: 0,
    });
    world.event(DownloadEvent::Progress {
        id: "file-id".to_string(),
        delta: delta(25),
        attempt_id: 0,
    });

    let progress = world.file("file-id").progress;
    assert_eq!(progress.visible_completed_bytes, 85);
    assert_eq!(progress.verified_existing_bytes, 60);
    assert_eq!(progress.downloaded_network_bytes, 25);
    assert_eq!(world.app.total_downloaded, 85);
    assert_eq!(world.app.total_network_downloaded, 25);
}

#[test]
fn fast_trusted_resume_progress_is_not_double_counted_when_reuse_event_arrives() {
    let mut world = world_with_file("file-id", 100);

    world.event(DownloadEvent::FileStart {
        id: "file-id".to_string(),
        size: 100,
        attempt_id: 0,
    });
    world.event(DownloadEvent::Progress {
        id: "file-id".to_string(),
        delta: ProgressDelta {
            total_bytes_delta: 60,
            network_bytes_delta: 0,
        },
        attempt_id: 0,
    });
    world.event(DownloadEvent::ResumeReused {
        id: "file-id".to_string(),
        chunks: 1,
        bytes: 60,
        attempt_id: 0,
    });

    let progress = world.file("file-id").progress;
    assert_eq!(progress.visible_completed_bytes, 60);
    assert_eq!(progress.verified_existing_bytes, 60);
    assert_eq!(progress.downloaded_network_bytes, 0);
    assert_eq!(world.app.total_downloaded, 60);
    assert_eq!(world.app.total_network_downloaded, 0);
}

#[test]
fn resume_validation_progress_transitions_to_download_progress_on_network_bytes() {
    let mut world = world_with_file("file-id", 100);
    let file_id = "file-id".to_string();

    world.event(DownloadEvent::FileStart {
        id: file_id.clone(),
        size: 100,
        attempt_id: 0,
    });
    world.event(DownloadEvent::ResumeValidationStarted {
        id: file_id.clone(),
        attempt_id: 0,
    });
    world.event(DownloadEvent::VerificationProgress {
        id: file_id.clone(),
        bytes_delta: 40,
    });

    assert_eq!(world.visible(&file_id).downloaded, 40);
    assert!(world.app.tracking.verifying_files.contains(&file_id));
    assert!(world.app.tracking.verification_targets.contains_key(&file_id));

    world.event(DownloadEvent::Progress {
        id: file_id.clone(),
        delta: delta(15),
        attempt_id: 0,
    });

    assert_eq!(world.visible(&file_id).downloaded, 55);
    assert_eq!(world.visible(&file_id).status, FileStatus::Downloading);
    assert_not_verifying(&world, &file_id);
    assert!(!world.app.tracking.verification_targets.contains_key(&file_id));
}

#[test]
fn pause_downloads_queues_core_backed_active_files() {
    let mut world = World::new();
    resolve_package(
        &mut world,
        "https://mega.nz/folder/root",
        &[("episode.bin", 128)],
    );
    world.apply(started("episode.bin", 128));
    let token = world.hold_token("episode.bin");

    let steps = world.app.pause_downloads();
    world.run(steps);

    assert!(world.app.paused);
    assert!(token.is_cancelled());
    assert!(!world.app.tracking.cancellation_tokens.contains("episode.bin"));
    assert_eq!(world.file("episode.bin").lifecycle, FileLifecycle::Queued);
    assert_eq!(world.visible("episode.bin").status, FileStatus::Queued);
}

#[test]
fn begin_shutdown_cancels_active_tokens() {
    let mut world = World::new();
    let token = world.hold_token("episode.bin");

    let waiting = world.begin_shutdown();

    assert!(waiting);
    assert!(world.app.paused);
    assert!(token.is_cancelled());
}

#[test]
fn headless_shutdown_waits_for_file_cancellation_events() {
    let mut world = world_with_file("episode.bin", 128);
    world.apply(started("episode.bin", 128));
    let token = world.hold_token("episode.bin");
    let mut running = HeadlessLoop::new();

    let waiting = world.begin_shutdown();
    assert_eq!(
        running.wake(HeadlessWake::ShutdownRequested { waiting }),
        HeadlessAction::ArmDeadline
    );
    assert!(token.is_cancelled());
    assert!(!running.is_over(&world.app));

    assert_eq!(running.wake(HeadlessWake::Event), HeadlessAction::HandleEvent);
    world.event(DownloadEvent::FileCancelled {
        id: "episode.bin".to_string(),
        attempt_id: 0,
    });

    assert!(running.is_over(&world.app));
    assert!(world.app.tracking.cancellation_tokens.is_empty());
    assert!(world.app.tracking.shutdown_pending_files.is_empty());
    assert!(world.app.paused);
}

#[test]
fn headless_shutdown_forces_completion_after_workers_miss_deadline() {
    let mut world = World::new();
    let token = world.hold_token("episode.bin");
    let mut running = HeadlessLoop::new();

    let waiting = world.begin_shutdown();
    assert_eq!(
        running.wake(HeadlessWake::ShutdownRequested { waiting }),
        HeadlessAction::ArmDeadline
    );
    assert!(running.listens(HeadlessWake::DeadlineElapsed, false));
    assert_eq!(running.wake(HeadlessWake::DeadlineElapsed), HeadlessAction::Force);
    let steps = world.app.force_shutdown();
    world.run(steps);

    assert!(token.is_cancelled());
    assert!(world.app.tracking.shutdown_pending_files.is_empty());
    assert!(running.is_over(&world.app));
}

#[test]
fn headless_shutdown_waits_for_late_download_token_registration() {
    let mut world = world_with_file("episode.bin", 128);
    world.apply(started("episode.bin", 128));
    let mut running = HeadlessLoop::new();

    let waiting = world.begin_shutdown();
    running.wake(HeadlessWake::ShutdownRequested { waiting });
    assert!(!running.is_over(&world.app));

    let token = CancellationToken::new();
    assert!(running.listens(HeadlessWake::Token, false));
    assert_eq!(running.wake(HeadlessWake::Token), HeadlessAction::HandleToken);
    world.token("episode.bin", 0, &token);
    assert!(token.is_cancelled());
    assert!(!running.is_over(&world.app));

    world.event(DownloadEvent::FileCancelled {
        id: "episode.bin".to_string(),
        attempt_id: 0,
    });
    assert!(running.is_over(&world.app));
    assert!(world.app.tracking.cancellation_tokens.is_empty());
    assert!(world.app.paused);
}

#[test]
fn headless_shutdown_waits_for_late_resume_validation_token_registration() {
    let mut world = world_with_file("episode.bin", 128);
    let steps = world
        .app
        .handle_resume_validation_started_event("episode.bin".to_string(), 0);
    world.run(steps);
    let mut running = HeadlessLoop::new();

    let waiting = world.begin_shutdown();
    assert!(waiting);
    running.wake(HeadlessWake::ShutdownRequested { waiting });
    assert!(!running.is_over(&world.app));

    let token = CancellationToken::new();
    world.token("episode.bin", 0, &token);
    assert!(token.is_cancelled());
    assert!(!running.is_over(&world.app));

    world.event(DownloadEvent::FileCancelled {
        id: "episode.bin".to_string(),
        attempt_id: 0,
    });
    assert!(running.is_over(&world.app));
    assert!(world.app.tracking.cancellation_tokens.is_empty());
    assert!(world.app.paused);
}

#[test]
fn shutdown_skips_verifications_that_block_nothing() {
    let mut world = World::new();
    resolve_package(
        &mut world,
        "https://mega.nz/folder/root",
        &[("partial.bin", 100), ("whole.bin", 100), ("held.bin", 100)],
    );
    for id in ["partial.bin", "whole.bin", "held.bin"] {
        mark_verification_inflight(&mut world, id);
    }
    let tracking = &mut world.app.tracking;
    tracking
        .verification_targets
        .insert("whole.bin".to_string(), VerificationTarget::Completed);
    tracking.shutdown_blocking_verifications.insert("held.bin".to_string());
    for row in &mut world.app.files {
        row.status = FileStatus::Downloading;
    }

    let (steps, waiting) = world.app.begin_shutdown();

    assert!(waiting);
    let skips: Vec<bool> = steps
        .iter()
        .map(|step| matches!(step, AppStep::SetStatus(Status::VerificationSkipped { .. })))
        .collect();
    let paused = steps
        .iter()
        .position(|step| *step == AppStep::BroadcastPause(true))
        .unwrap();
    assert_eq!(skips.iter().filter(|skip| **skip).count(), 2);
    assert!(skips[paused..].iter().all(|skip| !*skip));
    let count = |wanted: &CoreEvent| {
        steps
            .iter()
            .filter(|step| matches!(step, AppStep::Apply(event) if event == wanted))
            .count()
    };
    let cancelled = |id: &str| CoreEvent::FileCancelled {
        file_id: id.to_string(),
    };
    assert_eq!(count(&cancelled("partial.bin")), 1);
    assert_eq!(count(&cancelled("held.bin")), 1);
    assert_eq!(count(&cancelled("whole.bin")), 0);
    assert_eq!(
        count(&CoreEvent::FileVerificationCompleted {
            file_id: "whole.bin".to_string()
        }),
        1
    );
    assert_eq!(
        world.app.tracking.shutdown_pending_files.to_vec(),
        vec!["held.bin".to_string()]
    );
    assert_not_verifying(&world, "partial.bin");
    assert_not_verifying(&world, "whole.bin");
    assert!(world.app.tracking.verification_inflight_files.contains("held.bin"));
}

#[test]
fn shutdown_waits_for_nothing_once_idle_verifications_are_skipped() {
    let mut world = world_with_file("episode.bin", 128);
    mark_verification_inflight(&mut world, "episode.bin");

    assert!(!world.begin_shutdown());

    assert!(world.app.paused);
    assert_not_verifying(&world, "episode.bin");
    assert_eq!(world.file("episode.bin").lifecycle, FileLifecycle::Queued);
}

#[test]
fn shutdown_waits_for_a_skipped_verification_whose_transfer_can_be_cancelled() {
    let mut world = world_with_file("episode.bin", 128);
    mark_verification_inflight(&mut world, "episode.bin");
    let token = world.hold_token("episode.bin");

    assert!(world.begin_shutdown());

    assert!(token.is_cancelled());
    assert!(world.app.tracking.shutdown_pending_files.contains("episode.bin"));
}

#[test]
fn delayed_token_and_result_from_deleted_attempt_cannot_affect_readded_file() {
    let source_url = "https://mega.nz/folder/root";
    let mut world = World::new();
    resolve_package(&mut world, source_url, &[("episode.bin", 128)]);
    let file_id = "episode.bin".to_string();
    let steps = world.app.handle_file_start_event(file_id.clone(), 128, 0);
    world.run(steps);
    let old_token = CancellationToken::new();

    let steps = world.app.perform_delete_file_action(&file_id);
    world.run(steps);
    assert!(!world.app.core_state.contains_file(&file_id));
    resolve_package(&mut world, source_url, &[("episode.bin", 128)]);
    let steps = world.app.handle_file_start_event(file_id.clone(), 128, 1);
    world.run(steps);

    let current_token = CancellationToken::new();
    world.token(&file_id, 1, &current_token);
    world.token(&file_id, 0, &old_token);

    assert!(old_token.is_cancelled());
    assert!(!current_token.is_cancelled());
    assert!(world.app.tracking.cancellation_tokens.contains(&file_id));

    let steps = world.app.handle_file_complete_event(file_id.clone(), 0);
    world.run(steps);
    assert_eq!(world.file(&file_id).lifecycle, FileLifecycle::Downloading);
}

#[test]
fn token_for_completed_file_does_not_create_shutdown_work() {
    let mut world = world_with_file("already-complete.bin", 100);
    let file_id = "already-complete.bin".to_string();
    let steps = world.app.handle_file_start_event(file_id.clone(), 100, 0);
    world.run(steps);
    let steps = world.app.handle_file_complete_event(file_id.clone(), 0);
    world.run(steps);

    world.token(&file_id, 0, &CancellationToken::new());

    assert!(!world.app.tracking.cancellation_tokens.contains(&file_id));
    assert!(!world.begin_shutdown());
}

#[test]
fn ensure_download_session_does_not_create_empty_session() {
    let mut world = World::new();
    assert!(world.app.login.set_credentials(
        "fresh@example.com".to_string(),
        "fresh-pass".to_string(),
        String::new()
    ));

    assert_eq!(
        world.app.ensure_download_session(true, false),
        SessionPlan::Nothing
    );
    world.app.core_state.url_order.push("https://mega.nz/file/a".to_string());
    assert_eq!(
        world.app.ensure_download_session(true, false),
        SessionPlan::Create
    );
    assert_eq!(
        world.app.ensure_download_session(false, true),
        SessionPlan::Nothing
    );
    assert_eq!(
        world.app.ensure_download_session(true, true),
        SessionPlan::UpdateCredentials
    );
}

#[test]
fn terminal_tick_bounds_download_event_drain_to_keep_input_responsive() {
    let mut world = World::new();
    let events = (0..MAX_DOWNLOAD_EVENTS_PER_TICK + 10)
        .map(|index| DownloadEvent::StatusMessage(format!("status {index}")))
        .collect();

    let (drained, left) = world.drain(events);

    assert!(tick_is_dirty(1, drained, false, false, false, false));
    assert_eq!(left.len(), 10);
    assert_eq!(
        world.app.status,
        format!("status {}", MAX_DOWNLOAD_EVENTS_PER_TICK - 1)
    );
}

/// A channel of events that holds one of them; later ones wait with the sender.
struct NarrowChannel {
    ready: Option<DownloadEvent>,
    retained: std::collections::VecDeque<DownloadEvent>,
}

impl NarrowChannel {
    fn new() -> NarrowChannel {
        NarrowChannel {
            ready: None,
            retained: std::collections::VecDeque::new(),
        }
    }

    fn send(&mut self, event: DownloadEvent) {
        self.retained.push_back(event);
        self.refill();
    }

    fn refill(&mut self) {
        if self.ready.is_none() {
            self.ready = self.retained.pop_front();
        }
    }

    /// What a tick drains; the sender then delivers what it has retained.
    fn drain_into(&mut self, world: &mut World) -> bool {
        let (handled, left) = world.drain(self.ready.take().into_iter().collect());
        assert!(left.is_empty());
        self.refill();
        handled
    }

    fn has_pending_events(&self) -> bool {
        self.ready.is_some() || !self.retained.is_empty()
    }
}

fn scope_error(scope: &str, error: &str) -> DownloadEvent {
    DownloadEvent::ScopeError {
        scope: scope.to_string(),
        error: error.to_string(),
    }
}

#[test]
fn drain_download_events_flushes_retained_lifecycle_events_on_later_ticks() {
    let mut world = World::new();
    let mut events = NarrowChannel::new();
    events.send(scope_error("setup", "one"));
    events.send(scope_error("download", "two"));

    assert!(events.drain_into(&mut world));
    assert!(world.app.overlay_files.find("setup").is_some());
    assert!(world.app.overlay_files.find("download").is_none());
    assert!(events.drain_into(&mut world));
    assert!(world.app.overlay_files.find("download").is_some());
}

#[test]
fn terminal_tick_does_not_dirty_dashboard_when_idle() {
    let mut world = World::new();
    let (drained, _) = world.drain(Vec::new());
    let transferring = world.app.has_active_dashboard_transfer();
    assert!(!tick_is_dirty(1, drained, false, transferring, false, false));
}

fn world_with_transfer_row() -> World {
    let mut world = World::new();
    world.app.files.push(FileEntry {
        id: "file.bin".to_string(),
        name: "file.bin".to_string(),
        size: 100,
        downloaded: 1,
        status: FileStatus::Downloading,
    });
    world
}

#[test]
fn terminal_tick_dirties_dashboard_for_active_transfer_speed_refresh() {
    let world = world_with_transfer_row();
    let transferring = world.app.has_active_dashboard_transfer();
    assert!(tick_is_dirty(1, false, true, transferring, false, false));
}

#[test]
fn terminal_tick_skips_active_transfer_dashboard_publish_without_remote_client() {
    let world = world_with_transfer_row();
    let transferring = world.app.has_active_dashboard_transfer();
    assert!(!tick_is_dirty(1, false, false, transferring, false, false));
}

#[test]
fn drain_download_events_coalesces_progress_for_same_file_within_tick() {
    let mut world = world_with_file("file.bin", 100);
    world.apply(started("file.bin", 100));
    let events = (0..3)
        .map(|_| DownloadEvent::Progress {
            id: "file.bin".to_string(),
            delta: delta(10),
            attempt_id: 0,
        })
        .collect();

    assert!(world.drain(events).0);

    assert_eq!(world.file("file.bin").progress.visible_completed_bytes, 30);
    assert_eq!(world.file("file.bin").progress.downloaded_network_bytes, 30);
}

#[test]
fn drain_download_events_applies_verification_progress_without_attempt_id() {
    let mut world = world_with_file("file.bin", 100);
    mark_verification_inflight(&mut world, "file.bin");

    assert!(
        world
            .drain(vec![DownloadEvent::VerificationProgress {
                id: "file.bin".to_string(),
                bytes_delta: 25,
            }])
            .0
    );

    assert_eq!(world.file("file.bin").progress.visible_completed_bytes, 25);
    assert_eq!(world.file("file.bin").progress.downloaded_network_bytes, 0);
}

#[test]
fn drain_download_events_starts_resume_validation_from_download_event() {
    let mut world = world_with_file("file.bin", 100);

    assert!(
        world
            .drain(vec![DownloadEvent::ResumeValidationStarted {
                id: "file.bin".to_string(),
                attempt_id: 0,
            }])
            .0
    );

    assert!(world.app.tracking.verifying_files.contains("file.bin"));
    assert!(world
        .app
        .tracking
        .verification_inflight_files
        .contains("file.bin"));
    assert_eq!(
        world.app.tracking.verification_targets.get("file.bin"),
        Some(&VerificationTarget::Resume)
    );
    assert_eq!(world.file("file.bin").progress.visible_completed_bytes, 0);
}

#[test]
fn drain_download_events_applies_verification_skip() {
    let mut world = world_with_file("file.bin", 100);
    mark_verification_inflight(&mut world, "file.bin");

    assert!(
        world
            .drain(vec![DownloadEvent::VerificationSkipped {
                id: "file.bin".to_string(),
                completed: false,
            }])
            .0
    );
    assert_not_verifying(&world, "file.bin");
}

#[test]
fn drain_download_events_preserves_all_lifecycle_events() {
    let mut world = World::new();
    let mut events = NarrowChannel::new();
    events.send(scope_error("setup", "one"));
    events.send(scope_error("download", "two"));
    events.send(scope_error("verify", "three"));

    assert!(events.drain_into(&mut world));
    assert!(world.app.overlay_files.find("setup").is_some());
    assert!(events.drain_into(&mut world));
    assert!(world.app.overlay_files.find("download").is_some());
    assert!(events.drain_into(&mut world));
    assert!(world.app.overlay_files.find("verify").is_none());
    assert!(!events.has_pending_events());
    assert!(!events.drain_into(&mut world));
}

#[test]
fn progress_wakeup_does_not_move_later_progress_before_file_start() {
    let mut world = world_with_file("file-b.bin", 100);
    let events = vec![
        DownloadEvent::Progress {
            id: "file-a.bin".to_string(),
            delta: delta(1),
            attempt_id: 0,
        },
        DownloadEvent::ProgressWakeup,
        DownloadEvent::FileStart {
            id: "file-b.bin".to_string(),
            size: 100,
            attempt_id: 0,
        },
        DownloadEvent::Progress {
            id: "file-b.bin".to_string(),
            delta: delta(10),
            attempt_id: 0,
        },
    ];

    assert!(world.drain(events).0);

    assert_eq!(world.file("file-b.bin").progress.downloaded_network_bytes, 10);
    assert_eq!(world.file("file-b.bin").progress.visible_completed_bytes, 10);
}

fn check_progress_before_terminal(terminal: DownloadEvent, expected: FileLifecycle) {
    let mut world = world_with_file("ordered.bin", 100);
    let events = vec![
        DownloadEvent::FileStart {
            id: "ordered.bin".to_string(),
            size: 100,
            attempt_id: 0,
        },
        DownloadEvent::Progress {
            id: "ordered.bin".to_string(),
            delta: delta(25),
            attempt_id: 0,
        },
        terminal,
    ];

    assert!(world.drain(events).0);

    let file = world.file("ordered.bin");
    assert_eq!(file.progress.downloaded_network_bytes, 25);
    assert_eq!(file.lifecycle, expected);
}

#[test]
fn sender_progress_precedes_completion() {
    check_progress_before_terminal(
        DownloadEvent::FileComplete {
            id: "ordered.bin".to_string(),
            attempt_id: 0,
        },
        FileLifecycle::Complete,
    );
}

#[test]
fn sender_progress_precedes_cancellation() {
    check_progress_before_terminal(
        DownloadEvent::FileCancelled {
            id: "ordered.bin".to_string(),
            attempt_id: 0,
        },
        FileLifecycle::Queued,
    );
}

#[test]
fn sender_progress_precedes_failure() {
    check_progress_before_terminal(
        DownloadEvent::FileError {
            id: "ordered.bin".to_string(),
            error: "failed".to_string(),
            attempt_id: 0,
        },
        FileLifecycle::Failed {
            message: "failed".to_string(),
        },
    );
}

#[test]
fn an_event_of_an_old_attempt_changes_nothing() {
    let mut world = world_with_active_file();
    world.app.tracking.bump_file_attempt_id(&"active.bin".to_string());
    let status = world.app.status.clone();
    for event in [
        DownloadEvent::FileComplete {
            id: "active.bin".to_string(),
            attempt_id: 0,
        },
        DownloadEvent::FileError {
            id: "active.bin".to_string(),
            error: "late".to_string(),
            attempt_id: 0,
        },
        DownloadEvent::FileStart {
            id: "active.bin".to_string(),
            size: 5,
            attempt_id: 0,
        },
        DownloadEvent::ResumeReused {
            id: "active.bin".to_string(),
            chunks: 1,
            bytes: 9,
            attempt_id: 0,
        },
    ] {
        let steps = world.app.handle_download_event(event);
        assert!(steps.is_empty());
    }
    assert_eq!(world.app.status, status);
    assert_eq!(world.file("active.bin").lifecycle, FileLifecycle::Downloading);
}

#[test]
fn a_reset_file_waits_for_its_new_attempt() {
    let mut world = world_with_active_file();
    world.action(UiAction::ResetFile("active.bin".to_string()));
    assert!(world.app.tracking.reset_pending_files.contains("active.bin"));
    let attempt = world.app.tracking.current_attempt_id(&"active.bin".to_string());
    assert!(world
        .sent
        .iter()
        .any(|request| matches!(request, DownloadRequest::ResumeFileIds { .. })));

    world.event(DownloadEvent::FileStart {
        id: "active.bin".to_string(),
        size: 100,
        attempt_id: attempt,
    });
    assert!(!world.app.tracking.reset_pending_files.contains("active.bin"));
    assert_eq!(world.file("active.bin").lifecycle, FileLifecycle::Downloading);
}

#[test]
fn settings_and_logins_are_taken_from_actions() {
    let mut world = World::new();
    world.action(UiAction::UpdateConfig {
        chunks_per_file: Some(4),
        mega_chunks_per_request: None,
        concurrent_files: Some(0),
        force_overwrite: Some(true),
        cleanup_on_error: None,
    });
    assert_eq!(world.app.config.config.chunks_per_file, 4);
    assert_eq!(world.app.config.config.concurrent_files, 1);
    assert!(world.app.config.config.force_overwrite);

    world.action(UiAction::Login {
        email: String::new(),
        password: "pass".to_string(),
        mfa: String::new(),
    });
    assert_eq!(world.login_begun, 0);
    world.action(UiAction::Login {
        email: "user@example.com".to_string(),
        password: "pass".to_string(),
        mfa: String::new(),
    });
    assert_eq!(world.login_begun, 1);
}

#[test]
fn a_pause_can_be_taken_back() {
    let mut world = World::new();
    world.action(UiAction::TogglePause);
    assert!(world.app.paused);
    assert_eq!(world.app.status, "Paused");
    world.action(UiAction::TogglePause);
    assert!(!world.app.paused);
    assert_eq!(world.app.status, "Resuming downloads...");
}

#[test]
fn a_pause_deletes_nothing() {
    let mut world = world_with_active_file();
    let before = world.file("active.bin").progress;
    let _token = world.hold_token("active.bin");
    let steps = world.app.handle_ui_action(UiAction::TogglePause, &Vec::new());
    assert!(steps
        .iter()
        .all(|step| !matches!(
            step,
            AppStep::Command(_)
                | AppStep::RemoveSessionUrl(_)
                | AppStep::RemoveSessionFile(_)
                | AppStep::RemovePackage(_)
                | AppStep::ForgetRow(_)
        )));
    assert!(steps.contains(&AppStep::CancelToken("active.bin".to_string())));
    world.run(steps);
    assert_eq!(world.file("active.bin").progress, before);
}

#[test]
fn a_deleted_submission_stays_away_until_it_is_submitted_again() {
    let url = "https://mega.nz/file/deleted".to_string();
    let mut world = World::new();
    world.action(UiAction::AddUrls(vec![url.clone()]));
    assert!(world.app.visible_file(&url).is_some());
    world.action(UiAction::DeleteFile(url.clone()));
    assert!(world.app.visible_file(&url).is_none());

    world.event(DownloadEvent::UrlQueued { url: url.clone() });
    assert!(world.app.visible_file(&url).is_none());

    world.action(UiAction::AddUrls(vec![url.clone()]));
    world.event(DownloadEvent::UrlQueued { url: url.clone() });
    assert!(world.app.visible_file(&url).is_some());
}

#[test]
fn a_retried_file_ignores_the_attempt_before() {
    let mut world = world_with_active_file();
    let id = "active.bin".to_string();
    let old = world.app.tracking.current_attempt_id(&id);
    world.action(UiAction::RetryFile(id.clone()));
    let steps = world.app.handle_download_event(DownloadEvent::FileComplete {
        id: id.clone(),
        attempt_id: old,
    });
    assert!(steps.is_empty());
    assert_eq!(world.app.tracking.current_attempt_id(&id), old + 1);
}

#[test]
fn resubmitted_deleted_download_uses_current_file_attempt_through_request_path() {
    let url = "https://mega.nz/file/resubmit".to_string();
    let id = "resubmit.bin".to_string();
    let mut world = World::new();
    let mut scheduler = SchedulerState::new();
    let mut previous: Option<QueuedDownload> = None;

    for generation in 0..3u64 {
        world.sent.clear();
        let steps = world.app.submit_url(url.clone());
        world.run(steps);
        let request = world.sent.remove(0);
        if let Some(stale) = &previous {
            world.event(DownloadEvent::FileQueued(
                stale.queued_event(FileAccounting::CurrentRun),
            ));
            assert_eq!(
                world.app.core_state.files.len(),
                0,
                "stale events must be rejected after resubmission too"
            );
        }
        for event in queue_download_request_events(&request) {
            world.event(event);
        }
        let plan = plan_requests(&vec![request]);
        let (node_set, error) = fetched_node_set(
            ResolvedUrl::direct(&url),
            plan.value(0),
            Ok(CollectedFiles {
                to_download: vec![DownloadItem {
                    path: id.clone(),
                    handle: "handle".to_string(),
                    size: 32,
                    modified_at: None,
                    sparse_checksum: None,
                    was_partial: false,
                }],
                completed: Vec::new(),
                package_id: package(7),
                package_display_name: "resubmit.bin".to_string(),
            }),
            0,
        );
        assert_eq!(error, None);
        let batch = collect_batch(&vec![node_set]);
        assert_eq!(batch.queued_items.len(), 1);
        let item = batch.queued_items[0].copy();
        let batch = scheduler.register_resolved_batch(batch);
        for event in batch.events() {
            world.event(event);
        }
        assert!(
            world.app.core_state.contains_file(&id),
            "generation {generation} should be restored by real queued events"
        );
        assert_eq!(item.attempt_id, generation);
        scheduler.sync_pending_order(world.pending_ids());
        assert!(scheduler.pending_queue.contains(&id));

        if generation == 0 {
            world.action(UiAction::DeleteFile(id.clone()));
            world.app.core_state.url_order.clear();
        } else {
            world.action(UiAction::DeletePackage(package(7)));
        }
        world.event(DownloadEvent::FileQueued(
            item.queued_event(FileAccounting::CurrentRun),
        ));
        assert!(!world.app.core_state.contains_file(&id));
        previous = Some(item);
    }
}

#[test]
fn record_progress_caps_downloaded_at_file_size() {
    let mut world = world_with_file("file.bin", 100);
    world.apply(started("file.bin", 100));
    world.apply(progressed("file.bin", 90));
    world.sync_visible();
    assert_eq!(world.visible("file.bin").downloaded, 90);

    world.progress("file.bin", |progress| {
        progress.visible_completed_bytes += 20;
        progress.downloaded_network_bytes += 20;
    });
    let progress = world
        .app
        .refresh_visible_progress_file(&"file.bin".to_string());

    assert_eq!(progress, Some((10, 100)));
    assert_eq!(world.visible("file.bin").downloaded, 100);
}

#[test]
fn completed_file_sync_clears_stale_file_speed() {
    let mut world = world_with_file("file.bin", 100);
    world.apply(started("file.bin", 100));
    assert_eq!(shown_speed(world.visible("file.bin"), 123), 123);
    world.apply(CoreEvent::FileCompleted {
        file_id: "file.bin".to_string(),
    });
    assert_eq!(shown_speed(world.visible("file.bin"), 123), 0);
}
