//! Which handler an event or a request of the user goes to.

use vstd::prelude::*;

use crate::actions;
use crate::app::{App, AppStep, Status};
use crate::commands;
use crate::events::DownloadEvent;
use crate::ids::{self, FileId};
use crate::model::CoreCommand;
use crate::packages;
use crate::settings::{self, ConfigState, DownloadConfig, LoginState, Popup, UiAction};
use crate::shutdown;
use crate::tracking;

verus! {

/// How the end of a login is handled.
pub open spec fn login_completed(
    before: App,
    after: App,
    success: bool,
    error: Option<String>,
    saved_session: Option<String>,
    clear_saved_session: bool,
    steps: Seq<AppStep>,
) -> bool {
    let kept = if clear_saved_session {
        None
    } else {
        before.saved_mega_session
    };
    if success {
        &&& after == (App {
            login: LoginState { logging_in: false, ..before.login },
            authenticated: true,
            popup: Popup::Closed,
            saved_mega_session: match saved_session {
                Some(session) => Some(session),
                None => kept,
            },
            client_pending: false,
            download_task_running: true,
            ..before
        })
        &&& steps =~= seq![
            AppStep::SetStatus(Status::LoginSuccessful),
            AppStep::PersistLogin { report: true },
            AppStep::StartDownloadTask,
        ]
    } else {
        &&& after == (App {
            login: LoginState { logging_in: false, error, ..before.login },
            popup: Popup::Login,
            saved_mega_session: kept,
            client_pending: false,
            ..before
        })
        &&& steps =~= (if clear_saved_session {
            seq![
                AppStep::PersistLogin { report: false },
                AppStep::SetStatus(Status::LoginFailed { error }),
            ]
        } else {
            seq![AppStep::SetStatus(Status::LoginFailed { error })]
        })
    }
}

/// What is done about the session when the download task starts.
#[derive(Clone, Copy, Debug, PartialEq, Eq, Structural)]
pub enum SessionPlan {
    /// Nothing is saved.
    Nothing,
    /// The credentials of the session are replaced.
    UpdateCredentials,
    /// A session is made of the submitted addresses.
    Create,
}

/// Whether there is anything to be saved.
pub open spec fn has_content(app: App) -> bool {
    app.core_state.url_order@.len() > 0 || app.files@.len() > 0 || app.overlay_files.keys().len()
        > 0 || app.core_state.files.keys().len() > 0
}

impl App {
    /// A login ended.
    pub fn complete_login(
        &mut self,
        success: bool,
        error: Option<String>,
        saved_session: Option<String>,
        clear_saved_session: bool,
    ) -> (steps: Vec<AppStep>)
        requires
            success ==> !old(self).download_task_running,
        ensures
            login_completed(
                *old(self),
                *final(self),
                success,
                error,
                saved_session,
                clear_saved_session,
                steps@,
            ),
    {
        self.login.logging_in = false;
        if !success {
            self.client_pending = false;
        }
        if clear_saved_session {
            self.saved_mega_session = None;
        }
        if success {
            self.authenticated = true;
            self.popup = Popup::Closed;
            if saved_session.is_some() {
                self.saved_mega_session = saved_session;
            }
            self.start_download_task();
            return vec![
                AppStep::SetStatus(Status::LoginSuccessful),
                AppStep::PersistLogin { report: true },
                AppStep::StartDownloadTask,
            ];
        }
        let mut steps: Vec<AppStep> = Vec::new();
        if clear_saved_session {
            steps.push(AppStep::PersistLogin { report: false });
        }
        let reason = match &error {
            Some(reason) => Some(reason.clone()),
            None => None,
        };
        self.login.error = error;
        self.popup = Popup::Login;
        steps.push(AppStep::SetStatus(Status::LoginFailed { error: reason }));
        steps
    }

    /// Notes that the download task runs and has been given what it needs.
    pub fn start_download_task(&mut self)
        requires
            !old(self).download_task_running,
        ensures
            *final(self) == (App {
                client_pending: false,
                download_task_running: true,
                ..*old(self)
            }),
    {
        self.client_pending = false;
        self.download_task_running = true;
    }

    /// What is done about the session when the download task starts. Without credentials that
    /// can be saved nothing is; without anything to save no session is made.
    pub fn ensure_download_session(&self, has_credentials: bool, has_session: bool) -> (plan:
        SessionPlan)
        requires
            self.wf(),
        ensures
            plan == (if !has_credentials {
                SessionPlan::Nothing
            } else if has_session {
                SessionPlan::UpdateCredentials
            } else if has_content(*self) {
                SessionPlan::Create
            } else {
                SessionPlan::Nothing
            }),
    {
        if !has_credentials {
            return SessionPlan::Nothing;
        }
        if has_session {
            return SessionPlan::UpdateCredentials;
        }
        if self.core_state.url_order.len() == 0 && self.files.len() == 0
            && self.overlay_files.len() == 0 && self.core_state.files.len() == 0 {
            return SessionPlan::Nothing;
        }
        SessionPlan::Create
    }

    /// Submits addresses together.
    fn add_urls(&self, urls: Vec<String>) -> (steps: Vec<AppStep>)
        ensures
            steps@ == urls_added(urls@),
    {
        let mut steps: Vec<AppStep> = Vec::new();
        steps.push(AppStep::BeginBatch);
        let mut i: usize = 0;
        while i < urls.len()
            invariant
                i <= urls@.len(),
                steps@.len() == i + 1,
                steps@[0] == AppStep::BeginBatch,
                forall|k: int| 0 <= k < i ==> #[trigger] steps@[k + 1] == AppStep::SubmitUrl(urls@[k]),
            decreases urls.len() - i,
        {
            steps.push(AppStep::SubmitUrl(urls[i].clone()));
            i += 1;
        }
        steps.push(AppStep::EndBatch);
        steps.push(AppStep::SetStatus(Status::Received { count: urls.len() }));
        proof {
            let expected = urls_added(urls@);
            assert forall|k: int| 0 <= k < steps@.len() implies steps@[k] == expected[k] by {
                if 1 <= k <= urls@.len() {
                    assert(steps@[(k - 1) + 1] == AppStep::SubmitUrl(urls@[k - 1]));
                }
            }
            assert(steps@ =~= expected);
        }
        steps
    }

    /// Does what the user asks for. `session_urls` are the addresses that the session knows.
    pub fn handle_ui_action(&mut self, action: UiAction, session_urls: &Vec<String>) -> (steps: Vec<
        AppStep,
    >)
        requires
            old(self).wf(),
        ensures
            action_handled(*old(self), *final(self), action, *session_urls, steps@),
            final(self).wf(),
    {
        match action {
            UiAction::AddUrls(urls) => self.add_urls(urls),
            UiAction::Login { email, password, mfa } => {
                if self.login.set_credentials(email, password, mfa) {
                    vec![AppStep::BeginLogin]
                } else {
                    Vec::new()
                }
            },
            UiAction::TogglePause => {
                if self.paused {
                    self.resume_downloads()
                } else {
                    self.pause_downloads()
                }
            },
            UiAction::DeleteFile(id) => self.perform_delete_file_action(&id),
            UiAction::DeletePackage(id) => self.perform_delete_package_action(id),
            UiAction::RetryFile(id) => self.perform_retry_file_action(&id),
            UiAction::RetryPackage(id) => self.perform_retry_package_action(id, session_urls),
            UiAction::ReverifyFile(id) => self.perform_reverify_file_action(&id),
            UiAction::ReverifyPackage(id) => self.perform_reverify_package_action(id),
            UiAction::ResetFile(id) => self.perform_reset_file_action(&id),
            UiAction::ResetPackage(id) => self.perform_reset_package_action(id),
            UiAction::MoveFile { file_id, delta } => self.perform_move_file_action(file_id, delta),
            UiAction::MovePackage { package_id, delta } => self.perform_move_package_action(
                package_id,
                delta,
            ),
            UiAction::UpdateConfig {
                chunks_per_file,
                mega_chunks_per_request,
                concurrent_files,
                force_overwrite,
                cleanup_on_error,
            } => {
                self.config.apply_config_update(
                    chunks_per_file,
                    mega_chunks_per_request,
                    concurrent_files,
                    force_overwrite,
                    cleanup_on_error,
                );
                Vec::new()
            },
        }
    }

    /// Handles an event of the download task.
    pub fn handle_download_event(&mut self, event: DownloadEvent) -> (steps: Vec<AppStep>)
        requires
            old(self).wf(),
            event matches DownloadEvent::LoginResult { success: true, .. } ==> !old(
                self,
            ).download_task_running,
        ensures
            event_handled(*old(self), *final(self), event, steps@),
            final(self).wf(),
    {
        match event {
            DownloadEvent::LoginResult { success, error, saved_session, clear_saved_session } => {
                self.complete_login(success, error, saved_session, clear_saved_session)
            },
            DownloadEvent::FilesCollected { total, skipped, partial, total_bytes } => vec![
                AppStep::SetStatus(Status::Collected { total, skipped, partial, total_bytes }),
            ],
            DownloadEvent::FileStart { id, size, attempt_id } => self.handle_file_start_event(
                id,
                size,
                attempt_id,
            ),
            DownloadEvent::ResumeValidationStarted {
                id,
                attempt_id,
            } => self.handle_resume_validation_started_event(id, attempt_id),
            DownloadEvent::Progress { id, delta, attempt_id } => self.handle_file_progress_event(
                id,
                delta,
                attempt_id,
            ),
            DownloadEvent::VerificationProgress {
                id,
                bytes_delta,
            } => self.handle_verification_progress_event(id, bytes_delta),
            DownloadEvent::ResumeReused {
                id,
                chunks,
                bytes,
                attempt_id,
            } => self.handle_resume_reused_event(id, chunks, bytes, attempt_id),
            DownloadEvent::ResumeReverified {
                id,
                chunks,
                bytes,
            } => self.handle_resume_reverified_event(id, chunks, bytes),
            DownloadEvent::CompletedFileVerified {
                id,
                bytes,
            } => self.handle_completed_file_verified_event(id, bytes),
            DownloadEvent::VerificationSkipped {
                id,
                completed,
            } => self.handle_verification_skipped_event(id, completed),
            DownloadEvent::FileComplete { id, attempt_id } => self.handle_file_complete_event(
                id,
                attempt_id,
            ),
            DownloadEvent::FileCancelled { id, attempt_id } => self.handle_file_cancelled_event(
                id,
                attempt_id,
            ),
            DownloadEvent::FileError { id, error, attempt_id } => self.handle_file_error_event(
                id,
                error,
                attempt_id,
            ),
            DownloadEvent::ScopeError { scope, error } => self.handle_scope_error_event(
                scope,
                error,
            ),
            DownloadEvent::UrlQueued { url } => {
                if self.deleted_url_tombstones.contains(&url) {
                    Vec::new()
                } else {
                    vec![AppStep::QueuePlaceholder(url)]
                }
            },
            DownloadEvent::FileQueued(file) => self.handle_file_queued_event(file),
            DownloadEvent::UrlResolved { url } => self.handle_url_resolved_event(url),
            DownloadEvent::StatusMessage(message) => vec![
                AppStep::SetStatus(Status::Message(message)),
            ],
            DownloadEvent::UrlsReceived { urls } => self.add_urls(urls),
            DownloadEvent::ProgressWakeup => Vec::new(),
            DownloadEvent::VerificationProgressForOperation { id, operation_id, bytes_delta } => {
                vec![
                    AppStep::Operation(
                        DownloadEvent::VerificationProgressForOperation {
                            id,
                            operation_id,
                            bytes_delta,
                        },
                    ),
                ]
            },
            DownloadEvent::ResumeReverifiedForOperation { id, operation_id, chunks, bytes } => {
                vec![
                    AppStep::Operation(
                        DownloadEvent::ResumeReverifiedForOperation {
                            id,
                            operation_id,
                            chunks,
                            bytes,
                        },
                    ),
                ]
            },
            DownloadEvent::CompletedFileVerifiedForOperation { id, operation_id, bytes } => {
                vec![
                    AppStep::Operation(
                        DownloadEvent::CompletedFileVerifiedForOperation {
                            id,
                            operation_id,
                            bytes,
                        },
                    ),
                ]
            },
            DownloadEvent::VerificationFailed { id, operation_id, error } => {
                vec![
                    AppStep::Operation(
                        DownloadEvent::VerificationFailed { id, operation_id, error },
                    ),
                ]
            },
        }
    }
}

/// What follows where addresses are submitted together.
pub open spec fn urls_added(urls: Seq<String>) -> Seq<AppStep> {
    seq![AppStep::BeginBatch] + urls.map_values(|url: String| AppStep::SubmitUrl(url)) + seq![
        AppStep::EndBatch,
        AppStep::SetStatus(Status::Received { count: urls.len() as usize }),
    ]
}

/// How a request of the user is handled.
pub open spec fn action_handled(
    before: App,
    after: App,
    action: UiAction,
    session_urls: Vec<String>,
    steps: Seq<AppStep>,
) -> bool {
    match action {
        UiAction::AddUrls(urls) => after == before && steps =~= urls_added(urls@),
        UiAction::Login { email, password, mfa } => if email@.len() > 0 && password@.len() > 0 {
            &&& after == (App {
                login: LoginState { email, password, mfa, ..before.login },
                ..before
            })
            &&& steps =~= seq![AppStep::BeginLogin]
        } else {
            after == before && steps =~= Seq::empty()
        },
        UiAction::TogglePause => if before.paused {
            commands::downloads_resumed(before, after, steps)
        } else {
            shutdown::downloads_paused(before, after, steps)
        },
        UiAction::DeleteFile(id) => commands::file_deleted(before, after, id, steps),
        UiAction::DeletePackage(id) => commands::package_deleted(before, after, id, steps),
        UiAction::RetryFile(id) => commands::file_retried(before, after, id, steps),
        UiAction::RetryPackage(id) => after == before && packages::package_retried(
            before,
            id,
            session_urls,
            steps,
        ),
        UiAction::ReverifyFile(id) => commands::file_reverified(before, after, id, steps),
        UiAction::ReverifyPackage(id) => packages::package_reverified(before, after, id, steps),
        UiAction::ResetFile(id) => commands::file_reset(before, after, id, steps),
        UiAction::ResetPackage(id) => after == before && commands::package_reset(before, id, steps),
        UiAction::MoveFile { file_id, delta } => {
            &&& after == before
            &&& steps =~= seq![AppStep::Command(CoreCommand::MoveFile { file_id, delta })]
        },
        UiAction::MovePackage { package_id, delta } => {
            &&& after == before
            &&& steps =~= seq![AppStep::Command(CoreCommand::MovePackage { package_id, delta })]
        },
        UiAction::UpdateConfig {
            chunks_per_file,
            mega_chunks_per_request,
            concurrent_files,
            force_overwrite,
            cleanup_on_error,
        } => {
            let config = before.config.config;
            &&& after == (App {
                config: ConfigState {
                    config: DownloadConfig {
                        chunks_per_file: settings::updated_count(
                            config.chunks_per_file,
                            chunks_per_file,
                        ),
                        mega_chunks_per_request: settings::updated_count(
                            config.mega_chunks_per_request,
                            mega_chunks_per_request,
                        ),
                        concurrent_files: settings::updated_count(
                            config.concurrent_files,
                            concurrent_files,
                        ),
                        force_overwrite: match force_overwrite {
                            Some(value) => value,
                            None => config.force_overwrite,
                        },
                        cleanup_on_error: match cleanup_on_error {
                            Some(value) => value,
                            None => config.cleanup_on_error,
                        },
                        path: config.path,
                    },
                    ..before.config
                },
                ..before
            })
            &&& steps =~= Seq::empty()
        },
    }
}

/// How an event of the download task is handled.
pub open spec fn event_handled(
    before: App,
    after: App,
    event: DownloadEvent,
    steps: Seq<AppStep>,
) -> bool {
    match event {
        DownloadEvent::LoginResult {
            success,
            error,
            saved_session,
            clear_saved_session,
        } => login_completed(
            before,
            after,
            success,
            error,
            saved_session,
            clear_saved_session,
            steps,
        ),
        DownloadEvent::FilesCollected { total, skipped, partial, total_bytes } => {
            &&& after == before
            &&& steps =~= seq![
                AppStep::SetStatus(Status::Collected { total, skipped, partial, total_bytes }),
            ]
        },
        DownloadEvent::FileStart { id, size, attempt_id } => actions::file_started(
            before,
            after,
            id,
            size,
            attempt_id,
            steps,
        ),
        DownloadEvent::ResumeValidationStarted { id, attempt_id } => actions::validation_started(
            before,
            after,
            id,
            attempt_id,
            steps,
        ),
        DownloadEvent::Progress { id, delta, attempt_id } => actions::file_progressed(
            before,
            after,
            id,
            delta,
            attempt_id,
            steps,
        ),
        DownloadEvent::VerificationProgress { id, bytes_delta } => {
            &&& after == before
            &&& actions::verification_progressed(before, id, bytes_delta, steps)
        },
        DownloadEvent::ResumeReused { id, chunks, bytes, attempt_id } => actions::resume_reused(
            before,
            after,
            id,
            chunks,
            bytes,
            attempt_id,
            steps,
        ),
        DownloadEvent::ResumeReverified { id, chunks, bytes } => actions::resume_reverified(
            before,
            after,
            id,
            chunks,
            bytes,
            steps,
        ),
        DownloadEvent::CompletedFileVerified { id, bytes } => actions::completed_verified(
            before,
            after,
            id,
            bytes,
            steps,
        ),
        DownloadEvent::VerificationSkipped { id, completed } => actions::verification_skipped(
            before,
            after,
            id,
            completed,
            steps,
        ),
        DownloadEvent::FileComplete { id, attempt_id } => actions::file_completed(
            before,
            after,
            id,
            attempt_id,
            steps,
        ),
        DownloadEvent::FileCancelled { id, attempt_id } => actions::file_cancelled(
            before,
            after,
            id,
            attempt_id,
            steps,
        ),
        DownloadEvent::FileError { id, error, attempt_id } => actions::file_failed(
            before,
            after,
            id,
            error,
            attempt_id,
            steps,
        ),
        DownloadEvent::ScopeError { scope, error } => actions::scope_failed(
            before,
            after,
            scope,
            error,
            steps,
        ),
        DownloadEvent::UrlQueued { url } => {
            &&& after == before
            &&& steps =~= (if before.deleted_url_tombstones@.contains(url@) {
                Seq::empty()
            } else {
                seq![AppStep::QueuePlaceholder(url)]
            })
        },
        DownloadEvent::FileQueued(file) => actions::file_queued(before, after, file, steps),
        DownloadEvent::UrlResolved { url } => actions::url_resolved(before, after, url, steps),
        DownloadEvent::StatusMessage(message) => {
            &&& after == before
            &&& steps =~= seq![AppStep::SetStatus(Status::Message(message))]
        },
        DownloadEvent::UrlsReceived { urls } => after == before && steps =~= urls_added(urls@),
        DownloadEvent::ProgressWakeup => after == before && steps =~= Seq::empty(),
        _ => after == before && steps =~= seq![AppStep::Operation(event)],
    }
}

/// The file and the attempt at it that an event speaks of.
pub open spec fn attempt_of(event: DownloadEvent) -> Option<(FileId, u64)> {
    match event {
        DownloadEvent::FileStart { id, attempt_id, .. } => Some((id, attempt_id)),
        DownloadEvent::ResumeValidationStarted { id, attempt_id } => Some((id, attempt_id)),
        DownloadEvent::Progress { id, attempt_id, .. } => Some((id, attempt_id)),
        DownloadEvent::ResumeReused { id, attempt_id, .. } => Some((id, attempt_id)),
        DownloadEvent::FileComplete { id, attempt_id } => Some((id, attempt_id)),
        DownloadEvent::FileCancelled { id, attempt_id } => Some((id, attempt_id)),
        DownloadEvent::FileError { id, attempt_id, .. } => Some((id, attempt_id)),
        DownloadEvent::FileQueued(file) => Some((file.id, file.attempt_id)),
        _ => None,
    }
}

/// Once a new attempt at a file has begun, events of other attempts change nothing and ask for
/// nothing.
pub proof fn law_outdated_events_are_ignored(
    before: App,
    after: App,
    event: DownloadEvent,
    steps: Seq<AppStep>,
)
    requires
        event_handled(before, after, event, steps),
        attempt_of(event) matches Some((id, attempt)) && before.tracking@.attempt(id@) != attempt,
    ensures
        after == before,
        steps == Seq::<AppStep>::empty(),
{
}

/// After a file is deleted, retried or reset, events of the attempts before that change nothing
/// and ask for nothing, unless the numbers have run out.
pub proof fn law_starting_over_outdates_events(
    before: App,
    restarted: App,
    after: App,
    action: UiAction,
    session_urls: Vec<String>,
    first: Seq<AppStep>,
    event: DownloadEvent,
    steps: Seq<AppStep>,
)
    requires
        action_handled(before, restarted, action, session_urls, first),
        event_handled(restarted, after, event, steps),
        attempt_of(event) matches Some((id, attempt)) && {
            &&& attempt <= before.tracking@.attempt(id@) < u64::MAX
            &&& match action {
                UiAction::DeleteFile(file) => file@ == id@,
                UiAction::RetryFile(file) => file@ == id@,
                UiAction::ResetFile(file) => file@ == id@ && before.core_state.has(id@),
                _ => false,
            }
        },
    ensures
        after == restarted,
        steps == Seq::<AppStep>::empty(),
{
    let (id, attempt) = attempt_of(event)->0;
    tracking::law_new_attempt_outdates_events(before.tracking@, id@, attempt);
    assert(restarted.tracking@.attempt(id@) == before.tracking@.bumped(id@).attempt(id@));
    law_outdated_events_are_ignored(restarted, after, event, steps);
}

/// A submission that was deleted while it waited does not come back with events of its lookup:
/// neither its row nor its files.
pub proof fn law_deleted_submissions_stay_away(
    before: App,
    deleted: App,
    after: App,
    url: FileId,
    session_urls: Vec<String>,
    first: Seq<AppStep>,
    event: DownloadEvent,
    steps: Seq<AppStep>,
)
    requires
        action_handled(before, deleted, UiAction::DeleteFile(url), session_urls, first),
        !before.core_state.has(url@),
        before.knows_url(url@),
        event_handled(deleted, after, event, steps),
        match event {
            DownloadEvent::UrlQueued { url: queued } => queued@ == url@,
            DownloadEvent::FileQueued(file) => file.origin.source_url@ == url@
                && file.origin.submitted_url@ == url@,
            _ => false,
        },
    ensures
        after == deleted,
        steps == Seq::<AppStep>::empty(),
{
    broadcast use vstd::seq_lib::group_filter_ensures;

    let known = ids::texts(before.core_state.url_order@);
    assert(!known.filter(actions::other_than(url@)).contains(url@));
    assert(!deleted.knows_url(url@));
}

/// Pausing and resuming take each other back.
pub proof fn law_toggling_twice_changes_no_pause(
    before: App,
    between: App,
    after: App,
    session_urls: Vec<String>,
    first: Seq<AppStep>,
    second: Seq<AppStep>,
)
    requires
        action_handled(before, between, UiAction::TogglePause, session_urls, first),
        action_handled(between, after, UiAction::TogglePause, session_urls, second),
    ensures
        between.paused == !before.paused,
        after.paused == before.paused,
{
}

/// While a reset file waits for its new attempt, the end of a transfer of it changes nothing.
pub proof fn law_reset_files_ignore_endings(
    before: App,
    after: App,
    event: DownloadEvent,
    id: FileId,
    steps: Seq<AppStep>,
)
    requires
        event_handled(before, after, event, steps),
        before.tracking@.reset.contains(id@),
        match event {
            DownloadEvent::FileComplete { id: of, .. } => of == id,
            DownloadEvent::FileCancelled { id: of, .. } => of == id,
            DownloadEvent::FileError { id: of, .. } => of == id,
            _ => false,
        },
    ensures
        after == before,
        steps == Seq::<AppStep>::empty(),
{
}

/// The end of a transfer that is taken in leaves no verification and no token of the file.
pub proof fn law_endings_leave_nothing_under_way(
    before: App,
    after: App,
    event: DownloadEvent,
    id: FileId,
    steps: Seq<AppStep>,
)
    requires
        event_handled(before, after, event, steps),
        steps.len() > 0,
        match event {
            DownloadEvent::FileComplete { id: of, .. } => of == id,
            DownloadEvent::FileCancelled { id: of, .. } => of == id,
            DownloadEvent::FileError { id: of, .. } => of == id,
            _ => false,
        },
    ensures
        after.tracking@.has_no_verification(id@),
        !after.tracking@.tokens.contains(id@),
        !after.tracking@.shutdown.contains(id@),
{
}

} // verus!
