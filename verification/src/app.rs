//! The state of the application and the steps that its handlers ask for.

use vstd::prelude::*;

use crate::events::{DownloadEvent, DownloadRequest};
use crate::ids::{FileId, FileIdSet, PackageId};
use crate::model::{
    CoreCommand, CoreEvent, DownloadState, FileEntry, FileStatus, RunTotals, TransientRow,
    VisibleFileContext,
};
use crate::ordered::OrderedMap;
use crate::settings::{
    ConfigState, ConfirmAction, DownloadConfig, LoginState, NoCredentialsFallback, Popup, QuitPolicy,
    SortDirection, SortKey, SortState,
};
use crate::text::{self, decimal_text, joined};
use crate::tracking::{FileTracking, TrackingModel};

verus! {

/// What the status line says.
#[allow(inconsistent_fields)]
#[derive(Debug, PartialEq, Eq)]
pub enum Status {
    Paused,
    Resuming,
    AllComplete,
    Activity { downloading: bool, completed: usize, total: usize },
    Received { count: usize },
    Collected { total: usize, skipped: usize, partial: usize, total_bytes: u64 },
    Reusing { id: FileId, chunks: usize, bytes: u64 },
    Verified { id: FileId, bytes: u64 },
    VerificationSkipped { id: FileId },
    RetryUnavailable { id: FileId },
    ReverifyUnavailable,
    ResetUnavailable,
    VerifyingCompleted { id: FileId },
    ReverifyingResume { id: FileId },
    NothingToVerify,
    VerifyingPackage { count: usize },
    LoggingIn,
    ResumingSession,
    LoginSuccessful,
    LoginUnsaved { error: String },
    LoginFailed { error: Option<String> },
    DeliveryFailed { failure: String },
    SessionSaveFailed { error: String },
    SessionRemoveFailed { error: String },
    Message(String),
}

impl Status {
    /// The text of a status; `size` is the text of the byte count in it.
    pub open spec fn shown(self, size: Seq<char>) -> Seq<char> {
        match self {
            Status::Paused => "Paused"@,
            Status::Resuming => "Resuming downloads..."@,
            Status::AllComplete => "All downloads complete"@,
            Status::Activity { downloading, completed, total } => (if downloading {
                "Downloading"@
            } else {
                "Queued"@
            }) + " ("@ + text::decimal(completed as nat) + "/"@ + text::decimal(total as nat) + ")"@,
            Status::Received { count } => "Received "@ + text::decimal(count as nat)
                + " URL(s) from bookmarklet"@,
            Status::Collected { total, skipped, partial, .. } => "Found "@ + text::decimal(
                total as nat,
            ) + " files ("@ + text::decimal(skipped as nat) + " skipped, "@ + text::decimal(
                partial as nat,
            ) + " partial, "@ + size + ")"@,
            Status::Reusing { id, chunks, .. } => "Reusing "@ + text::decimal(chunks as nat)
                + " verified chunk(s) for "@ + id@ + " ("@ + size + ")"@,
            Status::Verified { id, .. } => "Verified "@ + id@ + ": "@ + size,
            Status::VerificationSkipped { id } => "Verification skipped for "@ + id@,
            Status::RetryUnavailable { id } => "Retry unavailable for "@ + id@,
            Status::ReverifyUnavailable => "Reverify unavailable for selected file"@,
            Status::ResetUnavailable => "Reset unavailable for selected file"@,
            Status::VerifyingCompleted { id } => "Verifying completed file "@ + id@ + "..."@,
            Status::ReverifyingResume { id } => "Reverifying resume data for "@ + id@ + "..."@,
            Status::NothingToVerify => "No package file(s) have resume data to verify"@,
            Status::VerifyingPackage { count } => "Verifying "@ + text::decimal(count as nat)
                + " package file(s), 4 at a time..."@,
            Status::LoggingIn => "Logging in..."@,
            Status::ResumingSession => "Resuming saved session..."@,
            Status::LoginSuccessful => "Login successful"@,
            Status::LoginUnsaved { error } => "Login successful (config save failed: "@ + error@
                + ")"@,
            Status::LoginFailed { error: None } => "Login failed"@,
            Status::LoginFailed { error: Some(reason) } => "Login failed: "@ + reason@,
            Status::DeliveryFailed { failure } => "Download event delivery failed: "@ + failure@,
            Status::SessionSaveFailed { error } => "Failed to save session: "@ + error@,
            Status::SessionRemoveFailed { error } => "Failed to remove empty session: "@ + error@,
            Status::Message(message) => message@,
        }
    }

    /// The text of a status; `size` is the text of the byte count in it.
    pub fn text(&self, size: &str) -> (shown: String)
        ensures
            shown@ == self.shown(size@),
    {
        match self {
            Status::Paused => "Paused".to_owned(),
            Status::Resuming => "Resuming downloads...".to_owned(),
            Status::AllComplete => "All downloads complete".to_owned(),
            Status::Activity { downloading, completed, total } => {
                let mut shown = (if *downloading {
                    "Downloading"
                } else {
                    "Queued"
                }).to_owned();
                shown.append(" (");
                shown.append(&decimal_text(*completed as u64));
                shown.append("/");
                shown.append(&decimal_text(*total as u64));
                shown.append(")");
                shown
            },
            Status::Received { count } => text::counted(
                "Received ",
                *count as u64,
                " URL(s) from bookmarklet",
            ),
            Status::Collected { total, skipped, partial, .. } => {
                let mut shown = text::counted("Found ", *total as u64, " files (");
                shown.append(&decimal_text(*skipped as u64));
                shown.append(" skipped, ");
                shown.append(&decimal_text(*partial as u64));
                shown.append(" partial, ");
                shown.append(size);
                shown.append(")");
                shown
            },
            Status::Reusing { id, chunks, .. } => {
                let mut shown = text::counted(
                    "Reusing ",
                    *chunks as u64,
                    " verified chunk(s) for ",
                );
                shown.append(id);
                shown.append(" (");
                shown.append(size);
                shown.append(")");
                shown
            },
            Status::Verified { id, .. } => {
                let mut shown = text::quoted("Verified ", id, ": ");
                shown.append(size);
                shown
            },
            Status::VerificationSkipped { id } => joined("Verification skipped for ", id),
            Status::RetryUnavailable { id } => joined("Retry unavailable for ", id),
            Status::ReverifyUnavailable => "Reverify unavailable for selected file".to_owned(),
            Status::ResetUnavailable => "Reset unavailable for selected file".to_owned(),
            Status::VerifyingCompleted { id } => text::quoted(
                "Verifying completed file ",
                id,
                "...",
            ),
            Status::ReverifyingResume { id } => text::quoted(
                "Reverifying resume data for ",
                id,
                "...",
            ),
            Status::NothingToVerify => "No package file(s) have resume data to verify".to_owned(),
            Status::VerifyingPackage { count } => text::counted(
                "Verifying ",
                *count as u64,
                " package file(s), 4 at a time...",
            ),
            Status::LoggingIn => "Logging in...".to_owned(),
            Status::ResumingSession => "Resuming saved session...".to_owned(),
            Status::LoginSuccessful => "Login successful".to_owned(),
            Status::LoginUnsaved { error } => text::quoted(
                "Login successful (config save failed: ",
                error,
                ")",
            ),
            Status::LoginFailed { error: None } => "Login failed".to_owned(),
            Status::LoginFailed { error: Some(reason) } => joined("Login failed: ", reason),
            Status::DeliveryFailed { failure } => joined(
                "Download event delivery failed: ",
                failure,
            ),
            Status::SessionSaveFailed { error } => joined("Failed to save session: ", error),
            Status::SessionRemoveFailed { error } => joined(
                "Failed to remove empty session: ",
                error,
            ),
            Status::Message(message) => message.clone(),
        }
    }
}

/// What an error row says.
#[derive(Debug, PartialEq, Eq)]
pub enum Notice {
    RetryUnavailable,
    ReverifyUnavailable,
    ResetUnavailable,
    Message(String),
}

impl Notice {
    /// The text of a notice.
    pub open spec fn shown(self) -> Seq<char> {
        match self {
            Notice::RetryUnavailable => "Retry unavailable for this file"@,
            Notice::ReverifyUnavailable => "Reverify unavailable for this file"@,
            Notice::ResetUnavailable => "Reset unavailable for this file"@,
            Notice::Message(message) => message@,
        }
    }

    /// The text of a notice.
    pub fn text(&self) -> (shown: String)
        ensures
            shown@ == self.shown(),
    {
        match self {
            Notice::RetryUnavailable => "Retry unavailable for this file".to_owned(),
            Notice::ReverifyUnavailable => "Reverify unavailable for this file".to_owned(),
            Notice::ResetUnavailable => "Reset unavailable for this file".to_owned(),
            Notice::Message(message) => message.clone(),
        }
    }
}

/// Something that a handler asks for. Steps are taken in order, each on what the ones before it
/// left.
#[allow(inconsistent_fields)]
#[derive(Debug, PartialEq, Eq)]
pub enum AppStep {
    /// Put off saving the session and building the list of rows.
    BeginBatch,
    /// Do what was put off.
    EndBatch,
    /// Hand an event to the core.
    Apply(CoreEvent),
    /// Hand an event to the core that changes nothing but progress.
    ApplyProgress(CoreEvent),
    /// Hand a request of the user to the core.
    Command(CoreCommand),
    /// Make sure that there is a session to save.
    EnsureSession,
    /// Submit an address, as `App::submit_url` says.
    SubmitUrl(String),
    /// Submit an address anew, as `App::retry_source_url` says.
    RetrySource(String),
    /// Show that an address waits, as `App::queue_url_placeholder` says.
    QueuePlaceholder(String),
    /// Retry a file, as `App::perform_retry_file_action` says.
    RetryFile(FileId),
    /// Reset a file, as `App::perform_reset_file_action` says.
    ResetFile(FileId),
    /// Set what is known of a queued file, as `App::settle_core_file` says.
    SettleFile { file_id: FileId, source_url: String, size: u64, counted: bool },
    /// Bring the row of a file up to date.
    RefreshFile(FileId),
    /// Bring the progress of a file up to date.
    RefreshProgress(FileId),
    /// Measure the speed of a file anew.
    ResetRate(FileId),
    /// Measure the speed of all files anew.
    ResetAggregateRate,
    /// Drop the row of a file, as `App::forget_visible_file` says.
    ForgetRow(FileId),
    /// Drop what is measured of a file.
    ForgetUi(FileId),
    /// Drop an overlay row.
    DropOverlay(FileId),
    /// Show an error under the name of its row, as `App::show_overlay_error` says.
    ShowError { id: FileId, notice: Notice },
    /// The same, unless the core knows the file.
    ShowErrorIfUnknown { id: FileId, notice: Notice },
    /// Build the list of rows anew.
    SyncVisible,
    /// Bring the totals up to date.
    RecomputeTotals,
    /// Say in the status line how downloads go, as `App::download_status` says.
    UpdateStatus,
    /// Say something in the status line.
    SetStatus(Status),
    /// Cancel the transfer of a file.
    CancelToken(FileId),
    /// Tell the download task whether downloads are paused.
    BroadcastPause(bool),
    /// Ask the download task for something.
    Send(DownloadRequest),
    /// Take an address out of the session.
    RemoveSessionUrl(String),
    /// Take a file out of the session.
    RemoveSessionFile(FileId),
    /// Take a package out of the session and the core.
    RemovePackage(PackageId),
    /// Log in.
    BeginLogin,
    /// Save the login to the configuration; say so where that fails and `report` is set.
    PersistLogin { report: bool },
    /// Start the download task.
    StartDownloadTask,
    /// Handle an event of a numbered verification; who numbered it knows what it is worth.
    Operation(DownloadEvent),
}

/// The application.
pub struct App {
    pub popup: Popup,
    pub pending_confirmation: Option<ConfirmAction>,
    pub should_quit: bool,
    pub quit_policy: QuitPolicy,
    pub login: LoginState,
    pub authenticated: bool,
    pub saved_mega_session: Option<String>,
    pub deferred_login_fallback: Option<NoCredentialsFallback>,
    /// When to log in by itself, in milliseconds.
    pub deferred_login_deadline: Option<u64>,
    /// When the user last did something, in milliseconds.
    pub last_user_activity: u64,
    pub url_input: String,
    pub url_input_cursor: usize,
    pub url_input_active: bool,
    pub files: Vec<FileEntry>,
    pub overlay_files: OrderedMap<TransientRow>,
    pub dashboard_revision: u64,
    pub expanded_packages: Vec<PackageId>,
    pub sort: SortState,
    pub total_downloaded: u64,
    pub total_size: u64,
    pub files_completed: usize,
    pub files_total: usize,
    pub total_network_downloaded: u64,
    pub current_speed: u64,
    pub status: String,
    pub paused: bool,
    pub config: ConfigState,
    /// Whether a login task has been given the means to hand over its client.
    pub client_pending: bool,
    pub download_task_running: bool,
    pub tracking: FileTracking,
    pub deleted_url_tombstones: FileIdSet,
    pub core_state: DownloadState,
    pub api_port: u16,
    pub api_key: Option<String>,
    pub persist_config_path: Option<String>,
    /// How much of a processor is used, as the bits of a number.
    pub cpu_usage_bits: u32,
    pub memory_rss: u64,
}

impl App {
    /// The files and rows are each known under one name.
    pub open spec fn wf(&self) -> bool {
        &&& self.core_state.wf()
        &&& self.overlay_files.wf()
        &&& forall|i: int|
            0 <= i < self.overlay_files.values().len() ==> (
            #[trigger] self.overlay_files.values()[i]).entry().id@ == self.overlay_files.keys()[i]
    }

    /// Whether there is an overlay row of a name.
    pub open spec fn overlays(&self, id: Seq<char>) -> bool {
        self.overlay_files.keys().contains(id)
    }

    /// The overlay row of a name.
    pub open spec fn overlay(&self, id: Seq<char>) -> TransientRow
        recommends
            self.overlays(id),
    {
        self.overlay_files.values()[self.overlay_files.keys().index_of(id)]
    }

    /// Whether an event belongs to the current attempt at a file that the core knows.
    pub open spec fn accepts(&self, id: Seq<char>, attempt_id: u64) -> bool {
        self.tracking@.attempt(id) == attempt_id && self.core_state.has(id)
    }

    /// The application as it starts.
    pub fn new(api_port: u16, now: u64, quit_enabled: bool) -> (app: App)
        ensures
            app.wf(),
            app.popup == Popup::Closed,
            app.pending_confirmation is None,
            !app.should_quit,
            app.quit_policy == if quit_enabled {
                QuitPolicy::Enabled
            } else {
                QuitPolicy::Disabled
            },
            app.login.typed().email.len() == 0,
            app.login.typed().password.len() == 0,
            app.login.typed().mfa.len() == 0,
            app.login.active_field == 0,
            app.login.error is None,
            !app.login.logging_in,
            !app.authenticated,
            app.saved_mega_session is None,
            app.deferred_login_fallback is None,
            app.deferred_login_deadline is None,
            app.last_user_activity == now,
            app.url_input@.len() == 0,
            app.url_input_cursor == 0,
            !app.url_input_active,
            app.files@.len() == 0,
            app.overlay_files.keys().len() == 0,
            app.dashboard_revision == 0,
            app.expanded_packages@.len() == 0,
            app.sort == (SortState {
                key: SortKey::Queue,
                direction: SortDirection::Asc,
                active_field: 0,
            }),
            app.total_downloaded == 0,
            app.total_size == 0,
            app.files_completed == 0,
            app.files_total == 0,
            app.total_network_downloaded == 0,
            app.current_speed == 0,
            app.status@.len() == 0,
            !app.paused,
            app.config.config == (DownloadConfig {
                chunks_per_file: 1,
                mega_chunks_per_request: 1,
                concurrent_files: 1,
                force_overwrite: false,
                cleanup_on_error: false,
                path: None,
            }),
            app.config.active_field == 0,
            !app.client_pending,
            !app.download_task_running,
            app.tracking@ == (TrackingModel {
                verifying: Set::empty(),
                inflight: Set::empty(),
                targets: Map::empty(),
                blocking: Set::empty(),
                startup: Set::empty(),
                reverify: Set::empty(),
                reset: Set::empty(),
                shutdown: Set::empty(),
                tokens: Set::empty(),
                attempts: Map::empty(),
            }),
            app.deleted_url_tombstones@ == Set::<Seq<char>>::empty(),
            app.core_state.files.keys().len() == 0,
            app.core_state.packages@.len() == 0,
            app.core_state.url_order@.len() == 0,
            app.core_state.totals == (RunTotals {
                run_total_bytes: 0,
                run_completed_bytes: 0,
                run_file_completed: 0,
                run_file_total: 0,
                run_file_downloading: 0,
                displayed_network_bytes: 0,
            }),
            app.api_port == api_port,
            app.api_key is None,
            app.persist_config_path is None,
            app.cpu_usage_bits == 0,
            app.memory_rss == 0,
    {
        App {
            popup: Popup::Closed,
            pending_confirmation: None,
            should_quit: false,
            quit_policy: QuitPolicy::from_bool(quit_enabled),
            login: LoginState::new(),
            authenticated: false,
            saved_mega_session: None,
            deferred_login_fallback: None,
            deferred_login_deadline: None,
            last_user_activity: now,
            url_input: String::new(),
            url_input_cursor: 0,
            url_input_active: false,
            files: Vec::new(),
            overlay_files: OrderedMap::new(),
            dashboard_revision: 0,
            expanded_packages: Vec::new(),
            sort: SortState::new(),
            total_downloaded: 0,
            total_size: 0,
            files_completed: 0,
            files_total: 0,
            total_network_downloaded: 0,
            current_speed: 0,
            status: String::new(),
            paused: false,
            config: ConfigState::new(),
            client_pending: false,
            download_task_running: false,
            tracking: FileTracking::new(),
            deleted_url_tombstones: FileIdSet::new(),
            core_state: DownloadState::new(),
            api_port,
            api_key: None,
            persist_config_path: None,
            cpu_usage_bits: 0,
            memory_rss: 0,
        }
    }

    /// Takes the totals over from the core.
    pub fn recompute_totals(&mut self)
        ensures
            *final(self) == (App {
                total_size: old(self).core_state.totals.run_total_bytes,
                total_downloaded: old(self).core_state.totals.run_completed_bytes,
                files_completed: old(self).core_state.totals.run_file_completed,
                files_total: old(self).core_state.totals.run_file_total,
                total_network_downloaded: old(self).core_state.totals.displayed_network_bytes,
                ..*old(self)
            }),
    {
        self.apply_cached_totals();
    }

    /// Takes over the totals that the core keeps.
    pub fn apply_cached_totals(&mut self)
        ensures
            *final(self) == (App {
                total_size: old(self).core_state.totals.run_total_bytes,
                total_downloaded: old(self).core_state.totals.run_completed_bytes,
                files_completed: old(self).core_state.totals.run_file_completed,
                files_total: old(self).core_state.totals.run_file_total,
                total_network_downloaded: old(self).core_state.totals.displayed_network_bytes,
                ..*old(self)
            }),
    {
        self.total_size = self.core_state.totals.run_total_bytes;
        self.total_downloaded = self.core_state.totals.run_completed_bytes;
        self.files_completed = self.core_state.totals.run_file_completed;
        self.files_total = self.core_state.totals.run_file_total;
        self.total_network_downloaded = self.core_state.totals.displayed_network_bytes;
    }

    /// Notes that what is published is out of date.
    pub fn mark_dashboard_dirty(&mut self)
        ensures
            *final(self) == (App {
                dashboard_revision: final(self).dashboard_revision,
                ..*old(self)
            }),
            final(self).dashboard_revision == if old(self).dashboard_revision == u64::MAX {
                0
            } else {
                (old(self).dashboard_revision + 1) as u64
            },
            final(self).dashboard_revision != old(self).dashboard_revision,
    {
        if self.dashboard_revision == u64::MAX {
            self.dashboard_revision = 0;
        } else {
            self.dashboard_revision = self.dashboard_revision + 1;
        }
    }

    /// What the status line should say of the downloads; nothing where there are none.
    pub open spec fn downloads_said(&self) -> Option<Status> {
        if self.paused {
            Some(Status::Paused)
        } else if self.files_completed == self.files_total && self.files_total > 0 {
            Some(Status::AllComplete)
        } else if self.files_total > 0 {
            Some(
                Status::Activity {
                    downloading: self.core_state.totals.run_file_downloading > 0,
                    completed: self.files_completed,
                    total: self.files_total,
                },
            )
        } else {
            None
        }
    }

    /// What the status line should say of the downloads; nothing where there are none.
    pub fn download_status(&self) -> (status: Option<Status>)
        ensures
            status == self.downloads_said(),
    {
        if self.paused {
            Some(Status::Paused)
        } else if self.files_completed == self.files_total && self.files_total > 0 {
            Some(Status::AllComplete)
        } else if self.files_total > 0 {
            Some(
                Status::Activity {
                    downloading: self.core_state.totals.run_file_downloading > 0,
                    completed: self.files_completed,
                    total: self.files_total,
                },
            )
        } else {
            None
        }
    }

    /// Says in the status line how downloads go; says nothing new where there are none.
    pub fn update_download_status_message(&mut self)
        ensures
            *final(self) == (App { status: final(self).status, ..*old(self) }),
            match old(self).downloads_said() {
                Some(status) => final(self).status@ == status.shown(Seq::empty()),
                None => final(self).status == old(self).status,
            },
    {
        if let Some(status) = self.download_status() {
            proof {
                reveal_strlit("");
            }
            self.status = status.text("");
            assert(""@ =~= Seq::<char>::empty());
        }
    }

    /// The last row of a file, where there is one.
    pub fn visible_file(&self, id: &FileId) -> (file: Option<&FileEntry>)
        ensures
            match file {
                Some(found) => exists|i: int| #[trigger]
                    is_last_row(self.files@, id@, i) && self.files@[i] == *found,
                None => forall|j: int|
                    0 <= j < self.files@.len() ==> (#[trigger] self.files@[j]).id@ != id@,
            },
    {
        match self.row_of(id) {
            Some(at) => {
                assert(is_last_row(self.files@, id@, at as int));
                Some(&self.files[at])
            },
            None => None,
        }
    }

    /// Position of the last row of a file.
    pub fn row_of(&self, id: &FileId) -> (at: Option<usize>)
        ensures
            match at {
                Some(i) => is_last_row(self.files@, id@, i as int),
                None => forall|j: int|
                    0 <= j < self.files@.len() ==> (#[trigger] self.files@[j]).id@ != id@,
            },
    {
        let mut i: usize = self.files.len();
        while i > 0
            invariant
                i <= self.files@.len(),
                forall|j: int|
                    i <= j < self.files@.len() ==> (#[trigger] self.files@[j]).id@ != id@,
            decreases i,
        {
            i -= 1;
            if *self.files[i].id.as_str() == *id.as_str() {
                return Some(i);
            }
        }
        None
    }

    /// Position of an overlay row.
    fn overlay_at(&self, id: &FileId) -> (at: Option<usize>)
        requires
            self.wf(),
        ensures
            match at {
                Some(i) => {
                    &&& i < self.overlay_files.keys().len()
                    &&& i == self.overlay_files.keys().index_of(id@)
                    &&& self.overlays(id@)
                    &&& self.overlay_files.keys()[i as int] == id@
                },
                None => !self.overlays(id@),
            },
    {
        match self.overlay_files.find(id) {
            Some(i) => {
                assert(self.overlay_files.keys()[i as int] == id@);
                Some(i)
            },
            None => None,
        }
    }

    /// What the user sees of a file: the core's word where the core knows it, else the overlay
    /// row.
    pub fn visible_file_context(&self, id: &FileId) -> (context: Option<VisibleFileContext>)
        requires
            self.wf(),
        ensures
            context == self.seen(id@),
    {
        if let Some(file) = self.core_state.get_file(id) {
            return Some(
                VisibleFileContext {
                    id: file.id.clone(),
                    status: file.lifecycle.status(),
                    source_url: Some(file.source_url.clone()),
                    artifact_path: file.path.clone(),
                    size: file.size,
                },
            );
        }
        match self.overlay_at(id) {
            Some(at) => {
                let row = self.overlay_files.value(at).file();
                Some(
                    VisibleFileContext {
                        id: row.id.clone(),
                        status: row.status.copy(),
                        source_url: None,
                        artifact_path: row.name.clone(),
                        size: row.size,
                    },
                )
            },
            None => None,
        }
    }

    /// What the user sees of a file.
    pub open spec fn seen(&self, id: Seq<char>) -> Option<VisibleFileContext> {
        if self.core_state.has(id) {
            let file = self.core_state.file(id);
            Some(
                VisibleFileContext {
                    id: file.id,
                    status: file.lifecycle.shown(),
                    source_url: Some(file.source_url),
                    artifact_path: file.path,
                    size: file.size,
                },
            )
        } else if self.overlays(id) {
            let row = self.overlay(id).entry();
            Some(
                VisibleFileContext {
                    id: row.id,
                    status: row.status,
                    source_url: None,
                    artifact_path: row.name,
                    size: row.size,
                },
            )
        } else {
            None
        }
    }

    /// Puts an overlay row in place, behind the others where it is new.
    pub fn upsert_overlay_file(&mut self, file: FileEntry, source_url: Option<String>) -> (steps:
        Vec<AppStep>)
        requires
            old(self).wf(),
        ensures
            final(self).wf(),
            *final(self) == (App { overlay_files: final(self).overlay_files, ..*old(self) }),
            final(self).overlays(file.id@),
            final(self).overlay(file.id@) == match source_url {
                Some(source_url) => TransientRow::PendingUrl { file, source_url },
                None => TransientRow::UiError { file },
            },
            old(self).overlays(file.id@) ==> final(self).overlay_files.keys()
                == old(self).overlay_files.keys(),
            !old(self).overlays(file.id@) ==> final(self).overlay_files.keys()
                == old(self).overlay_files.keys().push(file.id@),
            forall|other: Seq<char>|
                other != file.id@ && old(self).overlays(other) ==> final(self).overlays(other)
                    && #[trigger] final(self).overlay(other) == old(self).overlay(other),
            steps@ == seq![AppStep::SyncVisible],
    {
        let id = file.id.clone();
        let ghost keys = self.overlay_files.keys();
        let row = match source_url {
            Some(source_url) => TransientRow::PendingUrl { file, source_url },
            None => TransientRow::UiError { file },
        };
        self.overlay_files.insert(id, row);
        proof {
            let after = self.overlay_files.keys();
            lemma_key_added(keys, after, file.id@);
        }
        vec![AppStep::SyncVisible]
    }

    /// Shows an error in a row of its own, unless the core shows the file.
    pub fn show_overlay_error(&mut self, id: &FileId, name: String, error: String) -> (steps: Vec<
        AppStep,
    >)
        requires
            old(self).wf(),
        ensures
            final(self).wf(),
            *final(self) == (App {
                overlay_files: final(self).overlay_files,
                tracking: final(self).tracking,
                ..*old(self)
            }),
            final(self).tracking@ == old(self).tracking@.untokened(id@),
            old(self).core_state.has(id@) ==> {
                &&& final(self).overlay_files == old(self).overlay_files
                &&& steps@ == seq![AppStep::ResetRate(*id)]
            },
            !old(self).core_state.has(id@) ==> {
                &&& final(self).overlays(id@)
                &&& final(self).overlay(id@) == (if old(self).overlays(id@) {
                    old(self).overlay(id@).with_entry(
                        FileEntry {
                            name,
                            status: FileStatus::Error(error),
                            ..old(self).overlay(id@).entry()
                        },
                    )
                } else {
                    TransientRow::UiError {
                        file: FileEntry {
                            id: *id,
                            name,
                            size: 0,
                            downloaded: 0,
                            status: FileStatus::Error(error),
                        },
                    }
                })
                &&& final(self).overlay_files.keys() == (if old(self).overlays(id@) {
                    old(self).overlay_files.keys()
                } else {
                    old(self).overlay_files.keys().push(id@)
                })
                &&& forall|other: Seq<char>|
                    other != id@ && old(self).overlays(other) ==> final(self).overlays(other)
                        && #[trigger] final(self).overlay(other) == old(self).overlay(other)
                &&& steps@ == seq![AppStep::SyncVisible, AppStep::ResetRate(*id)]
            },
    {
        let _ = self.tracking.cancellation_tokens.remove(id);
        let mut steps: Vec<AppStep> = Vec::new();
        if !self.core_state.contains_file(id) {
            match self.overlay_at(id) {
                Some(at) => {
                    let shown = self.overlay_files.value(at);
                    let entry = FileEntry {
                        id: shown.file().id.clone(),
                        name,
                        size: shown.file().size,
                        downloaded: shown.file().downloaded,
                        status: FileStatus::Error(error),
                    };
                    let row = match shown {
                        TransientRow::PendingUrl { source_url, .. } => TransientRow::PendingUrl {
                            file: entry,
                            source_url: source_url.clone(),
                        },
                        TransientRow::UiError { .. } => TransientRow::UiError { file: entry },
                    };
                    let ghost keys = self.overlay_files.keys();
                    let _ = self.overlay_files.replace(at, row);
                    proof {
                        assert forall|other: Seq<char>|
                            other != id@ && old(self).overlays(other) implies self.overlays(other)
                            && #[trigger] self.overlay(other) == old(self).overlay(other) by {
                            assert(keys[keys.index_of(other)] == other);
                        }
                    }
                    steps.push(AppStep::SyncVisible);
                },
                None => {
                    steps = self.upsert_overlay_file(
                        FileEntry {
                            id: id.clone(),
                            name,
                            size: 0,
                            downloaded: 0,
                            status: FileStatus::Error(error),
                        },
                        None,
                    );
                },
            }
        }
        steps.push(AppStep::ResetRate(id.clone()));
        steps
    }

    /// Shows that an address waits to be looked up. A row that shows an error stays.
    pub fn queue_url_placeholder(&mut self, url: String) -> (steps: Vec<AppStep>)
        requires
            old(self).wf(),
        ensures
            final(self).wf(),
            *final(self) == (App { overlay_files: final(self).overlay_files, ..*old(self) }),
            final(self).overlays(url@),
            final(self).overlay(url@) == (if !old(self).overlays(url@) {
                TransientRow::PendingUrl {
                    file: FileEntry {
                        id: url,
                        name: url,
                        size: 0,
                        downloaded: 0,
                        status: FileStatus::Queued,
                    },
                    source_url: url,
                }
            } else if old(self).overlay(url@) is PendingUrl {
                old(self).overlay(url@).with_entry(
                    FileEntry {
                        name: url,
                        size: 0,
                        downloaded: 0,
                        status: FileStatus::Queued,
                        ..old(self).overlay(url@).entry()
                    },
                )
            } else {
                old(self).overlay(url@)
            }),
            final(self).overlay_files.keys() == (if old(self).overlays(url@) {
                old(self).overlay_files.keys()
            } else {
                old(self).overlay_files.keys().push(url@)
            }),
            forall|other: Seq<char>|
                other != url@ && old(self).overlays(other) ==> final(self).overlays(other)
                    && #[trigger] final(self).overlay(other) == old(self).overlay(other),
            steps@ == (if old(self).overlays(url@) {
                seq![AppStep::SyncVisible, AppStep::RecomputeTotals]
            } else {
                seq![AppStep::SyncVisible, AppStep::SyncVisible, AppStep::RecomputeTotals]
            }),
    {
        let mut steps: Vec<AppStep> = Vec::new();
        match self.overlay_at(&url) {
            Some(at) => {
                let shown = self.overlay_files.value(at);
                let id = shown.file().id.clone();
                let ghost keys = self.overlay_files.keys();
                let row = match shown {
                    TransientRow::PendingUrl { source_url, .. } => Some(
                        TransientRow::PendingUrl {
                            file: FileEntry {
                                id,
                                name: url.clone(),
                                size: 0,
                                downloaded: 0,
                                status: FileStatus::Queued,
                            },
                            source_url: source_url.clone(),
                        },
                    ),
                    TransientRow::UiError { .. } => None,
                };
                if let Some(row) = row {
                    let _ = self.overlay_files.replace(at, row);
                }
                proof {
                    assert forall|other: Seq<char>|
                        other != url@ && old(self).overlays(other) implies self.overlays(other)
                        && #[trigger] self.overlay(other) == old(self).overlay(other) by {
                        assert(keys[keys.index_of(other)] == other);
                    }
                }
            },
            None => {
                steps = self.upsert_overlay_file(
                    FileEntry {
                        id: url.clone(),
                        name: url.clone(),
                        size: 0,
                        downloaded: 0,
                        status: FileStatus::Queued,
                    },
                    Some(url.clone()),
                );
            },
        }
        steps.push(AppStep::SyncVisible);
        steps.push(AppStep::RecomputeTotals);
        steps
    }

    /// Drops every row of a file and its overlay row.
    pub fn forget_visible_file(&mut self, id: &FileId) -> (steps: Vec<AppStep>)
        requires
            old(self).wf(),
        ensures
            final(self).wf(),
            *final(self) == (App {
                overlay_files: final(self).overlay_files,
                files: final(self).files,
                ..*old(self)
            }),
            final(self).files@ == old(self).files@.filter(|file: FileEntry| file.id@ != id@),
            final(self).overlay_files.keys() == (if old(self).overlays(id@) {
                old(self).overlay_files.keys().remove(old(self).overlay_files.keys().index_of(id@))
            } else {
                old(self).overlay_files.keys()
            }),
            final(self).overlay_files.values() == (if old(self).overlays(id@) {
                old(self).overlay_files.values().remove(
                    old(self).overlay_files.keys().index_of(id@),
                )
            } else {
                old(self).overlay_files.values()
            }),
            !final(self).overlays(id@),
            steps@ == seq![AppStep::ForgetUi(*id)],
    {
        let ghost keys = self.overlay_files.keys();
        let _ = self.overlay_files.remove(id);
        proof {
            if keys.contains(id@) {
                let at = keys.index_of(id@);
                assert(keys[at] == id@);
                let after = self.overlay_files.keys();
                if after.contains(id@) {
                    let k = after.index_of(id@);
                    assert(after[k] == id@);
                    assert(keys[if k < at { k } else { k + 1 }] == id@);
                }
            }
        }
        let ghost keep = |file: FileEntry| file.id@ != id@;
        let mut kept: Vec<FileEntry> = Vec::new();
        let mut i: usize = 0;
        assert(self.files@.take(0).filter(keep) =~= Seq::empty()) by {
            reveal(Seq::filter);
        }
        while i < self.files.len()
            invariant
                i <= self.files@.len(),
                keep == (|file: FileEntry| file.id@ != id@),
                kept@ == self.files@.take(i as int).filter(keep),
            decreases self.files.len() - i,
        {
            proof {
                assert(self.files@.take(i as int + 1) =~= self.files@.take(i as int).push(
                    self.files@[i as int],
                ));
                crate::scheduler::lemma_filter_push(
                    self.files@.take(i as int),
                    self.files@[i as int],
                    keep,
                );
            }
            if *self.files[i].id.as_str() != *id.as_str() {
                kept.push(self.files[i].copy());
            }
            i += 1;
        }
        assert(self.files@.take(i as int) =~= self.files@);
        self.files = kept;
        vec![AppStep::ForgetUi(id.clone())]
    }

    /// Brings the last row of a file up to date with the core; says how many bytes it showed before
    /// and shows now.
    pub fn refresh_visible_core_file(&mut self, id: &FileId) -> (change: Option<(u64, u64)>)
        requires
            old(self).wf(),
        ensures
            *final(self) == (App { files: final(self).files, ..*old(self) }),
            match change {
                Some((before, now)) => {
                    &&& old(self).core_state.has(id@)
                    &&& exists|i: int|
                        {
                            &&& #[trigger] is_last_row(old(self).files@, id@, i)
                            &&& before == old(self).files@[i].downloaded
                            &&& now == old(self).core_state.file(id@).shown_bytes()
                            &&& final(self).files@ == old(self).files@.update(
                                i,
                                FileEntry {
                                    id: old(self).files@[i].id,
                                    name: old(self).core_state.file(id@).path,
                                    size: old(self).core_state.file(id@).size,
                                    downloaded: now,
                                    status: old(self).core_state.file(id@).lifecycle.shown(),
                                },
                            )
                        }
                },
                None => {
                    &&& *final(self) == *old(self)
                    &&& old(self).core_state.has(id@) ==> forall|j: int|
                        0 <= j < old(self).files@.len() ==> (#[trigger] old(self).files@[j]).id@
                            != id@
                },
            },
    {
        let (name, size, downloaded, status) = match self.core_state.get_file(id) {
            Some(file) => (
                file.path.clone(),
                file.size,
                file.visible_bytes(),
                file.lifecycle.status(),
            ),
            None => {
                return None;
            },
        };
        match self.row_of(id) {
            Some(at) => {
                let before: u64 = self.files[at].downloaded;
                let row_id = self.files[at].id.clone();
                self.files.set(at, FileEntry { id: row_id, name, size, downloaded, status });
                assert(is_last_row(old(self).files@, id@, at as int));
                Some((before, downloaded))
            },
            None => None,
        }
    }

    /// Brings the progress of a file's last row up to date with the core; gives the bytes that it
    /// gained and the bytes that came over the network so far.
    pub fn refresh_visible_progress_file(&mut self, id: &FileId) -> (progress: Option<(u64, u64)>)
        requires
            old(self).wf(),
        ensures
            *final(self) == (App { files: final(self).files, ..*old(self) }),
            match progress {
                Some((accepted, network)) => {
                    &&& old(self).core_state.has(id@)
                    &&& network == old(self).core_state.file(id@).network_bytes()
                    &&& exists|i: int|
                        {
                            &&& #[trigger] is_last_row(old(self).files@, id@, i)
                            &&& accepted == gained(
                                old(self).files@[i].downloaded,
                                old(self).core_state.file(id@).shown_bytes(),
                            )
                            &&& final(self).files@ == old(self).files@.update(
                                i,
                                FileEntry {
                                    downloaded: old(self).core_state.file(id@).shown_bytes(),
                                    status: match old(self).core_state.file(id@).lifecycle.shown() {
                                        FileStatus::Queued => FileStatus::Downloading,
                                        other => other,
                                    },
                                    ..old(self).files@[i]
                                },
                            )
                        }
                },
                None => {
                    &&& *final(self) == *old(self)
                    &&& old(self).core_state.has(id@) ==> forall|j: int|
                        0 <= j < old(self).files@.len() ==> (#[trigger] old(self).files@[j]).id@
                            != id@
                },
            },
    {
        let (downloaded, network, status) = match self.core_state.get_file(id) {
            Some(file) => (
                file.visible_bytes(),
                file.core_file_network_downloaded(),
                match file.lifecycle.status() {
                    FileStatus::Queued => FileStatus::Downloading,
                    other => other,
                },
            ),
            None => {
                return None;
            },
        };
        match self.row_of(id) {
            Some(at) => {
                let row = &self.files[at];
                let accepted: u64 = if downloaded > row.downloaded {
                    downloaded - row.downloaded
                } else {
                    0
                };
                let row = FileEntry {
                    id: row.id.clone(),
                    name: row.name.clone(),
                    size: row.size,
                    downloaded,
                    status,
                };
                self.files.set(at, row);
                assert(is_last_row(old(self).files@, id@, at as int));
                Some((accepted, network))
            },
            None => None,
        }
    }

    /// The bytes from which the speed of a file is measured anew: those that came over the
    /// network where the core knows the file, else those of its overlay row, else those of its
    /// last row.
    pub fn rate_baseline(&self, id: &FileId) -> (bytes: u64)
        requires
            self.wf(),
        ensures
            self.core_state.has(id@) ==> bytes == self.core_state.file(id@).network_bytes(),
            !self.core_state.has(id@) && self.overlays(id@) ==> bytes == self.overlay(
                id@,
            ).entry().downloaded,
            !self.core_state.has(id@) && !self.overlays(id@) ==> {
                ||| bytes == 0 && forall|j: int|
                    0 <= j < self.files@.len() ==> (#[trigger] self.files@[j]).id@ != id@
                ||| exists|i: int| #[trigger]
                    is_last_row(self.files@, id@, i) && bytes == self.files@[i].downloaded
            },
    {
        if let Some(file) = self.core_state.get_file(id) {
            return file.core_file_network_downloaded();
        }
        if let Some(at) = self.overlay_at(id) {
            return self.overlay_files.value(at).file().downloaded;
        }
        match self.row_of(id) {
            Some(at) => {
                assert(is_last_row(self.files@, id@, at as int));
                self.files[at].downloaded
            },
            None => 0,
        }
    }

    /// Whether an update belongs to the current attempt at a file that is not complete.
    pub fn accepts_current_attempt_update(&self, id: &FileId, attempt_id: u64) -> (accepted: bool)
        requires
            self.wf(),
        ensures
            accepted == (self.accepts(id@, attempt_id) && !(self.core_state.file(
                id@,
            ).lifecycle is Complete)),
    {
        if !self.tracking.event_matches_current_attempt(id, attempt_id) {
            return false;
        }
        match self.core_state.get_file(id) {
            Some(file) => !file.lifecycle.is_complete(),
            None => false,
        }
    }
}

/// Whether a row is the last one of a file.
pub open spec fn is_last_row(files: Seq<FileEntry>, id: Seq<char>, at: int) -> bool {
    &&& 0 <= at < files.len()
    &&& files[at].id@ == id
    &&& forall|j: int| at < j < files.len() ==> (#[trigger] files[j]).id@ != id
}

/// Bytes gained from one count to the next; none where the count went back.
pub open spec fn gained(before: u64, now: u64) -> u64 {
    if now > before {
        (now - before) as u64
    } else {
        0
    }
}

/// Where keys stand after one is put in its place or behind the others.
proof fn lemma_key_added(before: Seq<Seq<char>>, after: Seq<Seq<char>>, key: Seq<char>)
    requires
        before.no_duplicates(),
        after == if before.contains(key) {
            before
        } else {
            before.push(key)
        },
    ensures
        after.no_duplicates(),
        after.contains(key),
        after[after.index_of(key)] == key,
        !before.contains(key) ==> after.index_of(key) == before.len(),
        forall|other: Seq<char>| #[trigger]
            before.contains(other) ==> after.contains(other) && after.index_of(other)
                == before.index_of(other) && before[before.index_of(other)] == other,
{
    if !before.contains(key) {
        assert(after[before.len() as int] == key);
        assert(after.no_duplicates());
        assert(after[after.index_of(key)] == key);
    }
    assert forall|other: Seq<char>| #[trigger] before.contains(other) implies after.contains(other)
        && after.index_of(other) == before.index_of(other) && before[before.index_of(other)]
        == other by {
        let i = before.index_of(other);
        assert(before[i] == other);
        assert(after[i] == other);
        assert(after[after.index_of(other)] == other);
    }
}

} // verus!
