//! What the application does on events of the download task.

use vstd::prelude::*;

use crate::app::{App, AppStep, Notice, Status};
use crate::events::{FileAccounting, ProgressDelta, QueuedFile};
use crate::ids::{self, FileId, PackageId};
use crate::model::{CoreEvent, FileState, PackageState, ResolvedFile, ResolvedPackage};
use crate::tracking::TrackingModel;
use crate::verification::VerificationTarget;

verus! {

/// How a failed download is handled.
pub open spec fn file_failed(
    before: App,
    after: App,
    id: FileId,
    error: String,
    attempt_id: u64,
    steps: Seq<AppStep>,
) -> bool {
    &&& after == (App { tracking: after.tracking, ..before })
    &&& if before.accepts(id@, attempt_id) && !before.tracking@.reset.contains(id@) {
        &&& after.tracking@ =~= before.tracking@.unverified(id@).untokened(
            id@,
        ).settled(id@)
        &&& steps =~= seq![
            AppStep::Apply(CoreEvent::FileFailed { file_id: id, message: error }),
            AppStep::UpdateStatus,
        ]
    } else {
        after == before && steps =~= Seq::<AppStep>::empty()
    }
}

/// How an error that belongs to no known download is handled.
pub open spec fn scope_failed(
    before: App,
    after: App,
    scope: String,
    error: String,
    steps: Seq<AppStep>,
) -> bool {
    &&& after == (App { tracking: after.tracking, ..before })
    &&& after.tracking@ =~= before.tracking@.cleared(scope@)
    &&& steps =~= (if before.knows_url(scope@) {
        seq![
            AppStep::Apply(CoreEvent::UrlFailed { url: scope, message: error }),
            AppStep::DropOverlay(scope),
            AppStep::SyncVisible,
            AppStep::ShowError { id: scope, notice: Notice::Message(error) },
            AppStep::RecomputeTotals,
        ]
    } else if before.shows_scope(scope@) {
        seq![AppStep::ShowError { id: scope, notice: Notice::Message(error) }, AppStep::RecomputeTotals]
    } else {
        seq![AppStep::RecomputeTotals]
    })
}

/// How a queued file is taken in.
pub open spec fn file_queued(
    before: App,
    after: App,
    file: QueuedFile,
    steps: Seq<AppStep>,
) -> bool {
    if before.tracking@.attempt(file.id@) == file.attempt_id && (before.knows_url(
        file.origin.source_url@,
    ) || before.knows_url(file.origin.submitted_url@)) {
        let renamed = file.origin.submitted_url@ != file.origin.source_url@;
        let name = match file.origin.package_display_name {
            Some(name) => name,
            None => file.origin.source_url,
        };
        &&& after == (App { core_state: after.core_state, ..before })
        &&& after.core_state == (crate::model::DownloadState {
            url_order: after.core_state.url_order,
            ..before.core_state
        })
        &&& ids::texts(after.core_state.url_order@) == (if renamed {
            ids::texts(before.core_state.url_order@).filter(
                other_than(file.origin.submitted_url@),
            )
        } else {
            ids::texts(before.core_state.url_order@)
        })
        &&& steps.len() == if renamed {
            5int
        } else {
            4int
        }
        &&& renamed ==> steps[0] == AppStep::ForgetRow(file.origin.submitted_url)
        &&& resolves_file(
            steps[steps.len() - 4],
            before.package_for(file, name@),
            name,
            file,
        )
        &&& steps[steps.len() - 3] == AppStep::Apply(
            CoreEvent::FileQueued { file_id: file.id },
        )
        &&& steps[steps.len() - 2] == (AppStep::SettleFile {
            file_id: file.id,
            source_url: file.origin.source_url,
            size: file.size,
            counted: file.accounting == FileAccounting::CurrentRun,
        })
        &&& steps[steps.len() - 1] == AppStep::UpdateStatus
    } else {
        after == before && steps =~= Seq::<AppStep>::empty()
    }
}

/// How the end of a lookup is handled.
pub open spec fn url_resolved(before: App, after: App, url: String, steps: Seq<AppStep>) -> bool {
    &&& after == before
    &&& steps =~= seq![
        AppStep::ForgetRow(url),
        AppStep::SyncVisible,
        AppStep::Apply(CoreEvent::UrlResolved { url }),
        AppStep::RecomputeTotals,
    ]
}

/// How the start of a transfer is handled.
pub open spec fn file_started(
    before: App,
    after: App,
    id: FileId,
    size: u64,
    attempt_id: u64,
    steps: Seq<AppStep>,
) -> bool {
    &&& after == (App { tracking: after.tracking, ..before })
    &&& if before.accepts(id@, attempt_id) {
        let was = before.tracking@;
        let ended = was.unverified(id@).unreset(id@);
        let resumed = was.reverify.contains(id@) || was.startup.contains(id@);
        &&& after.tracking@ =~= (if was.reverify.contains(id@) {
            TrackingModel { reverify: ended.reverify.remove(id@), ..ended }
        } else {
            TrackingModel { startup: ended.startup.remove(id@), ..ended }
        })
        &&& steps =~= seq![
            AppStep::Apply(
                if resumed {
                    CoreEvent::FileResumeStarted { file_id: id, size }
                } else {
                    CoreEvent::FileStarted { file_id: id, size }
                },
            ),
            AppStep::ResetRate(id),
            AppStep::UpdateStatus,
        ]
    } else {
        after == before && steps =~= Seq::<AppStep>::empty()
    }
}

/// How the start of a check before a transfer is handled.
pub open spec fn validation_started(
    before: App,
    after: App,
    id: FileId,
    attempt_id: u64,
    steps: Seq<AppStep>,
) -> bool {
    &&& after == (App { tracking: after.tracking, ..before })
    &&& if before.accepts(id@, attempt_id) {
        &&& after.tracking@ =~= (TrackingModel {
            blocking: before.tracking@.blocking.insert(id@),
            ..before.tracking@.verified_as(id@, VerificationTarget::Resume)
        })
        &&& steps =~= seq![
            AppStep::Apply(CoreEvent::FileVerificationStarted { file_id: id }),
            AppStep::RefreshFile(id),
        ]
    } else {
        after == before && steps =~= Seq::<AppStep>::empty()
    }
}

/// How progress of a transfer is handled.
pub open spec fn file_progressed(
    before: App,
    after: App,
    id: FileId,
    delta: ProgressDelta,
    attempt_id: u64,
    steps: Seq<AppStep>,
) -> bool {
    &&& after == (App { tracking: after.tracking, ..before })
    &&& if before.accepts(id@, attempt_id) {
        let begun = before.tracking@.unreset(id@);
        &&& after.tracking@ =~= (if delta.network_bytes_delta > 0 {
            begun.unverified(id@)
        } else {
            begun
        })
        &&& steps =~= seq![
            AppStep::ApplyProgress(
                CoreEvent::FileProgress {
                    file_id: id,
                    total_bytes_delta: delta.total_bytes_delta,
                    network_bytes_delta: delta.network_bytes_delta,
                },
            ),
            AppStep::RefreshProgress(id),
        ]
    } else {
        after == before && steps =~= Seq::<AppStep>::empty()
    }
}

/// How progress of a verification is handled.
pub open spec fn verification_progressed(
    before: App,
    id: FileId,
    bytes_delta: u64,
    steps: Seq<AppStep>,
) -> bool {
    &&& steps =~= (if before.accepts_verification(id@) {
        seq![
            AppStep::ApplyProgress(
                CoreEvent::FileVerificationProgress { file_id: id, bytes_delta },
            ),
            AppStep::RefreshProgress(id),
        ]
    } else {
        Seq::empty()
    })
}

/// How a transfer that goes on with chunks on disk is handled.
pub open spec fn resume_reused(
    before: App,
    after: App,
    id: FileId,
    chunks: usize,
    bytes: u64,
    attempt_id: u64,
    steps: Seq<AppStep>,
) -> bool {
    &&& after == (App { tracking: after.tracking, ..before })
    &&& if before.accepts(id@, attempt_id) {
        &&& after.tracking@ =~= before.tracking@.unreset(id@)
        &&& steps =~= seq![
            AppStep::Apply(
                CoreEvent::FileReuseDetected {
                    file_id: id,
                    reused_bytes: bytes,
                    reused_chunks: chunks,
                },
            ),
            AppStep::RefreshFile(id),
            AppStep::SetStatus(Status::Reusing { id, chunks, bytes }),
        ]
    } else {
        after == before && steps =~= Seq::<AppStep>::empty()
    }
}

/// How the end of a verification of an incomplete file is handled.
pub open spec fn resume_reverified(
    before: App,
    after: App,
    id: FileId,
    chunks: usize,
    bytes: u64,
    steps: Seq<AppStep>,
) -> bool {
    &&& after == (App { tracking: after.tracking, ..before })
    &&& if before.core_state.has(id@) {
        let ended = before.tracking@.settled(id@).unreset(id@).unverified(id@);
        &&& after.tracking@ =~= (if before.tracking@.reverify.contains(id@) {
            TrackingModel { verifying: before.tracking@.verifying, ..ended }
        } else {
            ended
        })
        &&& steps =~= seq![
            AppStep::Apply(
                CoreEvent::FileResumeReverified {
                    file_id: id,
                    verified_bytes: bytes,
                    verified_chunks: chunks,
                },
            ),
            AppStep::RefreshFile(id),
            AppStep::SetStatus(Status::Reusing { id, chunks, bytes }),
        ]
    } else {
        after == before && steps =~= Seq::<AppStep>::empty()
    }
}

/// How the end of a verification of a complete file is handled.
pub open spec fn completed_verified(
    before: App,
    after: App,
    id: FileId,
    bytes: u64,
    steps: Seq<AppStep>,
) -> bool {
    &&& after == (App { tracking: after.tracking, ..before })
    &&& after.tracking@ =~= before.tracking@.unverified(id@).settled(id@)
    &&& steps =~= (if before.core_state.has(id@) {
        seq![
            AppStep::Apply(
                CoreEvent::FileResumeReverified {
                    file_id: id,
                    verified_bytes: bytes,
                    verified_chunks: 0,
                },
            ),
            AppStep::Apply(
                if before.core_state.file(id@).lifecycle is Complete {
                    CoreEvent::FileVerificationCompleted { file_id: id }
                } else {
                    CoreEvent::FileCompleted { file_id: id }
                },
            ),
            AppStep::RefreshFile(id),
            AppStep::SetStatus(Status::Verified { id, bytes }),
        ]
    } else {
        Seq::empty()
    })
}

/// How a skipped verification is handled.
pub open spec fn verification_skipped(
    before: App,
    after: App,
    id: FileId,
    completed: bool,
    steps: Seq<AppStep>,
) -> bool {
    &&& after == (App { tracking: after.tracking, ..before })
    &&& after.tracking@ =~= before.tracking@.settled(id@).cleared(id@)
    &&& steps =~= before.skip_steps(id, completed)
}

/// How the end of a transfer is handled.
pub open spec fn file_completed(
    before: App,
    after: App,
    id: FileId,
    attempt_id: u64,
    steps: Seq<AppStep>,
) -> bool {
    &&& after == (App { tracking: after.tracking, ..before })
    &&& if before.accepts(id@, attempt_id) && !before.tracking@.reset.contains(id@) {
        &&& after.tracking@ =~= before.tracking@.unverified(id@).untokened(
            id@,
        ).settled(id@)
        &&& steps =~= seq![
            AppStep::Apply(CoreEvent::FileCompleted { file_id: id }),
            AppStep::ResetRate(id),
            AppStep::UpdateStatus,
        ]
    } else {
        after == before && steps =~= Seq::<AppStep>::empty()
    }
}

/// How a cancelled transfer is handled.
pub open spec fn file_cancelled(
    before: App,
    after: App,
    id: FileId,
    attempt_id: u64,
    steps: Seq<AppStep>,
) -> bool {
    &&& after == (App { tracking: after.tracking, ..before })
    &&& if before.accepts(id@, attempt_id) && !before.tracking@.reset.contains(id@) {
        &&& after.tracking@ =~= before.tracking@.untokened(id@).settled(
            id@,
        ).cleared(id@)
        &&& steps =~= seq![
            AppStep::Apply(CoreEvent::FileCancelled { file_id: id }),
            AppStep::ResetRate(id),
            AppStep::UpdateStatus,
        ]
    } else {
        after == before && steps =~= Seq::<AppStep>::empty()
    }
}

impl App {
    /// Whether an address was submitted.
    pub open spec fn knows_url(&self, url: Seq<char>) -> bool {
        ids::texts(self.core_state.url_order@).contains(url)
    }

    /// Whether an error in a scope is for the user to see.
    pub open spec fn shows_scope(&self, scope: Seq<char>) -> bool {
        scope == "setup"@ || scope == "download"@ || self.knows_url(scope) || self.overlays(scope)
    }

    /// A download failed.
    pub fn handle_file_error_event(&mut self, id: FileId, error: String, attempt_id: u64) -> (steps:
        Vec<AppStep>)
        requires
            old(self).wf(),
        ensures
            file_failed(*old(self), *final(self), id, error, attempt_id, steps@),
    {
        if !self.tracking.event_matches_current_attempt(&id, attempt_id)
            || self.tracking.reset_is_waiting_for_new_attempt(&id)
            || !self.core_state.contains_file(&id) {
            return Vec::new();
        }
        self.tracking.end_verification(&id);
        let _ = self.tracking.cancellation_tokens.remove(&id);
        self.tracking.resolve_shutdown_pending_file(&id);
        vec![
            AppStep::Apply(CoreEvent::FileFailed { file_id: id, message: error }),
            AppStep::UpdateStatus,
        ]
    }

    /// Something other than a download of a known file failed.
    pub fn handle_scope_error_event(&mut self, scope: String, error: String) -> (steps: Vec<
        AppStep,
    >)
        requires
            old(self).wf(),
        ensures
            scope_failed(*old(self), *final(self), scope, error, steps@),
    {
        self.tracking.clear_verification_state(&scope);
        if self.core_state.has_tracked_url(&scope) {
            return vec![
                AppStep::Apply(
                    CoreEvent::UrlFailed { url: scope.clone(), message: error.clone() },
                ),
                AppStep::DropOverlay(scope.clone()),
                AppStep::SyncVisible,
                AppStep::ShowError { id: scope, notice: Notice::Message(error) },
                AppStep::RecomputeTotals,
            ];
        }
        if self.is_error_scope(&scope) {
            vec![AppStep::ShowError { id: scope, notice: Notice::Message(error) }, AppStep::RecomputeTotals]
        } else {
            vec![AppStep::RecomputeTotals]
        }
    }

    /// Whether an error in a scope is for the user to see.
    pub fn is_error_scope(&self, scope: &String) -> (shown: bool)
        requires
            self.wf(),
        ensures
            shown == self.shows_scope(scope@),
    {
        *scope.as_str() == *"setup" || *scope.as_str() == *"download"
            || self.core_state.has_tracked_url(scope) || match self.overlay_files.find(scope) {
            Some(at) => {
                assert(self.overlay_files.keys()[at as int] == scope@);
                true
            },
            None => false,
        }
    }

    /// The package that a queued file belongs to: the one that the file names, else the known
    /// package of the same key.
    pub open spec fn package_for(&self, file: QueuedFile, name: Seq<char>) -> Option<PackageId> {
        match file.origin.package_id {
            Some(id) => Some(id),
            None => package_with_key(self.core_state.packages@, name),
        }
    }

    /// A file was queued. It is taken in where its address was submitted and the event belongs
    /// to the current attempt.
    pub fn handle_file_queued_event(&mut self, file: QueuedFile) -> (steps: Vec<AppStep>)
        requires
            old(self).wf(),
        ensures
            file_queued(*old(self), *final(self), file, steps@),
    {
        if !self.tracking.event_matches_current_attempt(&file.id, file.attempt_id)
            || !(self.core_state.has_tracked_url(&file.origin.source_url)
            || self.core_state.has_tracked_url(&file.origin.submitted_url)) {
            return Vec::new();
        }
        let name = match &file.origin.package_display_name {
            Some(name) => name.clone(),
            None => file.origin.source_url.clone(),
        };
        let package_id = match file.origin.package_id {
            Some(id) => Some(id),
            None => find_package(&self.core_state.packages, &name),
        };
        let mut steps: Vec<AppStep> = Vec::new();
        if *file.origin.submitted_url.as_str() != *file.origin.source_url.as_str() {
            let kept = without_url(&self.core_state.url_order, &file.origin.submitted_url);
            self.core_state.url_order = kept;
            steps.push(AppStep::ForgetRow(file.origin.submitted_url.clone()));
        }
        let mut files: Vec<ResolvedFile> = Vec::new();
        files.push(
            ResolvedFile { file_id: file.id.clone(), path: file.id.clone(), size: file.size },
        );
        assert(files@ =~= seq![
            ResolvedFile { file_id: file.id, path: file.id, size: file.size },
        ]);
        steps.push(
            AppStep::Apply(
                CoreEvent::PackageResolved {
                    package: ResolvedPackage {
                        id: package_id,
                        key: name.clone(),
                        source_url: file.origin.source_url.clone(),
                        display_name: name,
                        files,
                    },
                },
            ),
        );
        steps.push(AppStep::Apply(CoreEvent::FileQueued { file_id: file.id.clone() }));
        let counted = matches!(file.accounting, FileAccounting::CurrentRun);
        steps.push(
            AppStep::SettleFile {
                file_id: file.id,
                source_url: file.origin.source_url,
                size: file.size,
                counted,
            },
        );
        steps.push(AppStep::UpdateStatus);
        steps
    }

    /// Sets what is known of a file once the core has taken it in; its path is its name.
    pub fn settle_core_file(
        &mut self,
        file_id: &FileId,
        source_url: String,
        size: u64,
        accounting: FileAccounting,
    )
        requires
            old(self).wf(),
        ensures
            final(self).wf(),
            *final(self) == (App { core_state: final(self).core_state, ..*old(self) }),
            final(self).core_state == (crate::model::DownloadState {
                files: final(self).core_state.files,
                ..old(self).core_state
            }),
            final(self).core_state.files.keys() == old(self).core_state.files.keys(),
            forall|other: Seq<char>|
                other != file_id@ && old(self).core_state.has(other)
                    ==> #[trigger] final(self).core_state.file(other) == old(
                    self,
                ).core_state.file(other),
            old(self).core_state.has(file_id@) ==> final(self).core_state.file(file_id@) == (
            FileState {
                source_url,
                size,
                path: *file_id,
                accounting,
                ..old(self).core_state.file(file_id@)
            }),
    {
        let at = match self.core_state.files.find(file_id) {
            Some(at) => at,
            None => {
                return;
            },
        };
        let ghost keys = self.core_state.files.keys();
        assert(keys[at as int] == file_id@);
        let file = self.core_state.files.value(at);
        let lifecycle = match &file.lifecycle {
            crate::model::FileLifecycle::Planned => crate::model::FileLifecycle::Planned,
            crate::model::FileLifecycle::Queued => crate::model::FileLifecycle::Queued,
            crate::model::FileLifecycle::Downloading => crate::model::FileLifecycle::Downloading,
            crate::model::FileLifecycle::Complete => crate::model::FileLifecycle::Complete,
            crate::model::FileLifecycle::Failed {
                message,
            } => crate::model::FileLifecycle::Failed { message: message.clone() },
        };
        let settled = FileState {
            id: file.id.clone(),
            package_id: file.package_id,
            source_url,
            path: file_id.clone(),
            size,
            lifecycle,
            progress: file.progress,
            accounting,
        };
        let _ = self.core_state.files.replace(at, settled);
        proof {
            assert forall|other: Seq<char>|
                other != file_id@ && old(self).core_state.has(other) implies #[trigger] self.core_state.file(
            other) == old(self).core_state.file(other) by {
                assert(keys[keys.index_of(other)] == other);
            }
        }
    }

    /// An address was looked up.
    pub fn handle_url_resolved_event(&mut self, url: String) -> (steps: Vec<AppStep>)
        ensures
            url_resolved(*old(self), *final(self), url, steps@),
    {
        vec![
            AppStep::ForgetRow(url.clone()),
            AppStep::SyncVisible,
            AppStep::Apply(CoreEvent::UrlResolved { url }),
            AppStep::RecomputeTotals,
        ]
    }

    /// A transfer started. It keeps what was verified where it goes on after a restart or a
    /// verification.
    pub fn handle_file_start_event(&mut self, id: FileId, size: u64, attempt_id: u64) -> (steps:
        Vec<AppStep>)
        requires
            old(self).wf(),
        ensures
            file_started(*old(self), *final(self), id, size, attempt_id, steps@),
    {
        if !self.tracking.event_matches_current_attempt(&id, attempt_id)
            || !self.core_state.contains_file(&id) {
            return Vec::new();
        }
        self.tracking.end_verification(&id);
        let _ = self.tracking.reset_pending_files.remove(&id);
        let reverified = self.tracking.reverify_pending_files.remove(&id);
        proof {
            if !reverified {
                assert(self.tracking@.reverify =~= old(self).tracking@.reverify);
            }
        }
        let resumed = reverified || self.tracking.startup_resume_pending_files.remove(&id);
        let event = if resumed {
            CoreEvent::FileResumeStarted { file_id: id.clone(), size }
        } else {
            CoreEvent::FileStarted { file_id: id.clone(), size }
        };
        vec![AppStep::Apply(event), AppStep::ResetRate(id), AppStep::UpdateStatus]
    }

    /// What is on disk of a file is being checked before its transfer goes on.
    pub fn handle_resume_validation_started_event(&mut self, id: FileId, attempt_id: u64) -> (steps:
        Vec<AppStep>)
        requires
            old(self).wf(),
        ensures
            validation_started(*old(self), *final(self), id, attempt_id, steps@),
    {
        if !self.tracking.event_matches_current_attempt(&id, attempt_id)
            || !self.core_state.contains_file(&id) {
            return Vec::new();
        }
        self.tracking.begin_verification(&id, VerificationTarget::Resume);
        let _ = self.tracking.shutdown_blocking_verifications.insert(id.clone());
        vec![
            AppStep::Apply(CoreEvent::FileVerificationStarted { file_id: id.clone() }),
            AppStep::RefreshFile(id),
        ]
    }

    /// A transfer made progress. Bytes from the network end a verification.
    pub fn handle_file_progress_event(
        &mut self,
        id: FileId,
        delta: ProgressDelta,
        attempt_id: u64,
    ) -> (steps: Vec<AppStep>)
        requires
            old(self).wf(),
        ensures
            file_progressed(*old(self), *final(self), id, delta, attempt_id, steps@),
    {
        if !self.tracking.event_matches_current_attempt(&id, attempt_id)
            || !self.core_state.contains_file(&id) {
            return Vec::new();
        }
        let _ = self.tracking.reset_pending_files.remove(&id);
        if delta.network_bytes_delta > 0 {
            self.tracking.end_verification(&id);
        }
        vec![
            AppStep::ApplyProgress(
                CoreEvent::FileProgress {
                    file_id: id.clone(),
                    total_bytes_delta: delta.total_bytes_delta,
                    network_bytes_delta: delta.network_bytes_delta,
                },
            ),
            AppStep::RefreshProgress(id),
        ]
    }

    /// Whether progress of a verification is to be shown.
    pub open spec fn accepts_verification(&self, id: Seq<char>) -> bool {
        &&& self.tracking@.verifying.contains(id)
        &&& self.tracking@.verifies(id)
        &&& self.core_state.has(id)
    }

    /// A verification made progress.
    pub fn handle_verification_progress_event(&self, id: FileId, bytes_delta: u64) -> (steps: Vec<
        AppStep,
    >)
        requires
            self.wf(),
        ensures
            verification_progressed(*self, id, bytes_delta, steps@),
    {
        if !self.tracking.verifying_files.contains(&id)
            || !self.tracking.is_verification_active(&id) || !self.core_state.contains_file(&id) {
            return Vec::new();
        }
        vec![
            AppStep::ApplyProgress(
                CoreEvent::FileVerificationProgress { file_id: id.clone(), bytes_delta },
            ),
            AppStep::RefreshProgress(id),
        ]
    }

    /// A transfer goes on with chunks that are on disk.
    pub fn handle_resume_reused_event(
        &mut self,
        id: FileId,
        chunks: usize,
        bytes: u64,
        attempt_id: u64,
    ) -> (steps: Vec<AppStep>)
        requires
            old(self).wf(),
        ensures
            resume_reused(*old(self), *final(self), id, chunks, bytes, attempt_id, steps@),
    {
        if !self.tracking.event_matches_current_attempt(&id, attempt_id)
            || !self.core_state.contains_file(&id) {
            return Vec::new();
        }
        let _ = self.tracking.reset_pending_files.remove(&id);
        vec![
            AppStep::Apply(
                CoreEvent::FileReuseDetected {
                    file_id: id.clone(),
                    reused_bytes: bytes,
                    reused_chunks: chunks,
                },
            ),
            AppStep::RefreshFile(id.clone()),
            AppStep::SetStatus(Status::Reusing { id, chunks, bytes }),
        ]
    }

    /// What is on disk of a file was verified. The file stays marked where its transfer is to go
    /// on.
    pub fn handle_resume_reverified_event(
        &mut self,
        id: FileId,
        chunks: usize,
        bytes: u64,
    ) -> (steps:
        Vec<AppStep>)
        requires
            old(self).wf(),
        ensures
            resume_reverified(*old(self), *final(self), id, chunks, bytes, steps@),
    {
        if !self.core_state.contains_file(&id) {
            return Vec::new();
        }
        self.tracking.resolve_shutdown_pending_file(&id);
        let _ = self.tracking.reset_pending_files.remove(&id);
        let _ = self.tracking.verification_inflight_files.remove(&id);
        let _ = self.tracking.verification_targets.remove(&id);
        let _ = self.tracking.shutdown_blocking_verifications.remove(&id);
        if !self.tracking.reverify_pending_files.contains(&id) {
            let _ = self.tracking.verifying_files.remove(&id);
        }
        vec![
            AppStep::Apply(
                CoreEvent::FileResumeReverified {
                    file_id: id.clone(),
                    verified_bytes: bytes,
                    verified_chunks: chunks,
                },
            ),
            AppStep::RefreshFile(id.clone()),
            AppStep::SetStatus(Status::Reusing { id, chunks, bytes }),
        ]
    }

    /// A completed file was verified. It is completed where the core did not know that it is.
    pub fn handle_completed_file_verified_event(&mut self, id: FileId, bytes: u64) -> (steps: Vec<
        AppStep,
    >)
        requires
            old(self).wf(),
        ensures
            completed_verified(*old(self), *final(self), id, bytes, steps@),
    {
        self.tracking.end_verification(&id);
        self.tracking.resolve_shutdown_pending_file(&id);
        let was_complete = match self.core_state.get_file(&id) {
            Some(file) => file.lifecycle.is_complete(),
            None => {
                return Vec::new();
            },
        };
        let event = if was_complete {
            CoreEvent::FileVerificationCompleted { file_id: id.clone() }
        } else {
            CoreEvent::FileCompleted { file_id: id.clone() }
        };
        vec![
            AppStep::Apply(
                CoreEvent::FileResumeReverified {
                    file_id: id.clone(),
                    verified_bytes: bytes,
                    verified_chunks: 0,
                },
            ),
            AppStep::Apply(event),
            AppStep::RefreshFile(id.clone()),
            AppStep::SetStatus(Status::Verified { id, bytes }),
        ]
    }

    /// What follows where a verification is skipped.
    pub open spec fn skip_steps(&self, id: FileId, completed: bool) -> Seq<AppStep> {
        if self.core_state.has(id@) {
            seq![
                AppStep::Apply(
                    if completed {
                        CoreEvent::FileVerificationCompleted { file_id: id }
                    } else {
                        CoreEvent::FileCancelled { file_id: id }
                    },
                ),
                AppStep::RefreshFile(id),
                AppStep::SetStatus(Status::VerificationSkipped { id }),
            ]
        } else {
            Seq::empty()
        }
    }

    /// A verification was skipped.
    pub fn handle_verification_skipped_event(&mut self, id: FileId, completed: bool) -> (steps: Vec<
        AppStep,
    >)
        requires
            old(self).wf(),
        ensures
            verification_skipped(*old(self), *final(self), id, completed, steps@),
    {
        self.tracking.resolve_shutdown_pending_file(&id);
        self.tracking.clear_verification_state(&id);
        if !self.core_state.contains_file(&id) {
            return Vec::new();
        }
        let event = if completed {
            CoreEvent::FileVerificationCompleted { file_id: id.clone() }
        } else {
            CoreEvent::FileCancelled { file_id: id.clone() }
        };
        vec![
            AppStep::Apply(event),
            AppStep::RefreshFile(id.clone()),
            AppStep::SetStatus(Status::VerificationSkipped { id }),
        ]
    }

    /// A transfer is complete.
    pub fn handle_file_complete_event(&mut self, id: FileId, attempt_id: u64) -> (steps: Vec<
        AppStep,
    >)
        requires
            old(self).wf(),
        ensures
            file_completed(*old(self), *final(self), id, attempt_id, steps@),
    {
        if !self.tracking.event_matches_current_attempt(&id, attempt_id)
            || self.tracking.reset_is_waiting_for_new_attempt(&id)
            || !self.core_state.contains_file(&id) {
            return Vec::new();
        }
        self.tracking.end_verification(&id);
        let _ = self.tracking.cancellation_tokens.remove(&id);
        self.tracking.resolve_shutdown_pending_file(&id);
        vec![
            AppStep::Apply(CoreEvent::FileCompleted { file_id: id.clone() }),
            AppStep::ResetRate(id),
            AppStep::UpdateStatus,
        ]
    }

    /// A transfer was cancelled.
    pub fn handle_file_cancelled_event(&mut self, id: FileId, attempt_id: u64) -> (steps: Vec<
        AppStep,
    >)
        requires
            old(self).wf(),
        ensures
            file_cancelled(*old(self), *final(self), id, attempt_id, steps@),
    {
        if !self.tracking.event_matches_current_attempt(&id, attempt_id)
            || self.tracking.reset_is_waiting_for_new_attempt(&id)
            || !self.core_state.contains_file(&id) {
            return Vec::new();
        }
        let _ = self.tracking.cancellation_tokens.remove(&id);
        self.tracking.resolve_shutdown_pending_file(&id);
        self.tracking.clear_verification_state(&id);
        vec![
            AppStep::Apply(CoreEvent::FileCancelled { file_id: id.clone() }),
            AppStep::ResetRate(id),
            AppStep::UpdateStatus,
        ]
    }
}

/// Whether a step tells the core of a queued file and its package.
pub open spec fn resolves_file(
    step: AppStep,
    package_id: Option<PackageId>,
    name: String,
    file: QueuedFile,
) -> bool {
    match step {
        AppStep::Apply(CoreEvent::PackageResolved { package }) => {
            &&& package.id == package_id
            &&& package.key == name
            &&& package.display_name == name
            &&& package.source_url == file.origin.source_url
            &&& package.files@ == seq![
                ResolvedFile { file_id: file.id, path: file.id, size: file.size },
            ]
        },
        _ => false,
    }
}

/// The first package of a key.
pub open spec fn package_with_key(packages: Seq<PackageState>, key: Seq<char>) -> Option<PackageId>
    decreases packages.len(),
{
    if packages.len() == 0 {
        None
    } else if packages[0].key@ == key {
        Some(packages[0].id)
    } else {
        package_with_key(packages.drop_first(), key)
    }
}

/// The first package of a key.
fn find_package(packages: &Vec<PackageState>, key: &String) -> (id: Option<PackageId>)
    ensures
        id == package_with_key(packages@, key@),
{
    let mut i: usize = 0;
    assert(packages@.skip(0) =~= packages@);
    while i < packages.len()
        invariant
            i <= packages@.len(),
            package_with_key(packages@, key@) == package_with_key(packages@.skip(i as int), key@),
        decreases packages.len() - i,
    {
        assert(packages@.skip(i as int).drop_first() =~= packages@.skip(i as int + 1));
        if *packages[i].key.as_str() == *key.as_str() {
            return Some(packages[i].id);
        }
        i += 1;
    }
    None
}

/// Whether a text is another than the given one.
pub open spec fn other_than(text: Seq<char>) -> spec_fn(Seq<char>) -> bool {
    |other: Seq<char>| other != text
}

/// A list of addresses without one.
pub fn without_url(urls: &Vec<String>, url: &str) -> (kept: Vec<String>)
    ensures
        ids::texts(kept@) == ids::texts(urls@).filter(other_than(url@)),
{
    let ghost keep = other_than(url@);
    let mut kept: Vec<String> = Vec::new();
    let mut i: usize = 0;
    assert(ids::texts(urls@.take(0)).filter(keep) =~= Seq::empty()) by {
        reveal(Seq::filter);
    }
    assert(ids::texts(kept@) =~= Seq::empty());
    while i < urls.len()
        invariant
            i <= urls@.len(),
            keep == other_than(url@),
            ids::texts(kept@) == ids::texts(urls@.take(i as int)).filter(keep),
        decreases urls.len() - i,
    {
        let ghost before = ids::texts(urls@.take(i as int));
        let ghost kept_before = ids::texts(kept@);
        proof {
            assert(ids::texts(urls@.take(i as int + 1)) =~= before.push(urls@[i as int]@));
            crate::scheduler::lemma_filter_push(before, urls@[i as int]@, keep);
        }
        if *urls[i].as_str() != *url {
            kept.push(urls[i].clone());
            assert(ids::texts(kept@) =~= kept_before.push(urls@[i as int]@));
        }
        i += 1;
    }
    assert(urls@.take(i as int) =~= urls@);
    kept
}

} // verus!
