//! What the application does on requests of the user.

use vstd::prelude::*;

use crate::actions::{self, without_url};
use crate::app::{App, AppStep, Notice, Status};
use crate::events::DownloadRequest;
use crate::ids::{self, FileId, PackageId};
use crate::model::{CoreCommand, CoreEvent, DownloadState, FileLifecycle, FileState, FileStatus};
use crate::scheduler;
use crate::tracking::TrackingModel;
use crate::verification::VerificationTarget;

verus! {

/// What can be verified of a file: all of it where it is complete, else what is on disk of it.
pub open spec fn target_of(file: FileState) -> Option<VerificationTarget> {
    match file.lifecycle {
        FileLifecycle::Complete => Some(VerificationTarget::Completed),
        FileLifecycle::Downloading => Some(VerificationTarget::Resume),
        _ => if file.progress.visible_completed_bytes > 0 || file.progress.verified_existing_bytes
            > 0 || file.progress.downloaded_network_bytes > 0 {
            Some(VerificationTarget::Resume)
        } else {
            None
        },
    }
}

/// What can be verified of a file: all of it where it is complete, else what is on disk of it.
pub fn reverify_target_for_core_file(file: &FileState) -> (target: Option<VerificationTarget>)
    ensures
        target == target_of(*file),
{
    match &file.lifecycle {
        FileLifecycle::Complete => Some(VerificationTarget::Completed),
        FileLifecycle::Downloading => Some(VerificationTarget::Resume),
        _ => if file.progress.visible_completed_bytes > 0 || file.progress.verified_existing_bytes
            > 0 || file.progress.downloaded_network_bytes > 0 {
            Some(VerificationTarget::Resume)
        } else {
            None
        },
    }
}

/// Cancels the transfer of a file where it can be cancelled.
pub open spec fn cancel_step(tracking: TrackingModel, id: FileId) -> Seq<AppStep> {
    if tracking.tokens.contains(id@) {
        seq![AppStep::CancelToken(id)]
    } else {
        Seq::empty()
    }
}

/// What is under way once a file was deleted. Its next attempt has a new number, so that late
/// events of the deleted one find no file.
pub open spec fn without_file(tracking: TrackingModel, id: Seq<char>) -> TrackingModel {
    tracking.untokened(id).settled(id).bumped(id).unreset(id).cleared(id)
}

/// What is under way once a file was reset.
pub open spec fn with_reset(tracking: TrackingModel, id: Seq<char>) -> TrackingModel {
    let bumped = tracking.untokened(id).bumped(id);
    TrackingModel { reset: bumped.reset.insert(id), ..bumped }.cleared(id)
}

/// What is under way once the verification of a file was asked for.
pub open spec fn with_reverify(
    tracking: TrackingModel,
    id: Seq<char>,
    target: VerificationTarget,
    downloading: bool,
) -> TrackingModel {
    let stopped = tracking.untokened(id);
    let stopped = TrackingModel { startup: stopped.startup.remove(id), ..stopped };
    let numbered = if downloading {
        stopped.bumped(id)
    } else {
        stopped
    };
    let verified = numbered.verified_as(id, target);
    let pending = if downloading {
        TrackingModel { reverify: verified.reverify.insert(id), ..verified }
    } else {
        verified
    };
    pending.unreset(id)
}

/// What follows for one file whose verification is asked for.
pub open spec fn reverify_steps(
    tracking: TrackingModel,
    id: FileId,
    downloading: bool,
) -> Seq<AppStep> {
    cancel_step(tracking, id) + seq![
        AppStep::Apply(CoreEvent::FileVerificationStarted { file_id: id }),
        AppStep::RefreshFile(id),
    ] + if downloading {
        seq![
            AppStep::Apply(CoreEvent::FileCancelled { file_id: id }),
            AppStep::ResetRate(id),
        ]
    } else {
        Seq::empty()
    }
}

/// Whether a step asks the download task to verify files of an address.
pub open spec fn asks_to_verify(
    step: AppStep,
    target: VerificationTarget,
    url: Seq<char>,
    files: Seq<Seq<char>>,
) -> bool {
    match (target, step) {
        (
            VerificationTarget::Resume,
            AppStep::Send(DownloadRequest::ReverifyFileIds { source_url, file_ids }),
        ) => source_url@ == url && ids::texts(file_ids@) == files,
        (
            VerificationTarget::Completed,
            AppStep::Send(DownloadRequest::VerifyCompletedFileIds { source_url, file_ids }),
        ) => source_url@ == url && ids::texts(file_ids@) == files,
        _ => false,
    }
}

/// Asks the download task to verify files of an address.
pub fn verify_request(
    target: VerificationTarget,
    source_url: String,
    file_ids: Vec<FileId>,
) -> (step:
    AppStep)
    ensures
        asks_to_verify(step, target, source_url@, ids::texts(file_ids@)),
{
    match target {
        VerificationTarget::Completed => AppStep::Send(
            DownloadRequest::VerifyCompletedFileIds { source_url, file_ids },
        ),
        VerificationTarget::Resume => AppStep::Send(
            DownloadRequest::ReverifyFileIds { source_url, file_ids },
        ),
    }
}

/// The files of a package.
pub open spec fn in_package(package_id: PackageId) -> spec_fn(FileState) -> bool {
    |file: FileState| file.package_id == package_id
}

/// The files of a package, in the core's order.
pub open spec fn package_files(state: DownloadState, package_id: PackageId) -> Seq<FileState> {
    state.files.values().filter(in_package(package_id))
}

/// The positions of a package's files, in the core's order.
pub fn package_positions(state: &DownloadState, package_id: PackageId) -> (at: Vec<usize>)
    requires
        state.wf(),
    ensures
        at@.len() == package_files(*state, package_id).len(),
        forall|k: int|
            0 <= k < at@.len() ==> (#[trigger] at@[k]) < state.files.values().len()
                && state.files.values()[at@[k] as int] == package_files(*state, package_id)[k],
{
    let ghost keep = in_package(package_id);
    let ghost values = state.files.values();
    let mut at: Vec<usize> = Vec::new();
    let mut i: usize = 0;
    assert(values.take(0).filter(keep) =~= Seq::empty()) by {
        reveal(Seq::filter);
    }
    while i < state.files.len()
        invariant
            state.wf(),
            values == state.files.values(),
            keep == in_package(package_id),
            i <= values.len(),
            at@.len() == values.take(i as int).filter(keep).len(),
            forall|k: int|
                0 <= k < at@.len() ==> (#[trigger] at@[k]) < values.len() && values[at@[k] as int]
                    == values.take(i as int).filter(keep)[k],
        decreases values.len() - i,
    {
        proof {
            assert(values.take(i as int + 1) =~= values.take(i as int).push(values[i as int]));
            scheduler::lemma_filter_push(values.take(i as int), values[i as int], keep);
        }
        if state.files.value(i).package_id == package_id {
            at.push(i);
        }
        i += 1;
    }
    assert(values.take(i as int) =~= values);
    at
}

/// What is under way once files were deleted.
pub open spec fn without_files(tracking: TrackingModel, files: Seq<FileState>) -> TrackingModel
    decreases files.len(),
{
    if files.len() == 0 {
        tracking
    } else {
        without_file(without_files(tracking, files.drop_last()), files.last().id@)
    }
}

/// The cancellations of files that are deleted.
pub open spec fn cancel_steps(tracking: TrackingModel, files: Seq<FileState>) -> Seq<AppStep>
    decreases files.len(),
{
    if files.len() == 0 {
        Seq::empty()
    } else {
        cancel_steps(tracking, files.drop_last()) + cancel_step(
            without_files(tracking, files.drop_last()),
            files.last().id,
        )
    }
}

/// The rows of addresses that are dropped.
pub open spec fn forget_steps(files: Seq<FileState>) -> Seq<AppStep> {
    files.map_values(|file: FileState| AppStep::ForgetRow(file.source_url))
}

/// How a new address is handled.
pub open spec fn url_submitted(before: App, after: App, url: String, steps: Seq<AppStep>) -> bool {
    &&& after == (App {
        deleted_url_tombstones: after.deleted_url_tombstones,
        ..before
    })
    &&& if before.knows_url(url@) {
        after == before && steps =~= Seq::<AppStep>::empty()
    } else {
        &&& after.deleted_url_tombstones@ == before.deleted_url_tombstones@.remove(url@)
        &&& steps =~= seq![
            AppStep::EnsureSession,
            AppStep::QueuePlaceholder(url),
            AppStep::Command(CoreCommand::SubmitUrl { url }),
        ]
    }
}

/// How downloads go on.
pub open spec fn downloads_resumed(before: App, after: App, steps: Seq<AppStep>) -> bool {
    &&& after == (App { paused: false, ..before })
    &&& steps =~= (if before.paused {
        seq![AppStep::BroadcastPause(false), AppStep::SetStatus(Status::Resuming)]
    } else {
        Seq::empty()
    })
}

/// How a file is deleted.
pub open spec fn file_deleted(before: App, after: App, id: FileId, steps: Seq<AppStep>) -> bool {
    &&& after.wf()
    &&& after == (App {
        tracking: after.tracking,
        core_state: after.core_state,
        deleted_url_tombstones: after.deleted_url_tombstones,
        ..before
    })
    &&& after.core_state == (DownloadState {
        url_order: after.core_state.url_order,
        ..before.core_state
    })
    &&& after.tracking@ =~= without_file(before.tracking@, id@)
    &&& ({
        let first = cancel_step(before.tracking@, id);
        if before.core_state.has(id@) {
            &&& after.core_state == before.core_state
            &&& after.deleted_url_tombstones == before.deleted_url_tombstones
            &&& steps =~= first + seq![
                AppStep::Command(CoreCommand::DeleteFile { file_id: id }),
                AppStep::RemoveSessionFile(id),
            ]
        } else if before.knows_url(id@) {
            &&& ids::texts(after.core_state.url_order@) == ids::texts(
                before.core_state.url_order@,
            ).filter(actions::other_than(id@))
            &&& after.deleted_url_tombstones@ == before.deleted_url_tombstones@.insert(id@)
            &&& steps =~= first + seq![
                AppStep::RemoveSessionUrl(id),
                AppStep::ForgetRow(id),
                AppStep::SyncVisible,
                AppStep::RemoveSessionFile(id),
                AppStep::RecomputeTotals,
            ]
        } else {
            &&& after.core_state == before.core_state
            &&& after.deleted_url_tombstones == before.deleted_url_tombstones
            &&& steps =~= first + seq![
                AppStep::ForgetRow(id),
                AppStep::SyncVisible,
                AppStep::RemoveSessionFile(id),
                AppStep::RecomputeTotals,
            ]
        }
    })
}

/// How a package is deleted.
pub open spec fn package_deleted(
    before: App,
    after: App,
    package_id: PackageId,
    steps: Seq<AppStep>,
) -> bool {
    &&& after == (App { tracking: after.tracking, ..before })
    &&& ({
        let files = package_files(before.core_state, package_id);
        &&& after.tracking@ =~= without_files(before.tracking@, files)
        &&& steps =~= cancel_steps(before.tracking@, files) + seq![
            AppStep::Command(CoreCommand::DeletePackage { package_id }),
        ] + forget_steps(files)
    })
}

/// How a file is retried.
pub open spec fn file_retried(before: App, after: App, id: FileId, steps: Seq<AppStep>) -> bool {
    &&& after == (App { tracking: after.tracking, ..before })
    &&& after.tracking@ =~= before.tracking@.bumped(id@).unreset(id@).cleared(id@)
    &&& steps =~= (if before.core_state.has(id@) {
        seq![
            AppStep::Command(CoreCommand::RetryFile { file_id: id }),
            AppStep::ResetRate(id),
        ]
    } else {
        let last = seq![
            AppStep::Command(CoreCommand::RetryFile { file_id: id }),
            AppStep::SetStatus(Status::RetryUnavailable { id: id }),
            AppStep::ShowErrorIfUnknown { id: id, notice: Notice::RetryUnavailable },
        ];
        match before.seen(id@) {
            Some(
                crate::model::VisibleFileContext {
                    status: FileStatus::Error(message),
                    ..
                },
            ) => seq![
                AppStep::Apply(CoreEvent::FileFailed { file_id: id, message }),
            ] + last,
            _ => last,
        }
    })
}

/// How the verification of a file is asked for.
pub open spec fn file_reverified(before: App, after: App, id: FileId, steps: Seq<AppStep>) -> bool {
    &&& after == (App { tracking: after.tracking, ..before })
    &&& if !before.core_state.has(id@) {
        &&& after == before
        &&& steps =~= (if before.overlays(id@) {
            seq![
                AppStep::SetStatus(Status::ReverifyUnavailable),
                AppStep::ShowError { id: id, notice: Notice::ReverifyUnavailable },
                AppStep::RecomputeTotals,
            ]
        } else {
            Seq::empty()
        })
    } else {
        let file = before.core_state.file(id@);
        let downloading = file.lifecycle is Downloading;
        match target_of(file) {
            None => {
                &&& after.tracking@ =~= before.tracking@.cleared(id@)
                &&& steps =~= seq![
                    AppStep::RefreshFile(id),
                    AppStep::SetStatus(Status::ReverifyUnavailable),
                    AppStep::RecomputeTotals,
                ]
            },
            Some(target) => {
                let first = reverify_steps(before.tracking@, id, downloading);
                &&& after.tracking@ =~= with_reverify(
                    before.tracking@,
                    id@,
                    target,
                    downloading,
                )
                &&& steps.len() == first.len() + 2
                &&& steps.take(first.len() as int) == first
                &&& asks_to_verify(
                    steps[first.len() as int],
                    target,
                    file.source_url@,
                    seq![id@],
                )
                &&& steps.last() == AppStep::SetStatus(
                    match target {
                        VerificationTarget::Completed => Status::VerifyingCompleted {
                            id: id,
                        },
                        VerificationTarget::Resume => Status::ReverifyingResume {
                            id: id,
                        },
                    },
                )
            },
        }
    }
}

/// How a file is reset.
pub open spec fn file_reset(before: App, after: App, id: FileId, steps: Seq<AppStep>) -> bool {
    &&& after == (App { tracking: after.tracking, ..before })
    &&& if before.core_state.has(id@) {
        &&& after.tracking@ =~= with_reset(before.tracking@, id@)
        &&& steps =~= cancel_step(before.tracking@, id) + seq![
            AppStep::Command(CoreCommand::ResetFile { file_id: id }),
            AppStep::ResetRate(id),
        ]
    } else {
        &&& after == before
        &&& steps =~= (if before.overlays(id@) {
            seq![
                AppStep::ShowError { id: id, notice: Notice::ResetUnavailable },
                AppStep::SetStatus(Status::ResetUnavailable),
                AppStep::RecomputeTotals,
            ]
        } else {
            Seq::empty()
        })
    }
}

/// How a package is reset.
pub open spec fn package_reset(before: App, package_id: PackageId, steps: Seq<AppStep>) -> bool {
    &&& steps =~= package_files(before.core_state, package_id).map_values(
        |file: FileState| AppStep::ResetFile(file.id),
    )
}

impl App {
    /// Submits an address, unless it was submitted before.
    pub fn submit_url(&mut self, url: String) -> (steps: Vec<AppStep>)
        ensures
            url_submitted(*old(self), *final(self), url, steps@),
    {
        if self.core_state.has_tracked_url(&url) {
            return Vec::new();
        }
        let _ = self.deleted_url_tombstones.remove(&url);
        self.retry_source_url(url)
    }

    /// Submits an address, whether or not it was submitted before.
    pub fn retry_source_url(&self, url: String) -> (steps: Vec<AppStep>)
        ensures
            steps@ == seq![
                AppStep::EnsureSession,
                AppStep::QueuePlaceholder(url),
                AppStep::Command(CoreCommand::SubmitUrl { url }),
            ],
    {
        vec![
            AppStep::EnsureSession,
            AppStep::QueuePlaceholder(url.clone()),
            AppStep::Command(CoreCommand::SubmitUrl { url }),
        ]
    }

    /// Sets whether downloads are paused.
    pub fn set_paused(&mut self, paused: bool) -> (steps: Vec<AppStep>)
        ensures
            *final(self) == (App { paused, ..*old(self) }),
            steps@ == seq![AppStep::BroadcastPause(paused)],
    {
        self.paused = paused;
        vec![AppStep::BroadcastPause(paused)]
    }

    /// Lets downloads go on.
    pub fn resume_downloads(&mut self) -> (steps: Vec<AppStep>)
        ensures
            downloads_resumed(*old(self), *final(self), steps@),
    {
        if !self.paused {
            return Vec::new();
        }
        let mut steps = self.set_paused(false);
        steps.push(AppStep::SetStatus(Status::Resuming));
        steps
    }

    /// Cancels the transfer of a file where it can be cancelled.
    fn cancel_file_token(&mut self, id: &FileId) -> (steps: Vec<AppStep>)
        ensures
            *final(self) == (App { tracking: final(self).tracking, ..*old(self) }),
            final(self).tracking@ == old(self).tracking@.untokened(id@),
            steps@ == cancel_step(old(self).tracking@, *id),
    {
        if self.tracking.cancellation_tokens.remove(id) {
            vec![AppStep::CancelToken(id.clone())]
        } else {
            Vec::new()
        }
    }

    /// Deletes a file, or an address that has not been looked up.
    pub fn perform_delete_file_action(&mut self, id: &FileId) -> (steps: Vec<AppStep>)
        requires
            old(self).wf(),
        ensures
            file_deleted(*old(self), *final(self), *id, steps@),
    {
        let known = self.core_state.contains_file(id);
        let mut steps = self.drop_file_state(id);
        let ghost first = steps@;
        if known {
            steps.push(AppStep::Command(CoreCommand::DeleteFile { file_id: id.clone() }));
            steps.push(AppStep::RemoveSessionFile(id.clone()));
            proof {
                assert(steps@ =~= first + seq![
                    AppStep::Command(CoreCommand::DeleteFile { file_id: *id }),
                    AppStep::RemoveSessionFile(*id),
                ]);
            }
            return steps;
        }
        let pending = self.core_state.has_tracked_url(id);
        if pending {
            let kept = without_url(&self.core_state.url_order, id);
            self.core_state.url_order = kept;
            let _ = self.deleted_url_tombstones.insert(id.clone());
            steps.push(AppStep::RemoveSessionUrl(id.clone()));
        }
        steps.push(AppStep::ForgetRow(id.clone()));
        steps.push(AppStep::SyncVisible);
        steps.push(AppStep::RemoveSessionFile(id.clone()));
        steps.push(AppStep::RecomputeTotals);
        proof {
            let last = seq![
                AppStep::ForgetRow(*id),
                AppStep::SyncVisible,
                AppStep::RemoveSessionFile(*id),
                AppStep::RecomputeTotals,
            ];
            if pending {
                assert(steps@ =~= first + seq![
                    AppStep::RemoveSessionUrl(*id),
                    AppStep::ForgetRow(*id),
                    AppStep::SyncVisible,
                    AppStep::RemoveSessionFile(*id),
                    AppStep::RecomputeTotals,
                ]);
            } else {
                assert(steps@ =~= first + last);
            }
        }
        steps
    }

    /// Drops what is under way for a file that is deleted.
    fn drop_file_state(&mut self, id: &FileId) -> (steps: Vec<AppStep>)
        ensures
            *final(self) == (App { tracking: final(self).tracking, ..*old(self) }),
            final(self).tracking@ == without_file(old(self).tracking@, id@),
            steps@ == cancel_step(old(self).tracking@, *id),
    {
        let steps = self.cancel_file_token(id);
        self.tracking.resolve_shutdown_pending_file(id);
        let _ = self.tracking.bump_file_attempt_id(id);
        let _ = self.tracking.reset_pending_files.remove(id);
        self.tracking.clear_verification_state(id);
        steps
    }

    /// Deletes a package and its files.
    pub fn perform_delete_package_action(&mut self, package_id: PackageId) -> (steps: Vec<AppStep>)
        requires
            old(self).wf(),
        ensures
            package_deleted(*old(self), *final(self), package_id, steps@),
    {
        let at = package_positions(&self.core_state, package_id);
        let ghost files = package_files(self.core_state, package_id);
        let mut steps: Vec<AppStep> = Vec::new();
        let mut k: usize = 0;
        while k < at.len()
            invariant
                old(self).wf(),
                *self == (App { tracking: self.tracking, ..*old(self) }),
                files == package_files(old(self).core_state, package_id),
                k <= at@.len(),
                at@.len() == files.len(),
                forall|j: int|
                    0 <= j < at@.len() ==> (#[trigger] at@[j])
                        < self.core_state.files.values().len()
                        && self.core_state.files.values()[at@[j] as int] == files[j],
                self.tracking@ == without_files(old(self).tracking@, files.take(k as int)),
                steps@ == cancel_steps(old(self).tracking@, files.take(k as int)),
            decreases at.len() - k,
        {
            assert(files.take(k as int + 1).drop_last() =~= files.take(k as int));
            let id = self.core_state.files.value(at[k]).id.clone();
            let mut cancelled = self.drop_file_state(&id);
            steps.append(&mut cancelled);
            k += 1;
        }
        assert(files.take(k as int) =~= files);
        steps.push(AppStep::Command(CoreCommand::DeletePackage { package_id }));
        let ghost first = steps@;
        let mut k: usize = 0;
        assert(forget_steps(files.take(0)) =~= Seq::empty());
        assert(first + forget_steps(files.take(0)) =~= first);
        while k < at.len()
            invariant
                self.wf(),
                k <= at@.len(),
                at@.len() == files.len(),
                forall|j: int|
                    0 <= j < at@.len() ==> (#[trigger] at@[j])
                        < self.core_state.files.values().len()
                        && self.core_state.files.values()[at@[j] as int] == files[j],
                steps@ == first + forget_steps(files.take(k as int)),
            decreases at.len() - k,
        {
            steps.push(
                AppStep::ForgetRow(self.core_state.files.value(at[k]).source_url.clone()),
            );
            assert(steps@ =~= first + forget_steps(files.take(k as int + 1)));
            k += 1;
        }
        assert(files.take(k as int) =~= files);
        steps
    }

    /// Retries a file.
    pub fn perform_retry_file_action(&mut self, id: &FileId) -> (steps: Vec<AppStep>)
        requires
            old(self).wf(),
        ensures
            file_retried(*old(self), *final(self), *id, steps@),
    {
        let known = self.core_state.contains_file(id);
        let context = self.visible_file_context(id);
        let mut steps: Vec<AppStep> = Vec::new();
        if !known {
            if let Some(shown) = context {
                if let FileStatus::Error(message) = shown.status {
                    steps.push(
                        AppStep::Apply(CoreEvent::FileFailed { file_id: id.clone(), message }),
                    );
                }
            }
        }
        let ghost first = steps@;
        let _ = self.tracking.bump_file_attempt_id(id);
        let _ = self.tracking.reset_pending_files.remove(id);
        self.tracking.clear_verification_state(id);
        steps.push(AppStep::Command(CoreCommand::RetryFile { file_id: id.clone() }));
        if known {
            steps.push(AppStep::ResetRate(id.clone()));
        } else {
            steps.push(AppStep::SetStatus(Status::RetryUnavailable { id: id.clone() }));
            steps.push(
                AppStep::ShowErrorIfUnknown { id: id.clone(), notice: Notice::RetryUnavailable },
            );
            proof {
                assert(steps@ =~= first + seq![
                    AppStep::Command(CoreCommand::RetryFile { file_id: *id }),
                    AppStep::SetStatus(Status::RetryUnavailable { id: *id }),
                    AppStep::ShowErrorIfUnknown { id: *id, notice: Notice::RetryUnavailable },
                ]);
            }
        }
        steps
    }

    /// Asks for the verification of a file.
    pub fn perform_reverify_file_action(&mut self, id: &FileId) -> (steps: Vec<AppStep>)
        requires
            old(self).wf(),
        ensures
            file_reverified(*old(self), *final(self), *id, steps@),
    {
        let (target, downloading, source_url) = match self.core_state.get_file(id) {
            Some(file) => (
                reverify_target_for_core_file(file),
                file.lifecycle.is_downloading(),
                file.source_url.clone(),
            ),
            None => {
                return match self.visible_file_context(id) {
                    Some(_) => vec![
                        AppStep::SetStatus(Status::ReverifyUnavailable),
                        AppStep::ShowError { id: id.clone(), notice: Notice::ReverifyUnavailable },
                        AppStep::RecomputeTotals,
                    ],
                    None => Vec::new(),
                };
            },
        };
        let target = match target {
            Some(target) => target,
            None => {
                self.tracking.clear_verification_state(id);
                return vec![
                    AppStep::RefreshFile(id.clone()),
                    AppStep::SetStatus(Status::ReverifyUnavailable),
                    AppStep::RecomputeTotals,
                ];
            },
        };
        let mut steps = self.begin_reverify(id, target, downloading);
        let ghost first = steps@;
        let mut file_ids: Vec<FileId> = Vec::new();
        file_ids.push(id.clone());
        assert(ids::texts(file_ids@) =~= seq![id@]);
        steps.push(verify_request(target, source_url, file_ids));
        steps.push(
            AppStep::SetStatus(
                match target {
                    VerificationTarget::Completed => Status::VerifyingCompleted { id: id.clone() },
                    VerificationTarget::Resume => Status::ReverifyingResume { id: id.clone() },
                },
            ),
        );
        assert(steps@.take(first.len() as int) =~= first);
        steps
    }

    /// Begins the verification of a file that the core knows.
    pub fn begin_reverify(
        &mut self,
        id: &FileId,
        target: VerificationTarget,
        downloading: bool,
    ) -> (steps:
        Vec<AppStep>)
        ensures
            *final(self) == (App { tracking: final(self).tracking, ..*old(self) }),
            final(self).tracking@ == with_reverify(old(self).tracking@, id@, target, downloading),
            steps@ == reverify_steps(old(self).tracking@, *id, downloading),
    {
        let mut steps = self.cancel_file_token(id);
        let ghost first = steps@;
        let _ = self.tracking.startup_resume_pending_files.remove(id);
        if downloading {
            let _ = self.tracking.bump_file_attempt_id(id);
        }
        self.tracking.begin_verification(id, target);
        steps.push(AppStep::Apply(CoreEvent::FileVerificationStarted { file_id: id.clone() }));
        steps.push(AppStep::RefreshFile(id.clone()));
        if downloading {
            steps.push(AppStep::Apply(CoreEvent::FileCancelled { file_id: id.clone() }));
            steps.push(AppStep::ResetRate(id.clone()));
            let _ = self.tracking.reverify_pending_files.insert(id.clone());
        }
        let _ = self.tracking.reset_pending_files.remove(id);
        assert(steps@ =~= reverify_steps(old(self).tracking@, *id, downloading));
        steps
    }

    /// Resets a file, so that it starts from nothing.
    pub fn perform_reset_file_action(&mut self, id: &FileId) -> (steps: Vec<AppStep>)
        requires
            old(self).wf(),
        ensures
            file_reset(*old(self), *final(self), *id, steps@),
    {
        if !self.core_state.contains_file(id) {
            return match self.visible_file_context(id) {
                Some(_) => vec![
                    AppStep::ShowError { id: id.clone(), notice: Notice::ResetUnavailable },
                    AppStep::SetStatus(Status::ResetUnavailable),
                    AppStep::RecomputeTotals,
                ],
                None => Vec::new(),
            };
        }
        let mut steps = self.cancel_file_token(id);
        let ghost first = steps@;
        let _ = self.tracking.bump_file_attempt_id(id);
        let _ = self.tracking.reset_pending_files.insert(id.clone());
        self.tracking.clear_verification_state(id);
        steps.push(AppStep::Command(CoreCommand::ResetFile { file_id: id.clone() }));
        steps.push(AppStep::ResetRate(id.clone()));
        proof {
            assert(steps@ =~= first + seq![
                AppStep::Command(CoreCommand::ResetFile { file_id: *id }),
                AppStep::ResetRate(*id),
            ]);
        }
        steps
    }

    /// Resets the files of a package.
    pub fn perform_reset_package_action(&self, package_id: PackageId) -> (steps: Vec<AppStep>)
        requires
            self.wf(),
        ensures
            package_reset(*self, package_id, steps@),
    {
        let at = package_positions(&self.core_state, package_id);
        let ghost files = package_files(self.core_state, package_id);
        let ghost step = |file: FileState| AppStep::ResetFile(file.id);
        let mut steps: Vec<AppStep> = Vec::new();
        let mut k: usize = 0;
        while k < at.len()
            invariant
                self.wf(),
                k <= at@.len(),
                at@.len() == files.len(),
                forall|j: int|
                    0 <= j < at@.len() ==> (#[trigger] at@[j])
                        < self.core_state.files.values().len()
                        && self.core_state.files.values()[at@[j] as int] == files[j],
                steps@.len() == k,
                forall|j: int| 0 <= j < k ==> #[trigger] steps@[j] == AppStep::ResetFile(files[j].id),
            decreases at.len() - k,
        {
            steps.push(AppStep::ResetFile(self.core_state.files.value(at[k]).id.clone()));
            k += 1;
        }
        assert(steps@ =~= files.map_values(step));
        steps
    }

    /// Moves a package among the packages.
    pub fn perform_move_package_action(&self, package_id: PackageId, delta: isize) -> (steps: Vec<
        AppStep,
    >)
        ensures
            steps@ == seq![AppStep::Command(CoreCommand::MovePackage { package_id, delta })],
    {
        vec![AppStep::Command(CoreCommand::MovePackage { package_id, delta })]
    }

    /// Moves a file among the files.
    pub fn perform_move_file_action(&self, file_id: FileId, delta: isize) -> (steps: Vec<AppStep>)
        ensures
            steps@ == seq![AppStep::Command(CoreCommand::MoveFile { file_id, delta })],
    {
        vec![AppStep::Command(CoreCommand::MoveFile { file_id, delta })]
    }
}

} // verus!
