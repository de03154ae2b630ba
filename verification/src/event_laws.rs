//! What holds of every event and every request of the user that is handled.

use vstd::prelude::*;

use crate::actions;
use crate::app::{App, AppStep, Notice, Status};
use crate::commands;
use crate::dispatch;
use crate::events::{DownloadEvent, DownloadRequest, FileAccounting, QueuedFile};
use crate::ids::{self, FileId, PackageId};
use crate::model::{CoreCommand, CoreEvent, FileLifecycle, FileState, PackageState};
use crate::packages;
use crate::settings::UiAction;
use crate::shutdown;
use crate::tracking::TrackingModel;
use crate::verification::VerificationTarget;

verus! {

/// Whether the core knows a file and an attempt is the current one at it; the first attempt at a
/// file has the number zero.
pub open spec fn is_current(app: App, id: Seq<char>, attempt_id: u64) -> bool {
    let attempts = app.tracking@.attempts;
    &&& app.core_state.files.keys().contains(id)
    &&& attempts.dom().contains(id) ==> attempts[id] == attempt_id
    &&& !attempts.dom().contains(id) ==> attempt_id == 0
}

/// Whether what is under way of every other file is as it was.
pub open spec fn concerns_only(before: TrackingModel, after: TrackingModel, id: Seq<char>) -> bool {
    forall|other: Seq<char>|
        #![trigger after.inflight.contains(other)]
        #![trigger after.tokens.contains(other)]
        #![trigger after.attempts.dom().contains(other)]
        other != id ==> {
            &&& after.verifying.contains(other) == before.verifying.contains(other)
            &&& after.inflight.contains(other) == before.inflight.contains(other)
            &&& after.targets.dom().contains(other) == before.targets.dom().contains(other)
            &&& after.targets.dom().contains(other) ==> after.targets[other]
                == before.targets[other]
            &&& after.blocking.contains(other) == before.blocking.contains(other)
            &&& after.startup.contains(other) == before.startup.contains(other)
            &&& after.reverify.contains(other) == before.reverify.contains(other)
            &&& after.reset.contains(other) == before.reset.contains(other)
            &&& after.shutdown.contains(other) == before.shutdown.contains(other)
            &&& after.tokens.contains(other) == before.tokens.contains(other)
            &&& after.attempts.dom().contains(other) == before.attempts.dom().contains(other)
            &&& after.attempts.dom().contains(other) ==> after.attempts[other]
                == before.attempts[other]
        }
}

/// The end of the current attempt at a file reaches the core: a complete transfer completes the
/// file, a cancelled one cancels it, and an error fails it with its message. Only a file that was
/// reset waits for its new attempt instead.
pub proof fn law_endings_reach_the_core(
    before: App,
    after: App,
    event: DownloadEvent,
    steps: Seq<AppStep>,
)
    requires
        dispatch::event_handled(before, after, event, steps),
    ensures
        event matches DownloadEvent::FileComplete { id, attempt_id } ==> (steps.contains(
            AppStep::Apply(CoreEvent::FileCompleted { file_id: id }),
        ) <==> is_current(before, id@, attempt_id) && !before.tracking@.reset.contains(id@)),
        event matches DownloadEvent::FileCancelled { id, attempt_id } ==> (steps.contains(
            AppStep::Apply(CoreEvent::FileCancelled { file_id: id }),
        ) <==> is_current(before, id@, attempt_id) && !before.tracking@.reset.contains(id@)),
        event matches DownloadEvent::FileError { id, error, attempt_id } ==> (steps.contains(
            AppStep::Apply(CoreEvent::FileFailed { file_id: id, message: error }),
        ) <==> is_current(before, id@, attempt_id) && !before.tracking@.reset.contains(id@)),
{
    if steps.len() > 0 {
        assert(steps.contains(steps[0]));
    }
}

/// The start of the current attempt at a file, and what it reuses, reach the core with the sizes
/// that were reported; a start counts as resumed exactly where the file was waiting for that.
pub proof fn law_starts_reach_the_core(
    before: App,
    after: App,
    event: DownloadEvent,
    steps: Seq<AppStep>,
)
    requires
        dispatch::event_handled(before, after, event, steps),
    ensures
        event matches DownloadEvent::FileStart { id, size, attempt_id } ==> {
            let waited = before.tracking@.reverify.contains(id@)
                || before.tracking@.startup.contains(id@);
            &&& steps.contains(AppStep::Apply(CoreEvent::FileStarted { file_id: id, size }))
                <==> is_current(before, id@, attempt_id) && !waited
            &&& steps.contains(AppStep::Apply(CoreEvent::FileResumeStarted { file_id: id, size }))
                <==> is_current(before, id@, attempt_id) && waited
            &&& is_current(before, id@, attempt_id) ==> {
                &&& !after.tracking@.reset.contains(id@)
                &&& !after.tracking@.inflight.contains(id@)
                &&& !after.tracking@.verifying.contains(id@)
                &&& !after.tracking@.blocking.contains(id@)
            }
        },
        event matches DownloadEvent::ResumeValidationStarted { id, attempt_id } ==> {
            &&& steps.contains(AppStep::Apply(CoreEvent::FileVerificationStarted { file_id: id }))
                <==> is_current(before, id@, attempt_id)
            &&& is_current(before, id@, attempt_id) ==> {
                &&& after.tracking@.inflight.contains(id@)
                &&& after.tracking@.verifying.contains(id@)
                &&& after.tracking@.blocking.contains(id@)
                &&& after.tracking@.targets.dom().contains(id@)
                &&& after.tracking@.targets[id@] == VerificationTarget::Resume
            }
        },
        event matches DownloadEvent::ResumeReused { id, chunks, bytes, attempt_id } ==> (
        steps.contains(
            AppStep::Apply(
                CoreEvent::FileReuseDetected {
                    file_id: id,
                    reused_bytes: bytes,
                    reused_chunks: chunks,
                },
            ),
        ) <==> is_current(before, id@, attempt_id)),
{
    if steps.len() > 0 {
        assert(steps.contains(steps[0]));
    }
}

/// Progress of the current attempt at a file reaches the core with all of its bytes, and the row of
/// the file follows. Bytes from the network end a verification.
pub proof fn law_progress_reaches_the_core(
    before: App,
    after: App,
    event: DownloadEvent,
    steps: Seq<AppStep>,
)
    requires
        dispatch::event_handled(before, after, event, steps),
    ensures
        event matches DownloadEvent::Progress { id, delta, attempt_id } ==> {
            &&& steps.contains(
                AppStep::ApplyProgress(
                    CoreEvent::FileProgress {
                        file_id: id,
                        total_bytes_delta: delta.total_bytes_delta,
                        network_bytes_delta: delta.network_bytes_delta,
                    },
                ),
            ) <==> is_current(before, id@, attempt_id)
            &&& is_current(before, id@, attempt_id) ==> steps.contains(
                AppStep::RefreshProgress(id),
            )
            &&& is_current(before, id@, attempt_id) && delta.network_bytes_delta > 0
                ==> !after.tracking@.inflight.contains(id@) && !after.tracking@.verifying.contains(
                id@,
            )
            &&& delta.network_bytes_delta == 0 ==> after.tracking@.inflight
                == before.tracking@.inflight
        },
        event matches DownloadEvent::VerificationProgress { id, bytes_delta } ==> (steps.contains(
            AppStep::ApplyProgress(
                CoreEvent::FileVerificationProgress { file_id: id, bytes_delta },
            ),
        ) <==> before.core_state.files.keys().contains(id@)
            && before.tracking@.verifying.contains(id@) && before.tracking@.inflight.contains(id@)
            && before.tracking@.targets.dom().contains(id@)),
{
    if steps.len() > 1 {
        assert(steps.contains(steps[0]));
        assert(steps.contains(steps[1]));
    }
}

/// The end of a verification reaches the core with the bytes that were verified; a complete file
/// stays complete, and a file whose output turns out complete becomes so.
pub proof fn law_verified_files_reach_the_core(
    before: App,
    after: App,
    event: DownloadEvent,
    steps: Seq<AppStep>,
)
    requires
        dispatch::event_handled(before, after, event, steps),
    ensures
        event matches DownloadEvent::ResumeReverified { id, chunks, bytes } ==> {
            &&& steps.contains(
                AppStep::Apply(
                    CoreEvent::FileResumeReverified {
                        file_id: id,
                        verified_bytes: bytes,
                        verified_chunks: chunks,
                    },
                ),
            ) <==> before.core_state.files.keys().contains(id@)
            &&& before.core_state.files.keys().contains(id@) ==> {
                &&& !after.tracking@.inflight.contains(id@)
                &&& !after.tracking@.blocking.contains(id@)
                &&& !after.tracking@.shutdown.contains(id@)
            }
        },
        event matches DownloadEvent::CompletedFileVerified { id, bytes } ==> {
            let known = before.core_state.files.keys().contains(id@);
            let complete = before.core_state.file(id@).lifecycle is Complete;
            &&& steps.contains(
                AppStep::Apply(CoreEvent::FileVerificationCompleted { file_id: id }),
            ) <==> known && complete
            &&& steps.contains(AppStep::Apply(CoreEvent::FileCompleted { file_id: id })) <==> known
                && !complete
            &&& !after.tracking@.inflight.contains(id@)
            &&& !after.tracking@.shutdown.contains(id@)
        },
        event matches DownloadEvent::VerificationSkipped { id, completed } ==> {
            let known = before.core_state.files.keys().contains(id@);
            &&& steps.contains(
                AppStep::Apply(CoreEvent::FileVerificationCompleted { file_id: id }),
            ) <==> known && completed
            &&& steps.contains(AppStep::Apply(CoreEvent::FileCancelled { file_id: id })) <==> known
                && !completed
            &&& !after.tracking@.inflight.contains(id@)
            &&& !after.tracking@.shutdown.contains(id@)
        },
{
    if steps.len() > 1 {
        assert(steps.contains(steps[0]));
        assert(steps.contains(steps[1]));
    }
}

/// An event of one file changes nothing of any other: neither what is under way of it, nor rows,
/// nor what the core knows.
pub proof fn law_events_concern_one_file(
    before: App,
    after: App,
    event: DownloadEvent,
    steps: Seq<AppStep>,
    id: FileId,
)
    requires
        dispatch::event_handled(before, after, event, steps),
        match event {
            DownloadEvent::FileStart { id: file, .. } => file == id,
            DownloadEvent::ResumeValidationStarted { id: file, .. } => file == id,
            DownloadEvent::Progress { id: file, .. } => file == id,
            DownloadEvent::VerificationProgress { id: file, .. } => file == id,
            DownloadEvent::ResumeReused { id: file, .. } => file == id,
            DownloadEvent::ResumeReverified { id: file, .. } => file == id,
            DownloadEvent::CompletedFileVerified { id: file, .. } => file == id,
            DownloadEvent::VerificationSkipped { id: file, .. } => file == id,
            DownloadEvent::FileComplete { id: file, .. } => file == id,
            DownloadEvent::FileCancelled { id: file, .. } => file == id,
            DownloadEvent::FileError { id: file, .. } => file == id,
            DownloadEvent::ScopeError { scope, .. } => scope == id,
            _ => false,
        },
    ensures
        after == (App { tracking: after.tracking, ..before }),
        concerns_only(before.tracking@, after.tracking@, id@),
        forall|other: Seq<char>|
            after.tracking@.attempts.dom().contains(other)
                == before.tracking@.attempts.dom().contains(other),
        after.tracking@.attempts =~= before.tracking@.attempts,
{
}

/// A file that is found behind a submitted address, under its current attempt, is taken in: the core
/// is told its package, its name and its size, it is queued, and it is counted exactly where it is
/// part of this run. Any other is not.
pub proof fn law_found_files_are_taken_in(
    before: App,
    after: App,
    file: QueuedFile,
    steps: Seq<AppStep>,
)
    requires
        dispatch::event_handled(before, after, DownloadEvent::FileQueued(file), steps),
    ensures
        ({
            let urls = ids::texts(before.core_state.url_order@);
            let attempts = before.tracking@.attempts;
            let current = if attempts.dom().contains(file.id@) {
                attempts[file.id@] == file.attempt_id
            } else {
                file.attempt_id == 0
            };
            let wanted = current && (urls.contains(file.origin.source_url@) || urls.contains(
                file.origin.submitted_url@,
            ));
            &&& steps.contains(AppStep::Apply(CoreEvent::FileQueued { file_id: file.id }))
                <==> wanted
            &&& !wanted ==> steps.len() == 0 && after == before
            &&& wanted ==> {
                &&& exists|k: int| #[trigger] tells_of(steps, k, file)
                &&& steps.contains(
                    AppStep::SettleFile {
                        file_id: file.id,
                        source_url: file.origin.source_url,
                        size: file.size,
                        counted: file.accounting == FileAccounting::CurrentRun,
                    },
                )
                &&& after.tracking == before.tracking
                &&& after.core_state.files == before.core_state.files
            }
        }),
{
    let n = steps.len() as int;
    if n > 0 {
        assert(steps.contains(steps[n - 3]));
        assert(steps.contains(steps[n - 2]));
        assert(tells_of(steps, n - 4, file));
    }
}

/// Whether a step tells the core of a found file: its name and size, behind its address, in the
/// package that it names.
pub open spec fn tells_of(steps: Seq<AppStep>, k: int, file: QueuedFile) -> bool {
    &&& 0 <= k < steps.len()
    &&& steps[k] matches AppStep::Apply(CoreEvent::PackageResolved { package }) && {
        &&& package.source_url == file.origin.source_url
        &&& package.files@.len() == 1
        &&& package.files@[0].file_id == file.id
        &&& package.files@[0].path == file.id
        &&& package.files@[0].size == file.size
        &&& file.origin.package_id is Some ==> package.id == file.origin.package_id
        &&& package.display_name@ == match file.origin.package_display_name {
            Some(name) => name@,
            None => file.origin.source_url@,
        }
        &&& package.key@ == package.display_name@
    }
}

/// An error of a submitted address reaches the core and the user; one of another scope that is shown
/// reaches the user; and the rest is ignored.
pub proof fn law_errors_reach_the_user(
    before: App,
    after: App,
    scope: String,
    error: String,
    steps: Seq<AppStep>,
)
    requires
        dispatch::event_handled(before, after, DownloadEvent::ScopeError { scope, error }, steps),
    ensures
        ({
            let submitted = ids::texts(before.core_state.url_order@).contains(scope@);
            let shown = submitted || before.overlay_files.keys().contains(scope@) || scope@
                == "setup"@ || scope@ == "download"@;
            &&& steps.contains(
                AppStep::Apply(CoreEvent::UrlFailed { url: scope, message: error }),
            ) <==> submitted
            &&& steps.contains(AppStep::ShowError { id: scope, notice: Notice::Message(error) })
                <==> shown
        }),
{
    if steps.len() > 1 {
        assert(steps.contains(steps[0]));
    }
    if steps.len() > 3 {
        assert(steps.contains(steps[3]));
    }
}

/// Addresses that come together are each submitted once, in their order, as one batch, and counted.
pub proof fn law_addresses_are_submitted_together(urls: Seq<String>, k: int)
    requires
        0 <= k < urls.len(),
    ensures
        ({
            let steps = dispatch::urls_added(urls);
            &&& steps.len() == urls.len() + 3
            &&& steps[0] == AppStep::BeginBatch
            &&& steps[k + 1] == AppStep::SubmitUrl(urls[k])
            &&& steps[urls.len() as int + 1] == AppStep::EndBatch
            &&& steps.last() == AppStep::SetStatus(Status::Received { count: urls.len() as usize })
        }),
{
}

/// An address that was not submitted before is submitted and shown, and may be found again even if
/// it was deleted; one that was submitted before is left alone.
pub proof fn law_new_addresses_are_submitted(
    before: App,
    after: App,
    url: String,
    steps: Seq<AppStep>,
)
    requires
        commands::url_submitted(before, after, url, steps),
    ensures
        ({
            let known = ids::texts(before.core_state.url_order@).contains(url@);
            &&& steps.contains(AppStep::Command(CoreCommand::SubmitUrl { url })) <==> !known
            &&& steps.contains(AppStep::QueuePlaceholder(url)) <==> !known
            &&& steps.contains(AppStep::EnsureSession) <==> !known
            &&& !known ==> !after.deleted_url_tombstones@.contains(url@)
            &&& after == (App { deleted_url_tombstones: after.deleted_url_tombstones, ..before })
            &&& forall|other: Seq<char>|
                other != url@ ==> after.deleted_url_tombstones@.contains(other)
                    == #[trigger] before.deleted_url_tombstones@.contains(other)
            &&& known ==> after == before
        }),
{
    if steps.len() > 2 {
        assert(steps.contains(steps[0]));
        assert(steps.contains(steps[1]));
        assert(steps.contains(steps[2]));
    }
}

/// Deleting a file that the core knows has the core delete it and cancels its transfer; its next
/// attempt has another number, and nothing stays under way of it. Nothing of another file changes.
pub proof fn law_deleting_a_file(
    before: App,
    after: App,
    id: FileId,
    session_urls: Vec<String>,
    steps: Seq<AppStep>,
)
    requires
        dispatch::action_handled(before, after, UiAction::DeleteFile(id), session_urls, steps),
    ensures
        ({
            let known = before.core_state.files.keys().contains(id@);
            let submitted = ids::texts(before.core_state.url_order@).contains(id@);
            &&& steps.contains(AppStep::Command(CoreCommand::DeleteFile { file_id: id })) <==> known
            &&& steps.contains(AppStep::CancelToken(id)) <==> before.tracking@.tokens.contains(id@)
            &&& steps.contains(AppStep::RemoveSessionFile(id))
            &&& !known && submitted ==> {
                &&& steps.contains(AppStep::RemoveSessionUrl(id))
                &&& !ids::texts(after.core_state.url_order@).contains(id@)
                &&& after.deleted_url_tombstones@.contains(id@)
            }
            &&& !known ==> steps.contains(AppStep::ForgetRow(id))
            &&& !after.tracking@.tokens.contains(id@)
            &&& !after.tracking@.inflight.contains(id@)
            &&& !after.tracking@.reset.contains(id@)
            &&& !after.tracking@.shutdown.contains(id@)
            &&& concerns_only(before.tracking@, after.tracking@, id@)
            &&& forall|attempt: u64|
                is_current(before, id@, attempt) && attempt < u64::MAX ==> !is_current(
                    after,
                    id@,
                    attempt,
                )
        }),
{
    let first = commands::cancel_step(before.tracking@, id);
    let n = first.len() as int;
    if steps.len() > 0 {
        assert(steps.contains(steps[0]));
    }
    assert(steps.contains(steps[n]));
    assert(steps.contains(steps[n + 1]));
    if steps.len() > n + 2 {
        assert(steps.contains(steps[n + 2]));
        assert(steps.contains(steps[n + 3]));
    }
    if !before.core_state.has(id@) && before.knows_url(id@) {
        let urls = ids::texts(before.core_state.url_order@);
        crate::scheduler::lemma_filter_to_set(urls, actions::other_than(id@));
        let kept = ids::texts(after.core_state.url_order@);
        assert(kept.to_set().contains(id@) == kept.contains(id@));
    }
}

/// Retrying a file that the core knows has the core retry it, under a new attempt; a reset or a
/// verification no longer stands in its way.
pub proof fn law_retrying_a_file(
    before: App,
    after: App,
    id: FileId,
    session_urls: Vec<String>,
    steps: Seq<AppStep>,
)
    requires
        dispatch::action_handled(before, after, UiAction::RetryFile(id), session_urls, steps),
    ensures
        steps.contains(AppStep::Command(CoreCommand::RetryFile { file_id: id })),
        !after.tracking@.reset.contains(id@),
        !after.tracking@.inflight.contains(id@),
        concerns_only(before.tracking@, after.tracking@, id@),
        forall|attempt: u64|
            is_current(before, id@, attempt) && attempt < u64::MAX ==> #[trigger] is_current(
                after,
                id@,
                (attempt + 1) as u64,
            ),
        forall|attempt: u64| #[trigger]
            is_current(before, id@, attempt) && attempt < u64::MAX ==> !is_current(
                after,
                id@,
                attempt,
            ),
        !before.core_state.files.keys().contains(id@) ==> steps.contains(
            AppStep::SetStatus(Status::RetryUnavailable { id }),
        ),
{
    assert(steps.contains(steps[0]));
    assert(steps.contains(steps[1]));
    if steps.len() > 2 {
        assert(steps.contains(steps[2]));
    }
}

/// Resetting a file that the core knows has the core reset it, cancels its transfer, and lets late
/// endings of the old attempt pass; a file that it does not know is left alone.
pub proof fn law_resetting_a_file(
    before: App,
    after: App,
    id: FileId,
    session_urls: Vec<String>,
    steps: Seq<AppStep>,
)
    requires
        dispatch::action_handled(before, after, UiAction::ResetFile(id), session_urls, steps),
    ensures
        ({
            let known = before.core_state.files.keys().contains(id@);
            &&& steps.contains(AppStep::Command(CoreCommand::ResetFile { file_id: id })) <==> known
            &&& steps.contains(AppStep::CancelToken(id)) <==> known
                && before.tracking@.tokens.contains(id@)
            &&& known ==> {
                &&& after.tracking@.reset.contains(id@)
                &&& !after.tracking@.tokens.contains(id@)
                &&& !after.tracking@.inflight.contains(id@)
                &&& concerns_only(before.tracking@, after.tracking@, id@)
                &&& forall|attempt: u64| #[trigger]
                    is_current(before, id@, attempt) && attempt < u64::MAX ==> !is_current(
                        after,
                        id@,
                        attempt,
                    )
            }
            &&& !known ==> after == before
        }),
{
    let first = commands::cancel_step(before.tracking@, id);
    let n = first.len() as int;
    if steps.len() > 0 {
        assert(steps.contains(steps[0]));
    }
    if before.core_state.has(id@) {
        assert(steps.contains(steps[n]));
    }
}

/// A request to move a file or a package is handed to the core as it is.
pub proof fn law_moving(
    before: App,
    after: App,
    file_id: FileId,
    package_id: PackageId,
    delta: isize,
    session_urls: Vec<String>,
    steps: Seq<AppStep>,
)
    ensures
        dispatch::action_handled(
            before,
            after,
            UiAction::MoveFile { file_id, delta },
            session_urls,
            steps,
        ) ==> after == before && steps.len() == 1 && steps[0] == AppStep::Command(
            CoreCommand::MoveFile { file_id, delta },
        ),
        dispatch::action_handled(
            before,
            after,
            UiAction::MovePackage { package_id, delta },
            session_urls,
            steps,
        ) ==> after == before && steps.len() == 1 && steps[0] == AppStep::Command(
            CoreCommand::MovePackage { package_id, delta },
        ),
{
}

/// What is asked for a package is asked for each of its files: a reset resets every file that the
/// core has in the package, and no other.
pub proof fn law_resetting_a_package(
    before: App,
    after: App,
    package_id: PackageId,
    session_urls: Vec<String>,
    steps: Seq<AppStep>,
    k: int,
)
    requires
        dispatch::action_handled(
            before,
            after,
            UiAction::ResetPackage(package_id),
            session_urls,
            steps,
        ),
        0 <= k < before.core_state.files.values().len(),
    ensures
        after == before,
        before.core_state.files.values()[k].package_id == package_id ==> steps.contains(
            AppStep::ResetFile(before.core_state.files.values()[k].id),
        ),
        forall|j: int|
            0 <= j < steps.len() ==> exists|m: int|
                0 <= m < before.core_state.files.values().len() && (
                #[trigger] before.core_state.files.values()[m]).package_id == package_id
                    && #[trigger] steps[j] == AppStep::ResetFile(
                    before.core_state.files.values()[m].id,
                ),
{
    lemma_package_files(before, package_id);
    let all = before.core_state.files.values();
    let files = commands::package_files(before.core_state, package_id);
    if all[k].package_id == package_id {
        let m = choose|m: int| 0 <= m < files.len() && files[m] == all[k];
        assert(steps[m] == AppStep::ResetFile(all[k].id));
    }
    assert forall|j: int| 0 <= j < steps.len() implies exists|m: int|
        0 <= m < all.len() && (#[trigger] all[m]).package_id == package_id && #[trigger] steps[j]
            == AppStep::ResetFile(all[m].id) by {
        assert(files.contains(files[j]));
        let m = choose|m: int| 0 <= m < all.len() && all[m] == files[j];
        assert(all[m].package_id == package_id);
    }
}

/// The files of a package are those that the core has in it.
proof fn lemma_package_files(app: App, package_id: PackageId)
    ensures
        forall|k: int|
            0 <= k < app.core_state.files.values().len() ==> (commands::package_files(
                app.core_state,
                package_id,
            ).contains(#[trigger] app.core_state.files.values()[k])
                <==> app.core_state.files.values()[k].package_id == package_id),
        forall|file: FileState| #[trigger]
            commands::package_files(app.core_state, package_id).contains(file)
                ==> file.package_id == package_id && app.core_state.files.values().contains(file),
{
    broadcast use vstd::seq_lib::group_filter_ensures;

    let all = app.core_state.files.values();
    let keep = commands::in_package(package_id);
    assert forall|file: FileState| #[trigger] all.filter(keep).contains(file) implies
        file.package_id == package_id && all.contains(file) by {
        let m = choose|m: int| 0 <= m < all.filter(keep).len() && all.filter(keep)[m] == file;
        assert(keep(all.filter(keep)[m]));
        all.lemma_filter_contains_rev(keep, file);
    }
    assert forall|k: int| 0 <= k < all.len() implies (all.filter(keep).contains(#[trigger] all[k])
        <==> all[k].package_id == package_id) by {
        if all[k].package_id == package_id {
            assert(keep(all[k]));
            all.lemma_filter_contains(keep, k);
        }
    }
}

/// Deleting a package has the core delete it and cancels the transfers of its files, and leaves
/// nothing under way of them.
pub proof fn law_deleting_a_package(
    before: App,
    after: App,
    package_id: PackageId,
    session_urls: Vec<String>,
    steps: Seq<AppStep>,
    k: int,
)
    requires
        dispatch::action_handled(
            before,
            after,
            UiAction::DeletePackage(package_id),
            session_urls,
            steps,
        ),
        0 <= k < before.core_state.files.values().len(),
        before.core_state.files.values()[k].package_id == package_id,
    ensures
        steps.contains(AppStep::Command(CoreCommand::DeletePackage { package_id })),
        ({
            let file = before.core_state.files.values()[k];
            &&& !after.tracking@.tokens.contains(file.id@)
            &&& !after.tracking@.inflight.contains(file.id@)
            &&& !after.tracking@.shutdown.contains(file.id@)
            &&& steps.contains(AppStep::ForgetRow(file.source_url))
            &&& before.tracking@.tokens.contains(file.id@) ==> exists|j: int|
                0 <= j < steps.len() && shutdown::cancels(#[trigger] steps[j], file.id@)
        }),
{
    lemma_package_files(before, package_id);
    let all = before.core_state.files.values();
    let files = commands::package_files(before.core_state, package_id);
    let first = commands::cancel_steps(before.tracking@, files);
    let n = first.len() as int;
    assert(steps[n] == AppStep::Command(CoreCommand::DeletePackage { package_id }));
    let m = choose|m: int| 0 <= m < files.len() && files[m] == all[k];
    assert(steps[n + 1 + m] == AppStep::ForgetRow(all[k].source_url));
    lemma_without_files(before.tracking@, files, m);
    if before.tracking@.tokens.contains(all[k].id@) {
        lemma_cancel_steps(before.tracking@, files, all[k].id@, m);
        let j = choose|j: int|
            0 <= j < first.len() && shutdown::cancels(#[trigger] first[j], all[k].id@);
        assert(steps[j] == first[j]);
        assert(shutdown::cancels(steps[j], all[k].id@));
    }
}

/// Nothing stays under way of deleted files.
proof fn lemma_without_files(tracking: TrackingModel, files: Seq<FileState>, m: int)
    requires
        0 <= m < files.len(),
    ensures
        !commands::without_files(tracking, files).tokens.contains(files[m].id@),
        !commands::without_files(tracking, files).inflight.contains(files[m].id@),
        !commands::without_files(tracking, files).shutdown.contains(files[m].id@),
    decreases files.len(),
{
    if m < files.len() - 1 {
        lemma_without_files(tracking, files.drop_last(), m);
        assert(files.drop_last()[m] == files[m]);
    }
}

/// The transfer of a deleted file is cancelled where it can be.
proof fn lemma_cancel_steps(tracking: TrackingModel, files: Seq<FileState>, id: Seq<char>, m: int)
    requires
        0 <= m < files.len(),
        files[m].id@ == id,
        tracking.tokens.contains(id),
    ensures
        exists|j: int|
            0 <= j < commands::cancel_steps(tracking, files).len() && shutdown::cancels(
                #[trigger] commands::cancel_steps(tracking, files)[j],
                id,
            ),
    decreases files.len(),
{
    let earlier = files.drop_last();
    let steps = commands::cancel_steps(tracking, files);
    let before = commands::cancel_steps(tracking, earlier);
    if commands::without_files(tracking, earlier).tokens.contains(id) && files.last().id@ == id {
        assert(steps[before.len() as int] == AppStep::CancelToken(files.last().id));
        assert(shutdown::cancels(steps[before.len() as int], id));
    } else {
        lemma_token_gone(tracking, earlier, id);
        if m < earlier.len() {
            assert(earlier[m] == files[m]);
            lemma_cancel_steps(tracking, earlier, id, m);
        } else {
            let k = choose|k: int| 0 <= k < earlier.len() && (#[trigger] earlier[k]).id@ == id;
            lemma_cancel_steps(tracking, earlier, id, k);
        }
        let j = choose|j: int| 0 <= j < before.len() && shutdown::cancels(#[trigger] before[j], id);
        assert(steps[j] == before[j]);
        assert(shutdown::cancels(steps[j], id));
    }
}

/// A token is gone only where its file was deleted.
proof fn lemma_token_gone(tracking: TrackingModel, files: Seq<FileState>, id: Seq<char>)
    requires
        tracking.tokens.contains(id),
    ensures
        !commands::without_files(tracking, files).tokens.contains(id) ==> exists|k: int|
            0 <= k < files.len() && (#[trigger] files[k]).id@ == id,
    decreases files.len(),
{
    if files.len() > 0 {
        let earlier = files.drop_last();
        lemma_token_gone(tracking, earlier, id);
        if !commands::without_files(tracking, earlier).tokens.contains(id) {
            let k = choose|k: int| 0 <= k < earlier.len() && (#[trigger] earlier[k]).id@ == id;
            assert(files[k].id@ == id);
        } else if files.last().id@ == id {
            assert(files[files.len() - 1].id@ == id);
        }
    }
}

/// Retrying a package retries each of its files that has failed, and no other; a package that has
/// no such file and is not unwell itself is left alone.
pub proof fn law_retrying_a_package(
    before: App,
    after: App,
    package_id: PackageId,
    session_urls: Vec<String>,
    steps: Seq<AppStep>,
    k: int,
)
    requires
        dispatch::action_handled(
            before,
            after,
            UiAction::RetryPackage(package_id),
            session_urls,
            steps,
        ),
        before.package(package_id) is Some,
        0 <= k < before.core_state.files.values().len(),
        before.core_state.files.values()[k].package_id == package_id,
    ensures
        after == before,
        steps.contains(AppStep::RetryFile(before.core_state.files.values()[k].id))
            <== before.core_state.files.values()[k].lifecycle is Failed,
        before.core_state.files.values()[k].lifecycle is Failed ==> forall|j: int|
            0 <= j < steps.len() ==> (#[trigger] steps[j]) is RetryFile,
{
    broadcast use vstd::seq_lib::group_filter_ensures;

    lemma_package_files(before, package_id);
    let all = before.core_state.files.values();
    let files = commands::package_files(before.core_state, package_id);
    let failed = files.filter(packages::has_failed());
    if all[k].lifecycle is Failed {
        let m = choose|m: int| 0 <= m < files.len() && files[m] == all[k];
        assert(packages::has_failed()(files[m]));
        files.lemma_filter_contains(packages::has_failed(), m);
        let j = choose|j: int| 0 <= j < failed.len() && failed[j] == all[k];
        assert(steps[j] == AppStep::RetryFile(all[k].id));
    }
}

/// What can be verified of a file: the whole of a complete one; of any other, what it has so far,
/// and nothing where it has nothing.
pub proof fn law_what_can_be_verified(file: FileState)
    ensures
        commands::target_of(file) == Some(VerificationTarget::Completed)
            <==> file.lifecycle is Complete,
        commands::target_of(file) is None <==> !(file.lifecycle is Complete)
            && !(file.lifecycle is Downloading) && file.progress.visible_completed_bytes == 0
            && file.progress.verified_existing_bytes == 0
            && file.progress.downloaded_network_bytes == 0,
{
}

/// Verifying a file that something can be verified of stops its transfer, marks it, tells the core,
/// and asks the download task for exactly this file behind its address.
pub proof fn law_verifying_a_file(
    before: App,
    after: App,
    id: FileId,
    session_urls: Vec<String>,
    steps: Seq<AppStep>,
    target: VerificationTarget,
)
    requires
        dispatch::action_handled(before, after, UiAction::ReverifyFile(id), session_urls, steps),
        before.core_state.has(id@),
        commands::target_of(before.core_state.file(id@)) == Some(target),
    ensures
        ({
            let file = before.core_state.file(id@);
            &&& after.tracking@.inflight.contains(id@)
            &&& after.tracking@.verifying.contains(id@)
            &&& after.tracking@.targets.dom().contains(id@)
            &&& after.tracking@.targets[id@] == target
            &&& !after.tracking@.tokens.contains(id@)
            &&& concerns_only(before.tracking@, after.tracking@, id@)
            &&& steps.contains(AppStep::CancelToken(id)) <==> before.tracking@.tokens.contains(id@)
            &&& steps.contains(AppStep::Apply(CoreEvent::FileVerificationStarted { file_id: id }))
            &&& steps.contains(AppStep::Apply(CoreEvent::FileCancelled { file_id: id }))
                <==> file.lifecycle is Downloading
            &&& exists|k: int| #[trigger] asks_for_one(steps, k, target, file.source_url@, id@)
        }),
{
    let file = before.core_state.file(id@);
    let first = commands::reverify_steps(before.tracking@, id, file.lifecycle is Downloading);
    let head = commands::cancel_step(before.tracking@, id);
    let n = first.len() as int;
    assert(steps.take(n) =~= first);
    assert(forall|j: int| 0 <= j < n ==> steps[j] == first[j]) by {
        assert forall|j: int| 0 <= j < n implies steps[j] == first[j] by {
            assert(steps.take(n)[j] == steps[j]);
        }
    }
    if head.len() > 0 {
        assert(steps[0] == AppStep::CancelToken(id));
    }
    assert(steps[head.len() as int] == AppStep::Apply(
        CoreEvent::FileVerificationStarted { file_id: id },
    ));
    if file.lifecycle is Downloading {
        assert(steps[head.len() as int + 2] == AppStep::Apply(CoreEvent::FileCancelled { file_id: id }));
    }
    match steps[n] {
        AppStep::Send(DownloadRequest::ReverifyFileIds { source_url, file_ids }) => {
            assert(ids::texts(file_ids@).len() == file_ids@.len());
        },
        AppStep::Send(DownloadRequest::VerifyCompletedFileIds { source_url, file_ids }) => {
            assert(ids::texts(file_ids@).len() == file_ids@.len());
        },
        _ => {},
    }
    assert(asks_for_one(steps, n, target, file.source_url@, id@));
}

/// Whether a step asks the download task to verify one file behind an address.
pub open spec fn asks_for_one(
    steps: Seq<AppStep>,
    k: int,
    target: VerificationTarget,
    url: Seq<char>,
    id: Seq<char>,
) -> bool {
    &&& 0 <= k < steps.len()
    &&& match target {
        VerificationTarget::Resume => steps[k] matches AppStep::Send(
            DownloadRequest::ReverifyFileIds { source_url, file_ids },
        ) && source_url@ == url && file_ids@.len() == 1 && ids::texts(file_ids@)[0] == id,
        VerificationTarget::Completed => steps[k] matches AppStep::Send(
            DownloadRequest::VerifyCompletedFileIds { source_url, file_ids },
        ) && source_url@ == url && file_ids@.len() == 1 && ids::texts(file_ids@)[0] == id,
    }
}

/// Pausing tells the download task, cancels the transfer of every file that is shown as downloading
/// and has it queued again where the core knows it.
pub proof fn law_pausing(
    before: App,
    after: App,
    session_urls: Vec<String>,
    steps: Seq<AppStep>,
    k: int,
)
    requires
        dispatch::action_handled(before, after, UiAction::TogglePause, session_urls, steps),
        !before.paused,
        0 <= k < before.files@.len(),
        before.files@[k].status is Downloading,
    ensures
        after.paused,
        steps.contains(AppStep::BroadcastPause(true)),
        steps.contains(AppStep::SetStatus(Status::Paused)),
        !after.tracking@.tokens.contains(before.files@[k].id@),
        before.core_state.has(before.files@[k].id@) ==> steps.contains(
            AppStep::Apply(CoreEvent::FileCancelled { file_id: before.files@[k].id }),
        ),
        before.tracking@.tokens.contains(before.files@[k].id@) ==> exists|j: int|
            0 <= j < steps.len() && shutdown::cancels(#[trigger] steps[j], before.files@[k].id@),
{
    broadcast use vstd::seq_lib::group_filter_ensures;

    let shown = before.files@.filter(shutdown::is_downloading());
    let files = shutdown::downloading(before.files@);
    assert(shutdown::is_downloading()(before.files@[k]));
    before.files@.lemma_filter_contains(shutdown::is_downloading(), k);
    let m = choose|m: int| 0 <= m < shown.len() && shown[m] == before.files@[k];
    assert(files[m] == before.files@[k].id);
    let middle = shutdown::pause_steps(before, files);
    assert(steps[0] == AppStep::BroadcastPause(true));
    assert(steps[steps.len() - 1] == AppStep::SetStatus(Status::Paused));
    lemma_paused_file(before, files, m);
    if before.core_state.has(files[m]@) {
        let j = choose|j: int|
            0 <= j < middle.len() && #[trigger] middle[j] == AppStep::Apply(
                CoreEvent::FileCancelled { file_id: files[m] },
            );
        assert(steps[j + 1] == middle[j]);
    }
    if before.tracking@.tokens.contains(files[m]@) {
        let j = choose|j: int|
            0 <= j < middle.len() && shutdown::cancels(#[trigger] middle[j], files[m]@);
        assert(steps[j + 1] == middle[j]);
        assert(shutdown::cancels(steps[j + 1], files[m]@));
    }
}

/// What pausing does about one file.
proof fn lemma_paused_file(app: App, files: Seq<FileId>, m: int)
    requires
        0 <= m < files.len(),
    ensures
        !shutdown::untokened_all(app.tracking@, files).tokens.contains(files[m]@),
        app.core_state.has(files[m]@) ==> exists|j: int|
            0 <= j < shutdown::pause_steps(app, files).len() && #[trigger] shutdown::pause_steps(
                app,
                files,
            )[j] == AppStep::Apply(CoreEvent::FileCancelled { file_id: files[m] }),
        app.tracking@.tokens.contains(files[m]@) ==> exists|j: int|
            0 <= j < shutdown::pause_steps(app, files).len() && shutdown::cancels(
                #[trigger] shutdown::pause_steps(app, files)[j],
                files[m]@,
            ),
    decreases files.len(),
{
    let earlier = files.drop_last();
    let steps = shutdown::pause_steps(app, files);
    let before = shutdown::pause_steps(app, earlier);
    let tracking = shutdown::untokened_all(app.tracking@, earlier);
    let added = shutdown::pause_step(app, tracking, files.last());
    let id = files[m]@;
    if m < earlier.len() {
        lemma_paused_file(app, earlier, m);
        assert(earlier[m] == files[m]);
        if app.core_state.has(id) {
            let j = choose|j: int|
                0 <= j < before.len() && #[trigger] before[j] == AppStep::Apply(
                    CoreEvent::FileCancelled { file_id: files[m] },
                );
            assert(steps[j] == before[j]);
        }
        if app.tracking@.tokens.contains(id) {
            let j = choose|j: int|
                0 <= j < before.len() && shutdown::cancels(#[trigger] before[j], id);
            assert(steps[j] == before[j]);
            assert(shutdown::cancels(steps[j], id));
        }
    } else {
        let head = commands::cancel_step(tracking, files.last());
        if app.core_state.has(id) {
            assert(added[head.len() as int] == AppStep::Apply(
                CoreEvent::FileCancelled { file_id: files[m] },
            ));
            assert(steps[(before.len() + head.len()) as int] == added[head.len() as int]);
        }
        if app.tracking@.tokens.contains(id) {
            if tracking.tokens.contains(id) {
                assert(added[0] == AppStep::CancelToken(files[m]));
                assert(steps[before.len() as int] == added[0]);
                assert(shutdown::cancels(steps[before.len() as int], id));
            } else {
                lemma_untokened(app.tracking@, earlier, id);
                let k = choose|k: int| 0 <= k < earlier.len() && (#[trigger] earlier[k])@ == id;
                lemma_paused_file(app, earlier, k);
                let j = choose|j: int|
                    0 <= j < before.len() && shutdown::cancels(#[trigger] before[j], id);
                assert(steps[j] == before[j]);
                assert(shutdown::cancels(steps[j], id));
            }
        }
    }
}

/// A token is gone only where its file was paused.
proof fn lemma_untokened(tracking: TrackingModel, files: Seq<FileId>, id: Seq<char>)
    requires
        tracking.tokens.contains(id),
    ensures
        !shutdown::untokened_all(tracking, files).tokens.contains(id) ==> exists|k: int|
            0 <= k < files.len() && (#[trigger] files[k])@ == id,
    decreases files.len(),
{
    if files.len() > 0 {
        let earlier = files.drop_last();
        lemma_untokened(tracking, earlier, id);
        if !shutdown::untokened_all(tracking, earlier).tokens.contains(id) {
            let k = choose|k: int| 0 <= k < earlier.len() && (#[trigger] earlier[k])@ == id;
            assert(files[k]@ == id);
        } else if files.last()@ == id {
            assert(files[files.len() - 1]@ == id);
        }
    }
}

/// Going on tells the download task so; nothing else of the application changes.
pub proof fn law_going_on(
    before: App,
    after: App,
    session_urls: Vec<String>,
    steps: Seq<AppStep>,
)
    requires
        dispatch::action_handled(before, after, UiAction::TogglePause, session_urls, steps),
        before.paused,
    ensures
        !after.paused,
        steps.contains(AppStep::BroadcastPause(false)),
        after.tracking == before.tracking,
        after.core_state == before.core_state,
        after.files == before.files,
{
    assert(steps[0] == AppStep::BroadcastPause(false));
}

/// Settings that are given are taken over, counts as at least one; those that are not stay.
pub proof fn law_settings_are_taken_over(
    before: App,
    after: App,
    chunks_per_file: Option<usize>,
    mega_chunks_per_request: Option<usize>,
    concurrent_files: Option<usize>,
    force_overwrite: Option<bool>,
    cleanup_on_error: Option<bool>,
    session_urls: Vec<String>,
    steps: Seq<AppStep>,
)
    requires
        dispatch::action_handled(
            before,
            after,
            UiAction::UpdateConfig {
                chunks_per_file,
                mega_chunks_per_request,
                concurrent_files,
                force_overwrite,
                cleanup_on_error,
            },
            session_urls,
            steps,
        ),
    ensures
        ({
            let old_config = before.config.config;
            let new_config = after.config.config;
            &&& chunks_per_file matches Some(n) ==> new_config.chunks_per_file >= 1 && (n >= 1
                ==> new_config.chunks_per_file == n)
            &&& chunks_per_file is None ==> new_config.chunks_per_file
                == old_config.chunks_per_file
            &&& mega_chunks_per_request matches Some(n) ==> new_config.mega_chunks_per_request >= 1
                && (n >= 1 ==> new_config.mega_chunks_per_request == n)
            &&& mega_chunks_per_request is None ==> new_config.mega_chunks_per_request
                == old_config.mega_chunks_per_request
            &&& concurrent_files matches Some(n) ==> new_config.concurrent_files >= 1 && (n >= 1
                ==> new_config.concurrent_files == n)
            &&& concurrent_files is None ==> new_config.concurrent_files
                == old_config.concurrent_files
            &&& force_overwrite matches Some(on) ==> new_config.force_overwrite == on
            &&& force_overwrite is None ==> new_config.force_overwrite
                == old_config.force_overwrite
            &&& cleanup_on_error matches Some(on) ==> new_config.cleanup_on_error == on
            &&& cleanup_on_error is None ==> new_config.cleanup_on_error
                == old_config.cleanup_on_error
            &&& new_config.path == old_config.path
            &&& after == (App { config: after.config, ..before })
        }),
{
}

/// A successful login closes the dialog, saves the login and starts the download task; a failed one
/// does not, and shows why.
pub proof fn law_logins_start_the_download_task(
    before: App,
    after: App,
    success: bool,
    error: Option<String>,
    saved_session: Option<String>,
    clear_saved_session: bool,
    steps: Seq<AppStep>,
)
    requires
        dispatch::event_handled(
            before,
            after,
            DownloadEvent::LoginResult { success, error, saved_session, clear_saved_session },
            steps,
        ),
    ensures
        !after.login.logging_in,
        steps.contains(AppStep::StartDownloadTask) <==> success,
        success ==> after.authenticated && after.download_task_running && steps.contains(
            AppStep::PersistLogin { report: true },
        ),
        !success ==> {
            &&& after.authenticated == before.authenticated
            &&& after.login.error == error
            &&& steps.contains(AppStep::SetStatus(Status::LoginFailed { error }))
        },
        success && saved_session is Some ==> after.saved_mega_session == saved_session,
        !success && clear_saved_session ==> after.saved_mega_session is None,
        !clear_saved_session && !(success && saved_session is Some) ==> after.saved_mega_session
            == before.saved_mega_session,
{
    if success {
        assert(steps[1] == AppStep::PersistLogin { report: true });
        assert(steps[2] == AppStep::StartDownloadTask);
    } else {
        assert(steps[steps.len() - 1] == AppStep::SetStatus(Status::LoginFailed { error }));
    }
}

/// The package that a key or an identity leads to is the first one that has it.
pub proof fn law_packages_are_found(
    list: Seq<PackageState>,
    package_id: PackageId,
    key: Seq<char>,
)
    ensures
        match packages::first_package(list, package_id) {
            Some(package) => exists|k: int|
                {
                    &&& 0 <= k < list.len()
                    &&& #[trigger] list[k] == package
                    &&& package.id == package_id
                    &&& forall|j: int| 0 <= j < k ==> (#[trigger] list[j]).id != package_id
                },
            None => forall|k: int| 0 <= k < list.len() ==> (#[trigger] list[k]).id != package_id,
        },
        match actions::package_with_key(list, key) {
            Some(id) => exists|k: int|
                {
                    &&& 0 <= k < list.len()
                    &&& (#[trigger] list[k]).id == id
                    &&& list[k].key@ == key
                    &&& forall|j: int| 0 <= j < k ==> (#[trigger] list[j]).key@ != key
                },
            None => forall|k: int| 0 <= k < list.len() ==> (#[trigger] list[k]).key@ != key,
        },
    decreases list.len(),
{
    if list.len() > 0 {
        let rest = list.drop_first();
        law_packages_are_found(rest, package_id, key);
        assert forall|k: int| 0 <= k < rest.len() implies #[trigger] rest[k] == list[k + 1] by {}
        assert forall|k: int| 1 <= k < list.len() implies #[trigger] list[k] == rest[k - 1] by {}
        if list[0].id == package_id {
            assert(list[0].id == package_id);
        } else if packages::first_package(rest, package_id) is Some {
            let package = packages::first_package(rest, package_id)->0;
            let k = choose|k: int|
                {
                    &&& 0 <= k < rest.len()
                    &&& #[trigger] rest[k] == package
                    &&& package.id == package_id
                    &&& forall|j: int| 0 <= j < k ==> (#[trigger] rest[j]).id != package_id
                };
            assert(list[k + 1] == package);
            assert forall|j: int| 0 <= j < k + 1 implies (#[trigger] list[j]).id != package_id by {
                if j > 0 {
                    assert(list[j] == rest[j - 1]);
                }
            }
        }
        if list[0].key@ == key {
            assert(list[0].key@ == key);
        } else if actions::package_with_key(rest, key) is Some {
            let id = actions::package_with_key(rest, key)->0;
            let k = choose|k: int|
                {
                    &&& 0 <= k < rest.len()
                    &&& (#[trigger] rest[k]).id == id
                    &&& rest[k].key@ == key
                    &&& forall|j: int| 0 <= j < k ==> (#[trigger] rest[j]).key@ != key
                };
            assert(list[k + 1].id == id && list[k + 1].key@ == key);
            assert forall|j: int| 0 <= j < k + 1 implies (#[trigger] list[j]).key@ != key by {
                if j > 0 {
                    assert(list[j] == rest[j - 1]);
                }
            }
        }
    }
}

/// How a file is shown follows from how it fares.
pub proof fn law_files_are_shown_as_they_fare(lifecycle: FileLifecycle, file: FileState)
    ensures
        lifecycle.shown() is Complete <==> lifecycle is Complete,
        lifecycle.shown() is Downloading <==> lifecycle is Downloading,
        lifecycle.shown() is Queued <==> lifecycle is Planned || lifecycle is Queued,
        lifecycle.shown() is Error <==> lifecycle is Failed,
        lifecycle matches FileLifecycle::Failed { message } ==> lifecycle.shown()
            == crate::model::FileStatus::Error(message),
        file.lifecycle is Complete ==> file.shown_bytes() == file.size,
        !(file.lifecycle is Complete) ==> file.shown_bytes() == file.progress.displayed_bytes,
        file.network_bytes() <= file.size,
        file.progress.downloaded_network_bytes <= file.size ==> file.network_bytes()
            == file.progress.downloaded_network_bytes,
        file.progress.downloaded_network_bytes > file.size ==> file.network_bytes() == file.size,
{
}

} // verus!
