//! What holds of the screen and of waiting files once events and requests were handled.

use vstd::prelude::*;

use crate::actions;
use crate::app::{App, AppStep, Notice, Status};
use crate::commands;
use crate::dispatch;
use crate::effects;
use crate::event_laws;
use crate::events::{DownloadEvent, QueuedFile};
use crate::ids::{self, FileId, PackageId};
use crate::model::{CoreEvent, FileState, PackageStatus};
use crate::packages;
use crate::settings::UiAction;
use crate::tracking::TrackingModel;
use crate::verification::VerificationTarget;

verus! {

/// The screen follows a transfer: its start and its end let its speed be measured anew, and the
/// status line is brought up to date.
pub proof fn law_the_screen_follows_transfers(
    before: App,
    after: App,
    event: DownloadEvent,
    steps: Seq<AppStep>,
)
    requires
        dispatch::event_handled(before, after, event, steps),
    ensures
        event matches DownloadEvent::FileStart { id, attempt_id, .. } ==> event_laws::is_current(
            before,
            id@,
            attempt_id,
        ) ==> steps.contains(AppStep::ResetRate(id)) && steps.contains(AppStep::UpdateStatus),
        event matches DownloadEvent::FileComplete { id, attempt_id } ==> event_laws::is_current(
            before,
            id@,
            attempt_id,
        ) && !before.tracking@.reset.contains(id@) ==> steps.contains(AppStep::ResetRate(id))
            && steps.contains(AppStep::UpdateStatus),
        event matches DownloadEvent::FileCancelled { id, attempt_id } ==> event_laws::is_current(
            before,
            id@,
            attempt_id,
        ) && !before.tracking@.reset.contains(id@) ==> steps.contains(AppStep::ResetRate(id))
            && steps.contains(AppStep::UpdateStatus),
        event matches DownloadEvent::FileError { id, attempt_id, .. } ==> event_laws::is_current(
            before,
            id@,
            attempt_id,
        ) && !before.tracking@.reset.contains(id@) ==> steps.contains(AppStep::UpdateStatus),
        event matches DownloadEvent::ScopeError { scope, .. } ==> steps.contains(
            AppStep::RecomputeTotals,
        ) && (ids::texts(before.core_state.url_order@).contains(scope@) ==> steps.contains(
            AppStep::DropOverlay(scope),
        ) && steps.contains(AppStep::SyncVisible)),
{
    if steps.len() > 0 {
        assert(steps.contains(steps[steps.len() - 1]));
    }
    if steps.len() > 1 {
        assert(steps.contains(steps[1]));
    }
    if steps.len() > 2 {
        assert(steps.contains(steps[2]));
    }
}

/// The screen follows a verification: the row of its file is brought up to date, and the status line
/// tells what came of it.
pub proof fn law_the_screen_follows_verifications(
    before: App,
    after: App,
    event: DownloadEvent,
    steps: Seq<AppStep>,
)
    requires
        dispatch::event_handled(before, after, event, steps),
    ensures
        event matches DownloadEvent::ResumeValidationStarted { id, attempt_id }
            ==> event_laws::is_current(before, id@, attempt_id) ==> steps.contains(
            AppStep::RefreshFile(id),
        ),
        event matches DownloadEvent::ResumeReused { id, chunks, bytes, attempt_id }
            ==> event_laws::is_current(before, id@, attempt_id) ==> steps.contains(
            AppStep::RefreshFile(id),
        ) && steps.contains(AppStep::SetStatus(Status::Reusing { id, chunks, bytes })),
        event matches DownloadEvent::ResumeReverified { id, chunks, bytes }
            ==> before.core_state.files.keys().contains(id@) ==> steps.contains(
            AppStep::RefreshFile(id),
        ) && steps.contains(AppStep::SetStatus(Status::Reusing { id, chunks, bytes })),
        event matches DownloadEvent::CompletedFileVerified { id, bytes }
            ==> before.core_state.files.keys().contains(id@) ==> steps.contains(
            AppStep::RefreshFile(id),
        ) && steps.contains(AppStep::SetStatus(Status::Verified { id, bytes })) && steps.contains(
            AppStep::Apply(
                CoreEvent::FileResumeReverified {
                    file_id: id,
                    verified_bytes: bytes,
                    verified_chunks: 0,
                },
            ),
        ),
        event matches DownloadEvent::VerificationSkipped { id, .. }
            ==> before.core_state.files.keys().contains(id@) ==> steps.contains(
            AppStep::RefreshFile(id),
        ) && steps.contains(AppStep::SetStatus(Status::VerificationSkipped { id })),
        event matches DownloadEvent::VerificationProgress { id, .. } ==> (steps.contains(
            AppStep::RefreshProgress(id),
        ) <==> steps.len() > 0),
{
    if steps.len() > 0 {
        assert(steps.contains(steps[0]));
        assert(steps.contains(steps[steps.len() - 1]));
    }
    if steps.len() > 1 {
        assert(steps.contains(steps[1]));
    }
    if steps.len() > 2 {
        assert(steps.contains(steps[2]));
    }
}

/// A found file that came from another address than the one that was submitted takes its place: the
/// submitted one is shown and known no more. Otherwise the submitted addresses stay.
pub proof fn law_found_files_replace_their_submission(
    before: App,
    after: App,
    file: QueuedFile,
    steps: Seq<AppStep>,
    url: Seq<char>,
)
    requires
        dispatch::event_handled(before, after, DownloadEvent::FileQueued(file), steps),
        steps.len() > 0,
    ensures
        ({
            let renamed = file.origin.submitted_url@ != file.origin.source_url@;
            let known = ids::texts(before.core_state.url_order@).contains(url);
            let stays = ids::texts(after.core_state.url_order@).contains(url);
            &&& stays <==> known && !(renamed && url == file.origin.submitted_url@)
            &&& renamed ==> steps.contains(AppStep::ForgetRow(file.origin.submitted_url))
            &&& steps.contains(AppStep::UpdateStatus)
        }),
{
    let urls = ids::texts(before.core_state.url_order@);
    let kept = urls.filter(actions::other_than(file.origin.submitted_url@));
    crate::scheduler::lemma_filter_to_set(urls, actions::other_than(file.origin.submitted_url@));
    assert(kept.to_set().contains(url) == kept.contains(url));
    assert(urls.to_set().contains(url) == urls.contains(url));
    assert(steps.contains(steps[0]));
    assert(steps.contains(steps[steps.len() - 1]));
}

/// What ends with a transfer, and what a file still waits for then: a cancelled file waits for
/// nothing, one that is complete or has failed for what it waited for.
pub proof fn law_endings_settle_files(
    before: App,
    after: App,
    event: DownloadEvent,
    steps: Seq<AppStep>,
    id: FileId,
)
    requires
        dispatch::event_handled(before, after, event, steps),
        steps.len() > 0,
        match event {
            DownloadEvent::FileComplete { id: file, .. } => file == id,
            DownloadEvent::FileCancelled { id: file, .. } => file == id,
            DownloadEvent::FileError { id: file, .. } => file == id,
            _ => false,
        },
    ensures
        !after.tracking@.tokens.contains(id@),
        !after.tracking@.inflight.contains(id@),
        !after.tracking@.verifying.contains(id@),
        !after.tracking@.targets.dom().contains(id@),
        !after.tracking@.blocking.contains(id@),
        !after.tracking@.shutdown.contains(id@),
        event is FileCancelled ==> !after.tracking@.startup.contains(id@)
            && !after.tracking@.reverify.contains(id@),
        !(event is FileCancelled) ==> after.tracking@.startup.contains(id@)
            == before.tracking@.startup.contains(id@) && after.tracking@.reverify.contains(id@)
            == before.tracking@.reverify.contains(id@),
{
}

/// A transfer that starts ends one wait of its file: for its verification where it waited for that,
/// else for the start of the application.
pub proof fn law_starts_end_one_wait(
    before: App,
    after: App,
    id: FileId,
    size: u64,
    attempt_id: u64,
    steps: Seq<AppStep>,
)
    requires
        dispatch::event_handled(
            before,
            after,
            DownloadEvent::FileStart { id, size, attempt_id },
            steps,
        ),
        event_laws::is_current(before, id@, attempt_id),
    ensures
        !after.tracking@.reverify.contains(id@),
        before.tracking@.reverify.contains(id@) ==> after.tracking@.startup.contains(id@)
            == before.tracking@.startup.contains(id@),
        !before.tracking@.reverify.contains(id@) ==> !after.tracking@.startup.contains(id@),
        after.tracking@.tokens == before.tracking@.tokens,
        after.tracking@.shutdown == before.tracking@.shutdown,
{
}

/// A file whose transfer goes on after its verification is shown as verifying until then; any other
/// is not, once its verification is over.
pub proof fn law_verified_files_wait_for_their_transfer(
    before: App,
    after: App,
    id: FileId,
    chunks: usize,
    bytes: u64,
    steps: Seq<AppStep>,
)
    requires
        dispatch::event_handled(
            before,
            after,
            DownloadEvent::ResumeReverified { id, chunks, bytes },
            steps,
        ),
        before.core_state.files.keys().contains(id@),
    ensures
        !after.tracking@.targets.dom().contains(id@),
        !after.tracking@.reset.contains(id@),
        before.tracking@.reverify.contains(id@) ==> after.tracking@.verifying.contains(id@)
            == before.tracking@.verifying.contains(id@),
        !before.tracking@.reverify.contains(id@) ==> !after.tracking@.verifying.contains(id@),
        after.tracking@.reverify == before.tracking@.reverify,
        after.tracking@.tokens == before.tracking@.tokens,
{
}

/// Progress and reuse of a file show that its new attempt has begun: a reset no longer waits.
pub proof fn law_progress_ends_a_reset(
    before: App,
    after: App,
    event: DownloadEvent,
    steps: Seq<AppStep>,
)
    requires
        dispatch::event_handled(before, after, event, steps),
    ensures
        event matches DownloadEvent::Progress { id, attempt_id, .. } ==> event_laws::is_current(
            before,
            id@,
            attempt_id,
        ) ==> !after.tracking@.reset.contains(id@),
        event matches DownloadEvent::ResumeReused { id, attempt_id, .. } ==> event_laws::is_current(
            before,
            id@,
            attempt_id,
        ) ==> !after.tracking@.reset.contains(id@) && after.tracking@.inflight
            == before.tracking@.inflight,
{
}

/// Events that concern no file change nothing of the application: an address that waits is shown
/// unless it was deleted, one that was looked up is shown no more, and messages are said.
pub proof fn law_events_without_files(
    before: App,
    after: App,
    event: DownloadEvent,
    steps: Seq<AppStep>,
)
    requires
        dispatch::event_handled(before, after, event, steps),
        event is UrlQueued || event is UrlResolved || event is StatusMessage
            || event is FilesCollected || event is ProgressWakeup || event is UrlsReceived
            || event is VerificationFailed || event is VerificationProgressForOperation
            || event is ResumeReverifiedForOperation || event is CompletedFileVerifiedForOperation,
    ensures
        after == before,
        event matches DownloadEvent::UrlQueued { url } ==> (steps.contains(
            AppStep::QueuePlaceholder(url),
        ) <==> !before.deleted_url_tombstones@.contains(url@)) && steps.len() <= 1,
        event matches DownloadEvent::UrlResolved { url } ==> steps.contains(
            AppStep::Apply(CoreEvent::UrlResolved { url }),
        ) && steps.contains(AppStep::ForgetRow(url)) && steps.contains(AppStep::SyncVisible)
            && steps.contains(AppStep::RecomputeTotals),
        event matches DownloadEvent::StatusMessage(message) ==> steps == seq![
            AppStep::SetStatus(Status::Message(message)),
        ],
        event matches DownloadEvent::FilesCollected { total, skipped, partial, total_bytes }
            ==> steps.contains(
            AppStep::SetStatus(Status::Collected { total, skipped, partial, total_bytes }),
        ),
        event is ProgressWakeup ==> steps.len() == 0,
        event matches DownloadEvent::UrlsReceived { urls } ==> forall|k: int|
            0 <= k < urls@.len() ==> steps.contains(AppStep::SubmitUrl(#[trigger] urls@[k])),
        event is VerificationFailed || event is VerificationProgressForOperation
            || event is ResumeReverifiedForOperation || event is CompletedFileVerifiedForOperation
            ==> steps.contains(AppStep::Operation(event)) && steps.len() == 1,
{
    if steps.len() > 0 {
        assert(steps.contains(steps[0]));
    }
    if steps.len() > 3 {
        assert(steps.contains(steps[1]));
        assert(steps.contains(steps[2]));
        assert(steps.contains(steps[3]));
    }
    if let DownloadEvent::UrlsReceived { urls } = event {
        assert forall|k: int| 0 <= k < urls@.len() implies steps.contains(
            AppStep::SubmitUrl(#[trigger] urls@[k]),
        ) by {
            event_laws::law_addresses_are_submitted_together(urls@, k);
            assert(steps[k + 1] == AppStep::SubmitUrl(urls@[k]));
        }
    }
}

/// The user logs in with an address and a password; without either nothing happens.
pub proof fn law_logging_in_takes_an_address_and_a_password(
    before: App,
    after: App,
    email: String,
    password: String,
    mfa: String,
    session_urls: Vec<String>,
    steps: Seq<AppStep>,
)
    requires
        dispatch::action_handled(
            before,
            after,
            UiAction::Login { email, password, mfa },
            session_urls,
            steps,
        ),
    ensures
        steps.contains(AppStep::BeginLogin) <==> email@.len() > 0 && password@.len() > 0,
        email@.len() > 0 && password@.len() > 0 ==> after.login.email == email
            && after.login.password == password && after.login.mfa == mfa,
        email@.len() == 0 || password@.len() == 0 ==> after == before && steps.len() == 0,
        after.core_state == before.core_state,
        after.tracking == before.tracking,
{
    if steps.len() > 0 {
        assert(steps.contains(steps[0]));
    }
}

/// What cannot be done with a file is said of it where it is shown, and nothing else changes.
pub proof fn law_unknown_files_are_left_alone(
    before: App,
    after: App,
    id: FileId,
    session_urls: Vec<String>,
    steps: Seq<AppStep>,
)
    requires
        !before.core_state.files.keys().contains(id@),
    ensures
        dispatch::action_handled(before, after, UiAction::ReverifyFile(id), session_urls, steps)
            ==> after == before && (if before.overlay_files.keys().contains(id@) {
            steps.contains(AppStep::ShowError { id, notice: Notice::ReverifyUnavailable })
        } else {
            steps.len() == 0
        }),
        dispatch::action_handled(before, after, UiAction::ResetFile(id), session_urls, steps)
            ==> after == before && (if before.overlay_files.keys().contains(id@) {
            steps.contains(AppStep::ShowError { id, notice: Notice::ResetUnavailable })
        } else {
            steps.len() == 0
        }),
{
    if steps.len() > 0 {
        assert(steps.contains(steps[0]));
    }
    if steps.len() > 1 {
        assert(steps.contains(steps[1]));
    }
}

/// A file that is verified while it is transferred goes on under a new attempt once it is verified;
/// any other keeps its attempt.
pub proof fn law_verifying_a_running_file_starts_it_anew(
    before: App,
    after: App,
    id: FileId,
    session_urls: Vec<String>,
    steps: Seq<AppStep>,
    attempt: u64,
)
    requires
        dispatch::action_handled(before, after, UiAction::ReverifyFile(id), session_urls, steps),
        before.core_state.has(id@),
        commands::target_of(before.core_state.file(id@)) is Some,
        event_laws::is_current(before, id@, attempt),
        attempt < u64::MAX,
    ensures
        before.core_state.file(id@).lifecycle is Downloading ==> after.tracking@.reverify.contains(
            id@,
        ) && !event_laws::is_current(after, id@, attempt),
        !(before.core_state.file(id@).lifecycle is Downloading) ==> event_laws::is_current(
            after,
            id@,
            attempt,
        ) && after.tracking@.reverify.contains(id@) == before.tracking@.reverify.contains(id@),
        !after.tracking@.startup.contains(id@),
        !after.tracking@.reset.contains(id@),
{
}

/// A file of which nothing can be verified is no longer verified, and the user is told.
pub proof fn law_nothing_to_verify(
    before: App,
    after: App,
    id: FileId,
    session_urls: Vec<String>,
    steps: Seq<AppStep>,
)
    requires
        dispatch::action_handled(before, after, UiAction::ReverifyFile(id), session_urls, steps),
        before.core_state.has(id@),
        commands::target_of(before.core_state.file(id@)) is None,
    ensures
        !after.tracking@.inflight.contains(id@),
        !after.tracking@.verifying.contains(id@),
        after.tracking@.tokens == before.tracking@.tokens,
        steps.contains(AppStep::SetStatus(Status::ReverifyUnavailable)),
        steps.contains(AppStep::RefreshFile(id)),
        forall|k: int| 0 <= k < steps.len() ==> !((#[trigger] steps[k]) is Send),
{
    assert(steps.contains(steps[0]));
    assert(steps.contains(steps[1]));
}

/// The files of a package that can be verified.
proof fn lemma_verifiable(app: App, package_id: PackageId, k: int)
    requires
        0 <= k < app.core_state.files.values().len(),
        app.core_state.files.values()[k].package_id == package_id,
    ensures
        ({
            let file = app.core_state.files.values()[k];
            let files = commands::package_files(app.core_state, package_id);
            &&& commands::target_of(file) is Some ==> files.filter(packages::is_live()).contains(
                file,
            )
            &&& commands::target_of(file) is None ==> files.filter(packages::is_stale()).contains(
                file,
            )
            &&& forall|target: VerificationTarget|
                commands::target_of(file) == Some(target) ==> #[trigger] files.filter(
                    packages::is_verified_as(target),
                ).contains(file)
        }),
{
    let all = app.core_state.files.values();
    let file = all[k];
    let files = commands::package_files(app.core_state, package_id);
    assert(commands::in_package(package_id)(file));
    all.lemma_filter_contains(commands::in_package(package_id), k);
    let m = choose|m: int| 0 <= m < files.len() && files[m] == file;
    if commands::target_of(file) is Some {
        assert(packages::is_live()(files[m]));
        files.lemma_filter_contains(packages::is_live(), m);
    } else {
        assert(packages::is_stale()(files[m]));
        files.lemma_filter_contains(packages::is_stale(), m);
    }
    assert forall|target: VerificationTarget|
        commands::target_of(file) == Some(target) implies #[trigger] files.filter(
        packages::is_verified_as(target),
    ).contains(file) by {
        assert(packages::is_verified_as(target)(files[m]));
        files.lemma_filter_contains(packages::is_verified_as(target), m);
    }
}

/// What is under way of a file whose verification was asked for among others.
proof fn lemma_reverified_all(tracking: TrackingModel, files: Seq<FileState>, m: int)
    requires
        0 <= m < files.len(),
    ensures
        packages::reverified_all(tracking, files).inflight.contains(files[m].id@),
        packages::reverified_all(tracking, files).verifying.contains(files[m].id@),
        packages::reverified_all(tracking, files).targets.dom().contains(files[m].id@),
        !packages::reverified_all(tracking, files).tokens.contains(files[m].id@),
        !packages::reverified_all(tracking, files).reset.contains(files[m].id@),
    decreases files.len(),
{
    if m < files.len() - 1 {
        lemma_reverified_all(tracking, files.drop_last(), m);
        assert(files.drop_last()[m] == files[m]);
    }
}

/// The core is told of each verification that is asked for.
proof fn lemma_reverify_told(tracking: TrackingModel, files: Seq<FileState>, m: int)
    requires
        0 <= m < files.len(),
    ensures
        packages::reverify_all_steps(tracking, files).contains(
            AppStep::Apply(CoreEvent::FileVerificationStarted { file_id: files[m].id }),
        ),
    decreases files.len(),
{
    let earlier = files.drop_last();
    let steps = packages::reverify_all_steps(tracking, files);
    let before = packages::reverify_all_steps(tracking, earlier);
    let told = AppStep::Apply(CoreEvent::FileVerificationStarted { file_id: files[m].id });
    if m < earlier.len() {
        assert(earlier[m] == files[m]);
        lemma_reverify_told(tracking, earlier, m);
        let j = choose|j: int| 0 <= j < before.len() && before[j] == told;
        assert(steps[j] == told);
    } else {
        let under_way = packages::reverified_all(tracking, earlier);
        let head = commands::cancel_step(under_way, files[m].id);
        let added = commands::reverify_steps(
            under_way,
            files[m].id,
            files[m].lifecycle is Downloading,
        );
        assert(added[head.len() as int] == told);
        assert(steps[(before.len() + head.len()) as int] == told);
    }
}

/// Verifying a package verifies each of its files of which something can be verified: the file is
/// under way, its transfer is stopped, and the core is told.
pub proof fn law_verifying_a_package(
    before: App,
    after: App,
    package_id: PackageId,
    session_urls: Vec<String>,
    steps: Seq<AppStep>,
    k: int,
)
    requires
        dispatch::action_handled(
            before,
            after,
            UiAction::ReverifyPackage(package_id),
            session_urls,
            steps,
        ),
        0 <= k < before.core_state.files.values().len(),
        before.core_state.files.values()[k].package_id == package_id,
        commands::target_of(before.core_state.files.values()[k]) is Some,
    ensures
        ({
            let file = before.core_state.files.values()[k];
            &&& after.tracking@.inflight.contains(file.id@)
            &&& after.tracking@.verifying.contains(file.id@)
            &&& !after.tracking@.tokens.contains(file.id@)
            &&& steps.contains(
                AppStep::Apply(CoreEvent::FileVerificationStarted { file_id: file.id }),
            )
            &&& steps.last() is SetStatus
            &&& !steps.contains(AppStep::SetStatus(Status::NothingToVerify))
        }),
{
    lemma_verifiable(before, package_id, k);
    let file = before.core_state.files.values()[k];
    let files = commands::package_files(before.core_state, package_id);
    let stale = files.filter(packages::is_stale());
    let live = files.filter(packages::is_live());
    let cleared = packages::cleared_all(before.tracking@, stale);
    let m = choose|m: int| 0 <= m < live.len() && live[m] == file;
    lemma_reverified_all(cleared, live, m);
    lemma_reverify_told(cleared, live, m);
    let refreshed = packages::refresh_steps(stale);
    let told = packages::reverify_all_steps(cleared, live);
    let first = refreshed + told;
    let n = first.len() as int;
    let wanted = AppStep::Apply(CoreEvent::FileVerificationStarted { file_id: file.id });
    let j = choose|j: int| 0 <= j < told.len() && told[j] == wanted;
    assert(first[refreshed.len() + j] == wanted);
    assert(steps.take(n)[refreshed.len() + j] == wanted);
    assert(steps[refreshed.len() + j] == wanted);
    lemma_no_status(cleared, live);
    let state = before.core_state;
    let resumed = packages::names(
        files.filter(packages::is_verified_as(VerificationTarget::Resume)),
    );
    let r = effects::sources_of(resumed, state).len() as int;
    assert forall|i: int| 0 <= i < steps.len() implies steps[i] != AppStep::SetStatus(
        Status::NothingToVerify,
    ) by {
        if i < n {
            assert(steps.take(n)[i] == steps[i]);
            if i < refreshed.len() {
                assert(first[i] == refreshed[i]);
            } else {
                assert(first[i] == told[i - refreshed.len()]);
            }
        } else if i < n + r {
            assert(steps.subrange(n, n + r)[i - n] == steps[i]);
        } else if i < steps.len() - 1 {
            assert(steps.subrange(n + r, steps.len() - 1)[i - n - r] == steps[i]);
        }
    }
}

/// Asking for verifications says nothing in the status line by itself.
proof fn lemma_no_status(tracking: TrackingModel, files: Seq<FileState>)
    ensures
        forall|i: int|
            0 <= i < packages::reverify_all_steps(tracking, files).len()
                ==> !((#[trigger] packages::reverify_all_steps(tracking, files)[i]) is SetStatus),
    decreases files.len(),
{
    if files.len() > 0 {
        let earlier = files.drop_last();
        lemma_no_status(tracking, earlier);
        let before = packages::reverify_all_steps(tracking, earlier);
        let steps = packages::reverify_all_steps(tracking, files);
        assert forall|i: int| 0 <= i < steps.len() implies !((#[trigger] steps[i]) is SetStatus) by {
            if i < before.len() {
                assert(steps[i] == before[i]);
            }
        }
    }
}

/// Each file that is verified with its package is asked for under its address, together with the
/// others of that address that are verified in the same way.
pub proof fn law_packages_are_verified_by_address(
    before: App,
    after: App,
    package_id: PackageId,
    session_urls: Vec<String>,
    steps: Seq<AppStep>,
    k: int,
    target: VerificationTarget,
)
    requires
        dispatch::action_handled(
            before,
            after,
            UiAction::ReverifyPackage(package_id),
            session_urls,
            steps,
        ),
        before.core_state.wf(),
        0 <= k < before.core_state.files.values().len(),
        before.core_state.files.values()[k].package_id == package_id,
        commands::target_of(before.core_state.files.values()[k]) == Some(target),
    ensures
        exists|j: int|
            #![trigger steps[j]]
            0 <= j < steps.len() && asks_for(
                steps[j],
                target,
                before.core_state.files.values()[k].source_url@,
                before.core_state.files.values()[k].id@,
            ),
{
    lemma_verifiable(before, package_id, k);
    let state = before.core_state;
    let file = state.files.values()[k];
    let files = commands::package_files(state, package_id);
    let stale = files.filter(packages::is_stale());
    let live = files.filter(packages::is_live());
    let cleared = packages::cleared_all(before.tracking@, stale);
    let first = packages::refresh_steps(stale) + packages::reverify_all_steps(cleared, live);
    let resumed = packages::names(
        files.filter(packages::is_verified_as(VerificationTarget::Resume)),
    );
    let completed = packages::names(
        files.filter(packages::is_verified_as(VerificationTarget::Completed)),
    );
    let n = first.len() as int;
    let r = effects::sources_of(resumed, state).len() as int;
    let wanted = files.filter(packages::is_verified_as(target));
    let named = packages::names(wanted);
    assert(files.filter(packages::is_verified_as(target)).contains(file));
    let w = choose|w: int| 0 <= w < wanted.len() && wanted[w] == file;
    assert(named[w] == file.id@);
    assert(state.files.keys()[k] == file.id@);
    assert(state.files.keys().index_of(file.id@) == k);
    assert(state.file(file.id@) == file);
    let url = file.source_url@;
    effects::law_downloads_are_asked_for_where_they_came_from(named, state, url, file.id@);
    assert(state.file(named[w]).source_url@ == url);
    let urls = effects::sources_of(named, state);
    let at = choose|at: int| 0 <= at < urls.len() && urls[at] == url;
    let listed = effects::files_from(named, state, url);
    assert(listed.contains(file.id@));
    if target == VerificationTarget::Resume {
        let part = steps.subrange(n, n + r);
        assert(commands::asks_to_verify(part[at], target, urls[at], listed));
        assert(part[at] == steps[n + at]);
        assert(asks_for(steps[n + at], target, url, file.id@));
    } else {
        let part = steps.subrange(n + r, steps.len() - 1);
        assert(commands::asks_to_verify(part[at], target, urls[at], listed));
        assert(part[at] == steps[n + r + at]);
        assert(asks_for(steps[n + r + at], target, url, file.id@));
    }
}

/// Whether a step asks the download task to verify a file, among others, behind an address.
pub open spec fn asks_for(
    step: AppStep,
    target: VerificationTarget,
    url: Seq<char>,
    id: Seq<char>,
) -> bool {
    match target {
        VerificationTarget::Resume => step matches AppStep::Send(
            crate::events::DownloadRequest::ReverifyFileIds { source_url, file_ids },
        ) && source_url@ == url && ids::texts(file_ids@).contains(id),
        VerificationTarget::Completed => step matches AppStep::Send(
            crate::events::DownloadRequest::VerifyCompletedFileIds { source_url, file_ids },
        ) && source_url@ == url && ids::texts(file_ids@).contains(id),
    }
}

/// Retrying a package that is unwell although none of its files has failed submits every address of
/// its files anew, and removes the package.
pub proof fn law_retrying_an_unwell_package(
    before: App,
    after: App,
    package_id: PackageId,
    session_urls: Vec<String>,
    steps: Seq<AppStep>,
    k: int,
)
    requires
        dispatch::action_handled(
            before,
            after,
            UiAction::RetryPackage(package_id),
            session_urls,
            steps,
        ),
        before.package(package_id) is Some,
        before.package(package_id)->0.error is Some || before.package(package_id)->0.status
            == PackageStatus::Failed,
        forall|m: int|
            0 <= m < before.core_state.files.values().len() ==> !(
            #[trigger] before.core_state.files.values()[m].lifecycle is Failed),
        0 <= k < before.core_state.files.values().len(),
        before.core_state.files.values()[k].package_id == package_id,
    ensures
        steps.contains(AppStep::RemovePackage(package_id)),
        steps.contains(AppStep::SyncVisible),
        steps.contains(AppStep::RecomputeTotals),
        exists|j: int|
            0 <= j < steps.len() && (#[trigger] steps[j] matches AppStep::RetrySource(url) && url@
                == before.core_state.files.values()[k].source_url@),
{
    broadcast use vstd::seq_lib::group_filter_ensures;

    let all = before.core_state.files.values();
    let files = commands::package_files(before.core_state, package_id);
    let failed = files.filter(packages::has_failed());
    if failed.len() > 0 {
        assert(packages::has_failed()(failed[0]));
        assert(failed.contains(failed[0]));
        files.lemma_filter_contains_rev(packages::has_failed(), failed[0]);
        all.lemma_filter_contains_rev(commands::in_package(package_id), failed[0]);
        let m = choose|m: int| 0 <= m < all.len() && all[m] == failed[0];
        assert(!(all[m].lifecycle is Failed));
    }
    assert(commands::in_package(package_id)(all[k]));
    all.lemma_filter_contains(commands::in_package(package_id), k);
    let m = choose|m: int| 0 <= m < files.len() && files[m] == all[k];
    let sources = packages::sources(files);
    assert(sources[m] == all[k].source_url@);
    assert(sources.to_set().contains(all[k].source_url@));
    let middle = steps.subrange(1, steps.len() - 2);
    let retried = packages::retried(middle);
    assert(retried.to_set().contains(all[k].source_url@));
    let j = choose|j: int| 0 <= j < retried.len() && retried[j] == all[k].source_url@;
    assert(middle[j] is RetrySource);
    assert(steps[j + 1] == middle[j]);
    assert(steps.contains(steps[0]));
    assert(steps.contains(steps[steps.len() - 2]));
    assert(steps.contains(steps[steps.len() - 1]));
}

/// What the user asks for a file or a package changes only what is under way; deleting a file that
/// the core does not know forgets the address of its name besides, and no other.
pub proof fn law_requests_leave_the_rest_alone(
    before: App,
    after: App,
    action: UiAction,
    session_urls: Vec<String>,
    steps: Seq<AppStep>,
    url: Seq<char>,
)
    requires
        dispatch::action_handled(before, after, action, session_urls, steps),
    ensures
        action is DeletePackage || action is RetryFile || action is ReverifyFile
            || action is ReverifyPackage || action is ResetFile ==> after == (App {
            tracking: after.tracking,
            ..before
        }),
        action is AddUrls || action is RetryPackage || action is ResetPackage || action is MoveFile
            || action is MovePackage ==> after == before,
        action matches UiAction::DeleteFile(id) ==> {
            &&& after == (App {
                tracking: after.tracking,
                core_state: after.core_state,
                deleted_url_tombstones: after.deleted_url_tombstones,
                ..before
            })
            &&& after.core_state.files == before.core_state.files
            &&& after.core_state.packages == before.core_state.packages
            &&& before.core_state.files.keys().contains(id@) ==> after.core_state
                == before.core_state && after.deleted_url_tombstones
                == before.deleted_url_tombstones
            &&& url != id@ ==> ids::texts(after.core_state.url_order@).contains(url) == ids::texts(
                before.core_state.url_order@,
            ).contains(url)
            &&& url != id@ ==> after.deleted_url_tombstones@.contains(url)
                == before.deleted_url_tombstones@.contains(url)
        },
        action matches UiAction::AddUrls(urls) ==> forall|k: int|
            0 <= k < urls@.len() ==> steps.contains(AppStep::SubmitUrl(#[trigger] urls@[k])),
{
    if let UiAction::DeleteFile(id) = action {
        let urls = ids::texts(before.core_state.url_order@);
        let kept = urls.filter(actions::other_than(id@));
        crate::scheduler::lemma_filter_to_set(urls, actions::other_than(id@));
        assert(kept.to_set().contains(url) == kept.contains(url));
        assert(urls.to_set().contains(url) == urls.contains(url));
    }
    if let UiAction::AddUrls(urls) = action {
        assert forall|k: int| 0 <= k < urls@.len() implies steps.contains(
            AppStep::SubmitUrl(#[trigger] urls@[k]),
        ) by {
            event_laws::law_addresses_are_submitted_together(urls@, k);
            assert(steps[k + 1] == AppStep::SubmitUrl(urls@[k]));
        }
    }
}

} // verus!
