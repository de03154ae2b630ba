//! What holds of the reports of the download task and of what the user is told.

use vstd::prelude::*;

use crate::app::{self, App, Status};
use crate::batch::{CollectedBatch, FetchedNodeSet};
use crate::collection::{self, SubmissionAttempts};
use crate::dashboard::{
    self,
    DashboardFileRow,
    DashboardFileStatus,
    DashboardPackageRow,
    DashboardRow,
    TuiRow,
};
use crate::dispatch;
use crate::effects::{self, EffectAction};
use crate::events::{DownloadEvent, DownloadRequest};
use crate::ids::FileId;
use crate::model::{CoreEffect, FileEntry};
use crate::ordered::OrderedMap;
use crate::projection;
use crate::requests::{self, SourcePlan};
use crate::runtime::{HeadlessLoop, HeadlessWake};
use crate::task::{self, RunAction, Wakeup};
use crate::text;
use crate::verification::{self, VerificationPass, VerifyOutcome};

verus! {

/// Whether a text ends with another.
pub open spec fn ends_with(text: Seq<char>, end: Seq<char>) -> bool {
    end.len() <= text.len() && text.skip(text.len() - end.len()) == end
}

/// A text that another stands behind ends with it.
proof fn lemma_ends(head: Seq<char>, end: Seq<char>)
    ensures
        ends_with(head + end, end),
        text::begins_with(head + end, head),
{
    assert((head + end).skip(head.len() as int) =~= end);
    assert((head + end).take(head.len() as int) =~= head);
}

/// A report of verified bytes tells of one file, one operation and one number of bytes: what is put
/// into it is what is read out of it.
pub proof fn law_verified_bytes_are_reported(
    id: FileId,
    operation_id: u64,
    bytes_delta: u64,
    event: DownloadEvent,
    file: Seq<char>,
    operation: Option<u64>,
    bytes: u64,
)
    ensures
        verification::reports_verified(
            DownloadEvent::VerificationProgress { id, bytes_delta },
            id@,
            None,
            bytes_delta,
        ),
        verification::reports_verified(
            DownloadEvent::VerificationProgressForOperation { id, operation_id, bytes_delta },
            id@,
            Some(operation_id),
            bytes_delta,
        ),
        verification::reports_verified(
            DownloadEvent::VerificationProgress { id, bytes_delta },
            file,
            operation,
            bytes,
        ) ==> id@ == file && operation is None && bytes == bytes_delta,
        verification::reports_verified(
            DownloadEvent::VerificationProgressForOperation { id, operation_id, bytes_delta },
            file,
            operation,
            bytes,
        ) ==> id@ == file && operation == Some(operation_id) && bytes == bytes_delta,
        verification::reports_verified(event, file, operation, bytes)
            ==> event is VerificationProgress || event is VerificationProgressForOperation,
{
}

/// The end of a verification is reported of the file that was verified, with the bytes and chunks
/// that were found; a failure is reported with its reason.
pub proof fn law_outcomes_are_reported(
    events: Seq<DownloadEvent>,
    path: Seq<char>,
    outcome: VerifyOutcome,
)
    requires
        verification::reports_outcome(events, path, None, outcome),
    ensures
        events.len() > 0,
        outcome matches VerifyOutcome::CompletedOk { bytes } ==> (
        events[0] matches DownloadEvent::CompletedFileVerified { id, bytes: verified } && id@ == path
            && verified == bytes.bytes),
        outcome matches VerifyOutcome::ResumeOk { chunks, bytes } ==> (
        events[0] matches DownloadEvent::ResumeReverified { id, chunks: found, bytes: verified }
            && id@ == path && found == chunks && verified == bytes.bytes),
        outcome is ResumeWithoutSidecar ==> (events[0] matches DownloadEvent::ResumeReverified {
            id,
            chunks,
            bytes,
        } && id@ == path && chunks == 0 && bytes == 0),
        outcome matches VerifyOutcome::CompletedFailed { error } ==> (
        events[0] matches DownloadEvent::ScopeError { scope, error: message } && scope@ == path
            && ends_with(message@, error@)),
        outcome matches VerifyOutcome::ResumeFailed { error } ==> (
        events[0] matches DownloadEvent::ScopeError { scope, error: message } && scope@ == path
            && ends_with(message@, error@)),
{
    if let VerifyOutcome::CompletedFailed { error } = outcome {
        lemma_ends("Final verification failed: "@, error@);
    }
    if let VerifyOutcome::ResumeFailed { error } = outcome {
        lemma_ends("Reverify failed: "@, error@);
    }
}

/// The end of a numbered verification is reported under its number.
pub proof fn law_outcomes_of_operations_are_reported(
    events: Seq<DownloadEvent>,
    path: Seq<char>,
    operation: u64,
    outcome: VerifyOutcome,
)
    requires
        verification::reports_outcome(events, path, Some(operation), outcome),
    ensures
        events.len() > 0,
        outcome matches VerifyOutcome::CompletedOk { bytes } ==> (
        events[0] matches DownloadEvent::CompletedFileVerifiedForOperation {
            id,
            operation_id,
            bytes: verified,
        } && id@ == path && operation_id == operation && verified == bytes.bytes),
        outcome matches VerifyOutcome::ResumeOk { chunks, bytes } ==> (
        events[0] matches DownloadEvent::ResumeReverifiedForOperation {
            id,
            operation_id,
            chunks: found,
            bytes: verified,
        } && id@ == path && operation_id == operation && found == chunks && verified
            == bytes.bytes),
        outcome is ResumeWithoutSidecar ==> (
        events[0] matches DownloadEvent::ResumeReverifiedForOperation {
            id,
            operation_id,
            chunks,
            bytes,
        } && id@ == path && operation_id == operation && chunks == 0 && bytes == 0),
        outcome matches VerifyOutcome::CompletedFailed { error } ==> (
        events[0] matches DownloadEvent::VerificationFailed { id, operation_id, error: message }
            && id@ == path && operation_id == operation && ends_with(message@, error@)),
        outcome matches VerifyOutcome::ResumeFailed { error } ==> (
        events[0] matches DownloadEvent::VerificationFailed { id, operation_id, error: message }
            && id@ == path && operation_id == operation && ends_with(message@, error@)),
{
    if let VerifyOutcome::CompletedFailed { error } = outcome {
        lemma_ends("Final verification failed: "@, error@);
    }
    if let VerifyOutcome::ResumeFailed { error } = outcome {
        lemma_ends("Reverify failed: "@, error@);
    }
}

/// A file is verified under the operation that it was given, and under none where it was given none.
pub proof fn law_files_are_verified_under_their_operation(pass: VerificationPass, file: Seq<char>)
    ensures
        pass.operation(file) is Some <==> pass.operation_ids@.dom().contains(file),
        pass.operation(file) matches Some(operation) ==> operation == pass.operation_ids@[file],
{
}

/// A message is said as it is, and an error is reported of its scope.
pub proof fn law_messages_are_said_as_they_are(
    message: String,
    scope: String,
    text: Seq<char>,
    other: Seq<char>,
    event: DownloadEvent,
)
    ensures
        requests::says(DownloadEvent::StatusMessage(message), text) <==> message@ == text,
        requests::says(event, text) ==> event is StatusMessage,
        requests::scope_error(
            DownloadEvent::ScopeError { scope, error: message },
            other,
            text,
        ) <==> scope@ == other && message@ == text,
        requests::scope_error(event, other, text) ==> event is ScopeError,
{
}

/// A submission is announced by its address, and nothing else is; a new order is not announced, and
/// everything else is by one message.
pub proof fn law_requests_are_announced(request: DownloadRequest, events: Seq<DownloadEvent>)
    requires
        requests::announces(request, events),
    ensures
        request matches DownloadRequest::SubmitUrl { url, .. } ==> events.contains(
            DownloadEvent::UrlQueued { url },
        ),
        !(request is SubmitUrl) ==> forall|k: int|
            0 <= k < events.len() ==> (#[trigger] events[k]) is StatusMessage,
        request is SyncPendingOrder <==> events.len() == 0,
        request is SubmitUrl <==> events.len() == 2,
{
    if request is SubmitUrl {
        assert(events.contains(events[0]));
    }
}

/// An announcement tells how many files it is about: announcements of different numbers of files
/// differ.
pub proof fn law_announcements_tell_the_number_of_files(
    a: DownloadRequest,
    b: DownloadRequest,
    event: DownloadEvent,
)
    requires
        requests::announces(a, seq![event]),
        requests::announces(b, seq![event]),
        a is ResumeFileIds && b is ResumeFileIds || a is ReverifyFileIds && b is ReverifyFileIds
            || a is VerifyCompletedFileIds && b is VerifyCompletedFileIds,
    ensures
        a is ResumeFileIds ==> a->ResumeFileIds_file_ids@.len()
            == b->ResumeFileIds_file_ids@.len(),
        a is ReverifyFileIds ==> a->ReverifyFileIds_file_ids@.len()
            == b->ReverifyFileIds_file_ids@.len(),
        a is VerifyCompletedFileIds ==> a->VerifyCompletedFileIds_file_ids@.len()
            == b->VerifyCompletedFileIds_file_ids@.len(),
{
    let events = seq![event];
    assert(events[0] == event);
    if a is ResumeFileIds {
        lemma_numbers_told(
            "Refreshing "@,
            " queued file(s)..."@,
            a->ResumeFileIds_file_ids@.len(),
            b->ResumeFileIds_file_ids@.len(),
        );
    } else if a is ReverifyFileIds {
        lemma_numbers_told(
            "Reverifying "@,
            " file(s)..."@,
            a->ReverifyFileIds_file_ids@.len(),
            b->ReverifyFileIds_file_ids@.len(),
        );
    } else {
        lemma_numbers_told(
            "Verifying "@,
            " completed file(s)..."@,
            a->VerifyCompletedFileIds_file_ids@.len(),
            b->VerifyCompletedFileIds_file_ids@.len(),
        );
    }
}

/// Texts around numbers are the same only where the numbers are.
proof fn lemma_numbers_told(head: Seq<char>, tail: Seq<char>, a: nat, b: nat)
    ensures
        head + text::decimal(a) + tail == head + text::decimal(b) + tail ==> a == b,
{
    let first = head + text::decimal(a) + tail;
    let second = head + text::decimal(b) + tail;
    if first == second {
        let n = head.len() as int;
        assert(first.len() == n + text::decimal(a).len() + tail.len());
        assert(second.len() == n + text::decimal(b).len() + tail.len());
        let end = n + text::decimal(a).len();
        assert(first.subrange(n, end) =~= text::decimal(a));
        assert(second.subrange(n, end) =~= text::decimal(b));
        text::lemma_decimal_injective(a, b);
    }
}

/// What a plan wants is what was asked for: of each link, in its place, all files or those that are
/// listed, under the attempts that were given.
pub proof fn law_plans_say_what_is_wanted(plan: OrderedMap<SourcePlan>, k: int)
    requires
        0 <= k < plan.values().len(),
    ensures
        ({
            let model = requests::plan_model(plan);
            let source = plan.values()[k];
            &&& model.links == plan.keys()
            &&& model.sources.len() == plan.values().len()
            &&& model.sources[k].all <==> source.requested_files is All
            &&& source.requested_files is Only ==> model.sources[k].wanted
                == source.requested_files->0@
            &&& model.sources[k].attempts == source.attempt_ids@
            &&& model.sources[k].reported == source.emit_url_resolved
        }),
{
}

/// Whatever happens to the download task, downloads that may start are started last, unless it
/// stops or is paused; a request and a result are handled first.
pub proof fn law_wakeups(wakeup: Wakeup)
    ensures
        ({
            let actions = task::actions_for(wakeup);
            let stops = wakeup is RequestsClosed || wakeup is PauseClosed;
            let paused = wakeup == (Wakeup::PauseChanged { paused: true });
            &&& stops <==> actions.contains(RunAction::Stop)
            &&& stops ==> actions.len() == 1
            &&& paused <==> actions.len() == 0
            &&& !stops && !paused ==> actions.last() == RunAction::StartPending
            &&& wakeup is Request ==> actions[0] == RunAction::HandleRequests
            &&& wakeup is TaskJoined ==> actions[0] == RunAction::ApplyResult
            &&& wakeup is TaskJoined || wakeup == (Wakeup::PauseChanged { paused: false })
                ==> actions.contains(RunAction::FlushRequests)
            &&& actions.contains(RunAction::HandleRequests) <==> wakeup is Request
            &&& actions.contains(RunAction::ApplyResult) <==> wakeup is TaskJoined
        }),
{
    let actions = task::actions_for(wakeup);
    if actions.len() > 0 {
        assert(actions.contains(actions[0]));
    }
    if actions.len() > 1 {
        assert(actions.contains(actions[1]));
    }
}

/// A shutdown is heard once, its deadline only once it is set, and tokens only during it; events are
/// always heard.
pub proof fn law_what_is_heard(running: HeadlessLoop, waiting: bool, publishes: bool)
    ensures
        running.hears(HeadlessWake::ShutdownRequested { waiting }, publishes)
            == !running.shutting_down,
        running.hears(HeadlessWake::DeadlineElapsed, publishes) == running.deadline_armed,
        running.hears(HeadlessWake::Token, publishes) == running.shutting_down,
        running.hears(HeadlessWake::Event, publishes),
        running.hears(HeadlessWake::EventsClosed, publishes),
        running.hears(HeadlessWake::ProgressTick, publishes),
        running.hears(HeadlessWake::PublishTick, publishes) == publishes,
{
}

/// All files behind links are counted: those of one more link are added, whether they are to be
/// downloaded or complete.
pub proof fn law_found_files_are_counted(node_sets: Seq<FetchedNodeSet>, more: FetchedNodeSet)
    ensures
        collection::found_files(node_sets.push(more)) == collection::found_files(node_sets) + (
        match more.files {
            Some(files) => files.to_download@.len() + files.completed@.len(),
            None => 0,
        }),
        collection::found_files(Seq::empty()) == 0,
{
    assert(node_sets.push(more).drop_last() =~= node_sets);
}

/// Each fetched link is reported once, in its turn.
pub proof fn law_fetched_links_are_reported(urls: Seq<String>, k: int)
    requires
        0 <= k < urls.len(),
    ensures
        collection::resolved_events(urls).len() == urls.len(),
        collection::resolved_events(urls)[k] == (DownloadEvent::UrlResolved { url: urls[k] }),
{
}

/// A batch has the bytes and the number of all its files: one more file, queued or complete, adds
/// its own.
pub proof fn law_batches_count_all_their_files(
    batch: CollectedBatch,
    larger: CollectedBatch,
    download: crate::batch::QueuedDownload,
)
    requires
        (larger.queued_items@ == batch.queued_items@.push(download) && larger.completed_items@
            == batch.completed_items@) || (larger.completed_items@ == batch.completed_items@.push(
            download,
        ) && larger.queued_items@ == batch.queued_items@),
    ensures
        larger.bytes() == batch.bytes() + download.item.size,
        larger.files() == batch.files() + 1,
{
    assert(batch.queued_items@.push(download).drop_last() =~= batch.queued_items@);
    assert(batch.completed_items@.push(download).drop_last() =~= batch.completed_items@);
}

/// The attempts that were asked for behind links are all known; where two links ask for one file,
/// the later one counts.
pub proof fn law_requested_attempts(
    node_sets: Seq<FetchedNodeSet>,
    more: FetchedNodeSet,
    id: Seq<char>,
)
    ensures
        ({
            let before = collection::requested_attempts(node_sets);
            let after = collection::requested_attempts(node_sets.push(more));
            let asked = more.requested_attempt_ids@;
            &&& asked.dom().contains(id) ==> after.dom().contains(id) && after[id] == asked[id]
            &&& !asked.dom().contains(id) ==> after.dom().contains(id) == before.dom().contains(id)
            &&& !asked.dom().contains(id) && before.dom().contains(id) ==> after[id] == before[id]
        }),
        !collection::requested_attempts(Seq::empty()).dom().contains(id),
{
    assert(node_sets.push(more).drop_last() =~= node_sets);
}

/// Submissions of an address are numbered from zero; those of other addresses do not count.
pub proof fn law_submissions_are_numbered(
    attempts: SubmissionAttempts,
    url: Seq<char>,
    after: SubmissionAttempts,
    other: Seq<char>,
    number: u64,
)
    ensures
        !attempts.attempts@.dom().contains(url) ==> attempts.next(url) == 0,
        after.attempts@ == attempts.attempts@.insert(url, number) ==> after.next(url) == number,
        after.attempts@ == attempts.attempts@.insert(url, number) && other != url ==> after.next(
            other,
        ) == attempts.next(other),
{
}

/// What the status line says of downloads: that they are paused where they are, that all are
/// complete exactly where none is left, and nothing where there are none.
pub proof fn law_status_line(app: App)
    ensures
        app.paused ==> app.downloads_said() == Some(Status::Paused),
        !app.paused && app.files_total == 0 ==> app.downloads_said() is None,
        !app.paused && app.files_total > 0 ==> (app.downloads_said() == Some(Status::AllComplete)
            <==> app.files_completed == app.files_total),
        app.downloads_said() matches Some(Status::Activity { downloading, completed, total }) ==> {
            &&& completed == app.files_completed
            &&& total == app.files_total
            &&& downloading <==> app.core_state.totals.run_file_downloading > 0
        },
        app.downloads_said() matches Some(status) ==> status is Paused || status is AllComplete
            || status is Activity,
{
}

/// What is told of a failure ends with its reason, and what is said as a message is the message.
pub proof fn law_failures_are_told(reason: String, size: Seq<char>)
    ensures
        ends_with((Status::LoginFailed { error: Some(reason) }).shown(size), reason@),
        ends_with((Status::DeliveryFailed { failure: reason }).shown(size), reason@),
        ends_with((Status::SessionSaveFailed { error: reason }).shown(size), reason@),
        ends_with((Status::SessionRemoveFailed { error: reason }).shown(size), reason@),
        ends_with((Status::VerificationSkipped { id: reason }).shown(size), reason@),
        ends_with((Status::RetryUnavailable { id: reason }).shown(size), reason@),
        Status::Message(reason).shown(size) == reason@,
{
    lemma_ends("Login failed: "@, reason@);
    lemma_ends("Download event delivery failed: "@, reason@);
    lemma_ends("Failed to save session: "@, reason@);
    lemma_ends("Failed to remove empty session: "@, reason@);
    lemma_ends("Verification skipped for "@, reason@);
    lemma_ends("Retry unavailable for "@, reason@);
}

/// The status line counts complete files first and all files behind them.
pub proof fn law_activity_is_counted(
    downloading: bool,
    completed: usize,
    total: usize,
    size: Seq<char>,
)
    ensures
        ({
            let shown = (Status::Activity { downloading, completed, total }).shown(size);
            &&& ends_with(
                shown,
                "("@ + text::decimal(completed as nat) + "/"@ + text::decimal(total as nat) + ")"@,
            )
            &&& downloading ==> text::begins_with(shown, "Downloading"@)
            &&& !downloading ==> text::begins_with(shown, "Queued"@)
        }),
{
    let head = if downloading {
        "Downloading"@
    } else {
        "Queued"@
    };
    reveal_strlit(" (");
    reveal_strlit("(");
    let tail = "("@ + text::decimal(completed as nat) + "/"@ + text::decimal(total as nat) + ")"@;
    let shown = (Status::Activity { downloading, completed, total }).shown(size);
    assert(shown =~= (head + seq![' ']) + tail);
    lemma_ends(head + seq![' '], tail);
    assert(shown =~= head + (seq![' '] + tail));
    lemma_ends(head, seq![' '] + tail);
}

/// What the user sees of a file is what the core knows of it, else its row, else nothing.
pub proof fn law_what_is_seen_of_a_file(app: App, id: Seq<char>)
    ensures
        app.core_state.has(id) ==> (app.seen(id) matches Some(seen) && seen.id
            == app.core_state.file(id).id && seen.size == app.core_state.file(id).size
            && seen.artifact_path == app.core_state.file(id).path && seen.source_url == Some(
            app.core_state.file(id).source_url,
        ) && seen.status == app.core_state.file(id).lifecycle.shown()),
        !app.core_state.has(id) && app.overlays(id) ==> (app.seen(id) matches Some(seen)
            && seen.source_url is None && seen.id == app.overlay(id).entry().id && seen.status
            == app.overlay(id).entry().status && seen.size == app.overlay(id).entry().size),
        app.seen(id) is None <==> !app.core_state.has(id) && !app.overlays(id),
{
}

/// Bytes that are gained lead from one count to the next, and a count that goes back gains none.
pub proof fn law_gained_bytes_lead_to_the_next_count(before: u64, now: u64)
    ensures
        now >= before ==> before + app::gained(before, now) == now,
        now < before ==> app::gained(before, now) == 0,
{
}

/// A file has one last row at most.
pub proof fn law_last_rows(files: Seq<FileEntry>, id: Seq<char>, a: int, b: int)
    ensures
        app::is_last_row(files, id, a) && app::is_last_row(files, id, b) ==> a == b,
        app::is_last_row(files, id, a) ==> 0 <= a < files.len() && files[a].id@ == id,
        app::is_last_row(files, id, a) && a < b < files.len() ==> files[b].id@ != id,
{
}

/// There is something to be saved once an address was submitted, a row is shown or the core knows a
/// file, and not before.
pub proof fn law_sessions_are_worth_saving(app: App)
    ensures
        app.core_state.url_order@.len() > 0 ==> dispatch::has_content(app),
        app.files@.len() > 0 ==> dispatch::has_content(app),
        app.overlay_files.keys().len() > 0 ==> dispatch::has_content(app),
        app.core_state.files.keys().len() > 0 ==> dispatch::has_content(app),
        dispatch::has_content(app) ==> app.core_state.url_order@.len() + app.files@.len()
            + app.overlay_files.keys().len() + app.core_state.files.keys().len() > 0,
{
}

/// Each effect of the core but those on downloads and the view is answered at once, by what it asks
/// for and nothing else.
pub proof fn law_effects_are_answered(
    action: EffectAction,
    path: String,
    attempts: Map<Seq<char>, u64>,
    effect: CoreEffect,
)
    ensures
        effects::answers(action, CoreEffect::PersistSession, attempts) <==> action is Persist,
        effects::answers(action, CoreEffect::DeleteOutputArtifacts { path }, attempts) <==> action
            == (EffectAction::DeleteOutput { path }),
        effects::answers(action, CoreEffect::DeleteResumeArtifacts { path }, attempts) <==> action
            == (EffectAction::DeleteResume { path }),
        effects::answers(action, CoreEffect::PublishStatusMessage(path), attempts) <==> action
            == EffectAction::SetStatus(path),
        effects::answers(action, CoreEffect::EnqueueUrlResolution { url: path }, attempts) ==> (
        action matches EffectAction::Send(DownloadRequest::SubmitUrl { url, .. }) && url@ == path@),
        effects::acts_at_once()(effect) <==> effect is PersistSession
            || effect is DeleteOutputArtifacts || effect is DeleteResumeArtifacts
            || effect is PublishStatusMessage || effect is EnqueueUrlResolution,
        effects::answers(action, effect, attempts) ==> effects::acts_at_once()(effect),
{
}

/// What is said of a file tells how it fares: that it waits, what went wrong, or how much is done;
/// a file without bytes has an empty gauge, and no gauge says more than all.
pub proof fn law_details_tell_how_files_fare(
    file: DashboardFileRow,
    pct: u64,
    filled: usize,
    amount: Seq<char>,
)
    ensures
        ({
            let shown = dashboard::detail(file, pct, filled, amount);
            &&& file.status matches DashboardFileStatus::Error { message } ==> shown == message@
            &&& file.status is Queued ==> shown == "queued"@
            &&& file.status is Complete ==> text::begins_with(shown, amount)
            &&& file.status is Downloading && file.speed > 0 ==> ends_with(shown, amount + "/s"@)
            &&& file.status is Downloading && file.speed == 0 ==> ends_with(shown, "%  active"@)
            &&& file.status is Verifying ==> ends_with(shown, "%  verify"@)
        }),
        file.size == 0 ==> dashboard::detail(file, pct, filled, amount) == dashboard::detail(
            file,
            0,
            0,
            amount,
        ),
        pct > 100 ==> dashboard::detail(file, pct, filled, amount) == dashboard::detail(
            file,
            100,
            filled,
            amount,
        ),
{
    let shown = dashboard::detail(file, pct, filled, amount);
    reveal_strlit("%");
    reveal_strlit("  active");
    reveal_strlit("%  active");
    reveal_strlit("  verify");
    reveal_strlit("%  verify");
    assert("%"@ + "  active"@ =~= "%  active"@);
    assert("%"@ + "  verify"@ =~= "%  verify"@);
    let share = if file.size == 0 {
        0
    } else if pct > 100 {
        100
    } else {
        pct
    };
    let head = "["@ + dashboard::bar(
        if file.size == 0 {
            0
        } else {
            filled as nat
        },
        10,
    ) + "] "@ + text::decimal(share as nat);
    if file.status is Complete {
        lemma_ends(amount, "  done"@);
    } else if file.status is Verifying {
        assert(shown =~= head + "%  verify"@);
        lemma_ends(head, "%  verify"@);
    } else if file.status is Downloading {
        if file.speed > 0 {
            assert(shown =~= (head + "%"@ + "  "@) + (amount + "/s"@));
            lemma_ends(head + "%"@ + "  "@, amount + "/s"@);
        } else {
            assert(shown =~= head + "%  active"@);
            lemma_ends(head, "%  active"@);
        }
    }
}

/// What published rows say is what each of them says, in their order.
pub proof fn law_published_rows_say_what_they_say(
    packages: Seq<DashboardPackageRow>,
    files: Seq<DashboardFileRow>,
    k: int,
)
    ensures
        projection::packages_shown(packages).len() == packages.len(),
        0 <= k < packages.len() ==> projection::packages_shown(packages)[k].id == packages[k].id@
            && projection::packages_shown(packages)[k].total_bytes == packages[k].total_bytes
            && projection::packages_shown(packages)[k].downloaded_bytes
            == packages[k].downloaded_bytes && projection::packages_shown(packages)[k].percent
            == packages[k].percent && projection::packages_shown(packages)[k].status
            == packages[k].status && projection::packages_shown(packages)[k].display_name
            == packages[k].display_name@ && projection::packages_shown(packages)[k].present_files
            == packages[k].present_files && projection::packages_shown(packages)[k].completed_files
            == packages[k].completed_files && projection::packages_shown(packages)[k].expanded
            == packages[k].expanded && projection::packages_shown(packages)[k].source_url
            == packages[k].source_url@,
        projection::files_shown(files).len() == files.len(),
        0 <= k < files.len() ==> projection::files_shown(files)[k].id == files[k].id@
            && projection::files_shown(files)[k].size == files[k].size && projection::files_shown(
            files,
        )[k].downloaded == files[k].downloaded && projection::files_shown(files)[k].speed
            == files[k].speed && projection::files_shown(files)[k].name == files[k].name@
            && projection::files_shown(files)[k].status == files[k].status,
{
}

/// A row on the screen is published as what it is: a package by its identity, a file by its own and
/// that of its package.
pub proof fn law_rows_are_published_as_what_they_are(row: DashboardRow, shown: TuiRow)
    requires
        projection::publishes_row(row, shown),
    ensures
        row is Package <==> shown is Package,
        shown matches TuiRow::Package(id) ==> (row matches DashboardRow::Package { package_id }
            && package_id@ == id.text()),
        shown matches TuiRow::File { package_id: Some(id), file_id: file } ==> (
        row matches DashboardRow::File { package_id, file_id } && file_id == file && package_id@
            == id.text()),
        shown matches TuiRow::File { package_id: None, file_id: file } ==> (
        row matches DashboardRow::File { package_id, file_id } && file_id == file
            && package_id@.len() == 0),
{
}

/// Where nothing was found behind a link, that is said first, and of that link; else nothing is.
pub proof fn law_nothing_found_is_said(
    events: Seq<DownloadEvent>,
    missing: Seq<Seq<char>>,
    source_url: Seq<char>,
    target: verification::VerificationTarget,
    matched: usize,
    operations: Map<Seq<char>, u64>,
)
    requires
        verification::closes(events, missing, source_url, target, matched, operations),
    ensures
        matched == 0 ==> events.len() == missing.len() + 1 && (
        events[0] matches DownloadEvent::StatusMessage(message) && ends_with(
            message@,
            source_url,
        )),
        matched > 0 ==> events.len() == missing.len(),
{
    lemma_ends("No completed file(s) found to verify for "@, source_url);
    lemma_ends("No matching file(s) found to reverify for "@, source_url);
}

/// A submission names its address and, of each file that was tried before, the attempt at it; of a
/// file that was not, it names none.
pub proof fn law_submissions_name_earlier_attempts(
    request: DownloadRequest,
    url: String,
    attempts: Map<Seq<char>, u64>,
    id: Seq<char>,
)
    requires
        effects::submits(request, url, attempts),
    ensures
        request matches DownloadRequest::SubmitUrl { url: submitted, attempt_ids } && submitted@
            == url@ && (attempt_ids@.dom().contains(id) <==> attempts.dom().contains(id)
            && attempts[id] > 0) && (attempt_ids@.dom().contains(id) ==> attempt_ids@[id]
            == attempts[id]),
{
}

} // verus!
