//! Verifying files that are on disk, and reporting on it.

use vstd::prelude::*;

use crate::batch::DownloadItem;
use crate::events::{ByteCount, DownloadEvent, ProgressDelta};
use crate::ids::{self, FileId, FileIdMap, FileIdSet};
use crate::requests;
use crate::text::{self, decimal_text, joined, quoted};

verus! {

/// A progress report is sent once this many bytes have been verified.
pub const VERIFICATION_PROGRESS_EVENT_BYTES: u64 = 8_388_608;

/// How many files of a package are verified at a time.
pub const PACKAGE_REVERIFY_CONCURRENCY: usize = 4;

/// What is verified: a complete output file, or the resume data of a partial one.
#[derive(Clone, Copy, Debug, PartialEq, Eq, Structural)]
pub enum VerificationTarget {
    Resume,
    Completed,
}

/// Whether an event reports that bytes of a file were verified.
pub open spec fn reports_verified(
    event: DownloadEvent,
    file: Seq<char>,
    operation: Option<u64>,
    bytes: u64,
) -> bool {
    match operation {
        Some(operation_id) => event matches DownloadEvent::VerificationProgressForOperation {
            id,
            operation_id: reported,
            bytes_delta,
        } && id@ == file && reported == operation_id && bytes_delta == bytes,
        None => event matches DownloadEvent::VerificationProgress { id, bytes_delta } && id@
            == file && bytes_delta == bytes,
    }
}

/// Gathers verified bytes until they are worth a report.
pub struct VerificationProgress {
    pub id: FileId,
    pub operation_id: Option<u64>,
    pub pending_bytes: u64,
}

impl VerificationProgress {
    /// Nothing is gathered, and reports name no operation.
    pub fn new(id: FileId) -> (progress: VerificationProgress)
        ensures
            progress.id == id,
            progress.operation_id is None,
            progress.pending_bytes == 0,
    {
        VerificationProgress::with_operation(id, None)
    }

    /// Nothing is gathered.
    pub fn with_operation(id: FileId, operation_id: Option<u64>) -> (progress: VerificationProgress)
        ensures
            progress.id == id,
            progress.operation_id == operation_id,
            progress.pending_bytes == 0,
    {
        VerificationProgress { id, operation_id, pending_bytes: 0 }
    }

    /// The report of a number of bytes; there is none of zero bytes.
    pub fn send_progress(&self, bytes_delta: u64) -> (event: Option<DownloadEvent>)
        ensures
            match event {
                Some(report) => bytes_delta > 0 && reports_verified(
                    report,
                    self.id@,
                    self.operation_id,
                    bytes_delta,
                ),
                None => bytes_delta == 0,
            },
    {
        if bytes_delta == 0 {
            return None;
        }
        match self.operation_id {
            Some(operation_id) => Some(
                DownloadEvent::VerificationProgressForOperation {
                    id: self.id.clone(),
                    operation_id,
                    bytes_delta,
                },
            ),
            None => Some(
                DownloadEvent::VerificationProgress { id: self.id.clone(), bytes_delta },
            ),
        }
    }

    /// Reports what is gathered.
    pub fn flush_pending(&mut self) -> (event: Option<DownloadEvent>)
        ensures
            *final(self) == (VerificationProgress { pending_bytes: 0, ..*old(self) }),
            match event {
                Some(report) => old(self).pending_bytes > 0 && reports_verified(
                    report,
                    old(self).id@,
                    old(self).operation_id,
                    old(self).pending_bytes,
                ),
                None => old(self).pending_bytes == 0,
            },
    {
        let bytes_delta: u64 = self.pending_bytes;
        self.pending_bytes = 0;
        self.send_progress(bytes_delta)
    }

    /// Gathers verified bytes and reports them once there are enough. The count is kept modulo
    /// the range of `u64`.
    pub fn on_progress(&mut self, delta: ProgressDelta) -> (event: Option<DownloadEvent>)
        ensures
            final(self).id == old(self).id,
            final(self).operation_id == old(self).operation_id,
            ({
                let sum = old(self).pending_bytes + delta.total_bytes_delta;
                let kept = if sum > u64::MAX {
                    (sum - u64::MAX - 1) as u64
                } else {
                    sum as u64
                };
                if sum < VERIFICATION_PROGRESS_EVENT_BYTES {
                    event is None && final(self).pending_bytes == kept
                } else {
                    &&& final(self).pending_bytes == 0
                    &&& match event {
                        Some(report) => kept > 0 && reports_verified(
                            report,
                            old(self).id@,
                            old(self).operation_id,
                            kept,
                        ),
                        None => kept == 0,
                    }
                }
            }),
    {
        let previous: u64 = self.pending_bytes;
        self.pending_bytes = previous.wrapping_add(delta.total_bytes_delta);
        if previous.saturating_add(delta.total_bytes_delta) < VERIFICATION_PROGRESS_EVENT_BYTES {
            return None;
        }
        self.flush_pending()
    }
}

/// The bytes that are pending after a list of reports, with those that were reported.
pub open spec fn gathered(deltas: Seq<u64>) -> (nat, nat)
    decreases deltas.len(),
{
    if deltas.len() == 0 {
        (0, 0)
    } else {
        let (pending, reported) = gathered(deltas.drop_last());
        let sum = pending + deltas.last() as nat;
        if sum < VERIFICATION_PROGRESS_EVENT_BYTES {
            (sum, reported)
        } else {
            (0, reported + sum)
        }
    }
}

/// The sum of a list of numbers.
pub open spec fn sum_of(deltas: Seq<u64>) -> nat
    decreases deltas.len(),
{
    if deltas.len() == 0 {
        0
    } else {
        sum_of(deltas.drop_last()) + deltas.last() as nat
    }
}

/// What is reported and what is still pending add up to what was verified, and less than one
/// report's worth is ever pending.
pub proof fn law_reports_sum_to_input(deltas: Seq<u64>)
    ensures
        gathered(deltas).0 + gathered(deltas).1 == sum_of(deltas),
        gathered(deltas).0 < VERIFICATION_PROGRESS_EVENT_BYTES,
    decreases deltas.len(),
{
    if deltas.len() > 0 {
        law_reports_sum_to_input(deltas.drop_last());
    }
}

/// The files of a list that were asked for; of several with one path, the first.
pub open spec fn matched_items(
    items: Seq<DownloadItem>,
    requested: Set<Seq<char>>,
) -> Seq<DownloadItem>
    decreases items.len(),
{
    if items.len() == 0 {
        Seq::empty()
    } else {
        let earlier = items.drop_last();
        let path = items.last().path@;
        if requested.contains(path) && !item_paths(earlier).contains(path) {
            matched_items(earlier, requested).push(items.last())
        } else {
            matched_items(earlier, requested)
        }
    }
}

/// The paths of a list of files.
pub open spec fn item_paths(items: Seq<DownloadItem>) -> Set<Seq<char>> {
    Set::new(|path: Seq<char>| exists|i: int| 0 <= i < items.len() && items[i].path@ == path)
}

/// One more file adds its path.
proof fn lemma_item_paths_push(items: Seq<DownloadItem>)
    requires
        items.len() > 0,
    ensures
        item_paths(items) == item_paths(items.drop_last()).insert(items.last().path@),
{
    let fewer = items.drop_last();
    assert forall|path: Seq<char>| item_paths(items).contains(path) == item_paths(fewer).insert(
        items.last().path@,
    ).contains(path) by {
        if item_paths(items).contains(path) {
            let i = choose|i: int| 0 <= i < items.len() && items[i].path@ == path;
            if i < fewer.len() {
                assert(fewer[i].path@ == path);
            }
        }
        if item_paths(fewer).contains(path) {
            let i = choose|i: int| 0 <= i < fewer.len() && fewer[i].path@ == path;
            assert(items[i].path@ == path);
        }
        assert(items[items.len() - 1].path@ == items.last().path@);
    }
    assert(item_paths(items) =~= item_paths(fewer).insert(items.last().path@));
}

/// Takes the files that were asked for out of what was found; what is left in `requested` was
/// not found.
pub fn match_requested(items: Vec<DownloadItem>, requested: &mut FileIdSet) -> (matched: Vec<
    DownloadItem,
>)
    ensures
        matched@ == matched_items(items@, old(requested)@),
        final(requested)@ == old(requested)@.difference(item_paths(items@)),
{
    let mut matched: Vec<DownloadItem> = Vec::new();
    let mut i: usize = 0;
    proof {
        assert(items@.take(0) =~= Seq::empty());
        assert(requested@ =~= requested@.difference(item_paths(items@.take(0))));
    }
    while i < items.len()
        invariant
            i <= items.len(),
            matched@ == matched_items(items@.take(i as int), old(requested)@),
            requested@ == old(requested)@.difference(item_paths(items@.take(i as int))),
        decreases items.len() - i,
    {
        let item = &items[i];
        proof {
            let longer = items@.take(i as int + 1);
            assert(longer.drop_last() =~= items@.take(i as int));
            assert(longer.last() == *item);
            lemma_item_paths_push(longer);
        }
        if requested.contains(&item.path) {
            requested.remove(&item.path);
            matched.push(item.copy());
        }
        assert(requested@ =~= old(requested)@.difference(item_paths(items@.take(i as int + 1))));
        i = i + 1;
    }
    assert(items@.take(i as int) =~= items@);
    matched
}

/// How verifying one file ended.
pub enum VerifyOutcome {
    /// The output file is intact.
    CompletedOk { bytes: ByteCount },
    /// The resume data was read; so many chunks and bytes of it can be used.
    ResumeOk { chunks: usize, bytes: ByteCount },
    /// There was no resume data.
    ResumeWithoutSidecar,
    /// The output file could not be verified.
    CompletedFailed { error: String },
    /// The resume data could not be verified.
    ResumeFailed { error: String },
}

/// Whether events report the end of verifying one file.
pub open spec fn reports_outcome(
    events: Seq<DownloadEvent>,
    path: Seq<char>,
    operation: Option<u64>,
    outcome: VerifyOutcome,
) -> bool {
    match outcome {
        VerifyOutcome::CompletedOk { bytes } => {
            &&& events.len() == 2
            &&& match operation {
                Some(operation_id) => events[0]
                    matches DownloadEvent::CompletedFileVerifiedForOperation {
                    id,
                    operation_id: reported,
                    bytes: verified,
                } && id@ == path && reported == operation_id && verified == bytes.bytes,
                None => events[0] matches DownloadEvent::CompletedFileVerified {
                    id,
                    bytes: verified,
                } && id@ == path && verified == bytes.bytes,
            }
            &&& requests::says(
                events[1],
                "Verified "@ + path + ": "@ + bytes.text@ + " final file OK"@,
            )
        },
        VerifyOutcome::ResumeOk { chunks, bytes } => {
            &&& events.len() == 2
            &&& reports_reverified(events[0], path, operation, chunks, bytes.bytes)
            &&& requests::says(
                events[1],
                "Reverified "@ + path + ": "@ + text::decimal(chunks as nat) + " chunk(s), "@
                    + bytes.text@ + " reusable"@,
            )
        },
        VerifyOutcome::ResumeWithoutSidecar => {
            &&& events.len() == 2
            &&& reports_reverified(events[0], path, operation, 0, 0)
            &&& requests::says(events[1], "Reverified "@ + path + ": no resume sidecar"@)
        },
        VerifyOutcome::CompletedFailed { error } => reports_failed(
            events,
            path,
            operation,
            "Final verification failed: "@ + error@,
        ),
        VerifyOutcome::ResumeFailed { error } => reports_failed(
            events,
            path,
            operation,
            "Reverify failed: "@ + error@,
        ),
    }
}

/// Whether an event reports reusable resume data.
pub open spec fn reports_reverified(
    event: DownloadEvent,
    path: Seq<char>,
    operation: Option<u64>,
    chunks: usize,
    bytes: u64,
) -> bool {
    match operation {
        Some(operation_id) => event matches DownloadEvent::ResumeReverifiedForOperation {
            id,
            operation_id: reported,
            chunks: found,
            bytes: verified,
        } && id@ == path && reported == operation_id && found == chunks && verified == bytes,
        None => event matches DownloadEvent::ResumeReverified {
            id,
            chunks: found,
            bytes: verified,
        } && id@ == path && found == chunks && verified == bytes,
    }
}

/// Whether a single event reports that verifying failed.
pub open spec fn reports_failed(
    events: Seq<DownloadEvent>,
    path: Seq<char>,
    operation: Option<u64>,
    message: Seq<char>,
) -> bool {
    &&& events.len() == 1
    &&& match operation {
        Some(operation_id) => events[0] matches DownloadEvent::VerificationFailed {
            id,
            operation_id: reported,
            error,
        } && id@ == path && reported == operation_id && error@ == message,
        None => requests::scope_error(events[0], path, message),
    }
}

/// The event that reports reusable resume data.
fn reverified_event(path: &str, operation: Option<u64>, chunks: usize, bytes: u64) -> (event:
    DownloadEvent)
    ensures
        reports_reverified(event, path@, operation, chunks, bytes),
{
    match operation {
        Some(operation_id) => DownloadEvent::ResumeReverifiedForOperation {
            id: path.to_owned(),
            operation_id,
            chunks,
            bytes,
        },
        None => DownloadEvent::ResumeReverified { id: path.to_owned(), chunks, bytes },
    }
}

/// The events that report a failure.
fn failed_events(path: &str, operation: Option<u64>, message: String) -> (events: Vec<
    DownloadEvent,
>)
    ensures
        reports_failed(events@, path@, operation, message@),
{
    let mut events: Vec<DownloadEvent> = Vec::new();
    match operation {
        Some(operation_id) => {
            events.push(
                DownloadEvent::VerificationFailed {
                    id: path.to_owned(),
                    operation_id,
                    error: message,
                },
            );
        },
        None => {
            events.push(DownloadEvent::ScopeError { scope: path.to_owned(), error: message });
        },
    }
    events
}

/// The events that report the end of verifying one file.
pub fn verification_events(path: &str, operation: Option<u64>, outcome: &VerifyOutcome) -> (events:
    Vec<DownloadEvent>)
    ensures
        reports_outcome(events@, path@, operation, *outcome),
{
    let mut events: Vec<DownloadEvent> = Vec::new();
    match outcome {
        VerifyOutcome::CompletedOk { bytes } => {
            match operation {
                Some(operation_id) => {
                    events.push(
                        DownloadEvent::CompletedFileVerifiedForOperation {
                            id: path.to_owned(),
                            operation_id,
                            bytes: bytes.bytes,
                        },
                    );
                },
                None => {
                    events.push(
                        DownloadEvent::CompletedFileVerified {
                            id: path.to_owned(),
                            bytes: bytes.bytes,
                        },
                    );
                },
            }
            let mut message = quoted("Verified ", path, ": ");
            message.append(&bytes.text);
            message.append(" final file OK");
            events.push(DownloadEvent::StatusMessage(message));
            events
        },
        VerifyOutcome::ResumeOk { chunks, bytes } => {
            events.push(reverified_event(path, operation, *chunks, bytes.bytes));
            let mut message = quoted("Reverified ", path, ": ");
            message.append(&decimal_text(*chunks as u64));
            message.append(" chunk(s), ");
            message.append(&bytes.text);
            message.append(" reusable");
            events.push(DownloadEvent::StatusMessage(message));
            events
        },
        VerifyOutcome::ResumeWithoutSidecar => {
            events.push(reverified_event(path, operation, 0, 0));
            events.push(
                DownloadEvent::StatusMessage(quoted("Reverified ", path, ": no resume sidecar")),
            );
            events
        },
        VerifyOutcome::CompletedFailed { error } => failed_events(
            path,
            operation,
            joined("Final verification failed: ", error),
        ),
        VerifyOutcome::ResumeFailed { error } => failed_events(
            path,
            operation,
            joined("Reverify failed: ", error),
        ),
    }
}

/// Whether an event reports that a file which was to be verified was not found.
pub open spec fn reports_missing(
    event: DownloadEvent,
    file: Seq<char>,
    operations: Map<Seq<char>, u64>,
    target: VerificationTarget,
) -> bool {
    if operations.dom().contains(file) {
        event matches DownloadEvent::VerificationFailed { id, operation_id, error } && id@ == file
            && operation_id == operations[file] && error@ == match target {
            VerificationTarget::Completed => "Completed file was not found during verification"@,
            VerificationTarget::Resume => "File was not found during reverify"@,
        }
    } else {
        event matches DownloadEvent::VerificationSkipped { id, completed } && id@ == file
            && completed == (target is Completed)
    }
}

/// The message for a link behind which no file was found to verify.
pub open spec fn nothing_found(source_url: Seq<char>, target: VerificationTarget) -> Seq<char> {
    match target {
        VerificationTarget::Completed => "No completed file(s) found to verify for "@ + source_url,
        VerificationTarget::Resume => "No matching file(s) found to reverify for "@ + source_url,
    }
}

/// How many messages stand before the events for missing files.
pub open spec fn closing_head(matched: usize) -> int {
    if matched == 0 {
        1
    } else {
        0
    }
}

/// Whether events close a verification: one message where nothing was found, then one event for
/// each file that was missed.
pub open spec fn closes(
    events: Seq<DownloadEvent>,
    missing: Seq<Seq<char>>,
    source_url: Seq<char>,
    target: VerificationTarget,
    matched: usize,
    operations: Map<Seq<char>, u64>,
) -> bool {
    &&& events.len() == closing_head(matched) + missing.len()
    &&& matched == 0 ==> requests::says(events[0], nothing_found(source_url, target))
    &&& forall|i: int|
        0 <= i < missing.len() ==> reports_missing(
            #[trigger] events[closing_head(matched) + i],
            missing[i],
            operations,
            target,
        )
}

/// The events that close a verification: one message where nothing was found, then one event for
/// each file that was missed.
pub fn closing_events(
    source_url: &str,
    target: VerificationTarget,
    matched: usize,
    missing: &Vec<FileId>,
    operation_ids: &FileIdMap<u64>,
) -> (events: Vec<DownloadEvent>)
    ensures
        closes(
            events@,
            ids::texts(missing@),
            source_url@,
            target,
            matched,
            operation_ids@,
        ),
{
    let mut events: Vec<DownloadEvent> = Vec::new();
    let ghost head: int = closing_head(matched);
    if matched == 0 {
        events.push(
            DownloadEvent::StatusMessage(
                match target {
                    VerificationTarget::Completed => joined(
                        "No completed file(s) found to verify for ",
                        source_url,
                    ),
                    VerificationTarget::Resume => joined(
                        "No matching file(s) found to reverify for ",
                        source_url,
                    ),
                },
            ),
        );
    }
    let mut i: usize = 0;
    while i < missing.len()
        invariant
            i <= missing.len(),
            head == closing_head(matched),
            events@.len() == head + i,
            matched == 0 ==> requests::says(events@[0], nothing_found(source_url@, target)),
            forall|j: int|
                0 <= j < i ==> reports_missing(
                    #[trigger] events@[head + j],
                    missing@[j]@,
                    operation_ids@,
                    target,
                ),
        decreases missing.len() - i,
    {
        let id = &missing[i];
        let event = match operation_ids.get(id) {
            Some(operation_id) => DownloadEvent::VerificationFailed {
                id: id.clone(),
                operation_id: *operation_id,
                error: match target {
                    VerificationTarget::Completed =>
                        "Completed file was not found during verification".to_owned(),
                    VerificationTarget::Resume => "File was not found during reverify".to_owned(),
                },
            },
            None => DownloadEvent::VerificationSkipped {
                id: id.clone(),
                completed: matches!(target, VerificationTarget::Completed),
            },
        };
        let ghost before = events@;
        events.push(event);
        proof {
            assert forall|j: int| 0 <= j < i + 1 implies reports_missing(
                #[trigger] events@[head + j],
                missing@[j]@,
                operation_ids@,
                target,
            ) by {
                if j < i {
                    assert(events@[head + j] == before[head + j]);
                }
            }
        }
        i = i + 1;
    }
    events
}

/// Verifying the files of one link.
pub struct VerificationPass {
    pub source_url: String,
    pub target: VerificationTarget,
    pub operation_ids: FileIdMap<u64>,
    /// Files that were asked for and not found yet.
    pub requested: FileIdSet,
    /// How many files were found.
    pub matched: usize,
    /// Files whose resume data was read, or known to be missing.
    pub reverified: FileIdSet,
}

/// The files among which a verification looks: complete ones, or also those to be downloaded
/// where resume data is verified.
pub open spec fn candidates(
    target: VerificationTarget,
    to_download: Seq<DownloadItem>,
    completed: Seq<DownloadItem>,
) -> Seq<DownloadItem> {
    match target {
        VerificationTarget::Completed => completed,
        VerificationTarget::Resume => to_download + completed,
    }
}

impl VerificationPass {
    /// The operation that verifies a file.
    pub open spec fn operation(&self, file: Seq<char>) -> Option<u64> {
        if self.operation_ids@.dom().contains(file) {
            Some(self.operation_ids@[file])
        } else {
            None
        }
    }

    /// Starts with the files that were asked for.
    pub fn begin(
        source_url: String,
        file_ids: &Vec<FileId>,
        operation_ids: FileIdMap<u64>,
        target: VerificationTarget,
    ) -> (pass: VerificationPass)
        ensures
            pass.source_url == source_url,
            pass.target == target,
            pass.operation_ids == operation_ids,
            pass.requested@ == ids::texts(file_ids@).to_set(),
            pass.matched == 0,
            pass.reverified@ == Set::<Seq<char>>::empty(),
    {
        VerificationPass {
            source_url,
            target,
            operation_ids,
            requested: FileIdSet::of(file_ids),
            matched: 0,
            reverified: FileIdSet::new(),
        }
    }

    /// Takes what was found behind one source and gives the files to verify.
    pub fn found(
        &mut self,
        to_download: Vec<DownloadItem>,
        completed: Vec<DownloadItem>,
    ) -> (items: Vec<DownloadItem>)
        ensures
            items@ == matched_items(
                candidates(old(self).target, to_download@, completed@),
                old(self).requested@,
            ),
            final(self).requested@ == old(self).requested@.difference(
                item_paths(candidates(old(self).target, to_download@, completed@)),
            ),
            final(self).matched == if old(self).matched + items@.len() > usize::MAX {
                usize::MAX as int
            } else {
                old(self).matched + items@.len()
            },
            *final(self) == (VerificationPass {
                requested: final(self).requested,
                matched: final(self).matched,
                ..*old(self)
            }),
    {
        let items = match self.target {
            VerificationTarget::Completed => match_requested(completed, &mut self.requested),
            VerificationTarget::Resume => {
                let mut all = to_download;
                let mut rest = completed;
                all.append(&mut rest);
                match_requested(all, &mut self.requested)
            },
        };
        self.matched = self.matched.saturating_add(items.len());
        items
    }

    /// Reports the end of verifying one file: what was still pending, then the outcome.
    pub fn finished_item(
        &mut self,
        progress: &mut VerificationProgress,
        outcome: &VerifyOutcome,
    ) -> (events: Vec<DownloadEvent>)
        ensures
            *final(progress) == (VerificationProgress { pending_bytes: 0, ..*old(progress) }),
            ({
                let file = old(progress).id@;
                let head: int = if old(progress).pending_bytes > 0 {
                    1
                } else {
                    0
                };
                &&& events@.len() >= head
                &&& head == 1 ==> reports_verified(
                    events@[0],
                    file,
                    old(progress).operation_id,
                    old(progress).pending_bytes,
                )
                &&& reports_outcome(
                    events@.skip(head),
                    file,
                    old(progress).operation_id,
                    *outcome,
                )
            }),
            final(self).reverified@ == if outcome is ResumeOk || outcome is ResumeWithoutSidecar {
                old(self).reverified@.insert(old(progress).id@)
            } else {
                old(self).reverified@
            },
            *final(self) == (VerificationPass { reverified: final(self).reverified, ..*old(self) }),
    {
        let mut events: Vec<DownloadEvent> = Vec::new();
        if let Some(event) = progress.flush_pending() {
            events.push(event);
        }
        let ghost head = events@;
        let mut closing = verification_events(&progress.id, progress.operation_id, outcome);
        let ghost tail = closing@;
        events.append(&mut closing);
        assert(events@.skip(head.len() as int) =~= tail);
        match outcome {
            VerifyOutcome::ResumeOk { .. } | VerifyOutcome::ResumeWithoutSidecar => {
                self.reverified.insert(progress.id.clone());
            },
            _ => {},
        }
        events
    }

    /// The events that close the verification: one message where nothing was found, then one
    /// event for each file that was missed.
    pub fn close(&self) -> (events: Vec<DownloadEvent>)
        ensures
            exists|missing: Seq<Seq<char>>|
                missing.no_duplicates() && missing.to_set() == self.requested@ && #[trigger] closes(
                    events@,
                    missing,
                    self.source_url@,
                    self.target,
                    self.matched,
                    self.operation_ids@,
                ),
    {
        let missing = self.requested.to_vec();
        closing_events(
            &self.source_url,
            self.target,
            self.matched,
            &missing,
            &self.operation_ids,
        )
    }
}

} // verus!
