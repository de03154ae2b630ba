//! Turning fetched links into one batch of downloads, and reporting it.

use vstd::prelude::*;

use crate::batch::{
    self, collect_node_set, successful_submitted_urls, CollectedBatch, FetchedNodeSet,
    QueuedDownload,
};
use crate::duplicates::{self, BatchDestination, BatchDuplicateResolver, BatchModel};
use crate::events::{DownloadEvent, FileAccounting, FileOrigin, QueuedFile};
use crate::ids::{self, FileIdMap};
use crate::text;

verus! {

/// How many files were found behind links.
pub open spec fn found_files(node_sets: Seq<FetchedNodeSet>) -> nat
    decreases node_sets.len(),
{
    if node_sets.len() == 0 {
        0
    } else {
        found_files(node_sets.drop_last()) + node_sets.last().found().len()
            + node_sets.last().found_complete().len()
    }
}

/// How many wanted files were complete already.
pub open spec fn skipped_files(node_sets: Seq<FetchedNodeSet>) -> nat
    decreases node_sets.len(),
{
    if node_sets.len() == 0 {
        0
    } else {
        let last = node_sets.last();
        skipped_files(node_sets.drop_last()) + batch::wanted_items(
            last.found_complete(),
            last.requested_files,
        ).len()
    }
}

/// How many wanted files were partly downloaded.
pub open spec fn partial_files(node_sets: Seq<FetchedNodeSet>) -> nat
    decreases node_sets.len(),
{
    if node_sets.len() == 0 {
        0
    } else {
        let last = node_sets.last();
        partial_files(node_sets.drop_last()) + batch::partial_items(
            batch::wanted_items(last.found(), last.requested_files),
        )
    }
}

/// The batch that links make: the files of one link after those of another, queued ones before
/// complete ones.
pub open spec fn batch_of(node_sets: Seq<FetchedNodeSet>) -> BatchModel
    decreases node_sets.len(),
{
    if node_sets.len() == 0 {
        BatchModel::empty()
    } else {
        let last = node_sets.last();
        batch_of(node_sets.drop_last()).all_inserted(
            last.downloads(last.found()),
            BatchDestination::Queued,
        ).all_inserted(last.downloads(last.found_complete()), BatchDestination::Completed)
    }
}

/// Files that were found once more never make the number of downloads larger.
proof fn lemma_downloads_len(node_set: FetchedNodeSet, items: Seq<batch::DownloadItem>)
    requires
        node_set.requested_files.wf(),
    ensures
        node_set.downloads(items).len() <= items.len(),
{
    let kept = batch::wanted_items(items, node_set.requested_files);
    items.lemma_filter_len(|item: batch::DownloadItem| node_set.requested_files.wants(item.path@));
    if let batch::RequestedFiles::Only(wanted) = node_set.requested_files {
        lemma_items_of_len(wanted@, kept);
    }
}

/// Distinct names find at most as many files as there are.
proof fn lemma_items_of_len(names: Seq<Seq<char>>, items: Seq<batch::DownloadItem>)
    requires
        names.no_duplicates(),
    ensures
        batch::items_of(names, items).len() <= items.len(),
{
    let paths = items.map_values(|item: batch::DownloadItem| item.path@);
    lemma_items_of_names(names, items);
    let found = batch::items_of(names, items);
    let found_paths = found.map_values(|item: batch::DownloadItem| item.path@);
    found_paths.unique_seq_to_set();
    assert(found_paths.to_set().subset_of(paths.to_set())) by {
        assert forall|path: Seq<char>| found_paths.to_set().contains(
            path,
        ) implies paths.to_set().contains(path) by {
            let j = choose|j: int| 0 <= j < found_paths.len() && found_paths[j] == path;
            let k = choose|k: int| 0 <= k < items.len() && items[k] == found[j];
            assert(paths[k] == path);
        }
    }
    paths.lemma_cardinality_of_set();
    vstd::set_lib::lemma_len_subset(found_paths.to_set(), paths.to_set());
}

/// The files found by distinct names are files of the list, with distinct paths among the names.
proof fn lemma_items_of_names(names: Seq<Seq<char>>, items: Seq<batch::DownloadItem>)
    requires
        names.no_duplicates(),
    ensures
        ({
            let found = batch::items_of(names, items);
            let paths = found.map_values(|item: batch::DownloadItem| item.path@);
            &&& paths.no_duplicates()
            &&& forall|j: int| 0 <= j < paths.len() ==> names.contains(#[trigger] paths[j])
            &&& forall|j: int| 0 <= j < found.len() ==> items.contains(#[trigger] found[j])
        }),
    decreases names.len(),
{
    if names.len() > 0 {
        let fewer = names.drop_last();
        lemma_items_of_names(fewer, items);
        let before = batch::items_of(fewer, items);
        let before_paths = before.map_values(|item: batch::DownloadItem| item.path@);
        let found = batch::items_of(names, items);
        let paths = found.map_values(|item: batch::DownloadItem| item.path@);
        lemma_item_with_path(items, names.last());
        assert forall|j: int| 0 <= j < paths.len() implies names.contains(#[trigger] paths[j]) by {
            if j < before.len() {
                assert(before_paths[j] == paths[j]);
                let k = choose|k: int| 0 <= k < fewer.len() && fewer[k] == paths[j];
                assert(names[k] == paths[j]);
            } else {
                assert(names[names.len() - 1] == paths[j]);
            }
        }
        assert forall|j: int| 0 <= j < found.len() implies items.contains(#[trigger] found[j]) by {
            if j < before.len() {
                assert(before[j] == found[j]);
            }
        }
        assert(paths.no_duplicates()) by {
            assert forall|i: int, j: int| 0 <= i < j < paths.len() implies paths[i] != paths[j] by {
                assert(before_paths[i] == paths[i]);
                if j < before.len() {
                    assert(before_paths[j] == paths[j]);
                } else {
                    let k = choose|k: int| 0 <= k < fewer.len() && fewer[k] == before_paths[i];
                    assert(names[k] == paths[i]);
                    assert(paths[j] == names.last());
                    assert(names[names.len() - 1] == names.last());
                }
            }
        }
    }
}

/// A file found by its path is a file of the list and has that path.
proof fn lemma_item_with_path(items: Seq<batch::DownloadItem>, path: Seq<char>)
    ensures
        match batch::item_with_path(items, path) {
            Some(item) => items.contains(item) && item.path@ == path,
            None => true,
        },
    decreases items.len(),
{
    if items.len() > 0 {
        if items.last().path@ == path {
            assert(items[items.len() - 1] == items.last());
        } else {
            lemma_item_with_path(items.drop_last(), path);
            if let Some(item) = batch::item_with_path(items.drop_last(), path) {
                let k = choose|k: int|
                    0 <= k < items.drop_last().len() && items.drop_last()[k] == item;
                assert(items[k] == item);
            }
        }
    }
}

/// Collects the files of fetched links into one batch.
pub fn collect_batch(node_sets: &Vec<FetchedNodeSet>) -> (collected: CollectedBatch)
    requires
        2 * found_files(node_sets@) + 3 < usize::MAX,
        forall|i: int| 0 <= i < node_sets@.len() ==> (#[trigger] node_sets@[i]).requested_files.wf(),
    ensures
        batch_of(node_sets@).wf(),
        duplicates::are_placed(collected.queued_items@, batch_of(node_sets@).queued),
        duplicates::are_placed(collected.completed_items@, batch_of(node_sets@).completed),
        collected.skipped_count == skipped_files(node_sets@),
        collected.partial_count == partial_files(node_sets@),
        ids::texts(collected.successful_submitted_urls@) == text::first_seen(
            batch::fetched_submissions(node_sets@),
        ),
{
    let mut resolver = BatchDuplicateResolver::new();
    let mut skipped_count: usize = 0;
    let mut partial_count: usize = 0;
    let successful = successful_submitted_urls(node_sets);
    let mut i: usize = 0;
    assert(node_sets@.take(0) =~= Seq::empty());
    while i < node_sets.len()
        invariant
            i <= node_sets.len(),
            2 * found_files(node_sets@) + 3 < usize::MAX,
            found_files(node_sets@.take(i as int)) <= found_files(node_sets@),
            forall|j: int| 0 <= j < node_sets@.len() ==> (#[trigger] node_sets@[j]).requested_files.wf(),
            resolver.wf(),
            resolver.batch() == batch_of(node_sets@.take(i as int)),
            resolver.batch().used.len() <= 2 * found_files(node_sets@.take(i as int)),
            resolver.batch().queued.len() <= found_files(node_sets@.take(i as int)),
            resolver.batch().completed.len() <= found_files(node_sets@.take(i as int)),
            skipped_count == skipped_files(node_sets@.take(i as int)),
            skipped_count <= found_files(node_sets@.take(i as int)),
            partial_count == partial_files(node_sets@.take(i as int)),
            partial_count <= found_files(node_sets@.take(i as int)),
        decreases node_sets.len() - i,
    {
        let node_set = &node_sets[i];
        proof {
            let longer = node_sets@.take(i as int + 1);
            assert(longer.drop_last() =~= node_sets@.take(i as int));
            assert(longer.last() == *node_set);
            lemma_found_files_prefix(node_sets@, i as int + 1);
            assert(node_sets@[i as int].requested_files.wf());
            lemma_downloads_len(*node_set, node_set.found());
            lemma_downloads_len(*node_set, node_set.found_complete());
        }
        let collected = collect_node_set(node_set);
        skipped_count = skipped_count + collected.skipped_count;
        partial_count = partial_count + collected.partial_count;
        resolver.extend_queued(collected.queued_items);
        resolver.extend_completed(collected.completed_items);
        i = i + 1;
    }
    assert(node_sets@.take(i as int) =~= node_sets@);
    let (queued_items, completed_items) = resolver.finish();
    CollectedBatch {
        queued_items,
        completed_items,
        skipped_count,
        partial_count,
        successful_submitted_urls: successful,
    }
}

/// The first links of a list have at most as many files as all of them.
proof fn lemma_found_files_prefix(node_sets: Seq<FetchedNodeSet>, count: int)
    requires
        0 <= count <= node_sets.len(),
    ensures
        found_files(node_sets.take(count)) <= found_files(node_sets),
    decreases node_sets.len() - count,
{
    if count < node_sets.len() {
        lemma_found_files_prefix(node_sets, count + 1);
        assert(node_sets.take(count + 1).drop_last() =~= node_sets.take(count));
    } else {
        assert(node_sets.take(count) =~= node_sets);
    }
}

/// The bytes of a list of downloads.
pub open spec fn bytes_of(downloads: Seq<QueuedDownload>) -> nat
    decreases downloads.len(),
{
    if downloads.len() == 0 {
        0
    } else {
        bytes_of(downloads.drop_last()) + downloads.last().item.size as nat
    }
}

/// The report that a download is queued.
pub open spec fn queued_file(download: QueuedDownload, accounting: FileAccounting) -> QueuedFile {
    QueuedFile {
        id: download.item.path,
        attempt_id: download.attempt_id,
        size: download.item.size,
        accounting,
        origin: FileOrigin {
            package_id: download.resolved.package_id,
            package_display_name: download.resolved.package_display_name,
            source_url: download.resolved.source_url,
            submitted_url: download.resolved.submitted_url,
        },
    }
}

/// The reports of queued files.
pub open spec fn queue_events(downloads: Seq<QueuedDownload>) -> Seq<DownloadEvent> {
    downloads.map_values(
        |download: QueuedDownload|
            DownloadEvent::FileQueued(queued_file(download, FileAccounting::CurrentRun)),
    )
}

/// The reports of files that were complete already: each is queued and at once complete.
pub open spec fn complete_events(downloads: Seq<QueuedDownload>) -> Seq<DownloadEvent>
    decreases downloads.len(),
{
    if downloads.len() == 0 {
        Seq::empty()
    } else {
        let last = downloads.last();
        complete_events(downloads.drop_last()).push(
            DownloadEvent::FileQueued(queued_file(last, FileAccounting::Preexisting)),
        ).push(
            DownloadEvent::FileComplete { id: last.item.path, attempt_id: last.attempt_id },
        )
    }
}

/// The reports of fetched links.
pub open spec fn resolved_events(urls: Seq<String>) -> Seq<DownloadEvent> {
    urls.map_values(|url: String| DownloadEvent::UrlResolved { url })
}

/// The bytes of a list of downloads; nothing where they do not fit.
fn sum_bytes(downloads: &Vec<QueuedDownload>, start: u64) -> (sum: Option<u64>)
    ensures
        match sum {
            Some(bytes) => bytes == start + bytes_of(downloads@),
            None => start + bytes_of(downloads@) > u64::MAX,
        },
{
    let mut sum: u64 = start;
    let mut i: usize = 0;
    assert(downloads@.take(0) =~= Seq::empty());
    while i < downloads.len()
        invariant
            i <= downloads.len(),
            sum == start + bytes_of(downloads@.take(i as int)),
        decreases downloads.len() - i,
    {
        proof {
            assert(downloads@.take(i as int + 1).drop_last() =~= downloads@.take(i as int));
            lemma_bytes_prefix(downloads@, i as int + 1);
        }
        match sum.checked_add(downloads[i].item.size) {
            Some(longer) => {
                sum = longer;
            },
            None => {
                return None;
            },
        }
        i = i + 1;
    }
    assert(downloads@.take(i as int) =~= downloads@);
    Some(sum)
}

/// The first downloads of a list have at most as many bytes as all of them.
proof fn lemma_bytes_prefix(downloads: Seq<QueuedDownload>, count: int)
    requires
        0 <= count <= downloads.len(),
    ensures
        bytes_of(downloads.take(count)) <= bytes_of(downloads),
    decreases downloads.len() - count,
{
    if count < downloads.len() {
        lemma_bytes_prefix(downloads, count + 1);
        assert(downloads.take(count + 1).drop_last() =~= downloads.take(count));
    } else {
        assert(downloads.take(count) =~= downloads);
    }
}

impl CollectedBatch {
    /// The bytes of all files of the batch.
    pub open spec fn bytes(&self) -> nat {
        bytes_of(self.queued_items@) + bytes_of(self.completed_items@)
    }

    /// The number of all files of the batch.
    pub open spec fn files(&self) -> nat {
        self.queued_items@.len() + self.completed_items@.len()
    }

    /// The bytes of all files of the batch.
    pub fn total_bytes(&self) -> (bytes: u64)
        requires
            self.bytes() <= u64::MAX,
        ensures
            bytes == self.bytes(),
    {
        match sum_bytes(&self.queued_items, 0) {
            Some(queued) => match sum_bytes(&self.completed_items, queued) {
                Some(bytes) => bytes,
                None => 0,
            },
            None => 0,
        }
    }

    /// The number of all files of the batch.
    pub fn file_total(&self) -> (files: usize)
        requires
            self.files() <= usize::MAX,
        ensures
            files == self.files(),
    {
        self.queued_items.len() + self.completed_items.len()
    }

    /// What the batch reports: its size, its queued files, its complete files and its links.
    pub fn events(&self) -> (events: Vec<DownloadEvent>)
        requires
            self.bytes() <= u64::MAX,
            self.files() <= usize::MAX,
        ensures
            events@ == seq![
                DownloadEvent::FilesCollected {
                    total: self.files() as usize,
                    skipped: self.skipped_count,
                    partial: self.partial_count,
                    total_bytes: self.bytes() as u64,
                },
            ] + queue_events(self.queued_items@) + complete_events(self.completed_items@)
                + resolved_events(self.successful_submitted_urls@),
    {
        let mut events: Vec<DownloadEvent> = Vec::new();
        events.push(
            DownloadEvent::FilesCollected {
                total: self.file_total(),
                skipped: self.skipped_count,
                partial: self.partial_count,
                total_bytes: self.total_bytes(),
            },
        );
        self.emit_file_queue_events(&mut events);
        self.emit_completed_file_events(&mut events);
        self.emit_url_resolved_events(&mut events);
        events
    }

    /// Reports the queued files.
    pub fn emit_file_queue_events(&self, events: &mut Vec<DownloadEvent>)
        ensures
            final(events)@ == old(events)@ + queue_events(self.queued_items@),
    {
        let mut i: usize = 0;
        assert(events@ =~= old(events)@ + queue_events(self.queued_items@.take(0)));
        while i < self.queued_items.len()
            invariant
                i <= self.queued_items.len(),
                events@ == old(events)@ + queue_events(self.queued_items@.take(i as int)),
            decreases self.queued_items.len() - i,
        {
            let ghost before = events@;
            events.push(
                DownloadEvent::FileQueued(
                    self.queued_items[i].queued_event(FileAccounting::CurrentRun),
                ),
            );
            proof {
                let items = self.queued_items@;
                assert(items.take(i as int + 1) =~= items.take(i as int).push(items[i as int]));
                assert(queue_events(items.take(i as int + 1)) =~= queue_events(
                    items.take(i as int),
                ).push(events@.last()));
                assert(events@ =~= old(events)@ + queue_events(items.take(i as int + 1)));
            }
            i = i + 1;
        }
        assert(self.queued_items@.take(i as int) =~= self.queued_items@);
    }

    /// Reports the complete files.
    pub fn emit_completed_file_events(&self, events: &mut Vec<DownloadEvent>)
        ensures
            final(events)@ == old(events)@ + complete_events(self.completed_items@),
    {
        let mut i: usize = 0;
        assert(self.completed_items@.take(0) =~= Seq::empty());
        assert(events@ =~= old(events)@ + complete_events(self.completed_items@.take(0)));
        while i < self.completed_items.len()
            invariant
                i <= self.completed_items.len(),
                events@ == old(events)@ + complete_events(self.completed_items@.take(i as int)),
            decreases self.completed_items.len() - i,
        {
            let item = &self.completed_items[i];
            events.push(DownloadEvent::FileQueued(item.queued_event(FileAccounting::Preexisting)));
            events.push(item.complete_event());
            proof {
                let items = self.completed_items@;
                let longer = items.take(i as int + 1);
                assert(longer.drop_last() =~= items.take(i as int));
                assert(longer.last() == *item);
                assert(events@ =~= old(events)@ + complete_events(longer));
            }
            i = i + 1;
        }
        assert(self.completed_items@.take(i as int) =~= self.completed_items@);
    }

    /// Reports the fetched links.
    pub fn emit_url_resolved_events(&self, events: &mut Vec<DownloadEvent>)
        ensures
            final(events)@ == old(events)@ + resolved_events(self.successful_submitted_urls@),
    {
        let urls = &self.successful_submitted_urls;
        let mut i: usize = 0;
        assert(events@ =~= old(events)@ + resolved_events(urls@.take(0)));
        while i < urls.len()
            invariant
                i <= urls.len(),
                *urls == self.successful_submitted_urls,
                events@ == old(events)@ + resolved_events(urls@.take(i as int)),
            decreases urls.len() - i,
        {
            events.push(DownloadEvent::UrlResolved { url: urls[i].clone() });
            assert(events@ =~= old(events)@ + resolved_events(urls@.take(i as int + 1)));
            i = i + 1;
        }
        assert(urls@.take(i as int) =~= urls@);
    }
}

/// The attempts that were asked for behind any of the links; a later link wins.
pub open spec fn requested_attempts(node_sets: Seq<FetchedNodeSet>) -> Map<Seq<char>, u64>
    decreases node_sets.len(),
{
    if node_sets.len() == 0 {
        Map::empty()
    } else {
        requested_attempts(node_sets.drop_last()).union_prefer_right(
            node_sets.last().requested_attempt_ids@,
        )
    }
}

/// The attempt that reports on the collection of links run under, and those of single files.
pub fn collection_progress(node_sets: &Vec<FetchedNodeSet>) -> (attempts: (u64, FileIdMap<u64>))
    ensures
        attempts.0 == if node_sets@.len() > 0 {
            node_sets@[0].submission_attempt_id
        } else {
            0
        },
        attempts.1@ == requested_attempts(node_sets@),
{
    let default_attempt_id: u64 = if node_sets.len() > 0 {
        node_sets[0].submission_attempt_id
    } else {
        0
    };
    let mut attempt_ids: FileIdMap<u64> = FileIdMap::new();
    let mut i: usize = 0;
    assert(node_sets@.take(0) =~= Seq::empty());
    while i < node_sets.len()
        invariant
            i <= node_sets.len(),
            attempt_ids@ == requested_attempts(node_sets@.take(i as int)),
        decreases node_sets.len() - i,
    {
        assert(node_sets@.take(i as int + 1).drop_last() =~= node_sets@.take(i as int));
        attempt_ids.extend(&node_sets[i].requested_attempt_ids);
        i = i + 1;
    }
    assert(node_sets@.take(i as int) =~= node_sets@);
    (default_attempt_id, attempt_ids)
}

/// How often each link has been submitted.
pub struct SubmissionAttempts {
    pub attempts: FileIdMap<u64>,
}

impl SubmissionAttempts {
    /// The number of the next submission of a link.
    pub open spec fn next(&self, url: Seq<char>) -> u64 {
        if self.attempts@.dom().contains(url) {
            self.attempts@[url]
        } else {
            0
        }
    }

    /// No link has been submitted.
    pub fn new() -> (attempts: SubmissionAttempts)
        ensures
            attempts.attempts@ == Map::<Seq<char>, u64>::empty(),
    {
        SubmissionAttempts { attempts: FileIdMap::new() }
    }

    /// Counts a submission and gives its number, starting at zero.
    pub fn next_submission_attempt(&mut self, url: &str) -> (attempt: u64)
        ensures
            attempt == old(self).next(url@),
            final(self).attempts@ == old(self).attempts@.insert(
                url@,
                if attempt < u64::MAX {
                    (attempt + 1) as u64
                } else {
                    attempt
                },
            ),
    {
        let current: u64 = match self.attempts.get(url) {
            Some(attempt) => *attempt,
            None => 0,
        };
        self.attempts.insert(url.to_owned(), current.saturating_add(1));
        current
    }
}

} // verus!
