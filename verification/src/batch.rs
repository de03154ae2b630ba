//! Files found behind a link, and how they join the queue.

use vstd::prelude::*;

use crate::events::{DownloadEvent, FileAccounting, FileOrigin, QueuedFile};
use crate::ids::{self, lists, FileIdMap, PackageId};
use crate::ordered::OrderedIds;
use crate::scheduler;
use crate::text::{self, same_text};

verus! {

/// A link that files are fetched from, with the link that the user gave.
#[derive(Debug, PartialEq, Eq)]
pub struct ResolvedUrl {
    pub source_url: String,
    pub submitted_url: String,
    pub package_id: Option<PackageId>,
    pub package_display_name: Option<String>,
}

/// A remote file with its output path.
#[derive(Debug, PartialEq, Eq)]
pub struct DownloadItem {
    pub path: String,
    /// Handle of the remote node.
    pub handle: String,
    pub size: u64,
    /// Seconds since the epoch.
    pub modified_at: Option<i64>,
    pub sparse_checksum: Option<[u8; 16]>,
    pub was_partial: bool,
}

/// A file that is ready to be downloaded.
#[derive(Debug, PartialEq, Eq)]
pub struct QueuedDownload {
    pub resolved: ResolvedUrl,
    pub item: DownloadItem,
    pub attempt_id: u64,
    pub trust_resume_state: bool,
}

/// The files found behind the links of one request.
#[derive(Debug, PartialEq, Eq)]
pub struct CollectedBatch {
    pub queued_items: Vec<QueuedDownload>,
    pub completed_items: Vec<QueuedDownload>,
    pub skipped_count: usize,
    pub partial_count: usize,
    pub successful_submitted_urls: Vec<String>,
}

impl ResolvedUrl {
    /// A link that is its own source.
    pub fn direct(url: &str) -> (resolved: ResolvedUrl)
        ensures
            resolved.source_url@ == url@,
            resolved.submitted_url@ == url@,
            resolved.package_id is None,
            resolved.package_display_name is None,
    {
        ResolvedUrl {
            source_url: url.to_owned(),
            submitted_url: url.to_owned(),
            package_id: None,
            package_display_name: None,
        }
    }

    /// A link found behind another one.
    pub fn from_source(source_url: String, submitted_url: &str) -> (resolved: ResolvedUrl)
        ensures
            resolved.source_url == source_url,
            resolved.submitted_url@ == submitted_url@,
            resolved.package_id is None,
            resolved.package_display_name is None,
    {
        ResolvedUrl {
            source_url,
            submitted_url: submitted_url.to_owned(),
            package_id: None,
            package_display_name: None,
        }
    }

    /// The origin that queued files of this link carry.
    pub fn file_origin(&self) -> (origin: FileOrigin)
        ensures
            origin == (FileOrigin {
                package_id: self.package_id,
                package_display_name: self.package_display_name,
                source_url: self.source_url,
                submitted_url: self.submitted_url,
            }),
    {
        FileOrigin {
            package_id: self.package_id,
            package_display_name: self.package_display_name.clone(),
            source_url: self.source_url.clone(),
            submitted_url: self.submitted_url.clone(),
        }
    }

    /// A copy of the link.
    pub fn copy(&self) -> (copy: ResolvedUrl)
        ensures
            copy == *self,
    {
        ResolvedUrl {
            source_url: self.source_url.clone(),
            submitted_url: self.submitted_url.clone(),
            package_id: self.package_id,
            package_display_name: self.package_display_name.clone(),
        }
    }
}

impl DownloadItem {
    /// A copy of the item.
    pub fn copy(&self) -> (copy: DownloadItem)
        ensures
            copy == *self,
    {
        DownloadItem {
            path: self.path.clone(),
            handle: self.handle.clone(),
            size: self.size,
            modified_at: self.modified_at,
            sparse_checksum: self.sparse_checksum,
            was_partial: self.was_partial,
        }
    }
}

impl QueuedDownload {
    /// The report that the file is queued.
    pub fn queued_event(&self, accounting: FileAccounting) -> (file: QueuedFile)
        ensures
            file.id == self.item.path,
            file.attempt_id == self.attempt_id,
            file.size == self.item.size,
            file.accounting == accounting,
            file.origin == (FileOrigin {
                package_id: self.resolved.package_id,
                package_display_name: self.resolved.package_display_name,
                source_url: self.resolved.source_url,
                submitted_url: self.resolved.submitted_url,
            }),
    {
        QueuedFile {
            id: self.item.path.clone(),
            attempt_id: self.attempt_id,
            size: self.item.size,
            accounting,
            origin: self.resolved.file_origin(),
        }
    }

    /// The report that the file is complete.
    pub fn complete_event(&self) -> (event: DownloadEvent)
        ensures
            event == (DownloadEvent::FileComplete {
                id: self.item.path,
                attempt_id: self.attempt_id,
            }),
    {
        DownloadEvent::FileComplete { id: self.item.path.clone(), attempt_id: self.attempt_id }
    }

    /// A copy of the download.
    pub fn copy(&self) -> (copy: QueuedDownload)
        ensures
            copy == *self,
    {
        QueuedDownload {
            resolved: self.resolved.copy(),
            item: self.item.copy(),
            attempt_id: self.attempt_id,
            trust_resume_state: self.trust_resume_state,
        }
    }
}

/// Which files of a link are wanted.
pub enum RequestedFiles {
    All,
    Only(OrderedIds),
}

/// The files that were found behind a link, with the package they make up.
pub struct CollectedFiles {
    pub to_download: Vec<DownloadItem>,
    pub completed: Vec<DownloadItem>,
    pub package_id: PackageId,
    pub package_display_name: String,
}

/// A resolved link with what was found behind it; nothing where it could not be fetched.
pub struct FetchedNodeSet {
    pub resolved: ResolvedUrl,
    pub files: Option<CollectedFiles>,
    pub requested_files: RequestedFiles,
    pub requested_attempt_ids: FileIdMap<u64>,
    pub submission_attempt_id: u64,
    pub emit_url_resolved: bool,
}

/// The wanted files of one link.
pub struct CollectedNodeSet {
    pub queued_items: Vec<QueuedDownload>,
    pub completed_items: Vec<QueuedDownload>,
    pub skipped_count: usize,
    pub partial_count: usize,
}

impl RequestedFiles {
    /// Whether a file is wanted.
    pub open spec fn wants(self, path: Seq<char>) -> bool {
        match self {
            RequestedFiles::All => true,
            RequestedFiles::Only(ids) => ids@.contains(path),
        }
    }

    /// Whether a file was asked for by name.
    pub open spec fn names(self, path: Seq<char>) -> bool {
        match self {
            RequestedFiles::All => false,
            RequestedFiles::Only(ids) => ids@.contains(path),
        }
    }

    /// Names that were asked for are distinct.
    pub open spec fn wf(self) -> bool {
        match self {
            RequestedFiles::All => true,
            RequestedFiles::Only(ids) => ids.wf(),
        }
    }

    /// Whether two requests want the same files in the same order.
    pub open spec fn same_as(self, other: RequestedFiles) -> bool {
        match (self, other) {
            (RequestedFiles::All, RequestedFiles::All) => true,
            (RequestedFiles::Only(a), RequestedFiles::Only(b)) => a@ == b@,
            _ => false,
        }
    }

    /// A copy of the request.
    pub fn copy(&self) -> (copy: RequestedFiles)
        requires
            self.wf(),
        ensures
            copy.wf(),
            copy.same_as(*self),
    {
        match self {
            RequestedFiles::All => RequestedFiles::All,
            RequestedFiles::Only(ids) => RequestedFiles::Only(ids.copy()),
        }
    }

    /// Whether a file is wanted.
    pub fn keeps(&self, path: &str) -> (kept: bool)
        ensures
            kept == self.wants(path@),
    {
        match self {
            RequestedFiles::All => true,
            RequestedFiles::Only(ids) => ids.contains(path),
        }
    }
}

/// The wanted files of a list, in order.
pub open spec fn wanted_items(
    items: Seq<DownloadItem>,
    requested: RequestedFiles,
) -> Seq<DownloadItem> {
    items.filter(|item: DownloadItem| requested.wants(item.path@))
}

/// How many files of a list are partly downloaded.
pub open spec fn partial_items(items: Seq<DownloadItem>) -> nat
    decreases items.len(),
{
    if items.len() == 0 {
        0
    } else {
        partial_items(items.drop_last()) + if items.last().was_partial {
            1nat
        } else {
            0
        }
    }
}

/// The last file of a list with a path.
pub open spec fn item_with_path(items: Seq<DownloadItem>, path: Seq<char>) -> Option<DownloadItem>
    decreases items.len(),
{
    if items.len() == 0 {
        None
    } else if items.last().path@ == path {
        Some(items.last())
    } else {
        item_with_path(items.drop_last(), path)
    }
}

/// For each of `ids`, the file with that path, where there is one.
pub open spec fn items_of(ids: Seq<Seq<char>>, items: Seq<DownloadItem>) -> Seq<DownloadItem>
    decreases ids.len(),
{
    if ids.len() == 0 {
        Seq::empty()
    } else {
        match item_with_path(items, ids.last()) {
            Some(item) => items_of(ids.drop_last(), items).push(item),
            None => items_of(ids.drop_last(), items),
        }
    }
}

/// The files of a list in the order in which they were asked for.
pub open spec fn items_by_request(
    items: Seq<DownloadItem>,
    requested: RequestedFiles,
) -> Seq<DownloadItem> {
    match requested {
        RequestedFiles::All => items,
        RequestedFiles::Only(ids) => items_of(ids@, items),
    }
}

/// The download of a file: it runs under the attempt that was asked for, or the first one, and
/// trusts its resume data where the file was asked for by name.
pub open spec fn download_of(
    item: DownloadItem,
    resolved: ResolvedUrl,
    requested: RequestedFiles,
    attempts: Map<Seq<char>, u64>,
) -> QueuedDownload {
    QueuedDownload {
        resolved,
        attempt_id: if attempts.dom().contains(item.path@) {
            attempts[item.path@]
        } else {
            0
        },
        trust_resume_state: requested.names(item.path@),
        item,
    }
}

/// The downloads of the files of a list.
pub open spec fn downloads_of(
    items: Seq<DownloadItem>,
    resolved: ResolvedUrl,
    requested: RequestedFiles,
    attempts: Map<Seq<char>, u64>,
) -> Seq<QueuedDownload> {
    items.map_values(|item: DownloadItem| download_of(item, resolved, requested, attempts))
}

/// The downloads of the files of a list.
pub fn visible_downloads(
    items: Vec<DownloadItem>,
    resolved: &ResolvedUrl,
    requested_files: &RequestedFiles,
    requested_attempt_ids: &FileIdMap<u64>,
) -> (downloads: Vec<QueuedDownload>)
    ensures
        downloads@ == downloads_of(
            items@,
            *resolved,
            *requested_files,
            requested_attempt_ids@,
        ),
{
    let mut downloads: Vec<QueuedDownload> = Vec::new();
    let mut i: usize = 0;
    while i < items.len()
        invariant
            i <= items.len(),
            downloads@.len() == i,
            forall|j: int|
                0 <= j < i ==> #[trigger] downloads@[j] == download_of(
                    items@[j],
                    *resolved,
                    *requested_files,
                    requested_attempt_ids@,
                ),
        decreases items.len() - i,
    {
        let item = &items[i];
        let attempt_id: u64 = match requested_attempt_ids.get(&item.path) {
            Some(attempt) => *attempt,
            None => 0,
        };
        let trust_resume_state = match requested_files {
            RequestedFiles::All => false,
            RequestedFiles::Only(ids) => ids.contains(&item.path),
        };
        downloads.push(
            QueuedDownload {
                resolved: resolved.copy(),
                item: item.copy(),
                attempt_id,
                trust_resume_state,
            },
        );
        i = i + 1;
    }
    assert(downloads@ =~= downloads_of(
        items@,
        *resolved,
        *requested_files,
        requested_attempt_ids@,
    ));
    downloads
}

/// The last file of a list with a path.
fn find_item(items: &Vec<DownloadItem>, path: &str) -> (found: Option<DownloadItem>)
    ensures
        found == item_with_path(items@, path@),
{
    let mut i: usize = items.len();
    assert(items@.take(i as int) =~= items@);
    while i > 0
        invariant
            i <= items.len(),
            item_with_path(items@, path@) == item_with_path(items@.take(i as int), path@),
        decreases i,
    {
        i = i - 1;
        assert(items@.take(i as int + 1).drop_last() =~= items@.take(i as int));
        if same_text(&items[i].path, path) {
            return Some(items[i].copy());
        }
    }
    None
}

/// The files of a list in the order in which they were asked for.
pub fn order_items_by_request(
    items: Vec<DownloadItem>,
    requested_files: &RequestedFiles,
) -> (ordered: Vec<DownloadItem>)
    ensures
        ordered@ == items_by_request(items@, *requested_files),
{
    match requested_files {
        RequestedFiles::All => items,
        RequestedFiles::Only(ids) => {
            let mut ordered: Vec<DownloadItem> = Vec::new();
            let mut i: usize = 0;
            assert(ids@.take(0) =~= Seq::empty());
            while i < ids.len()
                invariant
                    i <= ids@.len(),
                    ordered@ == items_of(ids@.take(i as int), items@),
                decreases ids@.len() - i,
            {
                if let Some(id) = ids.get(i) {
                    proof {
                        let longer = ids@.take(i as int + 1);
                        assert(longer.drop_last() =~= ids@.take(i as int));
                        assert(longer.last() == id@);
                    }
                    if let Some(item) = find_item(&items, id) {
                        ordered.push(item);
                    }
                }
                i = i + 1;
            }
            assert(ids@.take(i as int) =~= ids@);
            ordered
        },
    }
}

/// The wanted files of a list, in order.
fn keep_items(items: &Vec<DownloadItem>, requested_files: &RequestedFiles) -> (kept: Vec<
    DownloadItem,
>)
    ensures
        kept@ == wanted_items(items@, *requested_files),
        kept@.len() <= items@.len(),
{
    let ghost wanted = |item: DownloadItem| requested_files.wants(item.path@);
    let mut kept: Vec<DownloadItem> = Vec::new();
    let mut i: usize = 0;
    proof {
        reveal(Seq::filter);
        assert(items@.take(0).filter(wanted) =~= Seq::empty());
    }
    while i < items.len()
        invariant
            i <= items.len(),
            kept@.len() <= i,
            wanted == (|item: DownloadItem| requested_files.wants(item.path@)),
            kept@ == items@.take(i as int).filter(wanted),
        decreases items.len() - i,
    {
        let item = &items[i];
        proof {
            assert(items@.take(i as int + 1) =~= items@.take(i as int).push(*item));
            scheduler::lemma_filter_push(items@.take(i as int), *item, wanted);
        }
        if requested_files.keeps(&item.path) {
            kept.push(item.copy());
        }
        i = i + 1;
    }
    assert(items@.take(i as int) =~= items@);
    kept
}

/// How many files of a list are partly downloaded.
fn count_partial(items: &Vec<DownloadItem>) -> (count: usize)
    ensures
        count == partial_items(items@),
        count <= items@.len(),
{
    let mut count: usize = 0;
    let mut i: usize = 0;
    assert(items@.take(0) =~= Seq::empty());
    while i < items.len()
        invariant
            i <= items.len(),
            count <= i,
            count == partial_items(items@.take(i as int)),
        decreases items.len() - i,
    {
        assert(items@.take(i as int + 1).drop_last() =~= items@.take(i as int));
        if items[i].was_partial {
            count = count + 1;
        }
        i = i + 1;
    }
    assert(items@.take(i as int) =~= items@);
    count
}

impl FetchedNodeSet {
    /// The link with the package that its files make up.
    pub open spec fn named(self) -> ResolvedUrl {
        match self.files {
            Some(files) => ResolvedUrl {
                package_id: Some(files.package_id),
                package_display_name: Some(files.package_display_name),
                ..self.resolved
            },
            None => self.resolved,
        }
    }

    /// The downloads of the wanted files of a list that was found behind the link.
    pub open spec fn downloads(self, items: Seq<DownloadItem>) -> Seq<QueuedDownload> {
        downloads_of(
            items_by_request(wanted_items(items, self.requested_files), self.requested_files),
            self.named(),
            self.requested_files,
            self.requested_attempt_ids@,
        )
    }

    /// The files that were found and are to be downloaded.
    pub open spec fn found(self) -> Seq<DownloadItem> {
        match self.files {
            Some(files) => files.to_download@,
            None => Seq::empty(),
        }
    }

    /// The files that were found and are complete.
    pub open spec fn found_complete(self) -> Seq<DownloadItem> {
        match self.files {
            Some(files) => files.completed@,
            None => Seq::empty(),
        }
    }
}

/// Arranges the wanted files of one link.
pub fn collect_node_set(node_set: &FetchedNodeSet) -> (collected: CollectedNodeSet)
    ensures
        collected.queued_items@ == node_set.downloads(node_set.found()),
        collected.completed_items@ == node_set.downloads(node_set.found_complete()),
        collected.skipped_count == wanted_items(
            node_set.found_complete(),
            node_set.requested_files,
        ).len(),
        collected.partial_count == partial_items(
            wanted_items(node_set.found(), node_set.requested_files),
        ),
        collected.skipped_count <= node_set.found_complete().len(),
        collected.partial_count <= node_set.found().len(),
{
    match &node_set.files {
        None => {
            let none: Vec<DownloadItem> = Vec::new();
            let kept = keep_items(&none, &node_set.requested_files);
            proof {
                assert(none@ =~= Seq::empty());
                assert(kept@ =~= Seq::empty());
                if let RequestedFiles::Only(ids) = &node_set.requested_files {
                    lemma_items_of_nothing(ids@);
                }
                assert(node_set.downloads(Seq::empty()) =~= Seq::empty());
            }
            CollectedNodeSet {
                queued_items: Vec::new(),
                completed_items: Vec::new(),
                skipped_count: 0,
                partial_count: 0,
            }
        },
        Some(files) => {
            let mut resolved = node_set.resolved.copy();
            resolved.package_id = Some(files.package_id);
            resolved.package_display_name = Some(files.package_display_name.clone());
            let to_download = keep_items(&files.to_download, &node_set.requested_files);
            let completed = keep_items(&files.completed, &node_set.requested_files);
            let skipped_count: usize = completed.len();
            let partial_count: usize = count_partial(&to_download);
            let to_download = order_items_by_request(to_download, &node_set.requested_files);
            let completed = order_items_by_request(completed, &node_set.requested_files);
            let queued_items = visible_downloads(
                to_download,
                &resolved,
                &node_set.requested_files,
                &node_set.requested_attempt_ids,
            );
            let completed_items = visible_downloads(
                completed,
                &resolved,
                &node_set.requested_files,
                &node_set.requested_attempt_ids,
            );
            CollectedNodeSet { queued_items, completed_items, skipped_count, partial_count }
        },
    }
}

/// Nothing is found in an empty list.
proof fn lemma_items_of_nothing(ids: Seq<Seq<char>>)
    ensures
        items_of(ids, Seq::empty()) == Seq::<DownloadItem>::empty(),
    decreases ids.len(),
{
    if ids.len() > 0 {
        lemma_items_of_nothing(ids.drop_last());
    }
}

/// The links that the user gave and that were fetched for the first time.
pub open spec fn fetched_submissions(node_sets: Seq<FetchedNodeSet>) -> Seq<Seq<char>>
    decreases node_sets.len(),
{
    if node_sets.len() == 0 {
        Seq::empty()
    } else {
        let earlier = fetched_submissions(node_sets.drop_last());
        if node_sets.last().emit_url_resolved && node_sets.last().files is Some {
            earlier.push(node_sets.last().resolved.submitted_url@)
        } else {
            earlier
        }
    }
}

/// The links that the user gave and that were fetched, each once.
pub fn successful_submitted_urls(node_sets: &Vec<FetchedNodeSet>) -> (urls: Vec<String>)
    ensures
        ids::texts(urls@) == text::first_seen(fetched_submissions(node_sets@)),
{
    let mut urls: Vec<String> = Vec::new();
    let mut i: usize = 0;
    proof {
        assert(node_sets@.take(0) =~= Seq::empty());
        assert(ids::texts(urls@) =~= Seq::empty());
    }
    while i < node_sets.len()
        invariant
            i <= node_sets.len(),
            ids::texts(urls@) == text::first_seen(fetched_submissions(node_sets@.take(i as int))),
        decreases node_sets.len() - i,
    {
        let node_set = &node_sets[i];
        let url = &node_set.resolved.submitted_url;
        let ghost earlier = fetched_submissions(node_sets@.take(i as int));
        let ghost before = urls@;
        assert(node_sets@.take(i as int + 1).drop_last() =~= node_sets@.take(i as int));
        if node_set.emit_url_resolved && node_set.files.is_some() {
            proof {
                assert(earlier.push(url@).drop_last() =~= earlier);
                text::law_first_seen(earlier);
            }
            if !lists(&urls, url) {
                urls.push(url.clone());
                assert(ids::texts(urls@) =~= ids::texts(before).push(url@));
            }
        }
        i = i + 1;
    }
    assert(node_sets@.take(i as int) =~= node_sets@);
    urls
}

} // verus!
