//! What holds of the files that requests lead to.

use vstd::prelude::*;

use crate::batch::{self, DownloadItem, FetchedNodeSet, QueuedDownload, RequestedFiles};
use crate::collection;
use crate::duplicates::{self, BatchDestination, BatchModel, Placed};
use crate::events::{DownloadEvent, DownloadRequest, FileAccounting};
use crate::ids::{self, FileId, FileIdMap};
use crate::requests::{self, RequestModel};
use crate::scheduler;
use crate::text;
use crate::verification::{self, VerificationTarget};

verus! {

/// Where all files of a link are wanted, each file that was found becomes a download, once and in
/// the order in which they were found, of the package that the files make up.
pub proof fn law_every_found_file_is_downloaded(
    node_set: FetchedNodeSet,
    items: Seq<DownloadItem>,
    k: int,
)
    requires
        node_set.requested_files is All,
        0 <= k < items.len(),
    ensures
        node_set.downloads(items).len() == items.len(),
        ({
            let download = node_set.downloads(items)[k];
            &&& download.item == items[k]
            &&& download.resolved.source_url == node_set.resolved.source_url
            &&& download.resolved.submitted_url == node_set.resolved.submitted_url
            &&& node_set.files matches Some(files) ==> download.resolved.package_id == Some(
                files.package_id,
            ) && download.resolved.package_display_name == Some(files.package_display_name)
            &&& !download.trust_resume_state
            &&& node_set.requested_attempt_ids@.dom().contains(items[k].path@)
                ==> download.attempt_id == node_set.requested_attempt_ids@[items[k].path@]
            &&& !node_set.requested_attempt_ids@.dom().contains(items[k].path@)
                ==> download.attempt_id == 0
        }),
{
    lemma_all_wanted(items);
}

/// All files are wanted where no names are given.
proof fn lemma_all_wanted(items: Seq<DownloadItem>)
    ensures
        batch::wanted_items(items, RequestedFiles::All) == items,
    decreases items.len(),
{
    reveal(Seq::filter);
    let keep = |item: DownloadItem| RequestedFiles::All.wants(item.path@);
    if items.len() > 0 {
        lemma_all_wanted(items.drop_last());
        assert(items =~= items.drop_last().push(items.last()));
        scheduler::lemma_filter_push(items.drop_last(), items.last(), keep);
    } else {
        assert(items.filter(keep) =~= items);
    }
}

/// Where files are wanted by name, a name is downloaded exactly where it was asked for and found;
/// its resume data is trusted.
pub proof fn law_exactly_named_files_are_downloaded(
    node_set: FetchedNodeSet,
    items: Seq<DownloadItem>,
    path: Seq<char>,
)
    requires
        node_set.requested_files is Only,
    ensures
        (exists|k: int|
            0 <= k < node_set.downloads(items).len() && (#[trigger] node_set.downloads(
                items,
            )[k]).item.path@ == path) <==> (node_set.requested_files->Only_0@.contains(path)
            && exists|j: int| 0 <= j < items.len() && (#[trigger] items[j]).path@ == path),
        forall|k: int|
            0 <= k < node_set.downloads(items).len() ==> (#[trigger] node_set.downloads(
                items,
            )[k]).trust_resume_state && items.contains(node_set.downloads(items)[k].item),
{
    let names = node_set.requested_files->Only_0@;
    let keep = |item: DownloadItem| node_set.requested_files.wants(item.path@);
    let wanted = batch::wanted_items(items, node_set.requested_files);
    let found = batch::items_of(names, wanted);
    lemma_items_of_exact(names, wanted, path);
    let downloads = node_set.downloads(items);
    assert(downloads.len() == found.len());
    assert forall|k: int| 0 <= k < downloads.len() implies (
    #[trigger] downloads[k]).trust_resume_state && items.contains(downloads[k].item) by {
        lemma_items_of_exact(names, wanted, found[k].path@);
        assert(downloads[k].item == found[k]);
        assert(wanted.contains(found[k]));
        items.lemma_filter_contains_rev(keep, found[k]);
        assert(exists|m: int| 0 <= m < found.len() && (#[trigger] found[m]).path@ == found[k].path@);
    }
    if exists|k: int| 0 <= k < downloads.len() && (#[trigger] downloads[k]).item.path@ == path {
        let k = choose|k: int|
            0 <= k < downloads.len() && (#[trigger] downloads[k]).item.path@ == path;
        assert(found[k].path@ == path);
        assert(items.contains(downloads[k].item));
        let j = choose|j: int| 0 <= j < items.len() && items[j] == downloads[k].item;
        assert(items[j].path@ == path);
    }
    if names.contains(path) && exists|j: int|
        0 <= j < items.len() && (#[trigger] items[j]).path@ == path {
        let j = choose|j: int| 0 <= j < items.len() && (#[trigger] items[j]).path@ == path;
        items.lemma_filter_contains(keep, j);
        let m = choose|m: int| 0 <= m < wanted.len() && wanted[m] == items[j];
        assert(wanted[m].path@ == path);
        let k = choose|k: int| 0 <= k < found.len() && (#[trigger] found[k]).path@ == path;
        assert(downloads[k].item.path@ == path);
    }
}

/// What is found by names: exactly the names that there are files of.
proof fn lemma_items_of_exact(names: Seq<Seq<char>>, items: Seq<DownloadItem>, path: Seq<char>)
    ensures
        (exists|k: int|
            0 <= k < batch::items_of(names, items).len() && (#[trigger] batch::items_of(
                names,
                items,
            )[k]).path@ == path) <==> (names.contains(path) && exists|j: int|
            0 <= j < items.len() && (#[trigger] items[j]).path@ == path),
        forall|k: int|
            0 <= k < batch::items_of(names, items).len() ==> items.contains(
                #[trigger] batch::items_of(names, items)[k],
            ),
    decreases names.len(),
{
    let found = batch::items_of(names, items);
    if names.len() == 0 {
    } else {
        let earlier = batch::items_of(names.drop_last(), items);
        lemma_items_of_exact(names.drop_last(), items, path);
        lemma_item_with_path_exact(items, names.last());
        assert forall|k: int| 0 <= k < found.len() implies items.contains(#[trigger] found[k]) by {
            if k < earlier.len() {
                assert(found[k] == earlier[k]);
            }
        }
        if exists|k: int| 0 <= k < found.len() && (#[trigger] found[k]).path@ == path {
            let k = choose|k: int| 0 <= k < found.len() && (#[trigger] found[k]).path@ == path;
            if k < earlier.len() {
                assert(earlier[k].path@ == path);
                let j = choose|j: int|
                    0 <= j < names.drop_last().len() && names.drop_last()[j] == path;
                assert(names[j] == path);
            } else {
                assert(names[names.len() - 1] == path);
                assert(items.contains(found[k]));
                let j = choose|j: int| 0 <= j < items.len() && items[j] == found[k];
                assert(items[j].path@ == path);
            }
        }
        if names.contains(path) && exists|j: int|
            0 <= j < items.len() && (#[trigger] items[j]).path@ == path {
            if names.drop_last().contains(path) {
                let k = choose|k: int|
                    0 <= k < earlier.len() && (#[trigger] earlier[k]).path@ == path;
                assert(found[k].path@ == path);
            } else {
                let j = choose|j: int| 0 <= j < names.len() && names[j] == path;
                if j < names.len() - 1 {
                    assert(names.drop_last()[j] == path);
                }
                assert(names.last() == path);
                assert(found[earlier.len() as int].path@ == path);
            }
        }
    }
}

/// A file is found by its path exactly where there is one.
proof fn lemma_item_with_path_exact(items: Seq<DownloadItem>, path: Seq<char>)
    ensures
        match batch::item_with_path(items, path) {
            Some(item) => items.contains(item) && item.path@ == path,
            None => forall|j: int| 0 <= j < items.len() ==> (#[trigger] items[j]).path@ != path,
        },
    decreases items.len(),
{
    if items.len() > 0 {
        let shorter = items.drop_last();
        lemma_item_with_path_exact(shorter, path);
        assert(items[items.len() - 1] == items.last());
        match batch::item_with_path(shorter, path) {
            Some(item) => {
                let j = choose|j: int| 0 <= j < shorter.len() && shorter[j] == item;
                assert(items[j] == item);
            },
            None => {
                assert forall|j: int| 0 <= j < items.len() && items.last().path@ != path implies (
                #[trigger] items[j]).path@ != path by {
                    if j < shorter.len() {
                        assert(shorter[j] == items[j]);
                    }
                }
            },
        }
    }
}

/// Files are downloaded in the order in which they were asked for: the names that are found among
/// two lists of names are those of the first and then those of the second.
pub proof fn law_named_files_come_in_the_order_of_the_request(
    first: Seq<Seq<char>>,
    second: Seq<Seq<char>>,
    items: Seq<DownloadItem>,
)
    ensures
        batch::items_of(first + second, items) == batch::items_of(first, items) + batch::items_of(
            second,
            items,
        ),
    decreases second.len(),
{
    if second.len() == 0 {
        assert(first + second =~= first);
        assert(batch::items_of(first, items) + batch::items_of(second, items) =~= batch::items_of(
            first,
            items,
        ));
    } else {
        law_named_files_come_in_the_order_of_the_request(first, second.drop_last(), items);
        assert((first + second).drop_last() =~= first + second.drop_last());
        assert((first + second).last() == second.last());
        assert(batch::items_of(first + second, items) =~= batch::items_of(first, items)
            + batch::items_of(second, items));
    }
}

/// Whether files have packages and paths of their own that a batch does not hold yet.
pub open spec fn are_new(batch: BatchModel, items: Seq<QueuedDownload>) -> bool {
    &&& forall|i: int|
        0 <= i < items.len() ==> !batch.index.dom().contains(
            (
                duplicates::package_of(#[trigger] items[i]),
                items[i].item.path@,
            ),
        )
    &&& forall|i: int, j: int|
        0 <= i < j < items.len() ==> duplicates::package_of(#[trigger] items[i])
            != duplicates::package_of(#[trigger] items[j]) || items[i].item.path@
            != items[j].item.path@
}

/// Files that have packages and paths of their own all join a batch, in their order and under
/// their own paths; the other list stays as it is.
pub proof fn law_files_of_their_own_are_all_kept(
    batch: BatchModel,
    items: Seq<QueuedDownload>,
    destination: BatchDestination,
)
    requires
        are_new(batch, items),
    ensures
        ({
            let after = batch.all_inserted(items, destination);
            &&& after.list(destination) == batch.list(destination) + items.map_values(
                |item: QueuedDownload| Placed { download: item, path: item.item.path@ },
            )
            &&& destination == BatchDestination::Queued ==> after.completed == batch.completed
            &&& destination == BatchDestination::Completed ==> after.queued == batch.queued
        }),
{
    lemma_own_files(batch, items, destination);
}

/// Files that have packages and paths of their own join a batch one by one.
proof fn lemma_own_files(
    batch: BatchModel,
    items: Seq<QueuedDownload>,
    destination: BatchDestination,
)
    requires
        are_new(batch, items),
    ensures
        ({
            let after = batch.all_inserted(items, destination);
            &&& after.list(destination) == batch.list(destination) + items.map_values(
                |item: QueuedDownload| Placed { download: item, path: item.item.path@ },
            )
            &&& destination == BatchDestination::Queued ==> after.completed == batch.completed
            &&& destination == BatchDestination::Completed ==> after.queued == batch.queued
            &&& forall|key: (Seq<char>, Seq<char>)| #[trigger]
                after.index.dom().contains(key) ==> batch.index.dom().contains(key)
                    || exists|i: int|
                    0 <= i < items.len() && key == (
                        duplicates::package_of(#[trigger] items[i]),
                        items[i].item.path@,
                    )
        }),
    decreases items.len(),
{
    let place = |item: QueuedDownload| Placed { download: item, path: item.item.path@ };
    if items.len() == 0 {
        assert(batch.list(destination) + items.map_values(place) =~= batch.list(destination));
    } else {
        let shorter = items.drop_last();
        let last = items.last();
        assert forall|i: int| 0 <= i < shorter.len() implies !batch.index.dom().contains(
            (duplicates::package_of(#[trigger] shorter[i]), shorter[i].item.path@),
        ) by {
            assert(shorter[i] == items[i]);
        }
        assert forall|i: int, j: int| 0 <= i < j < shorter.len() implies duplicates::package_of(
            #[trigger] shorter[i],
        ) != duplicates::package_of(#[trigger] shorter[j]) || shorter[i].item.path@
            != shorter[j].item.path@ by {
            assert(shorter[i] == items[i] && shorter[j] == items[j]);
        }
        lemma_own_files(batch, shorter, destination);
        let before = batch.all_inserted(shorter, destination);
        let key = (duplicates::package_of(last), last.item.path@);
        assert(last == items[items.len() - 1]);
        if before.index.dom().contains(key) {
            let i = choose|i: int|
                0 <= i < shorter.len() && key == (
                    duplicates::package_of(#[trigger] shorter[i]),
                    shorter[i].item.path@,
                );
            assert(shorter[i] == items[i]);
            assert(false);
        }
        let after = batch.all_inserted(items, destination);
        assert(after.list(destination) =~= batch.list(destination) + items.map_values(place));
        assert forall|other: (Seq<char>, Seq<char>)| #[trigger]
            after.index.dom().contains(other) implies batch.index.dom().contains(other)
            || exists|i: int|
            0 <= i < items.len() && other == (
                duplicates::package_of(#[trigger] items[i]),
                items[i].item.path@,
            ) by {
            if other == key {
                assert(other == (
                    duplicates::package_of(items[items.len() - 1]),
                    items[items.len() - 1].item.path@,
                ));
            } else if !batch.index.dom().contains(other) {
                assert(before.index.dom().contains(other));
                let i = choose|i: int|
                    0 <= i < shorter.len() && other == (
                        duplicates::package_of(#[trigger] shorter[i]),
                        shorter[i].item.path@,
                    );
                assert(shorter[i] == items[i]);
            }
        }
    }
}

/// Files join a batch one after the other: two lists in turn do what they do together.
pub proof fn law_files_join_a_batch_in_turn(
    batch: BatchModel,
    first: Seq<QueuedDownload>,
    second: Seq<QueuedDownload>,
    destination: BatchDestination,
)
    ensures
        batch.all_inserted(first + second, destination) == batch.all_inserted(
            first,
            destination,
        ).all_inserted(second, destination),
    decreases second.len(),
{
    if second.len() == 0 {
        assert(first + second =~= first);
    } else {
        law_files_join_a_batch_in_turn(batch, first, second.drop_last(), destination);
        assert((first + second).drop_last() =~= first + second.drop_last());
        assert((first + second).last() == second.last());
    }
}

/// A batch of one link holds every file that was found behind it, where all files are wanted and no
/// two share a path; what is to be downloaded is queued and what is there is complete.
pub proof fn law_a_link_gives_all_its_files(node_set: FetchedNodeSet)
    requires
        node_set.requested_files is All,
        are_new(
            BatchModel::empty(),
            node_set.downloads(node_set.found()) + node_set.downloads(node_set.found_complete()),
        ),
    ensures
        ({
            let batch = collection::batch_of(seq![node_set]);
            &&& batch.queued.len() == node_set.found().len()
            &&& batch.completed.len() == node_set.found_complete().len()
            &&& forall|k: int|
                0 <= k < node_set.found().len() ==> (#[trigger] batch.queued[k]).download.item
                    == node_set.found()[k] && batch.queued[k].path == node_set.found()[k].path@
            &&& forall|k: int|
                0 <= k < node_set.found_complete().len() ==> (
                #[trigger] batch.completed[k]).download.item == node_set.found_complete()[k]
                    && batch.completed[k].path == node_set.found_complete()[k].path@
        }),
{
    let queued = node_set.downloads(node_set.found());
    let completed = node_set.downloads(node_set.found_complete());
    let both = queued + completed;
    lemma_all_wanted(node_set.found());
    lemma_all_wanted(node_set.found_complete());
    reveal_with_fuel(collection::batch_of, 2);
    assert(seq![node_set].drop_last() =~= Seq::empty());
    assert(seq![node_set].last() == node_set);
    let empty = BatchModel::empty();
    assert forall|i: int| 0 <= i < queued.len() implies !empty.index.dom().contains(
        (duplicates::package_of(#[trigger] queued[i]), queued[i].item.path@),
    ) by {}
    assert forall|i: int, j: int| 0 <= i < j < queued.len() implies duplicates::package_of(
        #[trigger] queued[i],
    ) != duplicates::package_of(#[trigger] queued[j]) || queued[i].item.path@
        != queued[j].item.path@ by {
        assert(both[i] == queued[i] && both[j] == queued[j]);
    }
    lemma_own_files(empty, queued, BatchDestination::Queued);
    let middle = empty.all_inserted(queued, BatchDestination::Queued);
    assert forall|i: int| 0 <= i < completed.len() implies !middle.index.dom().contains(
        (duplicates::package_of(#[trigger] completed[i]), completed[i].item.path@),
    ) by {
        let key = (duplicates::package_of(completed[i]), completed[i].item.path@);
        if middle.index.dom().contains(key) {
            let j = choose|j: int|
                0 <= j < queued.len() && key == (
                    duplicates::package_of(#[trigger] queued[j]),
                    queued[j].item.path@,
                );
            assert(both[j] == queued[j]);
            assert(both[queued.len() + i] == completed[i]);
        }
    }
    assert forall|i: int, j: int| 0 <= i < j < completed.len() implies duplicates::package_of(
        #[trigger] completed[i],
    ) != duplicates::package_of(#[trigger] completed[j]) || completed[i].item.path@
        != completed[j].item.path@ by {
        assert(both[queued.len() + i] == completed[i] && both[queued.len() + j] == completed[j]);
    }
    lemma_own_files(middle, completed, BatchDestination::Completed);
    let batch = collection::batch_of(seq![node_set]);
    let place = |item: QueuedDownload| Placed { download: item, path: item.item.path@ };
    assert(batch.queued =~= queued.map_values(place));
    assert(batch.completed =~= completed.map_values(place));
}

/// The bytes and the reports of downloads add up over two lists of them; one download has the bytes
/// of its file.
pub proof fn law_bytes_of_downloads_add_up(
    first: Seq<QueuedDownload>,
    second: Seq<QueuedDownload>,
    one: QueuedDownload,
)
    ensures
        collection::bytes_of(first + second) == collection::bytes_of(first) + collection::bytes_of(
            second,
        ),
        collection::bytes_of(seq![one]) == one.item.size,
        collection::bytes_of(Seq::empty()) == 0,
    decreases second.len(),
{
    reveal_with_fuel(collection::bytes_of, 2);
    assert(seq![one].drop_last() =~= Seq::empty());
    if second.len() == 0 {
        assert(first + second =~= first);
    } else {
        law_bytes_of_downloads_add_up(first, second.drop_last(), one);
        assert((first + second).drop_last() =~= first + second.drop_last());
        assert((first + second).last() == second.last());
    }
}

/// Every file of a batch is reported under its own path, size and attempt: a queued file as part of
/// this run, and a complete one as there before and at once complete.
pub proof fn law_every_file_is_reported(downloads: Seq<QueuedDownload>, k: int)
    requires
        0 <= k < downloads.len(),
    ensures
        collection::queue_events(downloads).len() == downloads.len(),
        collection::queue_events(downloads)[k] matches DownloadEvent::FileQueued(file) && {
            &&& file.id == downloads[k].item.path
            &&& file.size == downloads[k].item.size
            &&& file.attempt_id == downloads[k].attempt_id
            &&& file.accounting == FileAccounting::CurrentRun
            &&& file.origin.source_url == downloads[k].resolved.source_url
            &&& file.origin.submitted_url == downloads[k].resolved.submitted_url
            &&& file.origin.package_id == downloads[k].resolved.package_id
        },
        collection::complete_events(downloads).len() == 2 * downloads.len(),
        collection::complete_events(downloads)[2 * k] matches DownloadEvent::FileQueued(file) && {
            &&& file.id == downloads[k].item.path
            &&& file.size == downloads[k].item.size
            &&& file.attempt_id == downloads[k].attempt_id
            &&& file.accounting == FileAccounting::Preexisting
        },
        collection::complete_events(downloads)[2 * k + 1] == (DownloadEvent::FileComplete {
            id: downloads[k].item.path,
            attempt_id: downloads[k].attempt_id,
        }),
    decreases downloads.len(),
{
    let shorter = downloads.drop_last();
    lemma_complete_events_len(shorter);
    if k < shorter.len() {
        law_every_file_is_reported(shorter, k);
        assert(shorter[k] == downloads[k]);
    } else {
        assert(downloads[k] == downloads.last());
    }
}

/// Two reports for each complete file.
proof fn lemma_complete_events_len(downloads: Seq<QueuedDownload>)
    ensures
        collection::complete_events(downloads).len() == 2 * downloads.len(),
    decreases downloads.len(),
{
    if downloads.len() > 0 {
        lemma_complete_events_len(downloads.drop_last());
    }
}

/// A link is reported as fetched exactly where it was submitted and could be fetched.
pub proof fn law_fetched_submissions_are_reported(
    earlier: Seq<FetchedNodeSet>,
    later: Seq<FetchedNodeSet>,
    one: FetchedNodeSet,
)
    ensures
        batch::fetched_submissions(earlier + later) == batch::fetched_submissions(earlier)
            + batch::fetched_submissions(later),
        batch::fetched_submissions(seq![one]) == (if one.emit_url_resolved && one.files is Some {
            seq![one.resolved.submitted_url@]
        } else {
            Seq::empty()
        }),
    decreases later.len(),
{
    reveal_with_fuel(batch::fetched_submissions, 2);
    assert(seq![one].drop_last() =~= Seq::empty());
    assert(Seq::<Seq<char>>::empty().push(one.resolved.submitted_url@) =~= seq![
        one.resolved.submitted_url@,
    ]);
    if later.len() == 0 {
        assert(earlier + later =~= earlier);
        assert(batch::fetched_submissions(earlier) + batch::fetched_submissions(later)
            =~= batch::fetched_submissions(earlier));
    } else {
        law_fetched_submissions_are_reported(earlier, later.drop_last(), one);
        assert((earlier + later).drop_last() =~= earlier + later.drop_last());
        assert((earlier + later).last() == later.last());
        assert(batch::fetched_submissions(earlier + later) =~= batch::fetched_submissions(earlier)
            + batch::fetched_submissions(later));
    }
}

/// Partly downloaded files are counted once each, and wanted files that were complete likewise.
pub proof fn law_partial_and_complete_files_are_counted(
    items: Seq<DownloadItem>,
    item: DownloadItem,
    node_sets: Seq<FetchedNodeSet>,
    node_set: FetchedNodeSet,
)
    ensures
        batch::partial_items(Seq::empty()) == 0,
        batch::partial_items(items.push(item)) == batch::partial_items(items) + (
        if item.was_partial {
            1int
        } else {
            0int
        }),
        collection::skipped_files(Seq::empty()) == 0,
        collection::partial_files(Seq::empty()) == 0,
        collection::skipped_files(node_sets.push(node_set)) == collection::skipped_files(node_sets)
            + node_set.found_complete().filter(
            |found: DownloadItem| node_set.requested_files.wants(found.path@),
        ).len(),
        collection::partial_files(node_sets.push(node_set)) == collection::partial_files(node_sets)
            + batch::partial_items(
            node_set.found().filter(
                |found: DownloadItem| node_set.requested_files.wants(found.path@),
            ),
        ),
{
    assert(items.push(item).drop_last() =~= items);
    assert(node_sets.push(node_set).drop_last() =~= node_sets);
}

/// Whatever was wanted of a link before, a submission wants all its files and has it reported; no
/// other link is touched.
pub proof fn law_submissions_want_everything(
    before: RequestModel,
    url: String,
    tried: FileIdMap<u64>,
    other: int,
)
    requires
        before.links.len() == before.sources.len(),
        before.links.no_duplicates(),
    ensures
        ({
            let after = before.after(DownloadRequest::SubmitUrl { url, attempt_ids: tried });
            let at = after.links.index_of(url@);
            &&& after.links.contains(url@)
            &&& after.sources[at].all
            &&& after.sources[at].reported
            &&& after.sources[at].attempts == tried@
            &&& 0 <= other < before.links.len() ==> after.links[other] == before.links[other]
            &&& 0 <= other < before.links.len() && before.links[other] != url@
                ==> after.sources[other] == before.sources[other]
            &&& after.links.len() == before.links.len() + if before.links.contains(url@) {
                0int
            } else {
                1int
            }
        }),
{
    let after = before.after(DownloadRequest::SubmitUrl { url, attempt_ids: tried });
    if before.links.contains(url@) {
        let at = before.links.index_of(url@);
        assert(before.links[at] == url@);
    } else {
        lemma_link_index(before, url@);
        assert(after.links[before.links.len() as int] == url@);
    }
}

/// A link that is added is found behind the others.
proof fn lemma_link_index(before: RequestModel, link: Seq<char>)
    requires
        before.links.no_duplicates(),
        !before.links.contains(link),
    ensures
        before.links.push(link).index_of(link) == before.links.len(),
{
    let longer = before.links.push(link);
    assert(longer[before.links.len() as int] == link);
    let at = longer.index_of(link);
    assert(longer[at] == link);
    if at < before.links.len() {
        assert(before.links[at] == link);
    }
}

/// Files that are resumed are wanted besides those that were, each once, under the attempts that
/// the request names.
pub proof fn law_resumed_files_are_wanted(
    before: RequestModel,
    source_url: String,
    file_ids: Vec<FileId>,
    attempt_ids: FileIdMap<u64>,
    file: Seq<char>,
)
    requires
        before.links.len() == before.sources.len(),
        before.links.no_duplicates(),
    ensures
        ({
            let after = before.after(
                DownloadRequest::ResumeFileIds { source_url, file_ids, attempt_ids },
            );
            let at = after.links.index_of(source_url@);
            let known = before.links.contains(source_url@);
            let source = after.sources[at];
            &&& after.links.contains(source_url@)
            &&& !known ==> !source.all && !source.reported
            &&& known ==> source.all == before.sources[at].all && source.reported
                == before.sources[at].reported
            &&& !source.all ==> source.wanted.no_duplicates()
            &&& !source.all ==> (source.wanted.contains(file) <==> ids::texts(
                file_ids@,
            ).contains(file) || (known && before.sources[at].wanted.contains(file)))
            &&& attempt_ids@.dom().contains(file) ==> source.attempts.dom().contains(file)
                && source.attempts[file] == attempt_ids@[file]
        }),
{
    let after = before.after(DownloadRequest::ResumeFileIds { source_url, file_ids, attempt_ids });
    let texts = ids::texts(file_ids@);
    if before.links.contains(source_url@) {
        let at = before.links.index_of(source_url@);
        assert(before.links[at] == source_url@);
        let known = before.sources[at];
        let joined = known.wanted + texts;
        text::law_first_seen(joined);
        assert(joined.contains(file) <==> known.wanted.contains(file) || texts.contains(file)) by {
            if known.wanted.contains(file) {
                let k = choose|k: int| 0 <= k < known.wanted.len() && known.wanted[k] == file;
                assert(joined[k] == file);
            }
            if texts.contains(file) {
                let k = choose|k: int| 0 <= k < texts.len() && texts[k] == file;
                assert(joined[known.wanted.len() + k] == file);
            }
            if joined.contains(file) {
                let k = choose|k: int| 0 <= k < joined.len() && joined[k] == file;
                if k < known.wanted.len() {
                    assert(known.wanted[k] == file);
                } else {
                    assert(texts[k - known.wanted.len()] == file);
                }
            }
        }
    } else {
        lemma_link_index(before, source_url@);
        text::law_first_seen(texts);
        assert(after.links[before.links.len() as int] == source_url@);
    }
}

/// Requests are merged in turn.
pub proof fn law_requests_are_merged_in_turn(
    before: RequestModel,
    first: Seq<DownloadRequest>,
    second: Seq<DownloadRequest>,
)
    ensures
        before.after_all(first + second) == before.after_all(first).after_all(second),
    decreases second.len(),
{
    if second.len() == 0 {
        assert(first + second =~= first);
    } else {
        law_requests_are_merged_in_turn(before, first, second.drop_last());
        assert((first + second).drop_last() =~= first + second.drop_last());
        assert((first + second).last() == second.last());
    }
}

/// A tilde at the beginning stands for the home directory; every other path stays as it is.
pub proof fn law_tildes_stand_for_the_home_directory(rest: Seq<char>, home: Seq<char>)
    ensures
        requests::expanded(seq!['~'] + rest, home) == home + rest,
        rest.len() == 0 || rest[0] != '~' ==> requests::expanded(rest, home) == rest,
{
    assert((seq!['~'] + rest).skip(1) =~= rest);
}

/// Of the files that were found, those are verified that were asked for, each path once; a path
/// that was asked for and found is verified.
pub proof fn law_requested_files_are_verified(
    items: Seq<DownloadItem>,
    requested: Set<Seq<char>>,
    path: Seq<char>,
)
    ensures
        (exists|k: int|
            0 <= k < verification::matched_items(items, requested).len() && (
            #[trigger] verification::matched_items(items, requested)[k]).path@ == path) <==> (
        requested.contains(path) && exists|j: int|
            0 <= j < items.len() && (#[trigger] items[j]).path@ == path),
        forall|a: int, b: int|
            0 <= a < b < verification::matched_items(items, requested).len() ==> (
            #[trigger] verification::matched_items(items, requested)[a]).path@ != (
            #[trigger] verification::matched_items(items, requested)[b]).path@,
    decreases items.len(),
{
    let matched = verification::matched_items(items, requested);
    if items.len() > 0 {
        let shorter = items.drop_last();
        let earlier = verification::matched_items(shorter, requested);
        let last = items.last();
        law_requested_files_are_verified(shorter, requested, path);
        law_requested_files_are_verified(shorter, requested, last.path@);
        assert(items[items.len() - 1] == last);
        assert(verification::item_paths(shorter).contains(last.path@) <==> exists|j: int|
            0 <= j < shorter.len() && (#[trigger] shorter[j]).path@ == last.path@);
        if exists|k: int| 0 <= k < matched.len() && (#[trigger] matched[k]).path@ == path {
            let k = choose|k: int| 0 <= k < matched.len() && (#[trigger] matched[k]).path@ == path;
            if k < earlier.len() {
                assert(earlier[k].path@ == path);
                let j = choose|j: int|
                    0 <= j < shorter.len() && (#[trigger] shorter[j]).path@ == path;
                assert(items[j].path@ == path);
            } else {
                assert(items[items.len() - 1].path@ == path);
            }
        }
        if requested.contains(path) && exists|j: int|
            0 <= j < items.len() && (#[trigger] items[j]).path@ == path {
            let j = choose|j: int| 0 <= j < items.len() && (#[trigger] items[j]).path@ == path;
            if j < shorter.len() {
                assert(shorter[j].path@ == path);
                let k = choose|k: int|
                    0 <= k < earlier.len() && (#[trigger] earlier[k]).path@ == path;
                assert(matched[k].path@ == path);
            } else if verification::item_paths(shorter).contains(last.path@) {
                let k = choose|k: int|
                    0 <= k < earlier.len() && (#[trigger] earlier[k]).path@ == path;
                assert(matched[k].path@ == path);
            } else {
                assert(matched[earlier.len() as int].path@ == path);
            }
        }
        assert forall|a: int, b: int| 0 <= a < b < matched.len() implies (
        #[trigger] matched[a]).path@ != (#[trigger] matched[b]).path@ by {
            assert(matched[a] == earlier[a]);
            if b < earlier.len() {
                assert(matched[b] == earlier[b]);
            } else {
                if earlier[a].path@ == last.path@ {
                    assert(exists|k: int|
                        0 <= k < earlier.len() && (#[trigger] earlier[k]).path@ == last.path@);
                    assert(false);
                }
            }
        }
    }
}

/// Complete files are verified among the complete ones, and resume data also among the files that
/// are still to be downloaded.
pub proof fn law_verification_looks_where_the_files_are(
    to_download: Seq<DownloadItem>,
    completed: Seq<DownloadItem>,
    item: DownloadItem,
)
    ensures
        verification::candidates(VerificationTarget::Completed, to_download, completed).contains(
            item,
        ) <==> completed.contains(item),
        verification::candidates(VerificationTarget::Resume, to_download, completed).contains(item)
            <==> completed.contains(item) || to_download.contains(item),
{
    let both = to_download + completed;
    if to_download.contains(item) {
        let k = choose|k: int| 0 <= k < to_download.len() && to_download[k] == item;
        assert(both[k] == item);
    }
    if completed.contains(item) {
        let k = choose|k: int| 0 <= k < completed.len() && completed[k] == item;
        assert(both[to_download.len() + k] == item);
    }
    if both.contains(item) {
        let k = choose|k: int| 0 <= k < both.len() && both[k] == item;
        if k < to_download.len() {
            assert(to_download[k] == item);
        } else {
            assert(completed[k - to_download.len()] == item);
        }
    }
}

/// Every file that was to be verified and not found is reported, each with an event of its own that
/// names it.
pub proof fn law_missing_files_are_reported(
    events: Seq<DownloadEvent>,
    missing: Seq<Seq<char>>,
    source_url: Seq<char>,
    target: VerificationTarget,
    matched: usize,
    operations: Map<Seq<char>, u64>,
    k: int,
)
    requires
        verification::closes(events, missing, source_url, target, matched, operations),
        0 <= k < missing.len(),
    ensures
        ({
            let at = if matched == 0 {
                k + 1
            } else {
                k
            };
            &&& 0 <= at < events.len()
            &&& operations.dom().contains(missing[k]) ==> (
            events[at] matches DownloadEvent::VerificationFailed { id, operation_id, .. } && id@
                == missing[k] && operation_id == operations[missing[k]])
            &&& !operations.dom().contains(missing[k]) ==> (
            events[at] matches DownloadEvent::VerificationSkipped { id, completed } && id@
                == missing[k] && completed == (target == VerificationTarget::Completed))
        }),
{
    assert(verification::reports_missing(
        events[verification::closing_head(matched) + k],
        missing[k],
        operations,
        target,
    ));
}

/// A copy of a request wants the same files as the request.
pub proof fn law_copies_want_the_same(
    a: RequestedFiles,
    b: RequestedFiles,
    path: Seq<char>,
)
    requires
        a.same_as(b),
    ensures
        a.wants(path) == b.wants(path),
        a.names(path) == b.names(path),
        a is All <==> b is All,
        a matches RequestedFiles::Only(ids) ==> b is Only && b->0@ == ids@,
{
}

/// A request for everything wants each file and names none; one for some files wants and names
/// exactly those.
pub proof fn law_what_is_wanted(requested: RequestedFiles, path: Seq<char>)
    ensures
        requested is All ==> requested.wants(path) && !requested.names(path),
        requested matches RequestedFiles::Only(ids) ==> (requested.wants(path) <==> ids@.contains(
            path,
        )) && (requested.names(path) <==> ids@.contains(path)),
{
}

/// A download of a batch has the path that it came to have, and is otherwise as it arrived.
pub proof fn law_placed_downloads_are_otherwise_as_they_arrived(
    downloads: Seq<QueuedDownload>,
    placed: Seq<Placed>,
    k: int,
)
    requires
        duplicates::are_placed(downloads, placed),
        0 <= k < placed.len(),
    ensures
        downloads.len() == placed.len(),
        downloads[k].item.path@ == placed[k].path,
        downloads[k].item.size == placed[k].download.item.size,
        downloads[k].item.was_partial == placed[k].download.item.was_partial,
        downloads[k].item.sparse_checksum == placed[k].download.item.sparse_checksum,
        downloads[k].item.modified_at == placed[k].download.item.modified_at,
        downloads[k].resolved == placed[k].download.resolved,
        downloads[k].attempt_id == placed[k].download.attempt_id,
        downloads[k].trust_resume_state == placed[k].download.trust_resume_state,
{
}

/// A file that has to make way is given the least number from two on that is free: two where that
/// is, and every smaller number is taken.
pub proof fn law_the_least_free_number_is_given(
    path: Seq<char>,
    used: Set<Seq<char>>,
    ordinal: nat,
)
    requires
        used.finite(),
    ensures
        !used.contains(duplicates::duplicate_text(path, 2)) ==> duplicates::free_path(path, used)
            == duplicates::duplicate_text(path, 2),
        exists|number: nat|
            number >= 2 && duplicates::free_path(path, used)
                == #[trigger] duplicates::duplicate_text(path, number) && (2 <= ordinal < number
                ==> used.contains(duplicates::duplicate_text(path, ordinal))),
{
    duplicates::law_unused_name_exists(path, used);
    let number = duplicates::free_ordinal(path, used);
    assert(duplicates::is_free_ordinal(path, used, number));
    if number > 2 {
        assert(used.contains(duplicates::duplicate_text(path, 2)));
    }
    assert(duplicates::free_path(path, used) == duplicates::duplicate_text(path, number));
}

} // verus!
