//! Laws of the download queue.

use vstd::prelude::*;

use crate::batch::QueuedDownload;
use crate::ids::{self, FileId};
use crate::scheduler::{self, ActiveTask, SchedulerState};

verus! {

/// A selection holds only queue entries that are available and not active, and no more than
/// there are free slots.
pub proof fn law_selection_is_startable(
    queue: Seq<Seq<char>>,
    priority: Set<Seq<char>>,
    available: Set<Seq<char>>,
    active: Set<Seq<char>>,
    capacity: nat,
)
    ensures
        scheduler::selection(queue, priority, available, active, capacity).len() <= capacity,
        forall|i: int|
            0 <= i < scheduler::selection(queue, priority, available, active, capacity).len() ==> {
                let id = #[trigger] scheduler::selection(queue, priority, available, active, capacity)[i];
                queue.contains(id) && available.contains(id) && !active.contains(id)
            },
{
    let ready = |id: Seq<char>| available.contains(id) && !active.contains(id);
    let urgent = |id: Seq<char>|
        priority.contains(id) && available.contains(id) && !active.contains(id);
    scheduler::lemma_filter_to_set(queue, ready);
    scheduler::lemma_filter_to_set(queue, urgent);
    let picked = scheduler::selection(queue, priority, available, active, capacity);
    assert forall|i: int| 0 <= i < picked.len() implies {
        let id = #[trigger] picked[i];
        queue.contains(id) && available.contains(id) && !active.contains(id)
    } by {
        let id = picked[i];
        if scheduler::priority_of(queue, priority, available, active).len() > 0 {
            let all = queue.filter(urgent);
            assert(all[i] == id);
            assert(all.to_set().contains(id));
        } else {
            let all = queue.filter(ready);
            assert(all[i] == id);
            assert(all.to_set().contains(id));
        }
        assert(queue.to_set().contains(id));
    }
}

/// While a file with resume priority is not yet active, no file without that priority starts.
pub proof fn law_resume_priority_blocks_others(
    queue: Seq<Seq<char>>,
    priority: Set<Seq<char>>,
    available: Set<Seq<char>>,
    active: Set<Seq<char>>,
    capacity: nat,
    waiting: Seq<char>,
)
    requires
        priority.contains(waiting),
        !active.contains(waiting),
    ensures
        forall|i: int|
            0 <= i < scheduler::selection(queue, priority, available, active, capacity).len()
                ==> priority.contains(
                #[trigger] scheduler::selection(queue, priority, available, active, capacity)[i],
            ),
{
    let urgent = |id: Seq<char>|
        priority.contains(id) && available.contains(id) && !active.contains(id);
    scheduler::lemma_filter_to_set(queue, urgent);
    let picked = scheduler::selection(queue, priority, available, active, capacity);
    assert forall|i: int| 0 <= i < picked.len() implies priority.contains(#[trigger] picked[i]) by {
        let all = queue.filter(urgent);
        assert(all[i] == picked[i]);
        assert(all.to_set().contains(picked[i]));
    }
}

/// Without files of resume priority the queue starts from its head.
pub proof fn law_queue_starts_in_order(
    queue: Seq<Seq<char>>,
    available: Set<Seq<char>>,
    active: Set<Seq<char>>,
    capacity: nat,
)
    ensures
        scheduler::selection(queue, Set::empty(), available, active, capacity).is_prefix_of(
            scheduler::startable_of(queue, available, active),
        ),
{
    let none: Set<Seq<char>> = Set::empty();
    let urgent = |id: Seq<char>|
        none.contains(id) && available.contains(id) && !active.contains(id);
    queue.lemma_all_neg_filter_empty(urgent);
    let all = scheduler::startable_of(queue, available, active);
    let picked = scheduler::selection(queue, none, available, active, capacity);
    assert(picked =~= all.take(picked.len() as int));
}

/// A claim that is released leaves the file at the head of the queue and no longer active, so
/// that a claim of the head of a queue without repetition is undone.
pub proof fn law_release_undoes_claim(
    before: SchedulerState,
    claimed: SchedulerState,
    released: SchedulerState,
    file: Seq<char>,
)
    requires
        !before.active_downloads@.contains(file),
        before.queue().no_duplicates(),
        before.queue().len() > 0,
        before.queue()[0] == file,
        claimed.active_downloads@ == before.active_downloads@.insert(file),
        claimed.queue() == before.queue().filter(|id: Seq<char>| id != file),
        released.active_downloads@ == claimed.active_downloads@.remove(file),
        released.queue() == seq![file] + claimed.queue(),
    ensures
        released.queue() == before.queue(),
        released.active_downloads@ == before.active_downloads@,
{
    lemma_filter_without_head(before.queue(), file);
    assert(before.queue() =~= seq![file] + before.queue().skip(1));
    assert(released.active_downloads@ =~= before.active_downloads@);
}

/// Filtering the first entry out of a list without repetition drops it.
proof fn lemma_filter_without_head(list: Seq<Seq<char>>, file: Seq<char>)
    requires
        list.no_duplicates(),
        list.len() > 0,
        list[0] == file,
    ensures
        list.filter(|id: Seq<char>| id != file) == list.skip(1),
    decreases list.len(),
{
    reveal(Seq::filter);
    let other = |id: Seq<char>| id != file;
    let earlier = list.drop_last();
    if list.len() == 1 {
        assert(earlier.filter(other) =~= Seq::empty());
        assert(list.skip(1) =~= Seq::empty());
    } else {
        assert(earlier[0] == file);
        lemma_filter_without_head(earlier, file);
        assert(list.last() != file) by {
            assert(list[list.len() - 1] != list[0]);
        }
        assert(list.skip(1) =~= earlier.skip(1).push(list.last()));
    }
}

/// Putting paused downloads back gives the downloads that were available before.
pub proof fn law_unpause_restores_available(
    available: Map<Seq<char>, QueuedDownload>,
    ids: Seq<Seq<char>>,
)
    requires
        scheduler::keyed(available),
    ensures
        scheduler::with_downloads(available.remove_keys(ids.to_set()), scheduler::paused_of(ids, available))
            == available,
    decreases ids.len(),
{
    if ids.len() == 0 {
        assert(available.remove_keys(ids.to_set()) =~= available);
    } else {
        let earlier = ids.drop_last();
        let id = ids.last();
        assert(ids =~= earlier.push(id));
        ids::lemma_push_to_set(earlier, id);
        law_unpause_restores_available(available, earlier);
        let left = available.remove_keys(earlier.to_set());
        let fewer = available.remove_keys(ids.to_set());
        let paused = scheduler::paused_of(earlier, available);
        assert(fewer =~= left.remove(id));
        lemma_paused_paths(earlier, available);
        if available.dom().contains(id) && !earlier.contains(id) {
            assert(!scheduler::paths_of(paused).contains(id));
            lemma_with_downloads_remove(left, paused, id);
            let longer = paused.push(available[id]);
            assert(longer.drop_last() =~= paused);
            assert(scheduler::with_downloads(fewer, longer) =~= available);
        } else {
            assert(fewer =~= left);
        }
    }
}

/// The paths of paused downloads are among the ids that were paused.
proof fn lemma_paused_paths(ids: Seq<Seq<char>>, available: Map<Seq<char>, QueuedDownload>)
    requires
        scheduler::keyed(available),
    ensures
        forall|id: Seq<char>| #[trigger]
            scheduler::paths_of(scheduler::paused_of(ids, available)).contains(id) ==> ids.contains(id)
                && available.dom().contains(id),
    decreases ids.len(),
{
    let paused = scheduler::paused_of(ids, available);
    if ids.len() > 0 {
        let earlier = ids.drop_last();
        lemma_paused_paths(earlier, available);
        assert forall|id: Seq<char>| #[trigger] scheduler::paths_of(paused).contains(id) implies ids.contains(
            id,
        ) && available.dom().contains(id) by {
            let j = choose|j: int| 0 <= j < scheduler::paths_of(paused).len() && scheduler::paths_of(paused)[j] == id;
            let before = scheduler::paused_of(earlier, available);
            if j < before.len() {
                assert(scheduler::paths_of(before)[j] == id);
                assert(scheduler::paths_of(before).contains(id));
                assert(earlier.contains(id));
                let k = choose|k: int| 0 <= k < earlier.len() && earlier[k] == id;
                assert(ids[k] == id);
            } else {
                assert(paused[j] == available[ids.last()]);
                assert(ids[ids.len() - 1] == id);
            }
        }
    }
}

/// Taking out a path that no download has can be done before or after putting downloads in.
proof fn lemma_with_downloads_remove(
    available: Map<Seq<char>, QueuedDownload>,
    downloads: Seq<QueuedDownload>,
    id: Seq<char>,
)
    requires
        !scheduler::paths_of(downloads).contains(id),
    ensures
        scheduler::with_downloads(available.remove(id), downloads) == scheduler::with_downloads(
            available,
            downloads,
        ).remove(id),
    decreases downloads.len(),
{
    if downloads.len() > 0 {
        let earlier = downloads.drop_last();
        assert forall|j: int| 0 <= j < earlier.len() implies scheduler::paths_of(earlier)[j] != id by {
            assert(scheduler::paths_of(downloads)[j] == scheduler::paths_of(earlier)[j]);
        }
        lemma_with_downloads_remove(available, earlier, id);
        assert(scheduler::paths_of(downloads)[downloads.len() - 1] != id);
        assert(scheduler::with_downloads(available.remove(id), downloads) =~= scheduler::with_downloads(
            available,
            downloads,
        ).remove(id));
    }
}

/// Free slots are filled: once every file of resume priority is active, the selection is the head
/// of what the queue holds of available files that are not active, as long as there are slots
/// and files.
pub proof fn law_free_slots_are_filled(
    queue: Seq<Seq<char>>,
    priority: Set<Seq<char>>,
    available: Set<Seq<char>>,
    active: Set<Seq<char>>,
    capacity: nat,
)
    requires
        forall|id: Seq<char>| #[trigger] priority.contains(id) ==> active.contains(id),
    ensures
        ({
            let ready = queue.filter(|id: Seq<char>| available.contains(id) && !active.contains(id));
            let picked = scheduler::selection(queue, priority, available, active, capacity);
            &&& picked.len() == if capacity < ready.len() {
                capacity
            } else {
                ready.len()
            }
            &&& picked == ready.take(picked.len() as int)
        }),
{
    let urgent = |id: Seq<char>|
        priority.contains(id) && available.contains(id) && !active.contains(id);
    queue.lemma_all_neg_filter_empty(urgent);
    let ready = queue.filter(|id: Seq<char>| available.contains(id) && !active.contains(id));
    assert(scheduler::priority_of(queue, priority, available, active).len() == 0);
    let picked = scheduler::selection(queue, priority, available, active, capacity);
    assert(picked =~= ready.take(picked.len() as int));
}

/// Files of resume priority go first: while the queue holds one that is available and not active,
/// the selection is the head of these files, as long as there are slots and such files.
pub proof fn law_resume_priority_fills_slots_first(
    queue: Seq<Seq<char>>,
    priority: Set<Seq<char>>,
    available: Set<Seq<char>>,
    active: Set<Seq<char>>,
    capacity: nat,
    at: int,
)
    requires
        0 <= at < queue.len(),
        priority.contains(queue[at]),
        available.contains(queue[at]),
        !active.contains(queue[at]),
    ensures
        ({
            let urgent = queue.filter(
                |id: Seq<char>|
                    priority.contains(id) && available.contains(id) && !active.contains(id),
            );
            let picked = scheduler::selection(queue, priority, available, active, capacity);
            &&& urgent.contains(queue[at])
            &&& picked.len() == if capacity < urgent.len() {
                capacity
            } else {
                urgent.len()
            }
            &&& picked == urgent.take(picked.len() as int)
        }),
{
    let keep = |id: Seq<char>|
        priority.contains(id) && available.contains(id) && !active.contains(id);
    queue.lemma_filter_contains(keep, at);
    let urgent = queue.filter(
        |id: Seq<char>| priority.contains(id) && available.contains(id) && !active.contains(id),
    );
    let picked = scheduler::selection(queue, priority, available, active, capacity);
    assert(picked =~= urgent.take(picked.len() as int));
}

/// No file that could start waits beside a free slot: once every file of resume priority is
/// active, such a file of the queue is selected unless all slots are taken.
pub proof fn law_no_startable_file_waits_beside_a_free_slot(
    queue: Seq<Seq<char>>,
    priority: Set<Seq<char>>,
    available: Set<Seq<char>>,
    active: Set<Seq<char>>,
    capacity: nat,
    at: int,
)
    requires
        0 <= at < queue.len(),
        available.contains(queue[at]),
        !active.contains(queue[at]),
        forall|id: Seq<char>| #[trigger] priority.contains(id) ==> active.contains(id),
    ensures
        scheduler::selection(queue, priority, available, active, capacity).contains(queue[at])
            || scheduler::selection(queue, priority, available, active, capacity).len() == capacity,
{
    law_free_slots_are_filled(queue, priority, available, active, capacity);
    let keep = |id: Seq<char>| available.contains(id) && !active.contains(id);
    queue.lemma_filter_contains(keep, at);
    let ready = queue.filter(|id: Seq<char>| available.contains(id) && !active.contains(id));
    let picked = scheduler::selection(queue, priority, available, active, capacity);
    if picked.len() < capacity {
        assert(picked =~= ready);
    }
}

/// The queue of a state in sync holds what the desired order leaves to start: a file waits in it
/// exactly where it is wanted and resolved and does not run, and the order is the wanted one.
pub proof fn law_queues_follow_the_desired_order(state: SchedulerState, id: Seq<char>)
    requires
        state.in_sync(),
    ensures
        state.queue().contains(id) <==> state.order().contains(id)
            && state.available_downloads@.dom().contains(id) && !state.active_downloads@.contains(
            id,
        ),
        state.queue() == state.order().filter(
            |file: Seq<char>|
                state.available_downloads@.dom().contains(file)
                    && !state.active_downloads@.contains(file),
        ),
{
    broadcast use vstd::seq_lib::group_filter_ensures;

    let keep = |file: Seq<char>|
        state.available_downloads@.dom().contains(file) && !state.active_downloads@.contains(file);
    let order = state.order();
    let queue = order.filter(keep);
    assert(state.queue() == queue);
    if queue.contains(id) {
        let k = choose|k: int| 0 <= k < queue.len() && queue[k] == id;
        assert(keep(queue[k]));
        order.lemma_filter_contains_rev(keep, id);
    }
    if order.contains(id) && keep(id) {
        let k = choose|k: int| 0 <= k < order.len() && order[k] == id;
        order.lemma_filter_contains(keep, k);
    }
}

/// Downloads that are put in are available under their paths, the last one of each path; what was
/// available under other paths stays.
pub proof fn law_downloads_become_available(
    available: Map<Seq<char>, QueuedDownload>,
    downloads: Seq<QueuedDownload>,
    k: int,
    id: Seq<char>,
)
    ensures
        0 <= k < downloads.len() && (forall|j: int|
            k < j < downloads.len() ==> (#[trigger] downloads[j]).item.path@
                != downloads[k].item.path@) ==> {
            let after = scheduler::with_downloads(available, downloads);
            let path = downloads[k].item.path@;
            after.dom().contains(path) && after[path] == downloads[k]
        },
        (forall|j: int| 0 <= j < downloads.len() ==> (#[trigger] downloads[j]).item.path@ != id)
            ==> {
            let after = scheduler::with_downloads(available, downloads);
            &&& after.dom().contains(id) == available.dom().contains(id)
            &&& available.dom().contains(id) ==> after[id] == available[id]
        },
    decreases downloads.len(),
{
    if downloads.len() > 0 {
        let earlier = downloads.drop_last();
        let last = downloads[downloads.len() - 1];
        law_downloads_become_available(available, earlier, k, id);
        assert forall|j: int| 0 <= j < earlier.len() implies #[trigger] earlier[j]
            == downloads[j] by {}
        if 0 <= k < downloads.len() - 1 {
            assert(earlier[k] == downloads[k]);
        }
    }
}

/// Files that are paused hand their downloads over, each once and in the order of the request.
pub proof fn law_paused_downloads_come_in_order(
    ids: Seq<Seq<char>>,
    available: Map<Seq<char>, QueuedDownload>,
)
    requires
        ids.no_duplicates(),
    ensures
        scheduler::paused_of(ids, available) == ids.filter(
            |id: Seq<char>| available.dom().contains(id),
        ).map_values(|id: Seq<char>| available[id]),
    decreases ids.len(),
{
    let keep = |id: Seq<char>| available.dom().contains(id);
    let pick = |id: Seq<char>| available[id];
    if ids.len() > 0 {
        let earlier = ids.drop_last();
        let last = ids[ids.len() - 1];
        assert(ids =~= earlier.push(last));
        assert forall|i: int, j: int|
            0 <= i < earlier.len() && 0 <= j < earlier.len() && i != j implies earlier[i]
            != earlier[j] by {
            assert(ids[i] != ids[j]);
        }
        assert(!earlier.contains(last)) by {
            if earlier.contains(last) {
                let i = choose|i: int| 0 <= i < earlier.len() && earlier[i] == last;
                assert(ids[i] != ids[ids.len() - 1]);
            }
        }
        law_paused_downloads_come_in_order(earlier, available);
        scheduler::lemma_filter_push(earlier, last, keep);
        if keep(last) {
            assert(earlier.filter(keep).push(last).map_values(pick) =~= earlier.filter(
                keep,
            ).map_values(pick).push(available[last]));
        }
    } else {
        assert(ids =~= Seq::empty());
        assert(ids.filter(keep) =~= Seq::empty()) by {
            ids.lemma_all_neg_filter_empty(keep);
        }
        assert(ids.filter(keep).map_values(pick) =~= Seq::empty());
    }
}

/// A file whose verification is repeated, or that is named twice, hands its download over once.
pub proof fn law_paused_downloads_are_those_asked_for(
    ids: Seq<Seq<char>>,
    available: Map<Seq<char>, QueuedDownload>,
    id: Seq<char>,
)
    ensures
        ids.contains(id) && available.dom().contains(id) ==> scheduler::paused_of(
            ids,
            available,
        ).contains(available[id]),
        forall|k: int|
            0 <= k < scheduler::paused_of(ids, available).len() ==> exists|j: int|
                0 <= j < ids.len() && available.dom().contains(#[trigger] ids[j])
                    && #[trigger] scheduler::paused_of(ids, available)[k] == available[ids[j]],
        scheduler::paused_of(ids, available).len() <= ids.len(),
    decreases ids.len(),
{
    if ids.len() > 0 {
        let earlier = ids.drop_last();
        let last = ids[ids.len() - 1];
        let paused = scheduler::paused_of(ids, available);
        let before = scheduler::paused_of(earlier, available);
        law_paused_downloads_are_those_asked_for(earlier, available, id);
        if ids.contains(id) && available.dom().contains(id) {
            let j = choose|j: int| 0 <= j < ids.len() && ids[j] == id;
            if j < earlier.len() {
                assert(earlier[j] == id);
                let k = choose|k: int| 0 <= k < before.len() && before[k] == available[id];
                assert(paused[k] == available[id]);
            } else if earlier.contains(id) {
                let k = choose|k: int| 0 <= k < before.len() && before[k] == available[id];
                assert(paused[k] == available[id]);
            } else {
                assert(paused[paused.len() - 1] == available[id]);
            }
        }
        assert forall|k: int| 0 <= k < paused.len() implies exists|j: int|
            0 <= j < ids.len() && available.dom().contains(#[trigger] ids[j])
                && #[trigger] paused[k] == available[ids[j]] by {
            if k < before.len() {
                assert(paused[k] == before[k]);
                let j = choose|j: int|
                    0 <= j < earlier.len() && available.dom().contains(#[trigger] earlier[j])
                        && before[k] == available[earlier[j]];
                assert(ids[j] == earlier[j]);
            } else {
                assert(available.dom().contains(ids[ids.len() - 1]));
            }
        }
    }
}

/// Files that come back are wanted again: the desired order stays, and behind it come the files that
/// it does not hold, in their order and each once.
pub proof fn law_returning_files_come_behind_the_order(
    order: Seq<Seq<char>>,
    members: Set<Seq<char>>,
    paths: Seq<Seq<char>>,
    id: Seq<char>,
)
    ensures
        order.is_prefix_of(scheduler::with_new_paths(order, members, paths)),
        scheduler::with_new_paths(order, members, paths).contains(id) <==> order.contains(id) || (
        paths.contains(id) && !members.contains(id)),
        paths.no_duplicates() ==> scheduler::with_new_paths(order, members, paths) == order
            + paths.filter(|path: Seq<char>| !members.contains(path)),
        order.no_duplicates() && members == order.to_set() ==> scheduler::with_new_paths(
            order,
            members,
            paths,
        ).no_duplicates(),
    decreases paths.len(),
{
    let keep = |path: Seq<char>| !members.contains(path);
    let whole = scheduler::with_new_paths(order, members, paths);
    if paths.len() > 0 {
        let earlier = paths.drop_last();
        let last = paths[paths.len() - 1];
        let rest = scheduler::with_new_paths(order, members, earlier);
        law_returning_files_come_behind_the_order(order, members, earlier, id);
        law_returning_files_come_behind_the_order(order, members, earlier, last);
        assert(paths =~= earlier.push(last));
        assert(paths.contains(id) <==> earlier.contains(id) || id == last) by {
            if earlier.contains(id) {
                let j = choose|j: int| 0 <= j < earlier.len() && earlier[j] == id;
                assert(paths[j] == id);
            }
            if paths.contains(id) {
                let j = choose|j: int| 0 <= j < paths.len() && paths[j] == id;
                if j < earlier.len() {
                    assert(earlier[j] == id);
                }
            }
        }
        if !members.contains(last) && !earlier.contains(last) {
            assert(whole == rest.push(last));
            assert(whole.contains(id) <==> rest.contains(id) || id == last) by {
                if rest.contains(id) {
                    let j = choose|j: int| 0 <= j < rest.len() && rest[j] == id;
                    assert(whole[j] == id);
                }
                if id == last {
                    assert(whole[rest.len() as int] == id);
                }
                if whole.contains(id) {
                    let j = choose|j: int| 0 <= j < whole.len() && whole[j] == id;
                    if j < rest.len() {
                        assert(rest[j] == id);
                    }
                }
            }
            assert(whole.take(order.len() as int) =~= rest.take(order.len() as int));
            if order.no_duplicates() && members == order.to_set() {
                assert(order.contains(last) ==> order.to_set().contains(last));
                assert(!rest.contains(last));
                assert forall|i: int, j: int|
                    0 <= i < whole.len() && 0 <= j < whole.len() && i != j implies whole[i]
                    != whole[j] by {
                    if i < rest.len() && j < rest.len() {
                        assert(rest[i] != rest[j]);
                    } else if i < rest.len() {
                        assert(rest.contains(rest[i]));
                    } else {
                        assert(rest.contains(rest[j]));
                    }
                }
            }
        }
        if paths.no_duplicates() {
            assert forall|i: int, j: int|
                0 <= i < earlier.len() && 0 <= j < earlier.len() && i != j implies earlier[i]
                != earlier[j] by {
                assert(paths[i] != paths[j]);
            }
            assert(!earlier.contains(last)) by {
                if earlier.contains(last) {
                    let i = choose|i: int| 0 <= i < earlier.len() && earlier[i] == last;
                    assert(paths[i] != paths[paths.len() - 1]);
                }
            }
            scheduler::lemma_filter_push(earlier, last, keep);
            if keep(last) {
                assert((order + earlier.filter(keep)).push(last) =~= order + earlier.filter(
                    keep,
                ).push(last));
            }
        }
    } else {
        paths.lemma_all_neg_filter_empty(keep);
        assert(paths.filter(keep).len() == 0) by {
            assert(paths =~= Seq::empty());
        }
        assert(order + paths.filter(keep) =~= order);
        assert(whole.take(order.len() as int) =~= order);
    }
}

/// Each download is listed by its own path.
pub proof fn law_downloads_are_listed_by_path(downloads: Seq<QueuedDownload>, k: int)
    requires
        0 <= k < downloads.len(),
    ensures
        scheduler::paths_of(downloads).len() == downloads.len(),
        scheduler::paths_of(downloads)[k] == downloads[k].item.path@,
{
}

/// A download of a file with an operation runs under it; any other goes on as it was. Nothing else
/// of a download changes.
pub proof fn law_operations_are_taken_over(download: QueuedDownload, operations: Map<Seq<char>, u64>)
    ensures
        ({
            let after = scheduler::retargeted(download, operations);
            &&& operations.dom().contains(download.item.path@) ==> after.attempt_id
                == operations[download.item.path@]
            &&& !operations.dom().contains(download.item.path@) ==> after.attempt_id
                == download.attempt_id
            &&& after.item == download.item
            &&& after == (QueuedDownload { attempt_id: after.attempt_id, ..download })
        }),
{
}

/// A file whose attempt has ended runs no more, and no other file is touched by it. Once its current
/// attempt is done it neither waits nor is available; a cancelled one, or one for which another
/// attempt is resolved, waits again where it is wanted.
pub proof fn law_ended_attempts(
    before: SchedulerState,
    after: SchedulerState,
    file: FileId,
    attempt_id: u64,
    cancelled: bool,
    other: Seq<char>,
)
    requires
        after.ended(before, file@, attempt_id, cancelled),
        other != file@,
    ensures
        ({
            let available = before.available_downloads@;
            let newer = available.dom().contains(file@) && available[file@].attempt_id != attempt_id;
            &&& !after.active_downloads@.contains(file@)
            &&& after.active_downloads@.contains(other) == before.active_downloads@.contains(other)
            &&& after.available_downloads@.dom().contains(other) == available.dom().contains(other)
            &&& available.dom().contains(other) ==> after.available_downloads@[other]
                == available[other]
            &&& after.order() == before.order()
            &&& !cancelled && !newer ==> {
                &&& !after.available_downloads@.dom().contains(file@)
                &&& !after.queue().contains(file@)
                &&& after.queue().contains(other) == before.queue().contains(other)
            }
            &&& cancelled || newer ==> {
                &&& after.available_downloads@ == available
                &&& after.queue().contains(file@) <==> before.order().contains(file@)
                    && available.dom().contains(file@)
            }
        }),
{
    broadcast use vstd::seq_lib::group_filter_ensures;

    let available = before.available_downloads@;
    let newer = available.dom().contains(file@) && available[file@].attempt_id != attempt_id;
    if cancelled || newer {
        law_queues_follow_the_desired_order(after, file@);
    } else {
        let keep = |id: Seq<char>| id != file@;
        let queue = before.queue();
        let kept = queue.filter(keep);
        assert(after.queue() == kept);
        if kept.contains(file@) {
            let k = choose|k: int| 0 <= k < kept.len() && kept[k] == file@;
            assert(keep(kept[k]));
        }
        if queue.contains(other) {
            let k = choose|k: int| 0 <= k < queue.len() && queue[k] == other;
            queue.lemma_filter_contains(keep, k);
        }
        if kept.contains(other) {
            queue.lemma_filter_contains_rev(keep, other);
        }
    }
}

/// A task is forgotten by its number, and every other task stays.
pub proof fn law_tasks_are_forgotten_by_number(
    tasks: Seq<ActiveTask>,
    task_id: u64,
    task: ActiveTask,
)
    ensures
        scheduler::other_tasks(tasks, task_id).contains(task) <==> tasks.contains(task)
            && task.task_id != task_id,
        ({
            let at = scheduler::task_position(tasks, task_id);
            &&& 0 <= at <= tasks.len()
            &&& at < tasks.len() ==> tasks[at].task_id == task_id
            &&& forall|j: int| 0 <= j < at ==> (#[trigger] tasks[j]).task_id != task_id
        }),
    decreases tasks.len(),
{
    broadcast use vstd::seq_lib::group_filter_ensures;

    let keep = |one: ActiveTask| one.task_id != task_id;
    let kept = tasks.filter(keep);
    assert(scheduler::other_tasks(tasks, task_id) == kept);
    if kept.contains(task) {
        let k = choose|k: int| 0 <= k < kept.len() && kept[k] == task;
        assert(keep(kept[k]));
        tasks.lemma_filter_contains_rev(keep, task);
    }
    if tasks.contains(task) && keep(task) {
        let k = choose|k: int| 0 <= k < tasks.len() && tasks[k] == task;
        tasks.lemma_filter_contains(keep, k);
    }
    if tasks.len() > 0 && tasks[0].task_id != task_id {
        law_tasks_are_forgotten_by_number(tasks.skip(1), task_id, task);
        let at = scheduler::task_position(tasks, task_id);
        assert forall|j: int| 0 <= j < at implies (#[trigger] tasks[j]).task_id != task_id by {
            if j > 0 {
                assert(tasks.skip(1)[j - 1] == tasks[j]);
            }
        }
        if at < tasks.len() {
            assert(tasks.skip(1)[at - 1] == tasks[at]);
        }
    }
}

} // verus!
