//! Which downloads may start, and in which order.

use std::collections::VecDeque;

use vstd::prelude::*;

use crate::batch::{CollectedBatch, QueuedDownload};
use crate::events::DownloadEvent;
use crate::ids::{self, copy_ids, same_ids, starts_with_ids, FileId, FileIdMap, FileIdSet};
use crate::text::joined;

verus! {

/// Filtering a list that grew by one entry.
pub proof fn lemma_filter_push<A>(list: Seq<A>, entry: A, keep: spec_fn(A) -> bool)
    ensures
        keep(entry) ==> list.push(entry).filter(keep) == list.filter(keep).push(entry),
        !keep(entry) ==> list.push(entry).filter(keep) == list.filter(keep),
{
    reveal(Seq::filter);
    assert(list.push(entry).drop_last() =~= list);
}

/// The entries of `list` that are available and not active, in order.
pub open spec fn startable_of(
    list: Seq<Seq<char>>,
    available: Set<Seq<char>>,
    active: Set<Seq<char>>,
) -> Seq<Seq<char>> {
    list.filter(|id: Seq<char>| available.contains(id) && !active.contains(id))
}

/// The entries of `queue` that have resume priority, are available and not active, in order.
pub open spec fn priority_of(
    queue: Seq<Seq<char>>,
    priority: Set<Seq<char>>,
    available: Set<Seq<char>>,
    active: Set<Seq<char>>,
) -> Seq<Seq<char>> {
    queue.filter(
        |id: Seq<char>| priority.contains(id) && available.contains(id) && !active.contains(id),
    )
}

/// The first `count` entries of a list, or all of them where there are fewer.
pub open spec fn at_most(list: Seq<Seq<char>>, count: nat) -> Seq<Seq<char>> {
    if count < list.len() {
        list.take(count as int)
    } else {
        list
    }
}

/// The files that may start with `capacity` free slots: those with resume priority where there
/// are any, none while a priority file is still on its way, else the head of the queue.
pub open spec fn selection(
    queue: Seq<Seq<char>>,
    priority: Set<Seq<char>>,
    available: Set<Seq<char>>,
    active: Set<Seq<char>>,
    capacity: nat,
) -> Seq<Seq<char>> {
    let first = priority_of(queue, priority, available, active);
    if capacity == 0 {
        Seq::empty()
    } else if first.len() > 0 {
        at_most(first, capacity)
    } else if exists|id: Seq<char>| priority.contains(id) && !active.contains(id) {
        Seq::empty()
    } else {
        at_most(startable_of(queue, available, active), capacity)
    }
}

/// Picks the files of `pending_queue` that may start with `capacity` free slots.
pub fn select_startable_file_ids(
    pending_queue: &VecDeque<FileId>,
    resume_priority_set: &FileIdSet,
    available_file_ids: &FileIdSet,
    active_downloads: &FileIdSet,
    capacity: usize,
) -> (selected: Vec<FileId>)
    ensures
        ids::texts(selected@) == selection(
            ids::texts(pending_queue@),
            resume_priority_set@,
            available_file_ids@,
            active_downloads@,
            capacity as nat,
        ),
        selected@.len() <= capacity,
{
    if capacity == 0 {
        let none: Vec<FileId> = Vec::new();
        assert(ids::texts(none@) =~= Seq::empty());
        return none;
    }
    let first = pick_pending(
        pending_queue,
        Some(resume_priority_set),
        available_file_ids,
        active_downloads,
        capacity,
    );
    if first.len() > 0 {
        return first;
    }
    assert(ids::texts(first@).len() == 0);
    let waiting: Vec<FileId> = resume_priority_set.to_vec();
    let mut i: usize = 0;
    while i < waiting.len()
        invariant
            i <= waiting.len(),
            ids::texts(waiting@).to_set() == resume_priority_set@,
            forall|j: int| 0 <= j < i ==> active_downloads@.contains(#[trigger] waiting@[j]@),
            capacity > 0,
            priority_of(
                ids::texts(pending_queue@),
                resume_priority_set@,
                available_file_ids@,
                active_downloads@,
            ).len() == 0,
        decreases waiting.len() - i,
    {
        if !active_downloads.contains(&waiting[i]) {
            let none: Vec<FileId> = Vec::new();
            proof {
                let id = waiting@[i as int]@;
                assert(ids::texts(waiting@)[i as int] == id);
                assert(ids::texts(waiting@).to_set().contains(id));
                assert(resume_priority_set@.contains(id) && !active_downloads@.contains(id));
                assert(ids::texts(none@) =~= Seq::empty());
            }
            return none;
        }
        i = i + 1;
    }
    proof {
        assert forall|id: Seq<char>| resume_priority_set@.contains(id) implies active_downloads@.contains(
            id,
        ) by {
            assert(ids::texts(waiting@).to_set().contains(id));
            let j = choose|j: int| 0 <= j < waiting@.len() && ids::texts(waiting@)[j] == id;
            assert(waiting@[j]@ == id);
        }
    }
    pick_pending(pending_queue, None, available_file_ids, active_downloads, capacity)
}

/// The first `capacity` queue entries that are available and not active and, where `priority`
/// is given, belong to it.
fn pick_pending(
    pending_queue: &VecDeque<FileId>,
    priority: Option<&FileIdSet>,
    available: &FileIdSet,
    active: &FileIdSet,
    capacity: usize,
) -> (picked: Vec<FileId>)
    requires
        capacity > 0,
    ensures
        picked@.len() <= capacity,
        match priority {
            Some(set) => ids::texts(picked@) == at_most(
                priority_of(ids::texts(pending_queue@), set@, available@, active@),
                capacity as nat,
            ),
            None => ids::texts(picked@) == at_most(
                startable_of(ids::texts(pending_queue@), available@, active@),
                capacity as nat,
            ),
        },
{
    let ghost keep = match priority {
        Some(set) => |id: Seq<char>|
            set@.contains(id) && available@.contains(id) && !active@.contains(id),
        None => |id: Seq<char>| available@.contains(id) && !active@.contains(id),
    };
    let ghost queue = ids::texts(pending_queue@);
    let mut picked: Vec<FileId> = Vec::new();
    let mut i: usize = 0;
    proof {
        reveal(Seq::filter);
        assert(queue.take(0).filter(keep) =~= Seq::empty());
        assert(ids::texts(picked@) =~= Seq::empty());
    }
    while i < pending_queue.len() && picked.len() < capacity
        invariant
            i <= pending_queue.len(),
            queue == ids::texts(pending_queue@),
            picked.len() <= capacity,
            ids::texts(picked@) == queue.take(i as int).filter(keep),
            keep == match priority {
                Some(set) => |id: Seq<char>|
                    set@.contains(id) && available@.contains(id) && !active@.contains(id),
                None => |id: Seq<char>| available@.contains(id) && !active@.contains(id),
            },
        decreases pending_queue.len() - i,
    {
        let id = &pending_queue[i];
        let wanted = match priority {
            Some(set) => set.contains(id),
            None => true,
        };
        proof {
            assert(queue.take(i as int + 1) =~= queue.take(i as int).push(id@));
            lemma_filter_push(queue.take(i as int), id@, keep);
        }
        if wanted && available.contains(id) && !active.contains(id) {
            let ghost before = picked@;
            picked.push(id.clone());
            assert(ids::texts(picked@) =~= ids::texts(before).push(id@));
        }
        i = i + 1;
    }
    proof {
        assert(queue =~= queue.take(i as int) + queue.skip(i as int));
        Seq::filter_distributes_over_add(queue.take(i as int), queue.skip(i as int), keep);
        let all = queue.filter(keep);
        if i == pending_queue@.len() {
            assert(queue.take(i as int) =~= queue);
        } else {
            assert(all.take(capacity as int) =~= ids::texts(picked@));
            if all.len() == capacity {
                assert(all =~= ids::texts(picked@));
            }
        }
    }
    picked
}

/// The state of the download queue.
pub struct SchedulerState {
    /// The order in which the user wants files to be downloaded.
    pub desired_pending_order: Vec<FileId>,
    /// The members of `desired_pending_order`.
    pub desired_pending_set: FileIdSet,
    /// Files that wait for a free slot.
    pub pending_queue: VecDeque<FileId>,
    /// Files that go first because their resume data was just verified.
    pub resume_priority_set: FileIdSet,
    /// Downloads that are resolved and can start.
    pub available_downloads: FileIdMap<QueuedDownload>,
    /// Files that are being downloaded.
    pub active_downloads: FileIdSet,
    /// The file and attempt behind each running task.
    pub active_task_files: Vec<ActiveTask>,
}

/// A running download task.
#[derive(Debug, PartialEq, Eq)]
pub struct ActiveTask {
    pub task_id: u64,
    pub file_id: FileId,
    pub attempt_id: u64,
}

/// How a download task ended.
pub enum DownloadOutcome {
    Finished,
    Cancelled,
    Failed { error: String },
}

/// What came back from a download task.
pub enum TaskResult {
    Done { task_id: u64, file_id: FileId, attempt_id: u64, outcome: DownloadOutcome },
    Panicked { task_id: u64, error: String },
}

impl SchedulerState {
    /// The texts of the pending queue.
    pub open spec fn queue(&self) -> Seq<Seq<char>> {
        ids::texts(self.pending_queue@)
    }

    /// The texts of the desired order.
    pub open spec fn order(&self) -> Seq<Seq<char>> {
        ids::texts(self.desired_pending_order@)
    }

    /// The desired order and the desired set name the same files.
    pub open spec fn wf(&self) -> bool {
        self.desired_pending_set@ == self.order().to_set()
    }

    /// The pending queue is what the desired order leaves to start.
    pub open spec fn in_sync(&self) -> bool {
        self.queue() == startable_of(
            self.order(),
            self.available_downloads@.dom(),
            self.active_downloads@,
        )
    }

    /// An empty queue.
    pub fn new() -> (state: SchedulerState)
        ensures
            state.desired_pending_order@.len() == 0,
            state.desired_pending_set@ == Set::<Seq<char>>::empty(),
            state.pending_queue@.len() == 0,
            state.resume_priority_set@ == Set::<Seq<char>>::empty(),
            state.available_downloads@ == Map::<Seq<char>, QueuedDownload>::empty(),
            state.active_downloads@ == Set::<Seq<char>>::empty(),
            state.active_task_files@.len() == 0,
            state.wf(),
            state.in_sync(),
    {
        let state = SchedulerState {
            desired_pending_order: Vec::new(),
            desired_pending_set: FileIdSet::new(),
            pending_queue: VecDeque::new(),
            resume_priority_set: FileIdSet::new(),
            available_downloads: FileIdMap::new(),
            active_downloads: FileIdSet::new(),
            active_task_files: Vec::new(),
        };
        proof {
            reveal(Seq::filter);
            assert(state.order() =~= Seq::empty());
            assert(state.queue() =~= Seq::empty());
            assert(state.order().to_set() =~= Set::empty());
        }
        state
    }

    /// Whether the file is resolved and can start.
    pub fn has_available_download(&self, file_id: &str) -> (available: bool)
        ensures
            available == self.available_downloads@.dom().contains(file_id@),
    {
        self.available_downloads.contains_key(file_id)
    }

    /// Whether the file is being downloaded.
    pub fn has_active_download(&self, file_id: &str) -> (active: bool)
        ensures
            active == self.active_downloads@.contains(file_id@),
    {
        self.active_downloads.contains(file_id)
    }

    /// Appends the startable entries of `file_ids`, from position `from` on, to the queue.
    fn append_startable(&mut self, file_ids: &Vec<FileId>, from: usize)
        requires
            from <= file_ids.len(),
        ensures
            final(self).queue() == old(self).queue() + startable_of(
                ids::texts(file_ids@).skip(from as int),
                old(self).available_downloads@.dom(),
                old(self).active_downloads@,
            ),
            *final(self) == (SchedulerState { pending_queue: final(self).pending_queue, ..*old(self) }),
    {
        let ghost available = self.available_downloads@.dom();
        let ghost active = self.active_downloads@;
        let ghost keep = |id: Seq<char>| available.contains(id) && !active.contains(id);
        let ghost tail = ids::texts(file_ids@).skip(from as int);
        let mut i: usize = from;
        proof {
            reveal(Seq::filter);
            assert(tail.take(0).filter(keep) =~= Seq::empty());
            assert(self.queue() =~= old(self).queue() + tail.take(0).filter(keep));
        }
        while i < file_ids.len()
            invariant
                from <= i <= file_ids.len(),
                tail == ids::texts(file_ids@).skip(from as int),
                available == self.available_downloads@.dom(),
                active == self.active_downloads@,
                keep == (|id: Seq<char>| available.contains(id) && !active.contains(id)),
                self.queue() == old(self).queue() + tail.take(i - from).filter(keep),
                *self == (SchedulerState { pending_queue: self.pending_queue, ..*old(self) }),
            decreases file_ids.len() - i,
        {
            let id = &file_ids[i];
            let ghost before = self.queue();
            proof {
                assert(tail.take(i - from + 1) =~= tail.take(i - from).push(id@));
                lemma_filter_push(tail.take(i - from), id@, keep);
            }
            if self.has_available_download(id) && !self.has_active_download(id) {
                self.pending_queue.push_back(id.clone());
                assert(self.queue() =~= before.push(id@));
                assert(self.queue() =~= old(self).queue() + tail.take(i - from + 1).filter(keep));
            }
            i = i + 1;
        }
        assert(tail.take(i - from) =~= tail);
    }

    /// Rebuilds the queue from the desired order.
    pub fn rebuild_pending_queue(&mut self)
        ensures
            final(self).in_sync(),
            *final(self) == (SchedulerState { pending_queue: final(self).pending_queue, ..*old(self) }),
    {
        let order = copy_ids(&self.desired_pending_order);
        self.pending_queue = VecDeque::new();
        assert(self.queue() =~= Seq::empty());
        self.append_startable(&order, 0);
        proof {
            assert(ids::texts(order@).skip(0) =~= ids::texts(order@));
            assert(Seq::<Seq<char>>::empty() + self.queue() =~= self.queue());
        }
    }

    /// Rebuilds the desired set from the desired order.
    pub fn rebuild_desired_pending_set(&mut self)
        ensures
            final(self).wf(),
            *final(self) == (SchedulerState {
                desired_pending_set: final(self).desired_pending_set,
                ..*old(self)
            }),
    {
        self.desired_pending_set = FileIdSet::of(&self.desired_pending_order);
    }

    /// Takes over the order in which the user wants files to be downloaded.
    pub fn sync_pending_order(&mut self, file_ids: Vec<FileId>)
        ensures
            ids::texts(file_ids@) == old(self).order() ==> *final(self) == *old(self),
            ids::texts(file_ids@) != old(self).order() ==> {
                &&& final(self).desired_pending_order == file_ids
                &&& final(self).wf()
                &&& final(self).resume_priority_set == old(self).resume_priority_set
                &&& final(self).available_downloads == old(self).available_downloads
                &&& final(self).active_downloads == old(self).active_downloads
                &&& final(self).active_task_files == old(self).active_task_files
            },
            ids::texts(file_ids@) != old(self).order() && old(self).order().is_prefix_of(
                ids::texts(file_ids@),
            ) ==> final(self).queue() == old(self).queue() + startable_of(
                ids::texts(file_ids@).skip(old(self).order().len() as int),
                old(self).available_downloads@.dom(),
                old(self).active_downloads@,
            ),
            !old(self).order().is_prefix_of(ids::texts(file_ids@)) ==> final(self).in_sync(),
            old(self).in_sync() ==> final(self).in_sync(),
            old(self).wf() ==> final(self).wf(),
    {
        if same_ids(&file_ids, &self.desired_pending_order) {
            return;
        }
        if starts_with_ids(&file_ids, &self.desired_pending_order) {
            let known: usize = self.desired_pending_order.len();
            proof {
                let wanted = ids::texts(file_ids@);
                assert(wanted =~= self.order() + wanted.skip(known as int));
                Seq::filter_distributes_over_add(
                    self.order(),
                    wanted.skip(known as int),
                    |id: Seq<char>|
                        self.available_downloads@.dom().contains(id)
                            && !self.active_downloads@.contains(id),
                );
            }
            self.append_startable(&file_ids, known);
            self.desired_pending_order = file_ids;
            self.rebuild_desired_pending_set();
            return;
        }
        self.desired_pending_order = file_ids;
        self.rebuild_desired_pending_set();
        self.rebuild_pending_queue();
    }

    /// Takes a file out of the queue and marks it active; tells whether it was not yet active.
    pub fn claim_download(&mut self, file_id: &str) -> (claimed: bool)
        ensures
            claimed == !old(self).active_downloads@.contains(file_id@),
            final(self).active_downloads@ == old(self).active_downloads@.insert(file_id@),
            final(self).resume_priority_set@ == old(self).resume_priority_set@.remove(file_id@),
            final(self).queue() == old(self).queue().filter(|id: Seq<char>| id != file_id@),
            *final(self) == (SchedulerState {
                active_downloads: final(self).active_downloads,
                resume_priority_set: final(self).resume_priority_set,
                pending_queue: final(self).pending_queue,
                ..*old(self)
            }),
    {
        let mut claimed_ids = FileIdSet::new();
        claimed_ids.insert(file_id.to_owned());
        let none = FileIdSet::new();
        let kept = retain_queue(&self.pending_queue, &claimed_ids, &none);
        proof {
            lemma_filter_same(
                self.queue(),
                |id: Seq<char>| !claimed_ids@.contains(id) || none@.contains(id),
                |id: Seq<char>| id != file_id@,
            );
        }
        self.pending_queue = kept;
        self.resume_priority_set.remove(file_id);
        self.active_downloads.insert(file_id.to_owned())
    }

    /// Undoes a claim: the file is no longer active and heads the queue.
    pub fn release_download_claim(&mut self, file_id: FileId)
        ensures
            final(self).active_downloads@ == old(self).active_downloads@.remove(file_id@),
            final(self).queue() == seq![file_id@] + old(self).queue(),
            *final(self) == (SchedulerState {
                active_downloads: final(self).active_downloads,
                pending_queue: final(self).pending_queue,
                ..*old(self)
            }),
    {
        self.active_downloads.remove(&file_id);
        self.pending_queue.push_front(file_id);
        assert(self.queue() =~= seq![file_id@] + old(self).queue());
    }
}

/// The downloads that pausing `ids` takes out of `available`, in the order of `ids`.
pub open spec fn paused_of(
    ids: Seq<Seq<char>>,
    available: Map<Seq<char>, QueuedDownload>,
) -> Seq<QueuedDownload>
    decreases ids.len(),
{
    if ids.len() == 0 {
        Seq::empty()
    } else {
        let earlier = ids.drop_last();
        let id = ids.last();
        if available.dom().contains(id) && !earlier.contains(id) {
            paused_of(earlier, available).push(available[id])
        } else {
            paused_of(earlier, available)
        }
    }
}

/// The output paths of a list of downloads.
pub open spec fn paths_of(downloads: Seq<QueuedDownload>) -> Seq<Seq<char>> {
    downloads.map_values(|download: QueuedDownload| download.item.path@)
}

/// `available` with each of `downloads` put in under its path.
pub open spec fn with_downloads(
    available: Map<Seq<char>, QueuedDownload>,
    downloads: Seq<QueuedDownload>,
) -> Map<Seq<char>, QueuedDownload>
    decreases downloads.len(),
{
    if downloads.len() == 0 {
        available
    } else {
        with_downloads(available, downloads.drop_last()).insert(
            downloads.last().item.path@,
            downloads.last(),
        )
    }
}

/// `order` followed by those of `paths` that `members` does not hold yet, each once.
pub open spec fn with_new_paths(
    order: Seq<Seq<char>>,
    members: Set<Seq<char>>,
    paths: Seq<Seq<char>>,
) -> Seq<Seq<char>>
    decreases paths.len(),
{
    if paths.len() == 0 {
        order
    } else {
        let earlier = paths.drop_last();
        let rest = with_new_paths(order, members, earlier);
        if members.contains(paths.last()) || earlier.contains(paths.last()) {
            rest
        } else {
            rest.push(paths.last())
        }
    }
}

/// A download that runs under the attempt that `operations` gives its path.
pub open spec fn retargeted(
    download: QueuedDownload,
    operations: Map<Seq<char>, u64>,
) -> QueuedDownload {
    if operations.dom().contains(download.item.path@) {
        QueuedDownload { attempt_id: operations[download.item.path@], ..download }
    } else {
        download
    }
}

/// Each download of `available` is kept under its own path.
pub open spec fn keyed(available: Map<Seq<char>, QueuedDownload>) -> bool {
    forall|id: Seq<char>| #[trigger]
        available.dom().contains(id) ==> available[id].item.path@ == id
}

impl SchedulerState {
    /// The state that follows `before` when an attempt at `file` has ended, the running tasks
    /// apart: a cancelled file, and one for which another attempt is already resolved, stay
    /// available and the queue is rebuilt; any other file leaves.
    pub open spec fn ended(
        &self,
        before: SchedulerState,
        file: Seq<char>,
        attempt_id: u64,
        cancelled: bool,
    ) -> bool {
        let stays = cancelled || (before.available_downloads@.dom().contains(file)
            && before.available_downloads@[file].attempt_id != attempt_id);
        &&& self.active_downloads@ == before.active_downloads@.remove(file)
        &&& self.desired_pending_order == before.desired_pending_order
        &&& self.desired_pending_set == before.desired_pending_set
        &&& self.resume_priority_set == before.resume_priority_set
        &&& stays ==> self.available_downloads@ == before.available_downloads@ && self.in_sync()
        &&& !stays ==> self.available_downloads@ == before.available_downloads@.remove(file)
            && self.queue() == before.queue().filter(|id: Seq<char>| id != file)
    }

    /// Makes the queued downloads of a batch available.
    pub fn register_resolved_batch(&mut self, batch: CollectedBatch) -> (registered: CollectedBatch)
        ensures
            registered == batch,
            final(self).available_downloads@ == with_downloads(
                old(self).available_downloads@,
                batch.queued_items@,
            ),
            *final(self) == (SchedulerState {
                available_downloads: final(self).available_downloads,
                ..*old(self)
            }),
    {
        let mut i: usize = 0;
        assert(batch.queued_items@.take(0) =~= Seq::empty());
        while i < batch.queued_items.len()
            invariant
                i <= batch.queued_items.len(),
                self.available_downloads@ == with_downloads(
                    old(self).available_downloads@,
                    batch.queued_items@.take(i as int),
                ),
                *self == (SchedulerState {
                    available_downloads: self.available_downloads,
                    ..*old(self)
                }),
            decreases batch.queued_items.len() - i,
        {
            let item = &batch.queued_items[i];
            self.available_downloads.insert(item.item.path.clone(), item.copy());
            proof {
                let longer = batch.queued_items@.take(i as int + 1);
                assert(longer.drop_last() =~= batch.queued_items@.take(i as int));
                assert(longer.last() == *item);
            }
            i = i + 1;
        }
        assert(batch.queued_items@.take(i as int) =~= batch.queued_items@);
        batch
    }

    /// Takes files out of the queue while their data is verified; active files keep their place.
    pub fn pause_file_ids(&mut self, file_ids: &Vec<FileId>) -> (paused: Vec<QueuedDownload>)
        ensures
            paused@ == paused_of(ids::texts(file_ids@), old(self).available_downloads@),
            final(self).available_downloads@ == old(self).available_downloads@.remove_keys(
                ids::texts(file_ids@).to_set(),
            ),
            final(self).resume_priority_set@ == old(self).resume_priority_set@.difference(
                ids::texts(file_ids@).to_set(),
            ),
            final(self).desired_pending_set@ == old(self).desired_pending_set@.difference(
                ids::texts(file_ids@).to_set().difference(old(self).active_downloads@),
            ),
            final(self).order() == old(self).order().filter(
                |id: Seq<char>|
                    !ids::texts(file_ids@).to_set().contains(id) || old(
                        self,
                    ).active_downloads@.contains(id),
            ),
            final(self).queue() == old(self).queue().filter(
                |id: Seq<char>|
                    !ids::texts(file_ids@).to_set().contains(id) || old(
                        self,
                    ).active_downloads@.contains(id),
            ),
            final(self).active_downloads == old(self).active_downloads,
            final(self).active_task_files == old(self).active_task_files,
            old(self).wf() ==> final(self).wf(),
    {
        let mut paused: Vec<QueuedDownload> = Vec::new();
        let removed = FileIdSet::of(file_ids);
        let ghost ids = ids::texts(file_ids@);
        let ghost active = self.active_downloads@;
        let mut i: usize = 0;
        proof {
            assert(ids.take(0) =~= Seq::empty());
            assert(ids.take(0).to_set() =~= Set::empty());
            assert(self.available_downloads@ =~= self.available_downloads@.remove_keys(
                Set::empty(),
            ));
            assert(self.resume_priority_set@ =~= self.resume_priority_set@.difference(
                Set::empty(),
            ));
            assert(self.desired_pending_set@ =~= self.desired_pending_set@.difference(
                Set::<Seq<char>>::empty().difference(active),
            ));
        }
        while i < file_ids.len()
            invariant
                i <= file_ids.len(),
                ids == ids::texts(file_ids@),
                active == old(self).active_downloads@,
                paused@ == paused_of(ids.take(i as int), old(self).available_downloads@),
                self.available_downloads@ == old(self).available_downloads@.remove_keys(
                    ids.take(i as int).to_set(),
                ),
                self.resume_priority_set@ == old(self).resume_priority_set@.difference(
                    ids.take(i as int).to_set(),
                ),
                self.desired_pending_set@ == old(self).desired_pending_set@.difference(
                    ids.take(i as int).to_set().difference(active),
                ),
                *self == (SchedulerState {
                    available_downloads: self.available_downloads,
                    resume_priority_set: self.resume_priority_set,
                    desired_pending_set: self.desired_pending_set,
                    ..*old(self)
                }),
            decreases file_ids.len() - i,
        {
            let id = &file_ids[i];
            let ghost earlier = ids.take(i as int);
            let ghost longer = ids.take(i as int + 1);
            let running = self.has_active_download(id);
            proof {
                assert(longer =~= earlier.push(id@));
                assert(longer.drop_last() =~= earlier);
                ids::lemma_push_to_set(earlier, id@);
            }
            if let Some(download) = self.available_downloads.get(id) {
                paused.push(download.copy());
            }
            self.available_downloads.remove(id);
            self.resume_priority_set.remove(id);
            if !running {
                self.desired_pending_set.remove(id);
            }
            proof {
                assert(self.available_downloads@ =~= old(self).available_downloads@.remove_keys(
                    longer.to_set(),
                ));
                assert(self.resume_priority_set@ =~= old(self).resume_priority_set@.difference(
                    longer.to_set(),
                ));
                assert(self.desired_pending_set@ =~= old(self).desired_pending_set@.difference(
                    longer.to_set().difference(active),
                ));
            }
            i = i + 1;
        }
        assert(ids.take(i as int) =~= ids);
        self.desired_pending_order = retain_ids(
            &self.desired_pending_order,
            &removed,
            &self.active_downloads,
        );
        self.pending_queue = retain_queue(&self.pending_queue, &removed, &self.active_downloads);
        proof {
            if old(self).wf() {
                lemma_filter_to_set(
                    old(self).order(),
                    |id: Seq<char>| !removed@.contains(id) || active.contains(id),
                );
                assert(self.desired_pending_set@ =~= self.order().to_set());
            }
        }
        paused
    }

    /// Puts downloads back into the queue and lets them go first.
    pub fn unpause_downloads(&mut self, downloads: Vec<QueuedDownload>)
        ensures
            final(self).available_downloads@ == with_downloads(
                old(self).available_downloads@,
                downloads@,
            ),
            final(self).desired_pending_set@ == old(self).desired_pending_set@.union(
                paths_of(downloads@).to_set(),
            ),
            final(self).order() == with_new_paths(
                old(self).order(),
                old(self).desired_pending_set@,
                paths_of(downloads@),
            ),
            final(self).queue() == old(self).queue() + paths_of(downloads@).filter(
                |id: Seq<char>| !old(self).active_downloads@.contains(id),
            ),
            final(self).resume_priority_set@ == old(self).resume_priority_set@.union(
                paths_of(downloads@).to_set(),
            ),
            final(self).active_downloads == old(self).active_downloads,
            final(self).active_task_files == old(self).active_task_files,
            old(self).wf() ==> final(self).wf(),
    {
        let ghost paths = paths_of(downloads@);
        let ghost active = self.active_downloads@;
        let ghost idle = |id: Seq<char>| !active.contains(id);
        let mut i: usize = 0;
        proof {
            reveal(Seq::filter);
            assert(downloads@.take(0) =~= Seq::empty());
            assert(paths.take(0) =~= Seq::empty());
            assert(paths.take(0).to_set() =~= Set::empty());
            assert(self.queue() =~= self.queue() + paths.take(0).filter(idle));
            assert(self.desired_pending_set@ =~= self.desired_pending_set@.union(Set::empty()));
            assert(self.resume_priority_set@ =~= self.resume_priority_set@.union(Set::empty()));
        }
        while i < downloads.len()
            invariant
                i <= downloads.len(),
                paths == paths_of(downloads@),
                active == old(self).active_downloads@,
                idle == (|id: Seq<char>| !active.contains(id)),
                self.available_downloads@ == with_downloads(
                    old(self).available_downloads@,
                    downloads@.take(i as int),
                ),
                self.desired_pending_set@ == old(self).desired_pending_set@.union(
                    paths.take(i as int).to_set(),
                ),
                self.order() == with_new_paths(
                    old(self).order(),
                    old(self).desired_pending_set@,
                    paths.take(i as int),
                ),
                self.queue() == old(self).queue() + paths.take(i as int).filter(idle),
                self.resume_priority_set@ == old(self).resume_priority_set@.union(
                    paths.take(i as int).to_set(),
                ),
                self.active_downloads == old(self).active_downloads,
                self.active_task_files == old(self).active_task_files,
                old(self).wf() ==> self.wf(),
            decreases downloads.len() - i,
        {
            let download = &downloads[i];
            let id = download.item.path.clone();
            let ghost earlier = paths.take(i as int);
            let ghost longer = paths.take(i as int + 1);
            let ghost queue_before = self.queue();
            let ghost order_before = self.order();
            let ghost set_before = self.desired_pending_set@;
            proof {
                assert(longer =~= earlier.push(id@));
                assert(longer.drop_last() =~= earlier);
                ids::lemma_push_to_set(earlier, id@);
                lemma_filter_push(earlier, id@, idle);
                assert(downloads@.take(i as int + 1).drop_last() =~= downloads@.take(i as int));
            }
            self.available_downloads.insert(id.clone(), download.copy());
            if self.desired_pending_set.insert(id.clone()) {
                self.desired_pending_order.push(id.clone());
                assert(self.order() =~= order_before.push(id@));
                proof {
                    ids::lemma_push_to_set(order_before, id@);
                }
            } else {
                assert(self.desired_pending_set@ =~= set_before);
            }
            if !self.has_active_download(&id) {
                self.pending_queue.push_back(id.clone());
                assert(self.queue() =~= queue_before.push(id@));
            }
            self.resume_priority_set.insert(id);
            proof {
                assert(self.desired_pending_set@ =~= old(self).desired_pending_set@.union(
                    longer.to_set(),
                ));
                assert(self.resume_priority_set@ =~= old(self).resume_priority_set@.union(
                    longer.to_set(),
                ));
                assert(self.queue() =~= old(self).queue() + longer.filter(idle));
            }
            i = i + 1;
        }
        assert(downloads@.take(i as int) =~= downloads@);
        assert(paths.take(i as int) =~= paths);
    }

    /// Lets files go first.
    pub fn mark_resume_priority_file_ids(&mut self, file_ids: &Vec<FileId>)
        ensures
            final(self).resume_priority_set@ == old(self).resume_priority_set@.union(
                ids::texts(file_ids@).to_set(),
            ),
            *final(self) == (SchedulerState {
                resume_priority_set: final(self).resume_priority_set,
                ..*old(self)
            }),
    {
        self.resume_priority_set.extend(file_ids);
    }

    /// Files no longer go first.
    pub fn clear_resume_priority_file_ids(&mut self, file_ids: &Vec<FileId>)
        ensures
            final(self).resume_priority_set@ == old(self).resume_priority_set@.difference(
                ids::texts(file_ids@).to_set(),
            ),
            *final(self) == (SchedulerState {
                resume_priority_set: final(self).resume_priority_set,
                ..*old(self)
            }),
    {
        let ghost ids = ids::texts(file_ids@);
        let mut i: usize = 0;
        proof {
            assert(ids.take(0).to_set() =~= Set::empty());
            assert(self.resume_priority_set@ =~= self.resume_priority_set@.difference(
                Set::empty(),
            ));
        }
        while i < file_ids.len()
            invariant
                i <= file_ids.len(),
                ids == ids::texts(file_ids@),
                self.resume_priority_set@ == old(self).resume_priority_set@.difference(
                    ids.take(i as int).to_set(),
                ),
                *self == (SchedulerState {
                    resume_priority_set: self.resume_priority_set,
                    ..*old(self)
                }),
            decreases file_ids.len() - i,
        {
            self.resume_priority_set.remove(&file_ids[i]);
            proof {
                let id = file_ids@[i as int]@;
                assert(ids.take(i as int + 1) =~= ids.take(i as int).push(id));
                ids::lemma_push_to_set(ids.take(i as int), id);
                assert(self.resume_priority_set@ =~= old(self).resume_priority_set@.difference(
                    ids.take(i as int + 1).to_set(),
                ));
            }
            i = i + 1;
        }
        assert(ids.take(i as int) =~= ids);
    }

    /// Notes that an attempt at a file has ended. A cancelled file goes back to the queue; so
    /// does one for which a newer attempt is already resolved. Any other file leaves.
    pub fn finish_download(&mut self, file_id: &str, attempt_id: u64, cancelled: bool)
        ensures
            final(self).ended(*old(self), file_id@, attempt_id, cancelled),
            final(self).active_task_files == old(self).active_task_files,
    {
        self.active_downloads.remove(file_id);
        let newer = match self.available_downloads.get(file_id) {
            Some(download) => download.attempt_id != attempt_id,
            None => false,
        };
        if cancelled || newer {
            self.rebuild_pending_queue();
            return;
        }
        self.available_downloads.remove(file_id);
        let mut finished = FileIdSet::new();
        finished.insert(file_id.to_owned());
        let none = FileIdSet::new();
        let kept = retain_queue(&self.pending_queue, &finished, &none);
        proof {
            lemma_filter_same(
                self.queue(),
                |id: Seq<char>| !finished@.contains(id) || none@.contains(id),
                |id: Seq<char>| id != file_id@,
            );
        }
        self.pending_queue = kept;
    }
}

/// The tasks other than `task_id`.
pub open spec fn other_tasks(tasks: Seq<ActiveTask>, task_id: u64) -> Seq<ActiveTask> {
    tasks.filter(|task: ActiveTask| task.task_id != task_id)
}

/// Position of the first task `task_id`, or the length of the list where there is none.
pub open spec fn task_position(tasks: Seq<ActiveTask>, task_id: u64) -> int
    decreases tasks.len(),
{
    if tasks.len() == 0 || tasks[0].task_id == task_id {
        0
    } else {
        1 + task_position(tasks.skip(1), task_id)
    }
}

/// A first task found by scanning is the task at `task_position`.
proof fn lemma_task_position(tasks: Seq<ActiveTask>, task_id: u64, at: int)
    requires
        0 <= at <= tasks.len(),
        forall|j: int| 0 <= j < at ==> (#[trigger] tasks[j]).task_id != task_id,
        at < tasks.len() ==> tasks[at].task_id == task_id,
    ensures
        task_position(tasks, task_id) == at,
    decreases tasks.len(),
{
    if tasks.len() > 0 && tasks[0].task_id != task_id {
        let rest = tasks.skip(1);
        assert forall|j: int| 0 <= j < at - 1 implies (#[trigger] rest[j]).task_id != task_id by {
            assert(rest[j] == tasks[j + 1]);
        }
        if at < tasks.len() {
            assert(rest[at - 1] == tasks[at]);
        }
        lemma_task_position(rest, task_id, at - 1);
    }
}

impl SchedulerState {
    /// Forgets a task.
    fn forget_task(&mut self, task_id: u64)
        ensures
            final(self).active_task_files@ == other_tasks(old(self).active_task_files@, task_id),
            *final(self) == (SchedulerState {
                active_task_files: final(self).active_task_files,
                ..*old(self)
            }),
    {
        let ghost other = |task: ActiveTask| task.task_id != task_id;
        let mut kept: Vec<ActiveTask> = Vec::new();
        let mut i: usize = 0;
        proof {
            reveal(Seq::filter);
            assert(self.active_task_files@.take(0).filter(other) =~= Seq::empty());
        }
        while i < self.active_task_files.len()
            invariant
                i <= self.active_task_files.len(),
                *self == *old(self),
                other == (|task: ActiveTask| task.task_id != task_id),
                kept@ == self.active_task_files@.take(i as int).filter(other),
            decreases self.active_task_files.len() - i,
        {
            let task = &self.active_task_files[i];
            proof {
                let tasks = self.active_task_files@;
                assert(tasks.take(i as int + 1) =~= tasks.take(i as int).push(*task));
                lemma_filter_push(tasks.take(i as int), *task, other);
            }
            if task.task_id != task_id {
                kept.push(
                    ActiveTask {
                        task_id: task.task_id,
                        file_id: task.file_id.clone(),
                        attempt_id: task.attempt_id,
                    },
                );
            }
            i = i + 1;
        }
        assert(self.active_task_files@.take(i as int) =~= self.active_task_files@);
        self.active_task_files = kept;
    }

    /// Takes what came back from a task and gives the events to report.
    pub fn handle_download_join_result(&mut self, result: TaskResult) -> (events: Vec<
        DownloadEvent,
    >)
        ensures
            match result {
                TaskResult::Done { task_id, file_id, attempt_id, outcome } => {
                    &&& final(self).ended(
                        *old(self),
                        file_id@,
                        attempt_id,
                        outcome is Cancelled,
                    )
                    &&& final(self).active_task_files@ == other_tasks(
                        old(self).active_task_files@,
                        task_id,
                    )
                    &&& match outcome {
                        DownloadOutcome::Failed { error } => {
                            &&& events@.len() == 1
                            &&& events@[0] matches DownloadEvent::FileError {
                                id,
                                error: message,
                                attempt_id: attempt,
                            }
                            &&& id == file_id
                            &&& message@ == "Download failed: "@ + error@
                            &&& attempt == attempt_id
                        },
                        _ => events@.len() == 0,
                    }
                },
                TaskResult::Panicked { task_id, error } => {
                    let tasks = old(self).active_task_files@;
                    let at = task_position(tasks, task_id);
                    &&& at < tasks.len() ==> final(self).ended(
                        *old(self),
                        tasks[at].file_id@,
                        tasks[at].attempt_id,
                        false,
                    )
                    &&& at >= tasks.len() ==> *final(self) == (SchedulerState {
                        active_task_files: final(self).active_task_files,
                        ..*old(self)
                    })
                    &&& final(self).active_task_files@ == other_tasks(tasks, task_id)
                    &&& events@.len() == 1
                    &&& events@[0] matches DownloadEvent::ScopeError { scope, error: message }
                    &&& scope@ == "download"@
                    &&& message@ == "Download task panicked: "@ + error@
                },
            },
    {
        let mut events: Vec<DownloadEvent> = Vec::new();
        match result {
            TaskResult::Done { task_id, file_id, attempt_id, outcome } => {
                let cancelled = matches!(outcome, DownloadOutcome::Cancelled);
                self.finish_download(&file_id, attempt_id, cancelled);
                self.forget_task(task_id);
                if let DownloadOutcome::Failed { error } = outcome {
                    events.push(
                        DownloadEvent::FileError {
                            id: file_id,
                            error: joined("Download failed: ", &error),
                            attempt_id,
                        },
                    );
                }
            },
            TaskResult::Panicked { task_id, error } => {
                let mut at: usize = 0;
                while at < self.active_task_files.len() && self.active_task_files[at].task_id
                    != task_id
                    invariant
                        at <= self.active_task_files.len(),
                        *self == *old(self),
                        forall|j: int|
                            0 <= j < at ==> (#[trigger] self.active_task_files@[j]).task_id
                                != task_id,
                    decreases self.active_task_files.len() - at,
                {
                    at = at + 1;
                }
                proof {
                    lemma_task_position(self.active_task_files@, task_id, at as int);
                }
                if at < self.active_task_files.len() {
                    let file_id = self.active_task_files[at].file_id.clone();
                    let attempt_id: u64 = self.active_task_files[at].attempt_id;
                    self.finish_download(&file_id, attempt_id, false);
                }
                self.forget_task(task_id);
                events.push(
                    DownloadEvent::ScopeError {
                        scope: "download".to_owned(),
                        error: joined("Download task panicked: ", &error),
                    },
                );
            },
        }
        events
    }

    /// The files that may start now.
    pub fn start_candidates(&self, paused: bool, concurrent_files: usize) -> (startable: Vec<
        FileId,
    >)
        ensures
            paused ==> startable@.len() == 0,
            !paused ==> ids::texts(startable@) == selection(
                self.queue(),
                self.resume_priority_set@,
                self.available_downloads@.dom(),
                self.active_downloads@,
                if self.active_downloads@.len() < concurrent_files {
                    (concurrent_files - self.active_downloads@.len()) as nat
                } else {
                    0
                },
            ),
            startable@.len() > 0 ==> self.active_downloads@.len() + startable@.len()
                <= concurrent_files,
    {
        if paused {
            return Vec::new();
        }
        let capacity: usize = concurrent_files.saturating_sub(self.active_downloads.len());
        let available = FileIdSet::of(&self.available_downloads.keys());
        select_startable_file_ids(
            &self.pending_queue,
            &self.resume_priority_set,
            &available,
            &self.active_downloads,
            capacity,
        )
    }

    /// Claims a file that may start and gives its download; nothing where the file is not
    /// resolved or already active.
    pub fn begin_start(&mut self, file_id: &str) -> (started: Option<QueuedDownload>)
        ensures
            !old(self).available_downloads@.dom().contains(file_id@) ==> {
                &&& started is None
                &&& *final(self) == *old(self)
            },
            old(self).available_downloads@.dom().contains(file_id@) ==> {
                &&& final(self).active_downloads@ == old(self).active_downloads@.insert(file_id@)
                &&& final(self).resume_priority_set@ == old(self).resume_priority_set@.remove(
                    file_id@,
                )
                &&& final(self).queue() == old(self).queue().filter(
                    |id: Seq<char>| id != file_id@,
                )
                &&& *final(self) == (SchedulerState {
                    active_downloads: final(self).active_downloads,
                    resume_priority_set: final(self).resume_priority_set,
                    pending_queue: final(self).pending_queue,
                    ..*old(self)
                })
                &&& started == if old(self).active_downloads@.contains(file_id@) {
                    None::<QueuedDownload>
                } else {
                    Some(old(self).available_downloads@[file_id@])
                }
            },
    {
        let download = match self.available_downloads.get(file_id) {
            Some(download) => download.copy(),
            None => {
                return None;
            },
        };
        if self.claim_download(file_id) {
            Some(download)
        } else {
            None
        }
    }

    /// Takes files out of the queue before their resume data is verified. A download whose file
    /// has an operation runs under that operation from here on.
    pub fn begin_reverify(
        &mut self,
        file_ids: &Vec<FileId>,
        operation_ids: &FileIdMap<u64>,
    ) -> (paused: Vec<QueuedDownload>)
        ensures
            paused@ == paused_of(ids::texts(file_ids@), old(self).available_downloads@).map_values(
                |download: QueuedDownload| retargeted(download, operation_ids@),
            ),
            final(self).available_downloads@ == old(self).available_downloads@.remove_keys(
                ids::texts(file_ids@).to_set(),
            ).map_entries(
                |id: Seq<char>, download: QueuedDownload|
                    if operation_ids@.dom().contains(id) {
                        QueuedDownload { attempt_id: operation_ids@[id], ..download }
                    } else {
                        download
                    },
            ),
            final(self).resume_priority_set@ == old(self).resume_priority_set@.difference(
                ids::texts(file_ids@).to_set(),
            ).union(paths_of(paused@).to_set()),
            final(self).desired_pending_set@ == old(self).desired_pending_set@.difference(
                ids::texts(file_ids@).to_set().difference(old(self).active_downloads@),
            ),
            final(self).order() == old(self).order().filter(
                |id: Seq<char>|
                    !ids::texts(file_ids@).to_set().contains(id) || old(
                        self,
                    ).active_downloads@.contains(id),
            ),
            final(self).queue() == old(self).queue().filter(
                |id: Seq<char>|
                    !ids::texts(file_ids@).to_set().contains(id) || old(
                        self,
                    ).active_downloads@.contains(id),
            ),
            final(self).active_downloads == old(self).active_downloads,
            final(self).active_task_files == old(self).active_task_files,
            old(self).wf() ==> final(self).wf(),
    {
        let waiting = self.pause_file_ids(file_ids);
        let ghost left = self.available_downloads@;
        let mut paused: Vec<QueuedDownload> = Vec::new();
        let mut paused_ids: Vec<FileId> = Vec::new();
        let mut i: usize = 0;
        while i < waiting.len()
            invariant
                i <= waiting.len(),
                paused@.len() == i,
                paused_ids@.len() == i,
                forall|j: int|
                    0 <= j < i ==> #[trigger] paused@[j] == retargeted(
                        waiting@[j],
                        operation_ids@,
                    ),
                forall|j: int| 0 <= j < i ==> (#[trigger] paused_ids@[j])@ == paused@[j].item.path@,
            decreases waiting.len() - i,
        {
            let mut download = waiting[i].copy();
            if let Some(operation_id) = operation_ids.get(&download.item.path) {
                download.attempt_id = *operation_id;
            }
            paused_ids.push(download.item.path.clone());
            paused.push(download);
            i = i + 1;
        }
        self.retarget_available(operation_ids);
        self.mark_resume_priority_file_ids(&paused_ids);
        proof {
            assert(paused@ =~= waiting@.map_values(
                |download: QueuedDownload| retargeted(download, operation_ids@),
            ));
            assert(ids::texts(paused_ids@) =~= paths_of(paused@));
        }
        paused
    }

    /// Lets the available downloads of files with an operation run under that operation.
    fn retarget_available(&mut self, operation_ids: &FileIdMap<u64>)
        ensures
            final(self).available_downloads@ == old(self).available_downloads@.map_entries(
                |id: Seq<char>, download: QueuedDownload|
                    if operation_ids@.dom().contains(id) {
                        QueuedDownload { attempt_id: operation_ids@[id], ..download }
                    } else {
                        download
                    },
            ),
            *final(self) == (SchedulerState {
                available_downloads: final(self).available_downloads,
                ..*old(self)
            }),
    {
        let ids = operation_ids.keys();
        let ghost listed = ids::texts(ids@);
        let mut i: usize = 0;
        while i < ids.len()
            invariant
                i <= ids.len(),
                listed == ids::texts(ids@),
                listed.to_set() == operation_ids@.dom(),
                self.available_downloads@.dom() == old(self).available_downloads@.dom(),
                forall|id: Seq<char>| #[trigger]
                    old(self).available_downloads@.dom().contains(id)
                        ==> self.available_downloads@[id] == if listed.take(i as int).contains(id) {
                        QueuedDownload {
                            attempt_id: operation_ids@[id],
                            ..old(self).available_downloads@[id]
                        }
                    } else {
                        old(self).available_downloads@[id]
                    },
                *self == (SchedulerState {
                    available_downloads: self.available_downloads,
                    ..*old(self)
                }),
            decreases ids.len() - i,
        {
            let id = &ids[i];
            let ghost before = self.available_downloads@;
            proof {
                assert(listed[i as int] == id@);
                assert(listed.to_set().contains(id@));
                assert(listed.take(i as int + 1) =~= listed.take(i as int).push(id@));
                ids::lemma_push_to_set(listed.take(i as int), id@);
                assert forall|other: Seq<char>| #[trigger] listed.take(i as int + 1).contains(other)
                    == (listed.take(i as int).contains(other) || other == id@) by {
                    assert(listed.take(i as int + 1).to_set().contains(other) == listed.take(
                        i as int,
                    ).to_set().insert(id@).contains(other));
                }
            }
            let changed = match (self.available_downloads.get(id), operation_ids.get(id)) {
                (Some(download), Some(operation_id)) => {
                    let mut changed = download.copy();
                    changed.attempt_id = *operation_id;
                    Some(changed)
                },
                _ => None,
            };
            if let Some(download) = changed {
                self.available_downloads.insert(id.clone(), download);
                assert(self.available_downloads@.dom() =~= before.dom());
            }
            i = i + 1;
        }
        proof {
            assert(listed.take(i as int) =~= listed);
            assert forall|id: Seq<char>| listed.contains(id) == operation_ids@.dom().contains(id) by {
                assert(listed.to_set().contains(id) == operation_ids@.dom().contains(id));
            }
            assert(self.available_downloads@ =~= old(self).available_downloads@.map_entries(
                |id: Seq<char>, download: QueuedDownload|
                    if operation_ids@.dom().contains(id) {
                        QueuedDownload { attempt_id: operation_ids@[id], ..download }
                    } else {
                        download
                    },
            ));
        }
    }

    /// Puts files back after their resume data was verified; only those that passed go first.
    pub fn finish_reverify(
        &mut self,
        file_ids: &Vec<FileId>,
        paused: Vec<QueuedDownload>,
        reverified: &FileIdSet,
    )
        ensures
            final(self).available_downloads@ == with_downloads(
                old(self).available_downloads@,
                paused@,
            ),
            final(self).desired_pending_set@ == old(self).desired_pending_set@.union(
                paths_of(paused@).to_set(),
            ),
            final(self).order() == with_new_paths(
                old(self).order(),
                old(self).desired_pending_set@,
                paths_of(paused@),
            ),
            final(self).queue() == old(self).queue() + paths_of(paused@).filter(
                |id: Seq<char>| !old(self).active_downloads@.contains(id),
            ),
            final(self).resume_priority_set@ == old(self).resume_priority_set@.union(
                paths_of(paused@).to_set(),
            ).difference(ids::texts(file_ids@).to_set().difference(reverified@)),
            final(self).active_downloads == old(self).active_downloads,
            final(self).active_task_files == old(self).active_task_files,
            old(self).wf() ==> final(self).wf(),
    {
        let mut paused_ids: Vec<FileId> = Vec::new();
        let mut i: usize = 0;
        while i < paused.len()
            invariant
                i <= paused.len(),
                paused_ids@.len() == i,
                forall|j: int| 0 <= j < i ==> (#[trigger] paused_ids@[j])@ == paused@[j].item.path@,
            decreases paused.len() - i,
        {
            paused_ids.push(paused[i].item.path.clone());
            i = i + 1;
        }
        assert(ids::texts(paused_ids@) =~= paths_of(paused@));
        let none = FileIdSet::new();
        let failed_paused = retain_ids(&paused_ids, reverified, &none);
        let failed = retain_ids(file_ids, reverified, &none);
        proof {
            let keep = |id: Seq<char>| !reverified@.contains(id) || none@.contains(id);
            lemma_filter_to_set(ids::texts(paused_ids@), keep);
            lemma_filter_to_set(ids::texts(file_ids@), keep);
            assert(ids::texts(failed@).to_set() =~= ids::texts(file_ids@).to_set().difference(reverified@));
        }
        self.clear_resume_priority_file_ids(&failed_paused);
        let ghost cleared = self.resume_priority_set@;
        self.unpause_downloads(paused);
        self.clear_resume_priority_file_ids(&failed);
        proof {
            let paths = paths_of(paused@).to_set();
            assert(cleared.union(paths) =~= old(self).resume_priority_set@.union(paths));
        }
    }
}

/// The texts that a filtered list holds.
pub proof fn lemma_filter_to_set(list: Seq<Seq<char>>, keep: spec_fn(Seq<char>) -> bool)
    ensures
        forall|text: Seq<char>| #[trigger]
            list.filter(keep).to_set().contains(text) == (list.to_set().contains(text) && keep(
                text,
            )),
    decreases list.len(),
{
    reveal(Seq::filter);
    if list.len() > 0 {
        let earlier = list.drop_last();
        lemma_filter_to_set(earlier, keep);
        assert(list =~= earlier.push(list.last()));
        ids::lemma_push_to_set(earlier, list.last());
        ids::lemma_push_to_set(earlier.filter(keep), list.last());
    }
}

/// Filtering by two conditions that agree on every entry.
pub proof fn lemma_filter_same(
    list: Seq<Seq<char>>,
    a: spec_fn(Seq<char>) -> bool,
    b: spec_fn(Seq<char>) -> bool,
)
    requires
        forall|i: int| 0 <= i < list.len() ==> a(#[trigger] list[i]) == b(list[i]),
    ensures
        list.filter(a) == list.filter(b),
    decreases list.len(),
{
    reveal(Seq::filter);
    if list.len() > 0 {
        assert forall|i: int| 0 <= i < list.drop_last().len() implies a(
            #[trigger] list.drop_last()[i],
        ) == b(list.drop_last()[i]) by {
            assert(list.drop_last()[i] == list[i]);
        }
        lemma_filter_same(list.drop_last(), a, b);
        assert(a(list[list.len() - 1]) == b(list[list.len() - 1]));
    }
}

/// The entries of a list that are not removed, or are active, in order.
fn retain_ids(list: &Vec<FileId>, removed: &FileIdSet, active: &FileIdSet) -> (kept: Vec<FileId>)
    ensures
        ids::texts(kept@) == ids::texts(list@).filter(
            |id: Seq<char>| !removed@.contains(id) || active@.contains(id),
        ),
{
    let ghost keep = |id: Seq<char>| !removed@.contains(id) || active@.contains(id);
    let mut kept: Vec<FileId> = Vec::new();
    let mut i: usize = 0;
    proof {
        reveal(Seq::filter);
        assert(ids::texts(list@).take(0).filter(keep) =~= Seq::empty());
        assert(ids::texts(kept@) =~= Seq::empty());
    }
    while i < list.len()
        invariant
            i <= list.len(),
            keep == (|id: Seq<char>| !removed@.contains(id) || active@.contains(id)),
            ids::texts(kept@) == ids::texts(list@).take(i as int).filter(keep),
        decreases list.len() - i,
    {
        let id = &list[i];
        let ghost before = kept@;
        proof {
            assert(ids::texts(list@).take(i as int + 1) =~= ids::texts(list@).take(i as int).push(id@));
            lemma_filter_push(ids::texts(list@).take(i as int), id@, keep);
        }
        if !removed.contains(id) || active.contains(id) {
            kept.push(id.clone());
            assert(ids::texts(kept@) =~= ids::texts(before).push(id@));
        }
        i = i + 1;
    }
    assert(ids::texts(list@).take(i as int) =~= ids::texts(list@));
    kept
}

/// The entries of a queue that are not removed, or are active, in order.
fn retain_queue(
    list: &VecDeque<FileId>,
    removed: &FileIdSet,
    active: &FileIdSet,
) -> (kept: VecDeque<FileId>)
    ensures
        ids::texts(kept@) == ids::texts(list@).filter(
            |id: Seq<char>| !removed@.contains(id) || active@.contains(id),
        ),
{
    let ghost keep = |id: Seq<char>| !removed@.contains(id) || active@.contains(id);
    let mut kept: VecDeque<FileId> = VecDeque::new();
    let mut i: usize = 0;
    proof {
        reveal(Seq::filter);
        assert(ids::texts(list@).take(0).filter(keep) =~= Seq::empty());
        assert(ids::texts(kept@) =~= Seq::empty());
    }
    while i < list.len()
        invariant
            i <= list.len(),
            keep == (|id: Seq<char>| !removed@.contains(id) || active@.contains(id)),
            ids::texts(kept@) == ids::texts(list@).take(i as int).filter(keep),
        decreases list.len() - i,
    {
        let id = &list[i];
        let ghost before = kept@;
        proof {
            assert(ids::texts(list@).take(i as int + 1) =~= ids::texts(list@).take(i as int).push(id@));
            lemma_filter_push(ids::texts(list@).take(i as int), id@, keep);
        }
        if !removed.contains(id) || active.contains(id) {
            kept.push_back(id.clone());
            assert(ids::texts(kept@) =~= ids::texts(before).push(id@));
        }
        i = i + 1;
    }
    assert(ids::texts(list@).take(i as int) =~= ids::texts(list@));
    kept
}

} // verus!
