//! Files of one batch that would be written to the same path.

use vstd::prelude::*;

use crate::batch::{DownloadItem, QueuedDownload};
use crate::ids::FileIdSet;
use crate::text::{self, decimal_text, rsplit_once, same_text};

verus! {

/// What is known of a remote file when two of them claim one path.
#[derive(Clone, Copy, Debug, PartialEq, Eq)]
pub struct BatchItemSnapshot {
    pub size: u64,
    pub modified_at: Option<i64>,
    pub sparse_checksum: Option<[u8; 16]>,
}

/// The list that a file of a batch belongs to.
#[derive(Clone, Copy, Debug, PartialEq, Eq, Structural)]
pub enum BatchDestination {
    Queued,
    Completed,
}

/// A file of a batch.
#[derive(Clone, Copy, Debug, PartialEq, Eq, Structural)]
pub struct BatchItemRef {
    pub destination: BatchDestination,
    pub index: usize,
}

/// The text that names the package of a download: its package, or the link it came from.
pub open spec fn package_of(item: QueuedDownload) -> Seq<char> {
    match item.resolved.package_id {
        Some(package) => package.text(),
        None => item.resolved.source_url@,
    }
}

/// The text that names the package of a download: its package, or the link it came from.
pub fn batch_item_package_id(item: &QueuedDownload) -> (package: String)
    ensures
        package@ == package_of(*item),
{
    match item.resolved.package_id {
        Some(package) => package.to_text(),
        None => item.resolved.source_url.clone(),
    }
}

/// What is known of the remote file behind a download.
pub open spec fn snapshot_of(item: QueuedDownload) -> BatchItemSnapshot {
    BatchItemSnapshot {
        size: item.item.size,
        modified_at: item.item.modified_at,
        sparse_checksum: item.item.sparse_checksum,
    }
}

/// What is known of the remote file behind a download.
pub fn batch_item_snapshot(item: &QueuedDownload) -> (snapshot: BatchItemSnapshot)
    ensures
        snapshot == snapshot_of(*item),
{
    BatchItemSnapshot {
        size: item.item.size,
        modified_at: item.item.modified_at,
        sparse_checksum: item.item.sparse_checksum,
    }
}

/// Two remote files are taken for the same: by checksum where both have one, else by size and a
/// known time of change.
pub open spec fn files_match(left: BatchItemSnapshot, right: BatchItemSnapshot) -> bool {
    match (left.sparse_checksum, right.sparse_checksum) {
        (Some(a), Some(b)) => a@ == b@,
        _ => left.size == right.size && left.modified_at is Some && left.modified_at
            == right.modified_at,
    }
}

/// Whether two checksums are equal.
fn same_checksum(a: &[u8; 16], b: &[u8; 16]) -> (same: bool)
    ensures
        same == (a@ == b@),
{
    let mut i: usize = 0;
    while i < 16
        invariant
            i <= 16,
            forall|j: int| 0 <= j < i ==> a@[j] == b@[j],
        decreases 16 - i,
    {
        if a[i] != b[i] {
            return false;
        }
        i = i + 1;
    }
    assert(a@ =~= b@);
    true
}

/// Whether two remote files are taken for the same.
pub fn remote_files_match(left: &BatchItemSnapshot, right: &BatchItemSnapshot) -> (matching: bool)
    ensures
        matching == files_match(*left, *right),
{
    match (&left.sparse_checksum, &right.sparse_checksum) {
        (Some(a), Some(b)) => same_checksum(a, b),
        _ => {
            let same_date = match (left.modified_at, right.modified_at) {
                (Some(a), Some(b)) => a == b,
                _ => false,
            };
            left.size == right.size && same_date
        },
    }
}

/// Two files that both have a checksum are taken for the same exactly where all bytes of the
/// checksums are equal, whatever else is known of them.
pub proof fn law_checksums_decide(
    left: BatchItemSnapshot,
    right: BatchItemSnapshot,
    a: [u8; 16],
    b: [u8; 16],
)
    requires
        left.sparse_checksum == Some(a),
        right.sparse_checksum == Some(b),
    ensures
        files_match(left, right) <==> forall|k: int| 0 <= k < 16 ==> #[trigger] a@[k] == b@[k],
{
    if forall|k: int| 0 <= k < 16 ==> #[trigger] a@[k] == b@[k] {
        assert(a@ =~= b@);
    }
}

/// Where a checksum is missing, files are taken for the same exactly where they are equally large
/// and both are known to have been changed at the same time.
pub proof fn law_size_and_time_decide_without_checksums(
    left: BatchItemSnapshot,
    right: BatchItemSnapshot,
)
    requires
        left.sparse_checksum is None || right.sparse_checksum is None,
    ensures
        files_match(left, right) <==> left.size == right.size && exists|time: i64|
            left.modified_at == Some(time) && right.modified_at == Some(time),
{
    if files_match(left, right) {
        let time = left.modified_at->0;
        assert(left.modified_at == Some(time) && right.modified_at == Some(time));
    }
}

/// Which of two files comes first makes no difference to whether they are taken for the same.
pub proof fn law_matching_is_mutual(left: BatchItemSnapshot, right: BatchItemSnapshot)
    ensures
        files_match(left, right) == files_match(right, left),
{
}

/// What stands before the number in a renamed path.
pub open spec fn duplicate_head(path: Seq<char>) -> Seq<char> {
    let (parent, file) = match text::split_at_last(path, '/') {
        Some((parent, file)) => (parent, file),
        None => (Seq::empty(), path),
    };
    let stem = match text::split_at_last(file, '.') {
        Some((stem, extension)) => if stem.len() > 0 {
            stem
        } else {
            file
        },
        None => file,
    };
    if parent.len() == 0 {
        stem + " ("@
    } else {
        parent + "/"@ + stem + " ("@
    }
}

/// What stands behind the number in a renamed path.
pub open spec fn duplicate_tail(path: Seq<char>) -> Seq<char> {
    let file = match text::split_at_last(path, '/') {
        Some((parent, file)) => file,
        None => path,
    };
    match text::split_at_last(file, '.') {
        Some((stem, extension)) => if stem.len() > 0 && extension.len() > 0 {
            ")."@ + extension
        } else {
            ")"@
        },
        None => ")"@,
    }
}

/// `path` with a number behind the stem of its file name.
pub open spec fn duplicate_text(path: Seq<char>, ordinal: nat) -> Seq<char> {
    duplicate_head(path) + text::decimal(ordinal) + duplicate_tail(path)
}

/// `path` with a number behind the stem of its file name.
pub fn duplicate_path(path: &str, ordinal: usize) -> (renamed: String)
    ensures
        renamed@ == duplicate_text(path@, ordinal as nat),
{
    let (parent, file_name) = match rsplit_once(path, '/') {
        Some((parent, file)) => (parent, file),
        None => (String::new(), path.to_owned()),
    };
    let (stem, extension) = match rsplit_once(&file_name, '.') {
        Some((stem, extension)) => if !stem.as_str().is_empty() {
            (stem, extension)
        } else {
            (file_name, String::new())
        },
        None => (file_name, String::new()),
    };
    let mut renamed = String::new();
    if !parent.as_str().is_empty() {
        renamed.append(&parent);
        renamed.append("/");
    }
    renamed.append(&stem);
    renamed.append(" (");
    assert(renamed@ =~= duplicate_head(path@));
    renamed.append(&decimal_text(ordinal as u64));
    if extension.as_str().is_empty() {
        renamed.append(")");
    } else {
        renamed.append(").");
        renamed.append(&extension);
    }
    assert(renamed@ =~= duplicate_text(path@, ordinal as nat));
    renamed
}

/// Different numbers give different paths.
pub proof fn law_duplicate_paths_differ(path: Seq<char>, a: nat, b: nat)
    requires
        a != b,
    ensures
        duplicate_text(path, a) != duplicate_text(path, b),
{
    if duplicate_text(path, a) == duplicate_text(path, b) {
        let head = duplicate_head(path);
        let tail = duplicate_tail(path);
        let da = text::decimal(a);
        let db = text::decimal(b);
        let whole = duplicate_text(path, a);
        assert(whole.len() == head.len() + da.len() + tail.len());
        assert(duplicate_text(path, b).len() == head.len() + db.len() + tail.len());
        assert(whole.subrange(head.len() as int, (head.len() + da.len()) as int) =~= da);
        assert(duplicate_text(path, b).subrange(
            head.len() as int,
            (head.len() + db.len()) as int,
        ) =~= db);
        text::lemma_decimal_injective(a, b);
    }
}

/// Whether `ordinal` is the least number from two on that gives `path` an unused name.
pub open spec fn is_free_ordinal(path: Seq<char>, used: Set<Seq<char>>, ordinal: nat) -> bool {
    &&& ordinal >= 2
    &&& !used.contains(duplicate_text(path, ordinal))
    &&& forall|smaller: nat|
        2 <= smaller < ordinal ==> used.contains(#[trigger] duplicate_text(path, smaller))
}

/// The least number from two on that gives `path` an unused name.
pub open spec fn free_ordinal(path: Seq<char>, used: Set<Seq<char>>) -> nat {
    choose|ordinal: nat| is_free_ordinal(path, used, ordinal)
}

/// The name that a second file with `path` gets.
pub open spec fn free_path(path: Seq<char>, used: Set<Seq<char>>) -> Seq<char> {
    duplicate_text(path, free_ordinal(path, used))
}

/// There is one least number.
proof fn lemma_free_ordinal(path: Seq<char>, used: Set<Seq<char>>, ordinal: nat)
    requires
        is_free_ordinal(path, used, ordinal),
    ensures
        free_ordinal(path, used) == ordinal,
{
    let other = free_ordinal(path, used);
    assert(is_free_ordinal(path, used, other));
    if other < ordinal {
        assert(used.contains(duplicate_text(path, other)));
    } else if ordinal < other {
        assert(used.contains(duplicate_text(path, ordinal)));
    }
}

/// While only finitely many paths are used there is an unused name: the search that has tried
/// the numbers below `ordinal` ends.
proof fn lemma_search_ends(
    path: Seq<char>,
    used: Set<Seq<char>>,
    ordinal: nat,
    tried: Set<Seq<char>>,
)
    requires
        used.finite(),
        ordinal >= 2,
        tried.subset_of(used),
        tried.len() == ordinal - 2,
        forall|smaller: nat|
            2 <= smaller < ordinal ==> used.contains(#[trigger] duplicate_text(path, smaller)),
        forall|name: Seq<char>| #[trigger]
            tried.contains(name) ==> exists|smaller: nat|
                2 <= smaller < ordinal && name == duplicate_text(path, smaller),
    ensures
        is_free_ordinal(path, used, free_ordinal(path, used)),
    decreases used.len() + 2 - ordinal,
{
    vstd::set_lib::lemma_len_subset(tried, used);
    let name = duplicate_text(path, ordinal);
    if !used.contains(name) {
        assert(is_free_ordinal(path, used, ordinal));
    } else {
        if tried.contains(name) {
            let smaller = choose|smaller: nat|
                2 <= smaller < ordinal && name == duplicate_text(path, smaller);
            law_duplicate_paths_differ(path, smaller, ordinal);
        }
        let more = tried.insert(name);
        vstd::set_lib::lemma_len_subset(more, used);
        assert forall|other: Seq<char>| #[trigger] more.contains(other) implies exists|
            smaller: nat,
        |
            2 <= smaller < ordinal + 1 && other == duplicate_text(path, smaller) by {
            if other == name {
                assert(other == duplicate_text(path, ordinal));
            } else {
                let smaller = choose|smaller: nat|
                    2 <= smaller < ordinal && other == duplicate_text(path, smaller);
                assert(2 <= smaller < ordinal + 1 && other == duplicate_text(path, smaller));
            }
        }
        lemma_search_ends(path, used, ordinal + 1, more);
    }
}

/// While only finitely many paths are used there is an unused name.
pub proof fn law_unused_name_exists(path: Seq<char>, used: Set<Seq<char>>)
    requires
        used.finite(),
    ensures
        is_free_ordinal(path, used, free_ordinal(path, used)),
        !used.contains(free_path(path, used)),
{
    lemma_search_ends(path, used, 2, Set::empty());
}

/// Reserves and gives the first unused name of `path` with a number.
pub fn next_available_duplicate_path(path: &str, used_paths: &mut FileIdSet) -> (renamed: String)
    requires
        old(used_paths)@.len() + 3 < usize::MAX,
    ensures
        renamed@ == free_path(path@, old(used_paths)@),
        is_free_ordinal(path@, old(used_paths)@, free_ordinal(path@, old(used_paths)@)),
        final(used_paths)@ == old(used_paths)@.insert(renamed@),
{
    let count: usize = used_paths.len();
    let mut ordinal: usize = 2;
    let ghost mut tried: Set<Seq<char>> = Set::empty();
    loop
        invariant
            *used_paths == *old(used_paths),
            used_paths@.finite(),
            count == used_paths@.len(),
            count + 3 < usize::MAX,
            2 <= ordinal <= count + 2,
            tried.finite(),
            tried.len() == ordinal - 2,
            tried.subset_of(used_paths@),
            forall|smaller: nat|
                2 <= smaller < ordinal ==> used_paths@.contains(
                    #[trigger] duplicate_text(path@, smaller),
                ),
            forall|name: Seq<char>| #[trigger]
                tried.contains(name) ==> exists|smaller: nat|
                    2 <= smaller < ordinal && name == duplicate_text(path@, smaller),
        decreases count + 2 - ordinal,
    {
        let candidate = duplicate_path(path, ordinal);
        if !used_paths.contains(&candidate) {
            proof {
                assert(is_free_ordinal(path@, used_paths@, ordinal as nat));
                lemma_free_ordinal(path@, used_paths@, ordinal as nat);
            }
            used_paths.insert(candidate.clone());
            return candidate;
        }
        proof {
            let name = candidate@;
            if tried.contains(name) {
                let smaller = choose|smaller: nat|
                    2 <= smaller < ordinal && name == duplicate_text(path@, smaller);
                law_duplicate_paths_differ(path@, smaller, ordinal as nat);
            }
            tried = tried.insert(name);
            vstd::set_lib::lemma_len_subset(tried, used_paths@);
            assert forall|other: Seq<char>| #[trigger] tried.contains(other) implies exists|
                smaller: nat,
            |
                2 <= smaller < ordinal + 1 && other == duplicate_text(path@, smaller) by {
                if other == name {
                    assert(other == duplicate_text(path@, ordinal as nat));
                } else {
                    let smaller = choose|smaller: nat|
                        2 <= smaller < ordinal && other == duplicate_text(path@, smaller);
                    assert(2 <= smaller < ordinal + 1 && other == duplicate_text(path@, smaller));
                }
            }
        }
        ordinal = ordinal + 1;
    }
}

/// A download of a batch together with the path that it has come to have.
pub struct Placed {
    pub download: QueuedDownload,
    pub path: Seq<char>,
}

/// The files of a batch: the two lists, which file has which path of which package, and the
/// paths that are taken.
pub struct BatchModel {
    pub queued: Seq<Placed>,
    pub completed: Seq<Placed>,
    pub index: Map<(Seq<char>, Seq<char>), BatchItemRef>,
    pub used: Set<Seq<char>>,
}

impl BatchModel {
    /// The batch without files.
    pub open spec fn empty() -> BatchModel {
        BatchModel {
            queued: Seq::empty(),
            completed: Seq::empty(),
            index: Map::empty(),
            used: Set::empty(),
        }
    }

    /// The list of a destination.
    pub open spec fn list(self, destination: BatchDestination) -> Seq<Placed> {
        match destination {
            BatchDestination::Queued => self.queued,
            BatchDestination::Completed => self.completed,
        }
    }

    /// The batch with another list for a destination.
    pub open spec fn with_list(
        self,
        destination: BatchDestination,
        list: Seq<Placed>,
    ) -> BatchModel {
        match destination {
            BatchDestination::Queued => BatchModel { queued: list, ..self },
            BatchDestination::Completed => BatchModel { completed: list, ..self },
        }
    }

    /// The file that a reference means.
    pub open spec fn at(self, item: BatchItemRef) -> Placed {
        self.list(item.destination)[item.index as int]
    }

    /// Each file is found under its package and path, and each path of a file is taken.
    pub open spec fn wf(self) -> bool {
        &&& self.used.finite()
        &&& forall|destination: BatchDestination, i: int|
            #![trigger self.list(destination)[i]]
            0 <= i < self.list(destination).len() ==> {
                let placed = self.list(destination)[i];
                let key = (package_of(placed.download), placed.path);
                &&& self.index.dom().contains(key)
                &&& self.index[key].destination == destination
                &&& self.index[key].index == i
                &&& self.used.contains(placed.path)
            }
        &&& forall|key: (Seq<char>, Seq<char>)| #[trigger]
            self.index.dom().contains(key) ==> {
                let item = self.index[key];
                &&& item.index < self.list(item.destination).len()
                &&& self.at(item).path == key.1
                &&& package_of(self.at(item).download) == key.0
            }
    }

    /// The batch after a file has been given another path.
    pub open spec fn renamed(
        self,
        item: BatchItemRef,
        package: Seq<char>,
        old_path: Seq<char>,
        new_path: Seq<char>,
    ) -> BatchModel {
        let list = self.list(item.destination);
        let moved = Placed { path: new_path, ..list[item.index as int] };
        let changed = self.with_list(item.destination, list.update(item.index as int, moved));
        BatchModel {
            index: self.index.remove((package, old_path)).insert((package, new_path), item),
            used: self.used.insert(new_path),
            ..changed
        }
    }

    /// The batch with a file added under `path`.
    pub open spec fn added(
        self,
        item: QueuedDownload,
        path: Seq<char>,
        destination: BatchDestination,
    ) -> BatchModel {
        let list = self.list(destination);
        let at = BatchItemRef { destination, index: list.len() as usize };
        let changed = self.with_list(destination, list.push(Placed { download: item, path }));
        BatchModel {
            index: self.index.insert((package_of(item), path), at),
            used: self.used.insert(path),
            ..changed
        }
    }

    /// The batch after a file arrives: a file taken for one that is there is dropped; of two
    /// others with one path the smaller, or the later of two equally large, is renamed.
    pub open spec fn inserted(
        self,
        item: QueuedDownload,
        destination: BatchDestination,
    ) -> BatchModel {
        let package = package_of(item);
        let path = item.item.path@;
        if !self.index.dom().contains((package, path)) {
            self.added(item, path, destination)
        } else {
            let known = self.index[(package, path)];
            let existing = self.at(known).download;
            let fresh = free_path(path, self.used);
            if files_match(snapshot_of(existing), snapshot_of(item)) {
                self
            } else if item.item.size > existing.item.size {
                self.renamed(known, package, path, fresh).added(item, path, destination)
            } else {
                BatchModel { used: self.used.insert(fresh), ..self }.added(item, fresh, destination)
            }
        }
    }

    /// The batch after files arrive one by one.
    pub open spec fn all_inserted(
        self,
        items: Seq<QueuedDownload>,
        destination: BatchDestination,
    ) -> BatchModel
        decreases items.len(),
    {
        if items.len() == 0 {
            self
        } else {
            self.all_inserted(items.drop_last(), destination).inserted(items.last(), destination)
        }
    }

    /// Whether the batch holds a file of the same package and path that is taken for `item`.
    pub open spec fn holds_match(self, item: QueuedDownload) -> bool {
        exists|destination: BatchDestination, i: int|
            #![trigger self.list(destination)[i]]
            {
                &&& 0 <= i < self.list(destination).len()
                &&& package_of(self.list(destination)[i].download) == package_of(item)
                &&& self.list(destination)[i].path == item.item.path@
                &&& files_match(
                    snapshot_of(self.list(destination)[i].download),
                    snapshot_of(item),
                )
            }
    }

    /// The batch that files make up which arrive one by one, each for its own list.
    pub open spec fn of_arrivals(
        arrivals: Seq<(QueuedDownload, BatchDestination)>,
    ) -> BatchModel
        decreases arrivals.len(),
    {
        if arrivals.len() == 0 {
            BatchModel::empty()
        } else {
            let (item, destination) = arrivals.last();
            BatchModel::of_arrivals(arrivals.drop_last()).inserted(item, destination)
        }
    }

    /// How many files the batch holds.
    pub open spec fn size(self) -> nat {
        self.queued.len() + self.completed.len()
    }
}

/// No two files of a batch share a package and a path.
pub proof fn law_paths_are_unique(
    batch: BatchModel,
    a: BatchDestination,
    i: int,
    b: BatchDestination,
    j: int,
)
    requires
        batch.wf(),
        0 <= i < batch.list(a).len(),
        0 <= j < batch.list(b).len(),
        package_of(batch.list(a)[i].download) == package_of(batch.list(b)[j].download),
        batch.list(a)[i].path == batch.list(b)[j].path,
    ensures
        a == b,
        i == j,
{
}

/// Adding a file under a path that its package does not have yet keeps the batch well formed.
pub proof fn law_added_keeps_wf(
    batch: BatchModel,
    item: QueuedDownload,
    path: Seq<char>,
    destination: BatchDestination,
)
    requires
        batch.wf(),
        batch.list(destination).len() < usize::MAX,
        !batch.index.dom().contains((package_of(item), path)),
    ensures
        batch.added(item, path, destination).wf(),
{
    let after = batch.added(item, path, destination);
    let list = batch.list(destination);
    assert forall|d: BatchDestination, i: int|
        #![trigger after.list(d)[i]]
        0 <= i < after.list(d).len() implies {
        let placed = after.list(d)[i];
        let key = (package_of(placed.download), placed.path);
        &&& after.index.dom().contains(key)
        &&& after.index[key].destination == d
        &&& after.index[key].index == i
        &&& after.used.contains(placed.path)
    } by {
        if d == destination && i == list.len() {
        } else {
            assert(after.list(d)[i] == batch.list(d)[i]);
        }
    }
    assert forall|key: (Seq<char>, Seq<char>)| #[trigger] after.index.dom().contains(key) implies {
        let found = after.index[key];
        &&& found.index < after.list(found.destination).len()
        &&& after.at(found).path == key.1
        &&& package_of(after.at(found).download) == key.0
    } by {
        if key != (package_of(item), path) {
            assert(batch.index.dom().contains(key));
        }
    }
}

/// Giving a file an unused path keeps the batch well formed and frees the old path.
pub proof fn law_renamed_keeps_wf(
    batch: BatchModel,
    package: Seq<char>,
    old_path: Seq<char>,
    new_path: Seq<char>,
)
    requires
        batch.wf(),
        batch.index.dom().contains((package, old_path)),
        !batch.used.contains(new_path),
    ensures
        batch.renamed(batch.index[(package, old_path)], package, old_path, new_path).wf(),
        !batch.renamed(
            batch.index[(package, old_path)],
            package,
            old_path,
            new_path,
        ).index.dom().contains((package, old_path)),
{
    let item = batch.index[(package, old_path)];
    let after = batch.renamed(item, package, old_path, new_path);
    assert(batch.used.contains(old_path)) by {
        assert(batch.list(item.destination)[item.index as int].path == old_path);
    }
    assert forall|d: BatchDestination, i: int|
        #![trigger after.list(d)[i]]
        0 <= i < after.list(d).len() implies {
        let placed = after.list(d)[i];
        let key = (package_of(placed.download), placed.path);
        &&& after.index.dom().contains(key)
        &&& after.index[key].destination == d
        &&& after.index[key].index == i
        &&& after.used.contains(placed.path)
    } by {
        let before = batch.list(d)[i];
        if d == item.destination && i == item.index {
        } else {
            assert(after.list(d)[i] == before);
            assert(before.path != new_path);
            assert((package_of(before.download), before.path) != (package, old_path));
        }
    }
    assert forall|key: (Seq<char>, Seq<char>)| #[trigger] after.index.dom().contains(key) implies {
        let found = after.index[key];
        &&& found.index < after.list(found.destination).len()
        &&& after.at(found).path == key.1
        &&& package_of(after.at(found).download) == key.0
    } by {
        if key != (package, new_path) {
            assert(batch.index.dom().contains(key));
            let found = batch.index[key];
            assert(found != item);
            assert(after.at(found) == batch.at(found));
        }
    }
}

/// A file that arrives keeps the batch well formed and makes it longer by at most one.
pub proof fn law_inserted_keeps_wf(
    batch: BatchModel,
    item: QueuedDownload,
    destination: BatchDestination,
)
    requires
        batch.wf(),
        batch.list(destination).len() < usize::MAX,
    ensures
        batch.inserted(item, destination).wf(),
        batch.size() <= batch.inserted(item, destination).size() <= batch.size() + 1,
{
    law_unused_name_exists(item.item.path@, batch.used);
    let package = package_of(item);
    let path = item.item.path@;
    let fresh = free_path(path, batch.used);
    if !batch.index.dom().contains((package, path)) {
        law_added_keeps_wf(batch, item, path, destination);
    } else {
        let known = batch.index[(package, path)];
        let existing = batch.at(known).download;
        if files_match(snapshot_of(existing), snapshot_of(item)) {
        } else if item.item.size > existing.item.size {
            law_renamed_keeps_wf(batch, package, path, fresh);
            let moved = batch.renamed(known, package, path, fresh);
            law_added_keeps_wf(moved, item, path, destination);
        } else {
            let reserved = BatchModel { used: batch.used.insert(fresh), ..batch };
            assert(reserved.wf()) by {
                assert forall|d: BatchDestination, i: int|
                    #![trigger reserved.list(d)[i]]
                    0 <= i < reserved.list(d).len() implies {
                    let placed = reserved.list(d)[i];
                    let key = (package_of(placed.download), placed.path);
                    &&& reserved.index.dom().contains(key)
                    &&& reserved.index[key].destination == d
                    &&& reserved.index[key].index == i
                    &&& reserved.used.contains(placed.path)
                } by {
                    assert(reserved.list(d)[i] == batch.list(d)[i]);
                }
                assert forall|key: (Seq<char>, Seq<char>)| #[trigger]
                    reserved.index.dom().contains(key) implies {
                    let found = reserved.index[key];
                    &&& found.index < reserved.list(found.destination).len()
                    &&& reserved.at(found).path == key.1
                    &&& package_of(reserved.at(found).download) == key.0
                } by {
                    assert(batch.index.dom().contains(key));
                    assert(reserved.at(reserved.index[key]) == batch.at(batch.index[key]));
                }
            }
            assert(!batch.index.dom().contains((package, fresh))) by {
                if batch.index.dom().contains((package, fresh)) {
                    let found = batch.index[(package, fresh)];
                    assert(batch.list(found.destination)[found.index as int].path == fresh);
                }
            }
            law_added_keeps_wf(reserved, item, fresh, destination);
        }
    }
}

/// A file that is taken for one of its package and path leaves both lists as they are. Any other
/// file makes the list that it is for longer by one, at the end. Nothing is removed, and nothing
/// changes its position.
pub proof fn law_arrivals_add_or_change_nothing(
    batch: BatchModel,
    item: QueuedDownload,
    destination: BatchDestination,
)
    requires
        batch.wf(),
        batch.list(destination).len() < usize::MAX,
    ensures
        batch.holds_match(item) ==> batch.inserted(item, destination) == batch,
        !batch.holds_match(item) ==> {
            let list = batch.inserted(item, destination).list(destination);
            &&& list.len() == batch.list(destination).len() + 1
            &&& list.last().download == item
        },
        forall|other: BatchDestination|
            other != destination ==> (#[trigger] batch.inserted(item, destination).list(
                other,
            )).len() == batch.list(other).len(),
        forall|any: BatchDestination, i: int|
            #![trigger batch.list(any)[i]]
            0 <= i < batch.list(any).len() ==> batch.inserted(item, destination).list(
                any,
            )[i].download == batch.list(any)[i].download,
        batch.inserted(item, destination).wf(),
{
    law_inserted_keeps_wf(batch, item, destination);
    let key = (package_of(item), item.item.path@);
    if batch.index.dom().contains(key) {
        let known = batch.index[key];
        assert(batch.list(known.destination)[known.index as int] == batch.at(known));
        if batch.holds_match(item) {
            let (d, i) = choose|d: BatchDestination, i: int|
                #![trigger batch.list(d)[i]]
                {
                    &&& 0 <= i < batch.list(d).len()
                    &&& package_of(batch.list(d)[i].download) == package_of(item)
                    &&& batch.list(d)[i].path == item.item.path@
                    &&& files_match(snapshot_of(batch.list(d)[i].download), snapshot_of(item))
                };
            law_paths_are_unique(batch, d, i, known.destination, known.index as int);
        }
    }
}

/// An arrival whose checksum differs from that of the file under its package and path makes the
/// batch one file larger; the larger of the two has the path, the other one a path that was not
/// taken.
pub proof fn law_files_with_other_checksums_are_both_kept(
    batch: BatchModel,
    item: QueuedDownload,
    destination: BatchDestination,
    at: BatchDestination,
    i: int,
    known: [u8; 16],
    arriving: [u8; 16],
    k: int,
)
    requires
        batch.wf(),
        batch.list(destination).len() < usize::MAX,
        0 <= i < batch.list(at).len(),
        package_of(batch.list(at)[i].download) == package_of(item),
        batch.list(at)[i].path == item.item.path@,
        batch.list(at)[i].download.item.sparse_checksum == Some(known),
        item.item.sparse_checksum == Some(arriving),
        0 <= k < 16,
        known@[k] != arriving@[k],
    ensures
        ({
            let after = batch.inserted(item, destination);
            let held = after.list(at)[i];
            let new = after.list(destination).last();
            &&& after.queued.len() + after.completed.len() == batch.queued.len()
                + batch.completed.len() + 1
            &&& new.download == item
            &&& held.download == batch.list(at)[i].download
            &&& if item.item.size > held.download.item.size {
                new.path == item.item.path@ && !batch.used.contains(held.path)
            } else {
                held.path == item.item.path@ && !batch.used.contains(new.path)
            }
        }),
{
    law_inserted_keeps_wf(batch, item, destination);
    law_unused_name_exists(item.item.path@, batch.used);
    let placed = batch.list(at)[i];
    assert(batch.index.dom().contains((package_of(placed.download), placed.path)));
    assert(!files_match(snapshot_of(placed.download), snapshot_of(item))) by {
        law_checksums_decide(snapshot_of(placed.download), snapshot_of(item), known, arriving);
        assert(!(forall|j: int| 0 <= j < 16 ==> #[trigger] known@[j] == arriving@[j]));
    }
}

/// Where a checksum is missing, an arrival is dropped exactly where the file under its package and
/// path is equally large and both are known to have been changed at the same time; else both are
/// kept. One with the same checksum is dropped, whatever else is known of it.
pub proof fn law_arrivals_are_dropped_where_they_are_known(
    batch: BatchModel,
    item: QueuedDownload,
    destination: BatchDestination,
    at: BatchDestination,
    i: int,
)
    requires
        batch.wf(),
        batch.list(destination).len() < usize::MAX,
        0 <= i < batch.list(at).len(),
        package_of(batch.list(at)[i].download) == package_of(item),
        batch.list(at)[i].path == item.item.path@,
    ensures
        ({
            let known = batch.list(at)[i].download.item;
            let after = batch.inserted(item, destination);
            let dropped = known.size == item.item.size && known.modified_at is Some
                && item.item.modified_at is Some && known.modified_at->0
                == item.item.modified_at->0;
            &&& known.sparse_checksum is None || item.item.sparse_checksum is None ==> {
                &&& dropped ==> after == batch
                &&& !dropped ==> after.size() == batch.size() + 1
            }
            &&& known.sparse_checksum is Some && known.sparse_checksum
                == item.item.sparse_checksum ==> after == batch
        }),
{
    law_inserted_keeps_wf(batch, item, destination);
    let placed = batch.list(at)[i];
    assert(batch.index.dom().contains((package_of(placed.download), placed.path)));
}

/// The package of a download is the one that it was given, else the link that it came from:
/// downloads of one package, or of one link without packages, belong together.
pub proof fn law_downloads_belong_to_their_package(a: QueuedDownload, b: QueuedDownload)
    ensures
        a.resolved.package_id matches Some(package) ==> package_of(a) == package.text(),
        a.resolved.package_id is None ==> package_of(a) == a.resolved.source_url@,
        a.resolved.package_id is Some && a.resolved.package_id == b.resolved.package_id
            ==> package_of(a) == package_of(b),
        a.resolved.package_id is None && b.resolved.package_id is None ==> (package_of(a)
            == package_of(b) <==> a.resolved.source_url@ == b.resolved.source_url@),
{
}

/// However files arrive in an empty batch, no two of one package share a path, in one list or
/// across both.
pub proof fn law_arrivals_share_no_path(
    arrivals: Seq<(QueuedDownload, BatchDestination)>,
    a: BatchDestination,
    i: int,
    b: BatchDestination,
    j: int,
)
    requires
        arrivals.len() <= usize::MAX,
        ({
            let batch = BatchModel::of_arrivals(arrivals);
            &&& 0 <= i < batch.list(a).len()
            &&& 0 <= j < batch.list(b).len()
            &&& package_of(batch.list(a)[i].download) == package_of(batch.list(b)[j].download)
            &&& batch.list(a)[i].path == batch.list(b)[j].path
        }),
    ensures
        a == b,
        i == j,
{
    lemma_of_arrivals(arrivals);
    law_paths_are_unique(BatchModel::of_arrivals(arrivals), a, i, b, j);
}

/// Files that arrive in an empty batch make up a well formed one that is no longer than they are
/// many.
proof fn lemma_of_arrivals(arrivals: Seq<(QueuedDownload, BatchDestination)>)
    requires
        arrivals.len() <= usize::MAX,
    ensures
        BatchModel::of_arrivals(arrivals).wf(),
        BatchModel::of_arrivals(arrivals).size() <= arrivals.len(),
    decreases arrivals.len(),
{
    if arrivals.len() > 0 {
        lemma_of_arrivals(arrivals.drop_last());
        let (item, destination) = arrivals.last();
        law_inserted_keeps_wf(BatchModel::of_arrivals(arrivals.drop_last()), item, destination);
    }
}

/// The texts of pairs of strings.
pub open spec fn pair_texts(pairs: Seq<(String, String)>) -> Seq<(Seq<char>, Seq<char>)> {
    pairs.map_values(|pair: (String, String)| (pair.0@, pair.1@))
}

/// Which file has which path of which package.
struct PathIndex {
    keys: Vec<(String, String)>,
    items: Vec<BatchItemRef>,
}

impl View for PathIndex {
    type V = Map<(Seq<char>, Seq<char>), BatchItemRef>;

    closed spec fn view(&self) -> Map<(Seq<char>, Seq<char>), BatchItemRef> {
        Map::new(
            |key: (Seq<char>, Seq<char>)| pair_texts(self.keys@).contains(key),
            |key: (Seq<char>, Seq<char>)| self.items@[pair_texts(self.keys@).index_of(key)],
        )
    }
}

impl PathIndex {
    /// Keys are distinct and each has one file.
    closed spec fn wf(&self) -> bool {
        &&& pair_texts(self.keys@).no_duplicates()
        &&& self.keys@.len() == self.items@.len()
    }

    /// The index without entries.
    fn new() -> (index: PathIndex)
        ensures
            index.wf(),
            index@ == Map::<(Seq<char>, Seq<char>), BatchItemRef>::empty(),
    {
        let index = PathIndex { keys: Vec::new(), items: Vec::new() };
        assert(index@ =~= Map::empty());
        index
    }

    /// Position of an entry, or the number of entries where there is none.
    fn position(&self, package: &str, path: &str) -> (at: usize)
        requires
            self.wf(),
        ensures
            at <= self.keys.len(),
            at < self.keys.len() <==> self@.dom().contains((package@, path@)),
            at < self.keys.len() ==> pair_texts(self.keys@)[at as int] == (package@, path@),
    {
        let mut i: usize = 0;
        while i < self.keys.len()
            invariant
                i <= self.keys.len(),
                forall|j: int|
                    0 <= j < i ==> #[trigger] pair_texts(self.keys@)[j] != (package@, path@),
            decreases self.keys.len() - i,
        {
            let key = &self.keys[i];
            if same_text(&key.0, package) && same_text(&key.1, path) {
                assert(pair_texts(self.keys@)[i as int] == (package@, path@));
                return i;
            }
            i = i + 1;
        }
        i
    }

    /// The file with a path of a package.
    fn get(&self, package: &str, path: &str) -> (item: Option<BatchItemRef>)
        requires
            self.wf(),
        ensures
            match item {
                Some(found) => self@.dom().contains((package@, path@)) && self@[(
                    package@,
                    path@,
                )] == found,
                None => !self@.dom().contains((package@, path@)),
            },
    {
        let at: usize = self.position(package, path);
        if at < self.keys.len() {
            Some(self.items[at])
        } else {
            None
        }
    }

    /// Gives a path of a package to a file.
    fn insert(&mut self, package: String, path: String, item: BatchItemRef)
        requires
            old(self).wf(),
        ensures
            final(self).wf(),
            final(self)@ == old(self)@.insert((package@, path@), item),
    {
        let at: usize = self.position(&package, &path);
        let ghost before = pair_texts(self.keys@);
        let ghost key = (package@, path@);
        if at < self.keys.len() {
            self.items.set(at, item);
            assert(self@ =~= old(self)@.insert(key, item));
        } else {
            self.keys.push((package, path));
            self.items.push(item);
            proof {
                let after = pair_texts(self.keys@);
                assert(after =~= before.push(key));
                assert forall|other: (Seq<char>, Seq<char>)| #[trigger] after.contains(other) == (
                before.contains(other) || other == key) by {
                    assert(after[before.len() as int] == key);
                    if before.contains(other) {
                        let j = before.index_of(other);
                        assert(after[j] == other);
                    }
                }
                assert forall|other: (Seq<char>, Seq<char>)| before.contains(
                    other,
                ) implies after.index_of(other) == before.index_of(other) by {
                    let j = before.index_of(other);
                    assert(after[j] == other);
                    assert(after[after.index_of(other)] == other);
                }
                assert(after[before.len() as int] == key);
                assert(after.index_of(key) == before.len());
                assert(self@ =~= old(self)@.insert(key, item));
            }
        }
    }

    /// Takes an entry out.
    fn remove(&mut self, package: &str, path: &str)
        requires
            old(self).wf(),
        ensures
            final(self).wf(),
            final(self)@ == old(self)@.remove((package@, path@)),
    {
        let at: usize = self.position(package, path);
        let ghost key = (package@, path@);
        if at == self.keys.len() {
            assert(self@ =~= self@.remove(key));
            return;
        }
        let ghost before = pair_texts(self.keys@);
        self.keys.remove(at);
        self.items.remove(at);
        proof {
            let after = pair_texts(self.keys@);
            assert(after =~= before.remove(at as int));
            assert forall|other: (Seq<char>, Seq<char>)| #[trigger] after.contains(other) == (
            before.contains(other) && other != key) by {
                if before.contains(other) && other != key {
                    let j = before.index_of(other);
                    if j < at {
                        assert(after[j] == other);
                    } else {
                        assert(after[j - 1] == other);
                    }
                }
                if after.contains(other) {
                    let j = after.index_of(other);
                    if j < at {
                        assert(before[j] == other);
                    } else {
                        assert(before[j + 1] == other);
                    }
                }
            }
            assert forall|other: (Seq<char>, Seq<char>)| after.contains(
                other,
            ) implies self.items@[after.index_of(other)] == old(self).items@[before.index_of(
                other,
            )] by {
                let j = after.index_of(other);
                let k = before.index_of(other);
                assert(after[j] == other && before[k] == other);
                if j < at {
                    assert(before[j] == other);
                } else {
                    assert(before[j + 1] == other);
                }
            }
            assert(self@ =~= old(self)@.remove(key));
        }
    }
}

/// Whether a download is `placed`: the same but for its path, which is the one it has come to
/// have.
pub open spec fn is_placed(download: QueuedDownload, placed: Placed) -> bool {
    &&& download.item.path@ == placed.path
    &&& download == (QueuedDownload {
        item: DownloadItem { path: download.item.path, ..placed.download.item },
        ..placed.download
    })
}

/// Whether a list of downloads is the list `placed`.
pub open spec fn are_placed(downloads: Seq<QueuedDownload>, placed: Seq<Placed>) -> bool {
    &&& downloads.len() == placed.len()
    &&& forall|i: int|
        0 <= i < downloads.len() ==> is_placed(#[trigger] downloads[i], placed[i])
}

/// Collects the files of a batch so that no two of them share a package and a path.
pub struct BatchDuplicateResolver {
    item_paths: PathIndex,
    used_paths: FileIdSet,
    queued_items: Vec<QueuedDownload>,
    completed_items: Vec<QueuedDownload>,
    batch: Ghost<BatchModel>,
}

impl BatchDuplicateResolver {
    /// The files collected so far.
    pub closed spec fn batch(&self) -> BatchModel {
        self.batch@
    }

    /// The collected files are those of `batch`.
    pub closed spec fn wf(&self) -> bool {
        &&& self.batch@.wf()
        &&& self.item_paths.wf()
        &&& self.item_paths@ == self.batch@.index
        &&& self.used_paths@ == self.batch@.used
        &&& are_placed(self.queued_items@, self.batch@.queued)
        &&& are_placed(self.completed_items@, self.batch@.completed)
    }

    /// Without files.
    pub fn new() -> (resolver: BatchDuplicateResolver)
        ensures
            resolver.wf(),
            resolver.batch() == BatchModel::empty(),
    {
        BatchDuplicateResolver {
            item_paths: PathIndex::new(),
            used_paths: FileIdSet::new(),
            queued_items: Vec::new(),
            completed_items: Vec::new(),
            batch: Ghost(BatchModel::empty()),
        }
    }

    /// Takes a file in.
    pub fn insert(&mut self, item: QueuedDownload, destination: BatchDestination)
        requires
            old(self).wf(),
            old(self).batch().used.len() + 3 < usize::MAX,
            old(self).batch().list(destination).len() < usize::MAX,
        ensures
            final(self).wf(),
            final(self).batch() == old(self).batch().inserted(item, destination),
            final(self).batch().used.len() <= old(self).batch().used.len() + 2,
            final(self).batch().list(BatchDestination::Queued).len() <= old(self).batch().list(
                BatchDestination::Queued,
            ).len() + if destination == BatchDestination::Queued {
                1int
            } else {
                0
            },
            final(self).batch().list(BatchDestination::Completed).len() <= old(self).batch().list(
                BatchDestination::Completed,
            ).len() + if destination == BatchDestination::Completed {
                1int
            } else {
                0
            },
    {
        let package = batch_item_package_id(&item);
        let original_path = item.item.path.clone();
        let snapshot = batch_item_snapshot(&item);
        let mut path = original_path.clone();
        let ghost mut reached = self.batch@;
        proof {
            law_inserted_keeps_wf(self.batch@, item, destination);
        }
        if let Some(known) = self.item_paths.get(&package, &original_path) {
            let existing_snapshot = self.snapshot_for(known);
            if remote_files_match(&existing_snapshot, &snapshot) {
                return;
            }
            let fresh = next_available_duplicate_path(&original_path, &mut self.used_paths);
            if snapshot.size > existing_snapshot.size {
                proof {
                    law_renamed_keeps_wf(self.batch@, package@, original_path@, fresh@);
                    reached = reached.renamed(known, package@, original_path@, fresh@);
                }
                self.rename_item(known, package.clone(), &original_path, fresh);
            } else {
                proof {
                    reached = BatchModel { used: reached.used.insert(fresh@), ..reached };
                }
                path = fresh;
            }
        }
        let ghost before = *self;
        self.used_paths.insert(path.clone());
        let at: usize = match destination {
            BatchDestination::Queued => self.queued_items.len(),
            BatchDestination::Completed => self.completed_items.len(),
        };
        let mut placed = item;
        placed.item.path = path.clone();
        match destination {
            BatchDestination::Queued => {
                self.queued_items.push(placed);
            },
            BatchDestination::Completed => {
                self.completed_items.push(placed);
            },
        }
        self.item_paths.insert(package, path, BatchItemRef { destination, index: at });
        self.batch = Ghost(reached.added(item, path@, destination));
        proof {
            let after = reached.added(item, path@, destination);
            assert(self.batch@ == old(self).batch@.inserted(item, destination));
            match destination {
                BatchDestination::Queued => {
                    assert(are_placed(self.queued_items@, after.queued));
                },
                BatchDestination::Completed => {
                    assert(are_placed(self.completed_items@, after.completed));
                },
            }
        }
    }

    /// What is known of a collected file.
    fn snapshot_for(&self, item: BatchItemRef) -> (snapshot: BatchItemSnapshot)
        requires
            self.wf(),
            item.index < self.batch().list(item.destination).len(),
        ensures
            snapshot == snapshot_of(self.batch().at(item).download),
    {
        match item.destination {
            BatchDestination::Queued => batch_item_snapshot(&self.queued_items[item.index]),
            BatchDestination::Completed => batch_item_snapshot(&self.completed_items[item.index]),
        }
    }

    /// Gives a collected file another path; the name itself is already reserved.
    fn rename_item(
        &mut self,
        item: BatchItemRef,
        package: String,
        old_path: &str,
        new_path: String,
    )
        requires
            item.index < old(self).batch().list(item.destination).len(),
            old(self).item_paths.wf(),
            are_placed(old(self).queued_items@, old(self).batch().queued),
            are_placed(old(self).completed_items@, old(self).batch().completed),
        ensures
            ({
                let moved = old(self).batch().renamed(item, package@, old_path@, new_path@);
                &&& are_placed(final(self).queued_items@, moved.queued)
                &&& are_placed(final(self).completed_items@, moved.completed)
            }),
            final(self).item_paths.wf(),
            final(self).item_paths@ == old(self).item_paths@.remove((package@, old_path@)).insert(
                (package@, new_path@),
                item,
            ),
            final(self).used_paths == old(self).used_paths,
            final(self).batch == old(self).batch,
    {
        match item.destination {
            BatchDestination::Queued => {
                let mut moved = self.queued_items[item.index].copy();
                moved.item.path = new_path.clone();
                self.queued_items.set(item.index, moved);
            },
            BatchDestination::Completed => {
                let mut moved = self.completed_items[item.index].copy();
                moved.item.path = new_path.clone();
                self.completed_items.set(item.index, moved);
            },
        }
        self.item_paths.remove(&package, old_path);
        self.item_paths.insert(package, new_path, item);
    }

    /// Takes files in one by one.
    pub fn extend(&mut self, items: Vec<QueuedDownload>, destination: BatchDestination)
        requires
            old(self).wf(),
            old(self).batch().used.len() + 2 * items@.len() + 3 < usize::MAX,
            old(self).batch().list(destination).len() + items@.len() <= usize::MAX,
        ensures
            final(self).wf(),
            final(self).batch() == old(self).batch().all_inserted(items@, destination),
            final(self).batch().used.len() <= old(self).batch().used.len() + 2 * items@.len(),
            final(self).batch().list(BatchDestination::Queued).len() <= old(self).batch().list(
                BatchDestination::Queued,
            ).len() + if destination == BatchDestination::Queued {
                items@.len() as int
            } else {
                0
            },
            final(self).batch().list(BatchDestination::Completed).len() <= old(self).batch().list(
                BatchDestination::Completed,
            ).len() + if destination == BatchDestination::Completed {
                items@.len() as int
            } else {
                0
            },
    {
        let mut i: usize = 0;
        assert(items@.take(0) =~= Seq::empty());
        while i < items.len()
            invariant
                i <= items.len(),
                self.wf(),
                old(self).batch().used.len() + 2 * items@.len() + 3 < usize::MAX,
                old(self).batch().list(destination).len() + items@.len() <= usize::MAX,
                self.batch() == old(self).batch().all_inserted(items@.take(i as int), destination),
                self.batch().used.len() <= old(self).batch().used.len() + 2 * i,
                self.batch().list(BatchDestination::Queued).len() <= old(self).batch().list(
                    BatchDestination::Queued,
                ).len() + if destination == BatchDestination::Queued {
                    i as int
                } else {
                    0
                },
                self.batch().list(BatchDestination::Completed).len() <= old(self).batch().list(
                    BatchDestination::Completed,
                ).len() + if destination == BatchDestination::Completed {
                    i as int
                } else {
                    0
                },
            decreases items.len() - i,
        {
            proof {
                let longer = items@.take(i as int + 1);
                assert(longer.drop_last() =~= items@.take(i as int));
                assert(longer.last() == items@[i as int]);
            }
            self.insert(items[i].copy(), destination);
            i = i + 1;
        }
        assert(items@.take(i as int) =~= items@);
    }

    /// Takes queued files in.
    pub fn extend_queued(&mut self, items: Vec<QueuedDownload>)
        requires
            old(self).wf(),
            old(self).batch().used.len() + 2 * items@.len() + 3 < usize::MAX,
            old(self).batch().queued.len() + items@.len() <= usize::MAX,
        ensures
            final(self).wf(),
            final(self).batch() == old(self).batch().all_inserted(
                items@,
                BatchDestination::Queued,
            ),
            final(self).batch().used.len() <= old(self).batch().used.len() + 2 * items@.len(),
            final(self).batch().queued.len() <= old(self).batch().queued.len() + items@.len(),
            final(self).batch().completed.len() <= old(self).batch().completed.len(),
    {
        self.extend(items, BatchDestination::Queued);
    }

    /// Takes files in whose output is already complete.
    pub fn extend_completed(&mut self, items: Vec<QueuedDownload>)
        requires
            old(self).wf(),
            old(self).batch().used.len() + 2 * items@.len() + 3 < usize::MAX,
            old(self).batch().completed.len() + items@.len() <= usize::MAX,
        ensures
            final(self).wf(),
            final(self).batch() == old(self).batch().all_inserted(
                items@,
                BatchDestination::Completed,
            ),
            final(self).batch().used.len() <= old(self).batch().used.len() + 2 * items@.len(),
            final(self).batch().completed.len() <= old(self).batch().completed.len()
                + items@.len(),
            final(self).batch().queued.len() <= old(self).batch().queued.len(),
    {
        self.extend(items, BatchDestination::Completed);
    }

    /// The collected files, queued ones first.
    pub fn finish(self) -> (lists: (Vec<QueuedDownload>, Vec<QueuedDownload>))
        requires
            self.wf(),
        ensures
            are_placed(lists.0@, self.batch().queued),
            are_placed(lists.1@, self.batch().completed),
            self.batch().wf(),
    {
        (self.queued_items, self.completed_items)
    }
}

} // verus!
