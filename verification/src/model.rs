//! The files, packages and rows that the user interface shows, and what it asks of its core.

use vstd::prelude::*;

use crate::events::FileAccounting;
use crate::ids::{FileId, PackageId};
use crate::ordered::OrderedMap;

verus! {

/// How far a file has come.
#[derive(Debug, PartialEq, Eq)]
pub enum FileLifecycle {
    Planned,
    Queued,
    Downloading,
    Complete,
    Failed { message: String },
}

/// How a row of the file list is shown.
#[derive(Debug, PartialEq, Eq)]
pub enum FileStatus {
    Queued,
    Downloading,
    Complete,
    Error(String),
}

impl FileStatus {
    /// Whether the file is being transferred.
    pub fn is_downloading(&self) -> (downloading: bool)
        ensures
            downloading == (self is Downloading),
    {
        matches!(self, FileStatus::Downloading)
    }

    /// An equal status.
    pub fn copy(&self) -> (copy: FileStatus)
        ensures
            copy == *self,
    {
        match self {
            FileStatus::Queued => FileStatus::Queued,
            FileStatus::Downloading => FileStatus::Downloading,
            FileStatus::Complete => FileStatus::Complete,
            FileStatus::Error(message) => FileStatus::Error(message.clone()),
        }
    }
}

impl FileLifecycle {
    /// How a file in this state is shown.
    pub open spec fn shown(self) -> FileStatus {
        match self {
            FileLifecycle::Planned | FileLifecycle::Queued => FileStatus::Queued,
            FileLifecycle::Downloading => FileStatus::Downloading,
            FileLifecycle::Complete => FileStatus::Complete,
            FileLifecycle::Failed { message } => FileStatus::Error(message),
        }
    }

    /// How a file in this state is shown.
    pub fn status(&self) -> (status: FileStatus)
        ensures
            status == self.shown(),
    {
        match self {
            FileLifecycle::Planned | FileLifecycle::Queued => FileStatus::Queued,
            FileLifecycle::Downloading => FileStatus::Downloading,
            FileLifecycle::Complete => FileStatus::Complete,
            FileLifecycle::Failed { message } => FileStatus::Error(message.clone()),
        }
    }

    /// Whether the file is complete.
    pub fn is_complete(&self) -> (complete: bool)
        ensures
            complete == (self is Complete),
    {
        matches!(self, FileLifecycle::Complete)
    }

    /// Whether the file is being transferred.
    pub fn is_downloading(&self) -> (downloading: bool)
        ensures
            downloading == (self is Downloading),
    {
        matches!(self, FileLifecycle::Downloading)
    }

    /// Whether the file failed.
    pub fn is_failed(&self) -> (failed: bool)
        ensures
            failed == (self is Failed),
    {
        matches!(self, FileLifecycle::Failed { .. })
    }
}

/// The byte counts of a file.
#[derive(Clone, Copy, Debug, PartialEq, Eq, Structural)]
pub struct FileProgressState {
    /// Bytes that count as completed.
    pub visible_completed_bytes: u64,
    /// Bytes that were found on disk and verified.
    pub verified_existing_bytes: u64,
    /// Bytes that came over the network.
    pub downloaded_network_bytes: u64,
    /// Completed bytes as they are to be shown.
    pub displayed_bytes: u64,
}

/// A file that the core knows.
#[derive(Debug, PartialEq, Eq)]
pub struct FileState {
    pub id: FileId,
    pub package_id: PackageId,
    pub source_url: String,
    pub path: String,
    pub size: u64,
    pub lifecycle: FileLifecycle,
    pub progress: FileProgressState,
    pub accounting: FileAccounting,
}

impl FileState {
    /// Completed bytes as they are shown: all of them where the file is complete.
    pub open spec fn shown_bytes(self) -> u64 {
        if self.lifecycle is Complete {
            self.size
        } else {
            self.progress.displayed_bytes
        }
    }

    /// Completed bytes as they are shown: all of them where the file is complete.
    pub fn visible_bytes(&self) -> (bytes: u64)
        ensures
            bytes == self.shown_bytes(),
    {
        if self.lifecycle.is_complete() {
            self.size
        } else {
            self.progress.displayed_bytes
        }
    }

    /// Bytes that came over the network, never more than the file holds.
    pub open spec fn network_bytes(self) -> u64 {
        if self.progress.downloaded_network_bytes <= self.size {
            self.progress.downloaded_network_bytes
        } else {
            self.size
        }
    }

    /// Bytes that came over the network, never more than the file holds.
    pub fn core_file_network_downloaded(&self) -> (bytes: u64)
        ensures
            bytes == self.network_bytes(),
            bytes <= self.size,
    {
        if self.progress.downloaded_network_bytes <= self.size {
            self.progress.downloaded_network_bytes
        } else {
            self.size
        }
    }
}

/// How a package as a whole has fared.
#[derive(Clone, Copy, Debug, PartialEq, Eq, Structural)]
pub enum PackageStatus {
    Pending,
    Queued,
    Downloading,
    Partial,
    Complete,
    Failed,
}

/// A package that the core knows.
#[derive(Debug, PartialEq, Eq)]
pub struct PackageState {
    pub id: PackageId,
    pub key: String,
    pub display_name: String,
    pub error: Option<String>,
    pub status: PackageStatus,
}

/// What the files of the current run add up to.
#[derive(Clone, Copy, Debug, PartialEq, Eq, Structural)]
pub struct RunTotals {
    pub run_total_bytes: u64,
    pub run_completed_bytes: u64,
    pub run_file_completed: usize,
    pub run_file_total: usize,
    pub run_file_downloading: usize,
    pub displayed_network_bytes: u64,
}

/// What the core knows.
pub struct DownloadState {
    pub files: OrderedMap<FileState>,
    pub packages: Vec<PackageState>,
    pub url_order: Vec<String>,
    pub totals: RunTotals,
}

impl DownloadState {
    /// Files are distinct and stand under their own names.
    pub open spec fn wf(&self) -> bool {
        &&& self.files.wf()
        &&& forall|i: int|
            0 <= i < self.files.values().len() ==> (#[trigger] self.files.values()[i]).id@
                == self.files.keys()[i]
    }

    /// Whether the core knows a file.
    pub open spec fn has(&self, id: Seq<char>) -> bool {
        self.files.keys().contains(id)
    }

    /// The file of a name.
    pub open spec fn file(&self, id: Seq<char>) -> FileState
        recommends
            self.has(id),
    {
        self.files.values()[self.files.keys().index_of(id)]
    }

    /// The state of a core that knows nothing.
    pub fn new() -> (state: DownloadState)
        ensures
            state.wf(),
            state.files.keys() == Seq::<Seq<char>>::empty(),
            state.packages@ == Seq::<PackageState>::empty(),
            state.url_order@ == Seq::<String>::empty(),
            state.totals == (RunTotals {
                run_total_bytes: 0,
                run_completed_bytes: 0,
                run_file_completed: 0,
                run_file_total: 0,
                run_file_downloading: 0,
                displayed_network_bytes: 0,
            }),
    {
        DownloadState {
            files: OrderedMap::new(),
            packages: Vec::new(),
            url_order: Vec::new(),
            totals: RunTotals {
                run_total_bytes: 0,
                run_completed_bytes: 0,
                run_file_completed: 0,
                run_file_total: 0,
                run_file_downloading: 0,
                displayed_network_bytes: 0,
            },
        }
    }

    /// Whether the core knows a file.
    pub fn contains_file(&self, id: &str) -> (found: bool)
        requires
            self.wf(),
        ensures
            found == self.has(id@),
    {
        match self.files.find(id) {
            Some(at) => {
                assert(self.files.keys()[at as int] == id@);
                true
            },
            None => false,
        }
    }

    /// The file of a name.
    pub fn get_file(&self, id: &str) -> (file: Option<&FileState>)
        requires
            self.wf(),
        ensures
            match file {
                Some(found) => self.has(id@) && *found == self.file(id@) && found.id@ == id@,
                None => !self.has(id@),
            },
    {
        match self.files.find(id) {
            Some(at) => {
                assert(self.files.keys()[at as int] == id@);
                assert(self.files.keys().index_of(id@) == at);
                Some(self.files.value(at))
            },
            None => None,
        }
    }

    /// Adds a file under its own name, or puts it in the place of the one of that name.
    pub fn put_file(&mut self, file: FileState)
        requires
            old(self).wf(),
        ensures
            final(self).wf(),
            final(self).has(file.id@),
            final(self).file(file.id@) == file,
            forall|id: Seq<char>|
                id != file.id@ ==> #[trigger] final(self).has(id) == old(self).has(id),
            forall|id: Seq<char>|
                id != file.id@ && old(self).has(id) ==> #[trigger] final(self).file(id) == old(
                    self,
                ).file(id),
            old(self).has(file.id@) ==> final(self).files.keys() == old(self).files.keys(),
            !old(self).has(file.id@) ==> final(self).files.keys() == old(self).files.keys().push(
                file.id@,
            ),
            *final(self) == (DownloadState { files: final(self).files, ..*old(self) }),
    {
        let ghost before = self.files.keys();
        let ghost values = self.files.values();
        let id = file.id.clone();
        self.files.insert(id, file);
        proof {
            let after = self.files.keys();
            if before.contains(file.id@) {
                let at = before.index_of(file.id@);
                assert(before[at] == file.id@);
                assert forall|id: Seq<char>|
                    id != file.id@ && old(self).has(id) implies #[trigger] self.file(id)
                    == old(self).file(id) by {
                    assert(before[before.index_of(id)] == id);
                }
            } else {
                assert(after[before.len() as int] == file.id@);
                assert forall|id: Seq<char>| before.contains(id) implies after.contains(id)
                    && after.index_of(id) == before.index_of(id) by {
                    let i = before.index_of(id);
                    assert(before[i] == id);
                    assert(after[i] == id);
                    assert(after[after.index_of(id)] == id);
                }
                assert forall|id: Seq<char>| id != file.id@ && after.contains(id) implies
                    before.contains(id) by {
                    let i = after.index_of(id);
                    assert(after[i] == id);
                    assert(before[i] == id);
                }
                assert(after[after.index_of(file.id@)] == file.id@);
            }
        }
    }

    /// Whether an address was submitted.
    pub fn has_tracked_url(&self, url: &str) -> (known: bool)
        ensures
            known == crate::ids::texts(self.url_order@).contains(url@),
    {
        crate::ids::lists(&self.url_order, url)
    }
}

/// A row of the file list.
#[derive(Debug, PartialEq, Eq)]
pub struct FileEntry {
    pub id: FileId,
    pub name: String,
    pub size: u64,
    pub downloaded: u64,
    pub status: FileStatus,
}

impl FileEntry {
    /// An equal row.
    pub fn copy(&self) -> (copy: FileEntry)
        ensures
            copy == *self,
    {
        FileEntry {
            id: self.id.clone(),
            name: self.name.clone(),
            size: self.size,
            downloaded: self.downloaded,
            status: self.status.copy(),
        }
    }
}

/// A row that stands for something the core does not know.
#[derive(Debug, PartialEq, Eq)]
pub enum TransientRow {
    /// An address that has not been looked up yet.
    PendingUrl { file: FileEntry, source_url: String },
    /// A message to the user.
    UiError { file: FileEntry },
}

impl TransientRow {
    /// The row itself.
    pub open spec fn entry(self) -> FileEntry {
        match self {
            TransientRow::PendingUrl { file, .. } => file,
            TransientRow::UiError { file } => file,
        }
    }

    /// The row itself.
    pub fn file(&self) -> (file: &FileEntry)
        ensures
            *file == self.entry(),
    {
        match self {
            TransientRow::PendingUrl { file, .. } => file,
            TransientRow::UiError { file } => file,
        }
    }

    /// The row with another entry in it.
    pub open spec fn with_entry(self, entry: FileEntry) -> TransientRow {
        match self {
            TransientRow::PendingUrl { source_url, .. } => TransientRow::PendingUrl {
                file: entry,
                source_url,
            },
            TransientRow::UiError { .. } => TransientRow::UiError { file: entry },
        }
    }

    /// The row itself, to be changed.
    pub fn file_mut(&mut self) -> (file: &mut FileEntry)
        ensures
            *file == old(self).entry(),
            *final(self) == old(self).with_entry(*final(file)),
    {
        match self {
            TransientRow::PendingUrl { file, .. } => file,
            TransientRow::UiError { file } => file,
        }
    }

    /// The address that the row stands for.
    pub fn source_url(&self) -> (url: Option<&String>)
        ensures
            match *self {
                TransientRow::PendingUrl { source_url, .. } => url == Some(&source_url),
                TransientRow::UiError { .. } => url is None,
            },
    {
        match self {
            TransientRow::PendingUrl { source_url, .. } => Some(source_url),
            TransientRow::UiError { .. } => None,
        }
    }
}

/// What the user sees of a file.
#[derive(Debug, PartialEq, Eq)]
pub struct VisibleFileContext {
    pub id: FileId,
    pub status: FileStatus,
    pub source_url: Option<String>,
    pub artifact_path: String,
    pub size: u64,
}

/// A file of a package that was looked up.
#[derive(Debug, PartialEq, Eq)]
pub struct ResolvedFile {
    pub file_id: FileId,
    pub path: String,
    pub size: u64,
}

/// A package that was looked up; without an identity, it gets the one of its key.
#[derive(Debug, PartialEq, Eq)]
pub struct ResolvedPackage {
    pub id: Option<PackageId>,
    pub key: String,
    pub source_url: String,
    pub display_name: String,
    pub files: Vec<ResolvedFile>,
}

/// What happens to a file or an address.
#[allow(inconsistent_fields)]
#[derive(Debug, PartialEq, Eq)]
pub enum CoreEvent {
    PackageResolved { package: ResolvedPackage },
    UrlResolved { url: String },
    UrlFailed { url: String, message: String },
    FileQueued { file_id: FileId },
    FileStarted { file_id: FileId, size: u64 },
    FileResumeStarted { file_id: FileId, size: u64 },
    FileProgress { file_id: FileId, total_bytes_delta: u64, network_bytes_delta: u64 },
    FileReuseDetected { file_id: FileId, reused_bytes: u64, reused_chunks: usize },
    FileResumeReverified { file_id: FileId, verified_bytes: u64, verified_chunks: usize },
    FileVerificationStarted { file_id: FileId },
    FileVerificationProgress { file_id: FileId, bytes_delta: u64 },
    FileVerificationCompleted { file_id: FileId },
    FileCompleted { file_id: FileId },
    FileCancelled { file_id: FileId },
    FileFailed { file_id: FileId, message: String },
    FileDeleted { file_id: FileId },
    PackageDeleted { package_id: PackageId },
    FileRetryRequested { file_id: FileId },
    FileResetRequested { file_id: FileId },
    PackageMoveRequested { package_id: PackageId, delta: isize },
    FileMoveRequested { file_id: FileId, delta: isize },
    RestartReconciled,
    Tick,
}

/// What the user asks of the core.
#[allow(inconsistent_fields)]
#[derive(Debug, PartialEq, Eq)]
pub enum CoreCommand {
    SubmitUrl { url: String },
    DeleteFile { file_id: FileId },
    DeletePackage { package_id: PackageId },
    RetryFile { file_id: FileId },
    ResetFile { file_id: FileId },
    MoveFile { file_id: FileId, delta: isize },
    MovePackage { package_id: PackageId, delta: isize },
}

/// What the core asks for after an event.
#[derive(Debug, PartialEq, Eq)]
pub enum CoreEffect {
    PersistSession,
    EnqueueUrlResolution { url: String },
    DeleteOutputArtifacts { path: String },
    DeleteResumeArtifacts { path: String },
    PublishStatusMessage(String),
    EnqueueFileDownload { file_id: FileId },
    PublishViewSnapshot,
}

} // verus!
