//! Messages between the user interface and the download task.

use vstd::prelude::*;

use crate::ids::{FileId, FileIdMap, PackageId};

verus! {

/// Whether a file counts toward the totals of the current run.
#[derive(Clone, Copy, Debug, PartialEq, Eq, Structural)]
pub enum FileAccounting {
    CurrentRun,
    Preexisting,
}

/// Bytes gained since the previous report.
#[derive(Clone, Copy, Debug, PartialEq, Eq, Structural)]
pub struct ProgressDelta {
    pub total_bytes_delta: u64,
    pub network_bytes_delta: u64,
}

/// A byte count with the text that shows it to a user.
#[derive(Debug, PartialEq, Eq)]
pub struct ByteCount {
    pub bytes: u64,
    pub text: String,
}

/// Where a queued file came from.
#[derive(Debug, PartialEq, Eq)]
pub struct FileOrigin {
    pub package_id: Option<PackageId>,
    pub package_display_name: Option<String>,
    pub source_url: String,
    pub submitted_url: String,
}

/// A file that the download task has queued.
#[derive(Debug, PartialEq, Eq)]
pub struct QueuedFile {
    pub id: FileId,
    pub attempt_id: u64,
    pub size: u64,
    pub accounting: FileAccounting,
    pub origin: FileOrigin,
}

/// What the download task reports.
#[allow(inconsistent_fields)]
#[derive(Debug, PartialEq, Eq)]
pub enum DownloadEvent {
    LoginResult {
        success: bool,
        error: Option<String>,
        saved_session: Option<String>,
        clear_saved_session: bool,
    },
    FilesCollected { total: usize, skipped: usize, partial: usize, total_bytes: u64 },
    FileStart { id: FileId, size: u64, attempt_id: u64 },
    ResumeValidationStarted { id: FileId, attempt_id: u64 },
    Progress { id: FileId, delta: ProgressDelta, attempt_id: u64 },
    VerificationProgress { id: FileId, bytes_delta: u64 },
    VerificationProgressForOperation { id: FileId, operation_id: u64, bytes_delta: u64 },
    ResumeReused { id: FileId, chunks: usize, bytes: u64, attempt_id: u64 },
    ResumeReverified { id: FileId, chunks: usize, bytes: u64 },
    ResumeReverifiedForOperation { id: FileId, operation_id: u64, chunks: usize, bytes: u64 },
    CompletedFileVerified { id: FileId, bytes: u64 },
    CompletedFileVerifiedForOperation { id: FileId, operation_id: u64, bytes: u64 },
    VerificationSkipped { id: FileId, completed: bool },
    VerificationFailed { id: FileId, operation_id: u64, error: String },
    FileComplete { id: FileId, attempt_id: u64 },
    FileCancelled { id: FileId, attempt_id: u64 },
    FileError { id: FileId, error: String, attempt_id: u64 },
    ScopeError { scope: String, error: String },
    UrlQueued { url: String },
    FileQueued(QueuedFile),
    UrlResolved { url: String },
    StatusMessage(String),
    UrlsReceived { urls: Vec<String> },
    ProgressWakeup,
}

/// What the user interface asks of the download task.
#[derive(Debug, PartialEq, Eq)]
pub enum DownloadRequest {
    /// All files of an address. Files that were tried before go on under their attempts.
    SubmitUrl { url: String, attempt_ids: FileIdMap<u64> },
    ResumeFileIds { source_url: String, file_ids: Vec<FileId>, attempt_ids: FileIdMap<u64> },
    ReverifyFileIds { source_url: String, file_ids: Vec<FileId> },
    ReverifyFileIdsWithOperations {
        source_url: String,
        file_ids: Vec<FileId>,
        operation_ids: FileIdMap<u64>,
    },
    VerifyCompletedFileIds { source_url: String, file_ids: Vec<FileId> },
    VerifyCompletedFileIdsWithOperations {
        source_url: String,
        file_ids: Vec<FileId>,
        operation_ids: FileIdMap<u64>,
    },
    SyncPendingOrder { file_ids: Vec<FileId> },
}

} // verus!
