//! The loop of the download task, and the reports of a single download.

use vstd::prelude::*;

use crate::events::{DownloadEvent, DownloadRequest, ProgressDelta};
use crate::ids::FileId;
use crate::requests;

verus! {

/// How the login task handed over its client.
pub enum ClientHandOver {
    /// There is no channel to receive it from.
    NoChannel,
    /// The login task ended without sending it.
    Dropped,
    /// It arrived.
    Received,
}

/// The first event of the download task; after an error the task ends.
pub fn setup_event(hand_over: &ClientHandOver) -> (event: DownloadEvent)
    ensures
        match hand_over {
            ClientHandOver::NoChannel => requests::scope_error(
                event,
                "setup"@,
                "No client channel available"@,
            ),
            ClientHandOver::Dropped => requests::scope_error(
                event,
                "setup"@,
                "Login task dropped before sending client"@,
            ),
            ClientHandOver::Received => requests::says(event, "Ready"@),
        },
{
    match hand_over {
        ClientHandOver::NoChannel => DownloadEvent::ScopeError {
            scope: "setup".to_owned(),
            error: "No client channel available".to_owned(),
        },
        ClientHandOver::Dropped => DownloadEvent::ScopeError {
            scope: "setup".to_owned(),
            error: "Login task dropped before sending client".to_owned(),
        },
        ClientHandOver::Received => DownloadEvent::StatusMessage("Ready".to_owned()),
    }
}

/// What wakes the download task.
#[derive(Clone, Copy, Debug, PartialEq, Eq, Structural)]
pub enum Wakeup {
    Request,
    RequestsClosed,
    TaskJoined,
    PauseClosed,
    PauseChanged { paused: bool },
}

/// What the download task does next.
#[derive(Clone, Copy, Debug, PartialEq, Eq, Structural)]
pub enum RunAction {
    /// Handle the request and those that are ready behind it.
    HandleRequests,
    /// Take the result of the task that ended.
    ApplyResult,
    /// Handle the requests that are ready.
    FlushRequests,
    /// Start downloads that may start.
    StartPending,
    /// Leave the loop and wait for running tasks.
    Stop,
}

/// What a wakeup makes the task do.
pub open spec fn actions_for(wakeup: Wakeup) -> Seq<RunAction> {
    match wakeup {
        Wakeup::Request => seq![RunAction::HandleRequests, RunAction::StartPending],
        Wakeup::RequestsClosed => seq![RunAction::Stop],
        Wakeup::TaskJoined => seq![
            RunAction::ApplyResult,
            RunAction::FlushRequests,
            RunAction::StartPending,
        ],
        Wakeup::PauseClosed => seq![RunAction::Stop],
        Wakeup::PauseChanged { paused } => if paused {
            Seq::empty()
        } else {
            seq![RunAction::FlushRequests, RunAction::StartPending]
        },
    }
}

/// What the task does next: the first action of a wakeup, and after each action that succeeded
/// the one that follows; a failure stops the loop.
pub fn next_action(wakeup: Wakeup, done: usize, succeeded: bool) -> (action: Option<RunAction>)
    ensures
        action == if done > 0 && !succeeded {
            Some(RunAction::Stop)
        } else if done < actions_for(wakeup).len() {
            Some(actions_for(wakeup)[done as int])
        } else {
            None
        },
{
    if done > 0 && !succeeded {
        return Some(RunAction::Stop);
    }
    match wakeup {
        Wakeup::Request => match done {
            0 => Some(RunAction::HandleRequests),
            1 => Some(RunAction::StartPending),
            _ => None,
        },
        Wakeup::TaskJoined => match done {
            0 => Some(RunAction::ApplyResult),
            1 => Some(RunAction::FlushRequests),
            2 => Some(RunAction::StartPending),
            _ => None,
        },
        Wakeup::PauseChanged { paused } => if paused {
            None
        } else {
            match done {
                0 => Some(RunAction::FlushRequests),
                1 => Some(RunAction::StartPending),
                _ => None,
            }
        },
        Wakeup::RequestsClosed | Wakeup::PauseClosed => if done == 0 {
            Some(RunAction::Stop)
        } else {
            None
        },
    }
}

/// How many files are downloaded at a time.
pub fn concurrent_limit(configured: usize) -> (limit: usize)
    ensures
        limit == if configured == 0 {
            1
        } else {
            configured
        },
{
    if configured == 0 {
        1
    } else {
        configured
    }
}

/// The reports of one attempt at a file.
pub struct FileProgress {
    pub id: FileId,
    pub attempt_id: u64,
}

/// Reports for an attempt at a file.
pub fn file_progress(file_id: &str, attempt_id: u64) -> (progress: FileProgress)
    ensures
        progress.id@ == file_id@,
        progress.attempt_id == attempt_id,
{
    FileProgress { id: file_id.to_owned(), attempt_id }
}

impl FileProgress {
    /// The download has started.
    pub fn on_file_start(&self, size: u64) -> (event: DownloadEvent)
        ensures
            event == (DownloadEvent::FileStart {
                id: self.id,
                size,
                attempt_id: self.attempt_id,
            }),
    {
        DownloadEvent::FileStart { id: self.id.clone(), size, attempt_id: self.attempt_id }
    }

    /// Resume data is being validated.
    pub fn on_resume_validation_start(&self) -> (event: DownloadEvent)
        ensures
            event == (DownloadEvent::ResumeValidationStarted {
                id: self.id,
                attempt_id: self.attempt_id,
            }),
    {
        DownloadEvent::ResumeValidationStarted { id: self.id.clone(), attempt_id: self.attempt_id }
    }

    /// A chunk of resume data was validated; the attempt is the operation that reports it.
    pub fn on_resume_validation_chunk(&self, bytes_delta: u64) -> (event: DownloadEvent)
        ensures
            event == (DownloadEvent::VerificationProgressForOperation {
                id: self.id,
                operation_id: self.attempt_id,
                bytes_delta,
            }),
    {
        DownloadEvent::VerificationProgressForOperation {
            id: self.id.clone(),
            operation_id: self.attempt_id,
            bytes_delta,
        }
    }

    /// Bytes arrived.
    pub fn on_progress(&self, delta: ProgressDelta) -> (event: DownloadEvent)
        ensures
            event == (DownloadEvent::Progress {
                id: self.id,
                delta,
                attempt_id: self.attempt_id,
            }),
    {
        DownloadEvent::Progress { id: self.id.clone(), delta, attempt_id: self.attempt_id }
    }

    /// Resume data is reused.
    pub fn on_resume_reused(&self, chunks: usize, bytes: u64) -> (event: DownloadEvent)
        ensures
            event == (DownloadEvent::ResumeReused {
                id: self.id,
                chunks,
                bytes,
                attempt_id: self.attempt_id,
            }),
    {
        DownloadEvent::ResumeReused {
            id: self.id.clone(),
            chunks,
            bytes,
            attempt_id: self.attempt_id,
        }
    }

    /// The download is complete.
    pub fn on_file_complete(&self) -> (event: DownloadEvent)
        ensures
            event == (DownloadEvent::FileComplete { id: self.id, attempt_id: self.attempt_id }),
    {
        DownloadEvent::FileComplete { id: self.id.clone(), attempt_id: self.attempt_id }
    }

    /// The download failed.
    pub fn on_error(&self, error: &str) -> (event: DownloadEvent)
        ensures
            event matches DownloadEvent::FileError { id, error: message, attempt_id } && id
                == self.id && message@ == error@ && attempt_id == self.attempt_id,
    {
        DownloadEvent::FileError {
            id: self.id.clone(),
            error: error.to_owned(),
            attempt_id: self.attempt_id,
        }
    }
}

/// A download that was cancelled because of a pause is reported as cancelled.
pub fn pause_cancellation(
    file_id: &str,
    attempt_id: u64,
    cancelled: bool,
    paused: bool,
) -> (event: Option<DownloadEvent>)
    ensures
        match event {
            Some(report) => cancelled && paused && (report matches DownloadEvent::FileCancelled {
                id,
                attempt_id: attempt,
            } && id@ == file_id@ && attempt == attempt_id),
            None => !(cancelled && paused),
        },
{
    if cancelled && paused {
        Some(DownloadEvent::FileCancelled { id: file_id.to_owned(), attempt_id })
    } else {
        None
    }
}

/// What handling a request consists of.
#[derive(Clone, Copy, Debug, PartialEq, Eq, Structural)]
pub enum RequestWork {
    /// Resolve links, collect their files and queue them.
    Resolve { counts_submission: bool },
    /// Verify resume data while the files are out of the queue.
    Reverify,
    /// Verify complete output files.
    VerifyCompleted,
    /// Take over a new order.
    SyncOrder,
}

/// What handling a request consists of; a submitted link is counted, a resumed one is not.
pub fn work_for(request: &DownloadRequest) -> (work: RequestWork)
    ensures
        work == match request {
            DownloadRequest::SubmitUrl { .. } => RequestWork::Resolve { counts_submission: true },
            DownloadRequest::ResumeFileIds { .. } => RequestWork::Resolve {
                counts_submission: false,
            },
            DownloadRequest::ReverifyFileIds { .. } => RequestWork::Reverify,
            DownloadRequest::ReverifyFileIdsWithOperations { .. } => RequestWork::Reverify,
            DownloadRequest::VerifyCompletedFileIds { .. } => RequestWork::VerifyCompleted,
            DownloadRequest::VerifyCompletedFileIdsWithOperations { .. } =>
                RequestWork::VerifyCompleted,
            DownloadRequest::SyncPendingOrder { .. } => RequestWork::SyncOrder,
        },
{
    match request {
        DownloadRequest::SubmitUrl { .. } => RequestWork::Resolve { counts_submission: true },
        DownloadRequest::ResumeFileIds { .. } => RequestWork::Resolve { counts_submission: false },
        DownloadRequest::ReverifyFileIds { .. } => RequestWork::Reverify,
        DownloadRequest::ReverifyFileIdsWithOperations { .. } => RequestWork::Reverify,
        DownloadRequest::VerifyCompletedFileIds { .. } => RequestWork::VerifyCompleted,
        DownloadRequest::VerifyCompletedFileIdsWithOperations { .. } =>
            RequestWork::VerifyCompleted,
        DownloadRequest::SyncPendingOrder { .. } => RequestWork::SyncOrder,
    }
}

/// Requests that wait to be handled, in the order of their arrival.
pub struct RequestQueue {
    pub pending: std::collections::VecDeque<DownloadRequest>,
}

impl RequestQueue {
    /// A queue with one request.
    pub fn starting_with(first: DownloadRequest) -> (queue: RequestQueue)
        ensures
            queue.pending@ == seq![first],
    {
        let mut pending: std::collections::VecDeque<DownloadRequest> =
            std::collections::VecDeque::new();
        pending.push_back(first);
        assert(pending@ =~= seq![first]);
        RequestQueue { pending }
    }

    /// Puts ready requests behind those that wait.
    pub fn drain_ready_requests(&mut self, ready: Vec<DownloadRequest>)
        ensures
            final(self).pending@ == old(self).pending@ + ready@,
    {
        let ghost all = ready@;
        let mut rest = ready;
        let mut arrived: std::collections::VecDeque<DownloadRequest> =
            std::collections::VecDeque::new();
        while rest.len() > 0
            invariant
                all == rest@ + arrived@,
                self.pending@ == old(self).pending@,
            decreases rest.len(),
        {
            let ghost before = rest@;
            let ghost tail = arrived@;
            if let Some(last) = rest.pop() {
                arrived.push_front(last);
                assert(arrived@ =~= seq![last] + tail);
                assert(before =~= rest@.push(last));
                assert(rest@ + arrived@ =~= before + tail);
            }
        }
        assert(all =~= arrived@);
        self.pending.append(&mut arrived);
    }

    /// The request to handle next.
    pub fn next(&mut self) -> (request: Option<DownloadRequest>)
        ensures
            match request {
                Some(first) => {
                    &&& old(self).pending@.len() > 0
                    &&& first == old(self).pending@[0]
                    &&& final(self).pending@ == old(self).pending@.skip(1)
                },
                None => old(self).pending@.len() == 0 && final(self).pending@.len() == 0,
            },
    {
        let request = self.pending.pop_front();
        proof {
            if request is Some {
                assert(self.pending@ =~= old(self).pending@.skip(1));
            }
        }
        request
    }
}

} // verus!
