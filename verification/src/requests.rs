//! What the download task does with a request.

use vstd::prelude::*;

use crate::batch::{CollectedFiles, FetchedNodeSet, RequestedFiles, ResolvedUrl};
use crate::events::{DownloadEvent, DownloadRequest};
use crate::ids::{self, FileId, FileIdMap};
use crate::ordered::{OrderedIds, OrderedMap};
use crate::text::{self, counted, decimal_text, joined, quoted};

verus! {

/// Whether an event is a status message with a given text.
pub open spec fn says(event: DownloadEvent, message: Seq<char>) -> bool {
    event matches DownloadEvent::StatusMessage(shown) && shown@ == message
}

/// Whether an event reports an error of a given scope.
pub open spec fn scope_error(event: DownloadEvent, scope: Seq<char>, message: Seq<char>) -> bool {
    event matches DownloadEvent::ScopeError { scope: reported, error } && reported@ == scope
        && error@ == message
}

/// The events that announce a request.
pub open spec fn announces(request: DownloadRequest, events: Seq<DownloadEvent>) -> bool {
    match request {
        DownloadRequest::SubmitUrl { url, .. } => {
            &&& events.len() == 2
            &&& events[0] == (DownloadEvent::UrlQueued { url })
            &&& says(events[1], "Processing 1 URL(s)..."@)
        },
        DownloadRequest::ResumeFileIds { file_ids, .. } => {
            &&& events.len() == 1
            &&& says(
                events[0],
                "Refreshing "@ + text::decimal(file_ids@.len()) + " queued file(s)..."@,
            )
        },
        DownloadRequest::ReverifyFileIds { file_ids, .. } => {
            &&& events.len() == 1
            &&& says(
                events[0],
                "Reverifying "@ + text::decimal(file_ids@.len()) + " file(s)..."@,
            )
        },
        DownloadRequest::ReverifyFileIdsWithOperations { file_ids, .. } => {
            &&& events.len() == 1
            &&& says(
                events[0],
                "Reverifying "@ + text::decimal(file_ids@.len()) + " file(s)..."@,
            )
        },
        DownloadRequest::VerifyCompletedFileIds { file_ids, .. } => {
            &&& events.len() == 1
            &&& says(
                events[0],
                "Verifying "@ + text::decimal(file_ids@.len()) + " completed file(s)..."@,
            )
        },
        DownloadRequest::VerifyCompletedFileIdsWithOperations { file_ids, .. } => {
            &&& events.len() == 1
            &&& says(
                events[0],
                "Verifying "@ + text::decimal(file_ids@.len()) + " completed file(s)..."@,
            )
        },
        DownloadRequest::SyncPendingOrder { .. } => events.len() == 0,
    }
}

/// The events that announce a request.
pub fn queue_download_request_events(request: &DownloadRequest) -> (events: Vec<DownloadEvent>)
    ensures
        announces(*request, events@),
{
    let mut events: Vec<DownloadEvent> = Vec::new();
    match request {
        DownloadRequest::SubmitUrl { url, .. } => {
            events.push(DownloadEvent::UrlQueued { url: url.clone() });
            events.push(DownloadEvent::StatusMessage("Processing 1 URL(s)...".to_owned()));
        },
        DownloadRequest::ResumeFileIds { file_ids, .. } => {
            events.push(
                DownloadEvent::StatusMessage(
                    counted("Refreshing ", file_ids.len() as u64, " queued file(s)..."),
                ),
            );
        },
        DownloadRequest::ReverifyFileIds { file_ids, .. } => {
            events.push(
                DownloadEvent::StatusMessage(
                    counted("Reverifying ", file_ids.len() as u64, " file(s)..."),
                ),
            );
        },
        DownloadRequest::ReverifyFileIdsWithOperations { file_ids, .. } => {
            events.push(
                DownloadEvent::StatusMessage(
                    counted("Reverifying ", file_ids.len() as u64, " file(s)..."),
                ),
            );
        },
        DownloadRequest::VerifyCompletedFileIds { file_ids, .. } => {
            events.push(
                DownloadEvent::StatusMessage(
                    counted("Verifying ", file_ids.len() as u64, " completed file(s)..."),
                ),
            );
        },
        DownloadRequest::VerifyCompletedFileIdsWithOperations { file_ids, .. } => {
            events.push(
                DownloadEvent::StatusMessage(
                    counted("Verifying ", file_ids.len() as u64, " completed file(s)..."),
                ),
            );
        },
        DownloadRequest::SyncPendingOrder { .. } => {},
    }
    events
}

/// What is wanted from one link.
pub struct SourcePlan {
    pub requested_files: RequestedFiles,
    pub attempt_ids: FileIdMap<u64>,
    pub emit_url_resolved: bool,
}

/// What is wanted from one link: all files or those of a list, under which attempts, and whether
/// the link itself is to be reported.
pub struct SourceModel {
    pub all: bool,
    pub wanted: Seq<Seq<char>>,
    pub attempts: Map<Seq<char>, u64>,
    pub reported: bool,
}

impl SourcePlan {
    /// What is wanted from the link.
    pub open spec fn model(self) -> SourceModel {
        SourceModel {
            all: self.requested_files is All,
            wanted: match self.requested_files {
                RequestedFiles::All => Seq::empty(),
                RequestedFiles::Only(wanted) => wanted@,
            },
            attempts: self.attempt_ids@,
            reported: self.emit_url_resolved,
        }
    }

    /// Names that were asked for are distinct.
    pub open spec fn wf(self) -> bool {
        self.requested_files.wf()
    }
}

/// The links of a list of requests, in the order in which they were first named, with what is
/// wanted from each.
pub struct RequestModel {
    pub links: Seq<Seq<char>>,
    pub sources: Seq<SourceModel>,
}

impl RequestModel {
    /// No link is named.
    pub open spec fn empty() -> RequestModel {
        RequestModel { links: Seq::empty(), sources: Seq::empty() }
    }

    /// The links with another wish for one of them.
    pub open spec fn with(self, link: Seq<char>, source: SourceModel) -> RequestModel {
        if self.links.contains(link) {
            RequestModel {
                links: self.links,
                sources: self.sources.update(self.links.index_of(link), source),
            }
        } else {
            RequestModel { links: self.links.push(link), sources: self.sources.push(source) }
        }
    }

    /// The links after one more request. A submission wants all files, whatever was wanted
    /// before; a resumption wants its files besides those that were wanted.
    pub open spec fn after(self, request: DownloadRequest) -> RequestModel {
        match request {
            DownloadRequest::SubmitUrl { url, attempt_ids } => self.with(
                url@,
                SourceModel {
                    all: true,
                    wanted: Seq::empty(),
                    attempts: attempt_ids@,
                    reported: true,
                },
            ),
            DownloadRequest::ResumeFileIds { source_url, file_ids, attempt_ids } => {
                if self.links.contains(source_url@) {
                    let known = self.sources[self.links.index_of(source_url@)];
                    self.with(
                        source_url@,
                        SourceModel {
                            all: known.all,
                            wanted: if known.all {
                                known.wanted
                            } else {
                                text::first_seen(known.wanted + ids::texts(file_ids@))
                            },
                            attempts: known.attempts.union_prefer_right(attempt_ids@),
                            reported: known.reported,
                        },
                    )
                } else {
                    self.with(
                        source_url@,
                        SourceModel {
                            all: false,
                            wanted: text::first_seen(ids::texts(file_ids@)),
                            attempts: attempt_ids@,
                            reported: false,
                        },
                    )
                }
            },
            _ => self,
        }
    }

    /// The links after a list of requests.
    pub open spec fn after_all(self, requests: Seq<DownloadRequest>) -> RequestModel
        decreases requests.len(),
    {
        if requests.len() == 0 {
            self
        } else {
            self.after_all(requests.drop_last()).after(requests.last())
        }
    }
}

/// The links that requests name, with what is wanted from each.
pub open spec fn plan_model(plan: OrderedMap<SourcePlan>) -> RequestModel {
    RequestModel {
        links: plan.keys(),
        sources: plan.values().map_values(|source: SourcePlan| source.model()),
    }
}

/// Every source of a plan is well formed.
pub open spec fn plan_wf(plan: OrderedMap<SourcePlan>) -> bool {
    &&& plan.wf()
    &&& forall|i: int| 0 <= i < plan.values().len() ==> (#[trigger] plan.values()[i]).wf()
}

/// Notes what one request wants.
fn note_request(plan: &mut OrderedMap<SourcePlan>, request: &DownloadRequest)
    requires
        plan_wf(*old(plan)),
    ensures
        plan_wf(*final(plan)),
        plan_model(*final(plan)) == plan_model(*old(plan)).after(*request),
{
    match request {
        DownloadRequest::SubmitUrl { url, attempt_ids } => {
            let source = SourcePlan {
                requested_files: RequestedFiles::All,
                attempt_ids: attempt_ids.copy(),
                emit_url_resolved: true,
            };
            plan.insert(url.clone(), source);
            proof {
                let next = plan_model(*old(plan)).after(*request);
                assert(plan_model(*plan).sources =~= next.sources);
                assert(plan_model(*plan).links =~= next.links);
            }
        },
        DownloadRequest::ResumeFileIds { source_url, file_ids, attempt_ids } => {
            match plan.find(source_url) {
                Some(at) => {
                    assert(plan.keys()[at as int] == source_url@);
                    let empty = SourcePlan {
                        requested_files: RequestedFiles::All,
                        attempt_ids: FileIdMap::new(),
                        emit_url_resolved: false,
                    };
                    let mut source = plan.replace(at, empty);
                    if let RequestedFiles::Only(mut wanted) = source.requested_files {
                        wanted.extend(file_ids);
                        source.requested_files = RequestedFiles::Only(wanted);
                    } else {
                        source.requested_files = RequestedFiles::All;
                    }
                    source.attempt_ids.extend(attempt_ids);
                    let _ = plan.replace(at, source);
                    proof {
                        let next = plan_model(*old(plan)).after(*request);
                        assert(plan_model(*plan).sources =~= next.sources);
                    }
                },
                None => {
                    let mut wanted = OrderedIds::new();
                    wanted.extend(file_ids);
                    let source = SourcePlan {
                        requested_files: RequestedFiles::Only(wanted),
                        attempt_ids: attempt_ids.copy(),
                        emit_url_resolved: false,
                    };
                    assert(Seq::<Seq<char>>::empty() + ids::texts(file_ids@) =~= ids::texts(
                        file_ids@,
                    ));
                    plan.insert(source_url.clone(), source);
                    proof {
                        let next = plan_model(*old(plan)).after(*request);
                        assert(plan_model(*plan).sources =~= next.sources);
                        assert(plan_model(*plan).links =~= next.links);
                    }
                },
            }
        },
        _ => {},
    }
}

/// Merges requests into what is wanted from each link.
pub fn plan_requests(requests: &Vec<DownloadRequest>) -> (plan: OrderedMap<SourcePlan>)
    ensures
        plan_wf(plan),
        plan_model(plan) == RequestModel::empty().after_all(requests@),
{
    let mut plan: OrderedMap<SourcePlan> = OrderedMap::new();
    let mut i: usize = 0;
    proof {
        assert(requests@.take(0) =~= Seq::empty());
        assert(plan_model(plan).sources =~= Seq::empty());
    }
    while i < requests.len()
        invariant
            i <= requests.len(),
            plan_wf(plan),
            plan_model(plan) == RequestModel::empty().after_all(requests@.take(i as int)),
        decreases requests.len() - i,
    {
        proof {
            let longer = requests@.take(i as int + 1);
            assert(longer.drop_last() =~= requests@.take(i as int));
            assert(longer.last() == requests@[i as int]);
        }
        note_request(&mut plan, &requests[i]);
        i = i + 1;
    }
    assert(requests@.take(i as int) =~= requests@);
    plan
}

/// A submission of a link makes all its files wanted, and later resumptions leave it so.
pub proof fn law_submission_wins(
    before: RequestModel,
    url: String,
    tried: FileIdMap<u64>,
    source_url: String,
    file_ids: Vec<FileId>,
    attempt_ids: FileIdMap<u64>,
)
    requires
        before.links.len() == before.sources.len(),
        before.links.no_duplicates(),
        source_url@ == url@,
    ensures
        ({
            let submitted = before.after(
                DownloadRequest::SubmitUrl { url, attempt_ids: tried },
            );
            let resumed = submitted.after(
                DownloadRequest::ResumeFileIds { source_url, file_ids, attempt_ids },
            );
            &&& submitted.links.contains(url@)
            &&& submitted.sources[submitted.links.index_of(url@)].all
            &&& resumed.links == submitted.links
            &&& resumed.sources[submitted.links.index_of(url@)].all
        }),
{
    let submitted = before.after(
                DownloadRequest::SubmitUrl { url, attempt_ids: tried },
            );
    if before.links.contains(url@) {
        assert(submitted.links[before.links.index_of(url@)] == url@);
    } else {
        assert(submitted.links[before.links.len() as int] == url@);
    }
}

/// A link with what came of fetching it.
pub fn fetched_node_set(
    source: ResolvedUrl,
    plan: &SourcePlan,
    fetched: Result<CollectedFiles, String>,
    submission_attempt_id: u64,
) -> (outcome: (FetchedNodeSet, Option<DownloadEvent>))
    requires
        plan.wf(),
    ensures
        outcome.0.resolved == source,
        outcome.0.requested_files.wf(),
        outcome.0.requested_files.same_as(plan.requested_files),
        outcome.0.requested_attempt_ids@ == plan.attempt_ids@,
        outcome.0.submission_attempt_id == submission_attempt_id,
        outcome.0.emit_url_resolved == plan.emit_url_resolved,
        match fetched {
            Ok(files) => outcome.0.files == Some(files) && outcome.1 is None,
            Err(error) => outcome.0.files is None && (outcome.1 matches Some(event) && event == (
            DownloadEvent::ScopeError { scope: source.source_url, error })),
        },
{
    let (files, event) = match fetched {
        Ok(files) => (Some(files), None),
        Err(error) => (
            None,
            Some(DownloadEvent::ScopeError { scope: source.source_url.clone(), error }),
        ),
    };
    (
        FetchedNodeSet {
            resolved: source,
            files,
            requested_files: plan.requested_files.copy(),
            requested_attempt_ids: plan.attempt_ids.copy(),
            submission_attempt_id,
            emit_url_resolved: plan.emit_url_resolved,
        },
        event,
    )
}

/// How fetching a link went wrong.
pub enum FetchFailure {
    Failed(String),
    Panicked(String),
}

/// The message for a link that could not be fetched.
pub fn fetch_error(failure: &FetchFailure) -> (message: String)
    ensures
        message@ == match failure {
            FetchFailure::Failed(error) => "Fetch failed: "@ + error@,
            FetchFailure::Panicked(error) => "Fetch panicked: "@ + error@,
        },
{
    match failure {
        FetchFailure::Failed(error) => joined("Fetch failed: ", error),
        FetchFailure::Panicked(error) => joined("Fetch panicked: ", error),
    }
}

/// The message of a panic; `payload` is its text where it carries one.
pub fn describe_panic(payload: Option<&str>) -> (message: String)
    ensures
        message@ == match payload {
            Some(text) => text@,
            None => "unknown panic payload"@,
        },
{
    match payload {
        Some(text) => text.to_owned(),
        None => "unknown panic payload".to_owned(),
    }
}

/// `dirs::home_dir` of the `dirs` crate gives the home directory that the environment or the
/// user database names. Nothing is claimed of it.
#[verifier::external_body]
fn home_directory() -> (home: Option<String>) {
    match dirs::home_dir() {
        Some(path) => Some(path.to_string_lossy().into_owned()),
        None => None,
    }
}

/// A path with a leading tilde replaced by the home directory.
pub open spec fn expanded(path: Seq<char>, home: Seq<char>) -> Seq<char> {
    if path.len() > 0 && path[0] == '~' {
        home + path.skip(1)
    } else {
        path
    }
}

/// Expands a leading tilde, given the home directory.
pub fn expand_path_in(url: &str, home: Option<&str>) -> (path: Result<String, String>)
    ensures
        match path {
            Ok(full) => {
                &&& !(url@.len() > 0 && url@[0] == '~') || home is Some
                &&& full@ == expanded(
                    url@,
                    match home {
                        Some(directory) => directory@,
                        None => Seq::empty(),
                    },
                )
            },
            Err(error) => {
                &&& url@.len() > 0 && url@[0] == '~' && home is None
                &&& error@ == "Could not determine home directory"@
            },
        },
{
    let chars = text::chars_of(url);
    if chars.len() == 0 || chars[0] != '~' {
        return Ok(url.to_owned());
    }
    match home {
        Some(directory) => {
            let rest = text::text_of(&chars, 1, chars.len());
            assert(chars@.subrange(1, chars@.len() as int) =~= url@.skip(1));
            Ok(joined(directory, &rest))
        },
        None => Err("Could not determine home directory".to_owned()),
    }
}

/// Expands a leading tilde to the home directory.
pub fn expand_dlc_path(url: &str) -> (path: Result<String, String>)
    ensures
        !(url@.len() > 0 && url@[0] == '~') ==> (path matches Ok(full) && full@ == url@),
        match path {
            Ok(full) => exists|home: Seq<char>| full@ == expanded(url@, home),
            Err(error) => error@ == "Could not determine home directory"@,
        },
{
    let home = home_directory();
    match home {
        Some(directory) => expand_path_in(url, Some(directory.as_str())),
        None => expand_path_in(url, None),
    }
}

/// What came of reading a container file of links.
pub enum DlcOutcome {
    Links(Vec<String>),
    Unreadable(String),
}

/// The links of a container file, with the event that reports on it.
pub fn dlc_sources(url: &str, outcome: DlcOutcome) -> (sources: (Vec<ResolvedUrl>, DownloadEvent))
    ensures
        match outcome {
            DlcOutcome::Links(links) => {
                &&& sources.0@.len() == links@.len()
                &&& forall|i: int|
                    0 <= i < links@.len() ==> {
                        let source = #[trigger] sources.0@[i];
                        &&& source.source_url == links@[i]
                        &&& source.submitted_url@ == url@
                        &&& source.package_id is None
                        &&& source.package_display_name is None
                    }
                &&& says(
                    sources.1,
                    "DLC "@ + url@ + ": "@ + text::decimal(links@.len()) + " MEGA link(s)"@,
                )
            },
            DlcOutcome::Unreadable(error) => {
                &&& sources.0@.len() == 0
                &&& scope_error(sources.1, url@, "DLC parse error: "@ + error@)
            },
        },
{
    match outcome {
        DlcOutcome::Links(links) => {
            let mut resolved: Vec<ResolvedUrl> = Vec::new();
            let mut i: usize = 0;
            while i < links.len()
                invariant
                    i <= links.len(),
                    resolved@.len() == i,
                    forall|j: int|
                        0 <= j < i ==> {
                            let source = #[trigger] resolved@[j];
                            &&& source.source_url == links@[j]
                            &&& source.submitted_url@ == url@
                            &&& source.package_id is None
                            &&& source.package_display_name is None
                        },
                decreases links.len() - i,
            {
                resolved.push(ResolvedUrl::from_source(links[i].clone(), url));
                i = i + 1;
            }
            let mut message = quoted("DLC ", url, ": ");
            message.append(&decimal_text(links.len() as u64));
            message.append(" MEGA link(s)");
            (resolved, DownloadEvent::StatusMessage(message))
        },
        DlcOutcome::Unreadable(error) => (
            Vec::new(),
            DownloadEvent::ScopeError {
                scope: url.to_owned(),
                error: joined("DLC parse error: ", &error),
            },
        ),
    }
}

/// The event that announces the reading of a container file.
pub fn dlc_announcement(url: &str) -> (event: DownloadEvent)
    ensures
        says(event, "Processing DLC: "@ + url@),
{
    DownloadEvent::StatusMessage(joined("Processing DLC: ", url))
}

} // verus!
