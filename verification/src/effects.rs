//! What follows from an event of the core.

use vstd::prelude::*;

use crate::batch::{self, DownloadItem, RequestedFiles, ResolvedUrl};
use crate::events::DownloadRequest;
use crate::ids::{self, copy_ids, FileId, FileIdMap, PackageId};
use crate::model::{CoreCommand, CoreEffect, CoreEvent, DownloadState, ResolvedPackage};
use crate::ordered::OrderedMap;
use crate::requests;
use crate::scheduler;
use crate::text;
use crate::tracking::TrackingModel;

verus! {

/// Whether the list of rows has to be built anew after an event.
pub open spec fn changes_rows(event: CoreEvent) -> bool {
    !(event is FileProgress || event is FileReuseDetected || event is Tick)
}

/// Whether the order of pending files may have changed after an event.
pub open spec fn changes_queue(event: CoreEvent) -> bool {
    event is PackageResolved || event is FileQueued || event is FileCancelled
        || event is FileDeleted || event is PackageDeleted || event is FileRetryRequested
        || event is FileResetRequested || event is PackageMoveRequested
        || event is FileMoveRequested || event is RestartReconciled
}

/// Whether the list of rows has to be built anew after an event.
pub fn core_event_requires_visible_sync(event: &CoreEvent) -> (required: bool)
    ensures
        required == changes_rows(*event),
{
    !matches!(
        event,
        CoreEvent::FileProgress { .. } | CoreEvent::FileReuseDetected { .. } | CoreEvent::Tick
    )
}

/// Whether the order of pending files may have changed after an event.
pub fn core_event_requires_pending_sync(event: &CoreEvent) -> (required: bool)
    ensures
        required == changes_queue(*event),
{
    matches!(
        event,
        CoreEvent::PackageResolved { .. } | CoreEvent::FileQueued { .. }
            | CoreEvent::FileCancelled { .. } | CoreEvent::FileDeleted { .. }
            | CoreEvent::PackageDeleted { .. } | CoreEvent::FileRetryRequested { .. }
            | CoreEvent::FileResetRequested { .. } | CoreEvent::PackageMoveRequested { .. }
            | CoreEvent::FileMoveRequested { .. } | CoreEvent::RestartReconciled
    )
}

/// What has to be brought up to date after an event.
#[derive(Clone, Copy, Debug, PartialEq, Eq, Structural)]
pub struct CoreApplyPolicy {
    pub sync_visible: bool,
    pub sync_pending: bool,
    pub recompute_totals: bool,
}

impl CoreApplyPolicy {
    /// After an ordinary event.
    pub open spec fn after(event: CoreEvent) -> CoreApplyPolicy {
        CoreApplyPolicy {
            sync_visible: changes_rows(event),
            sync_pending: changes_queue(event),
            recompute_totals: true,
        }
    }

    /// After an ordinary event.
    pub fn for_event(event: &CoreEvent) -> (policy: CoreApplyPolicy)
        ensures
            policy == CoreApplyPolicy::after(*event),
            policy == (CoreApplyPolicy {
                sync_visible: changes_rows(*event),
                sync_pending: changes_queue(*event),
                recompute_totals: true,
            }),
    {
        CoreApplyPolicy {
            sync_visible: core_event_requires_visible_sync(event),
            sync_pending: core_event_requires_pending_sync(event),
            recompute_totals: true,
        }
    }

    /// After mere progress.
    pub fn for_progress() -> (policy: CoreApplyPolicy)
        ensures
            policy == (CoreApplyPolicy {
                sync_visible: false,
                sync_pending: false,
                recompute_totals: false,
            }),
    {
        CoreApplyPolicy { sync_visible: false, sync_pending: false, recompute_totals: false }
    }
}

/// Whether an event is what a request to the core comes to.
pub open spec fn comes_to(command: CoreCommand, event: CoreEvent) -> bool {
    match (command, event) {
        (CoreCommand::DeleteFile { file_id }, CoreEvent::FileDeleted { file_id: id }) => id
            == file_id,
        (
            CoreCommand::DeletePackage { package_id },
            CoreEvent::PackageDeleted { package_id: id },
        ) => id == package_id,
        (CoreCommand::RetryFile { file_id }, CoreEvent::FileRetryRequested { file_id: id }) => id
            == file_id,
        (CoreCommand::ResetFile { file_id }, CoreEvent::FileResetRequested { file_id: id }) => id
            == file_id,
        (
            CoreCommand::MoveFile { file_id, delta },
            CoreEvent::FileMoveRequested { file_id: id, delta: by },
        ) => id == file_id && by == delta,
        (
            CoreCommand::MovePackage { package_id, delta },
            CoreEvent::PackageMoveRequested { package_id: id, delta: by },
        ) => id == package_id && by == delta,
        _ => false,
    }
}

/// Whatever the user asks of files and packages that the core knows, moving them among it, the
/// download task is told the order that follows, and the rows are built anew.
pub proof fn law_requests_of_the_user_reach_the_download_order(
    command: CoreCommand,
    event: CoreEvent,
)
    requires
        comes_to(command, event),
    ensures
        CoreApplyPolicy::after(event).sync_pending,
        CoreApplyPolicy::after(event).sync_visible,
        CoreApplyPolicy::after(event).recompute_totals,
{
}

/// Moving a file or a package, by however much, has the download task told the new order.
pub proof fn law_moves_reach_the_download_order(
    file_id: FileId,
    package_id: PackageId,
    delta: isize,
)
    ensures
        CoreApplyPolicy::after(CoreEvent::FileMoveRequested { file_id, delta }).sync_pending,
        CoreApplyPolicy::after(CoreEvent::PackageMoveRequested { package_id, delta }).sync_pending,
        CoreApplyPolicy::after(CoreEvent::FileMoveRequested { file_id, delta }).sync_visible,
        CoreApplyPolicy::after(CoreEvent::PackageMoveRequested { package_id, delta }).sync_visible,
{
}

/// Every event that puts files into the queue or takes them out of it has the download task told
/// the order that follows.
pub proof fn law_arrivals_and_departures_reach_the_download_order(
    package: ResolvedPackage,
    file_id: FileId,
    package_id: PackageId,
)
    ensures
        CoreApplyPolicy::after(CoreEvent::PackageResolved { package }).sync_pending,
        CoreApplyPolicy::after(CoreEvent::FileQueued { file_id }).sync_pending,
        CoreApplyPolicy::after(CoreEvent::FileCancelled { file_id }).sync_pending,
        CoreApplyPolicy::after(CoreEvent::FileDeleted { file_id }).sync_pending,
        CoreApplyPolicy::after(CoreEvent::PackageDeleted { package_id }).sync_pending,
        CoreApplyPolicy::after(CoreEvent::FileRetryRequested { file_id }).sync_pending,
        CoreApplyPolicy::after(CoreEvent::FileResetRequested { file_id }).sync_pending,
        CoreApplyPolicy::after(CoreEvent::RestartReconciled).sync_pending,
{
}

/// Every event has the rows built anew but mere progress, reused data and the clock; an event
/// that has the order told is none of these.
pub proof fn law_rows_follow_the_core(event: CoreEvent)
    ensures
        !CoreApplyPolicy::after(event).sync_visible <==> (event is Tick || event is FileProgress
            || event is FileReuseDetected),
        CoreApplyPolicy::after(event).sync_pending ==> CoreApplyPolicy::after(event).sync_visible,
        CoreApplyPolicy::after(event).recompute_totals,
{
}

/// Something to be done outside the core.
#[derive(Debug, PartialEq, Eq)]
pub enum EffectAction {
    Persist,
    Send(DownloadRequest),
    DeleteOutput { path: String },
    DeleteResume { path: String },
    SetStatus(String),
}

/// The attempts of all files that were tried before.
pub open spec fn tried(attempts: Map<Seq<char>, u64>) -> Map<Seq<char>, u64> {
    Map::new(
        |id: Seq<char>| attempts.dom().contains(id) && attempts[id] > 0,
        |id: Seq<char>| attempts[id],
    )
}

/// Whether a request submits an address, with the attempts of files that were tried before.
pub open spec fn submits(
    request: DownloadRequest,
    url: String,
    attempts: Map<Seq<char>, u64>,
) -> bool {
    match request {
        DownloadRequest::SubmitUrl { url: submitted, attempt_ids } => {
            &&& submitted == url
            &&& attempt_ids@ == tried(attempts)
        },
        _ => false,
    }
}

/// Whether an effect asks for something at once.
pub open spec fn acts_at_once() -> spec_fn(CoreEffect) -> bool {
    |effect: CoreEffect| !(effect is EnqueueFileDownload) && !(effect is PublishViewSnapshot)
}

/// Whether an action is what an effect asks for at once.
pub open spec fn answers(
    action: EffectAction,
    effect: CoreEffect,
    attempts: Map<Seq<char>, u64>,
) -> bool {
    match effect {
        CoreEffect::PersistSession => action == EffectAction::Persist,
        CoreEffect::EnqueueUrlResolution { url } => {
            action matches EffectAction::Send(request) && submits(request, url, attempts)
        },
        CoreEffect::DeleteOutputArtifacts { path } => action == (EffectAction::DeleteOutput {
            path,
        }),
        CoreEffect::DeleteResumeArtifacts { path } => action == (EffectAction::DeleteResume {
            path,
        }),
        CoreEffect::PublishStatusMessage(message) => action == EffectAction::SetStatus(message),
        CoreEffect::EnqueueFileDownload { .. } => false,
        CoreEffect::PublishViewSnapshot => false,
    }
}

/// The known files whose download effects ask for, in their order.
pub open spec fn enqueued(effects: Seq<CoreEffect>, state: DownloadState) -> Seq<Seq<char>>
    decreases effects.len(),
{
    if effects.len() == 0 {
        Seq::empty()
    } else {
        let earlier = enqueued(effects.drop_last(), state);
        match effects.last() {
            CoreEffect::EnqueueFileDownload { file_id } => if state.has(file_id@) {
                earlier.push(file_id@)
            } else {
                earlier
            },
            _ => earlier,
        }
    }
}

/// The address that a file came from.
pub open spec fn source_in(state: DownloadState) -> spec_fn(Seq<char>) -> Seq<char> {
    |id: Seq<char>| state.file(id).source_url@
}

/// Whether a file came from an address.
pub open spec fn comes_from(state: DownloadState, url: Seq<char>) -> spec_fn(Seq<char>) -> bool {
    |id: Seq<char>| state.file(id).source_url@ == url
}

/// The addresses of files, without repetition.
pub open spec fn sources_of(files: Seq<Seq<char>>, state: DownloadState) -> Seq<Seq<char>> {
    text::first_seen(files.map_values(source_in(state)))
}

/// The files of one address, without repetition.
pub open spec fn files_from(
    files: Seq<Seq<char>>,
    state: DownloadState,
    url: Seq<char>,
) -> Seq<Seq<char>> {
    text::first_seen(files.filter(comes_from(state, url)))
}

/// The attempts of files that were tried before.
pub open spec fn attempts_of(
    files: Seq<Seq<char>>,
    attempts: Map<Seq<char>, u64>,
) -> Map<Seq<char>, u64> {
    Map::new(
        |id: Seq<char>| files.contains(id) && attempts.dom().contains(id) && attempts[id] > 0,
        |id: Seq<char>| attempts[id],
    )
}

/// Whether an action asks for the files of one address.
pub open spec fn resumes(
    action: EffectAction,
    url: Seq<char>,
    files: Seq<Seq<char>>,
    attempts: Map<Seq<char>, u64>,
) -> bool {
    match action {
        EffectAction::Send(
            DownloadRequest::ResumeFileIds { source_url, file_ids, attempt_ids },
        ) => {
            &&& source_url@ == url
            &&& ids::texts(file_ids@) == files
            &&& attempt_ids@ == attempts_of(files, attempts)
        },
        _ => false,
    }
}

/// The known files whose download effects ask for, in their order.
fn enqueued_files(effects: &Vec<CoreEffect>, state: &DownloadState) -> (files: Vec<FileId>)
    requires
        state.wf(),
    ensures
        ids::texts(files@) == enqueued(effects@, *state),
        forall|k: int| 0 <= k < files@.len() ==> state.has(#[trigger] files@[k]@),
{
    let mut files: Vec<FileId> = Vec::new();
    let mut i: usize = 0;
    assert(ids::texts(files@) =~= Seq::empty());
    while i < effects.len()
        invariant
            i <= effects@.len(),
            state.wf(),
            ids::texts(files@) == enqueued(effects@.take(i as int), *state),
            forall|k: int| 0 <= k < files@.len() ==> state.has(#[trigger] files@[k]@),
        decreases effects.len() - i,
    {
        let ghost before = ids::texts(files@);
        assert(effects@.take(i as int + 1).drop_last() =~= effects@.take(i as int));
        match &effects[i] {
            CoreEffect::EnqueueFileDownload { file_id } => {
                if state.contains_file(file_id) {
                    files.push(file_id.clone());
                    assert(ids::texts(files@) =~= before.push(file_id@));
                }
            },
            _ => {},
        }
        i += 1;
    }
    assert(effects@.take(i as int) =~= effects@);
    files
}

/// Files grouped by their addresses.
pub fn group_by_source(files: &Vec<FileId>, state: &DownloadState) -> (groups: OrderedMap<
    Vec<FileId>,
>)
    requires
        state.wf(),
        forall|k: int| 0 <= k < files@.len() ==> state.has(#[trigger] files@[k]@),
    ensures
        groups.wf(),
        groups.keys() == sources_of(ids::texts(files@), *state),
        forall|k: int|
            0 <= k < groups.keys().len() ==> ids::texts(#[trigger] groups.values()[k]@)
                == files_from(ids::texts(files@), *state, groups.keys()[k]),
{
    let mut groups: OrderedMap<Vec<FileId>> = OrderedMap::new();
    let mut i: usize = 0;
    while i < files.len()
        invariant
            i <= files@.len(),
            state.wf(),
            forall|k: int| 0 <= k < files@.len() ==> state.has(#[trigger] files@[k]@),
            groups.wf(),
            groups.keys() == sources_of(ids::texts(files@.take(i as int)), *state),
            forall|k: int|
                0 <= k < groups.keys().len() ==> ids::texts(#[trigger] groups.values()[k]@)
                    == files_from(ids::texts(files@.take(i as int)), *state, groups.keys()[k]),
        decreases files.len() - i,
    {
        let ghost before = ids::texts(files@.take(i as int));
        let ghost keys = groups.keys();
        let ghost values = groups.values();
        let file_id = &files[i];
        assert(ids::texts(files@.take(i as int + 1)) =~= before.push(file_id@));
        if let Some(file) = state.get_file(file_id) {
            let ghost url = file.source_url@;
            proof {
                lemma_enqueue(before, *state, file_id@);
                text::law_first_seen(before.map_values(source_in(*state)));
                text::law_first_seen(before.filter(comes_from(*state, url)));
            }
            match groups.find(&file.source_url) {
                Some(at) => {
                    let mut group: Vec<FileId> = groups.replace(at, Vec::new());
                    proof {
                        assert(keys[at as int] == url);
                        assert(keys.contains(url));
                    }
                    if !ids::lists(&group, file_id) {
                        group.push(file_id.clone());
                        proof {
                            assert(ids::texts(group@) =~= ids::texts(values[at as int]@).push(
                                file_id@,
                            ));
                        }
                    }
                    let _ = groups.replace(at, group);
                    proof {
                        assert forall|k: int| 0 <= k < groups.keys().len() implies ids::texts(
                            #[trigger] groups.values()[k]@,
                        ) == files_from(before.push(file_id@), *state, groups.keys()[k]) by {
                            if k != at {
                                assert(keys[k] != url);
                                assert(groups.values()[k] == values[k]);
                            }
                        }
                    }
                },
                None => {
                    let mut group: Vec<FileId> = Vec::new();
                    group.push(file_id.clone());
                    groups.insert(file.source_url.clone(), group);
                    proof {
                        assert(ids::texts(group@) =~= seq![file_id@]);
                        assert forall|k: int| 0 <= k < groups.keys().len() implies ids::texts(
                            #[trigger] groups.values()[k]@,
                        ) == files_from(before.push(file_id@), *state, groups.keys()[k]) by {
                            if k < keys.len() {
                                assert(keys[k] != url);
                                assert(groups.values()[k] == values[k]);
                            } else {
                                lemma_no_file_from(before, *state, url);
                            }
                        }
                    }
                },
            }
        }
        i += 1;
    }
    assert(files@.take(i as int) =~= files@);
    groups
}

/// How the groups change with one more file.
proof fn lemma_enqueue(before: Seq<Seq<char>>, state: DownloadState, id: Seq<char>)
    ensures
        ({
            let url = state.file(id).source_url@;
            &&& sources_of(before.push(id), state) == if before.map_values(
                source_in(state),
            ).contains(url) {
                sources_of(before, state)
            } else {
                sources_of(before, state).push(url)
            }
            &&& files_from(before.push(id), state, url) == if files_from(
                before,
                state,
                url,
            ).contains(id) {
                files_from(before, state, url)
            } else {
                files_from(before, state, url).push(id)
            }
            &&& forall|other: Seq<char>|
                other != url ==> #[trigger] files_from(before.push(id), state, other)
                    == files_from(before, state, other)
        }),
{
    let url = state.file(id).source_url@;
    let source = source_in(state);
    let sources = before.map_values(source);
    assert(before.push(id).map_values(source) =~= sources.push(url));
    assert(sources.push(url).drop_last() =~= sources);
    let here = comes_from(state, url);
    scheduler::lemma_filter_push(before, id, here);
    let mine = before.filter(here);
    assert(mine.push(id).drop_last() =~= mine);
    text::law_first_seen(mine);
    assert forall|other: Seq<char>| other != url implies #[trigger] files_from(
        before.push(id),
        state,
        other,
    ) == files_from(before, state, other) by {
        scheduler::lemma_filter_push(
            before,
            id,
            comes_from(state, other),
        );
    }
}

/// No file comes from an address that no file names.
proof fn lemma_no_file_from(before: Seq<Seq<char>>, state: DownloadState, url: Seq<char>)
    requires
        !before.map_values(source_in(state)).contains(url),
    ensures
        files_from(before, state, url) == Seq::<Seq<char>>::empty(),
{
    let source = source_in(state);
    let here = comes_from(state, url);
    let mine = before.filter(here);
    if mine.len() > 0 {
        let id = mine[0];
        scheduler::lemma_filter_to_set(before, here);
        assert(mine.to_set().contains(id));
        assert(before.to_set().contains(id));
        let at = choose|at: int| 0 <= at < before.len() && before[at] == id;
        assert(before.map_values(source)[at] == url);
    }
    assert(mine =~= Seq::empty());
}

/// The attempts of files that were tried before.
fn earlier_attempts(files: &Vec<FileId>, attempts: &FileIdMap<u64>) -> (earlier: FileIdMap<u64>)
    ensures
        earlier@ == attempts_of(ids::texts(files@), attempts@),
{
    let mut earlier: FileIdMap<u64> = FileIdMap::new();
    let mut i: usize = 0;
    assert(earlier@ =~= attempts_of(ids::texts(files@.take(0)), attempts@));
    while i < files.len()
        invariant
            i <= files@.len(),
            earlier@ == attempts_of(ids::texts(files@.take(i as int)), attempts@),
        decreases files.len() - i,
    {
        let ghost before = ids::texts(files@.take(i as int));
        let ghost after = ids::texts(files@.take(i as int + 1));
        assert(after =~= before.push(files@[i as int]@));
        assert(after[i as int] == files@[i as int]@);
        assert forall|id: Seq<char>| after.contains(id) <==> before.contains(id) || id
            == files@[i as int]@ by {
            if before.contains(id) {
                let k = choose|k: int| 0 <= k < before.len() && before[k] == id;
                assert(after[k] == id);
            }
            if after.contains(id) && id != files@[i as int]@ {
                let k = choose|k: int| 0 <= k < after.len() && after[k] == id;
                assert(before[k] == id);
            }
        }
        if let Some(attempt) = attempts.get(&files[i]) {
            if *attempt > 0 {
                earlier.insert(files[i].clone(), *attempt);
            }
        }
        assert(earlier@ =~= attempts_of(after, attempts@));
        i += 1;
    }
    assert(files@.take(i as int) =~= files@);
    earlier
}

/// The request that submits an address, with the attempts of files that were tried before.
pub fn submission(url: String, attempts: &FileIdMap<u64>) -> (request: DownloadRequest)
    ensures
        submits(request, url, attempts@),
{
    let known = attempts.keys();
    let attempt_ids = earlier_attempts(&known, attempts);
    proof {
        let names = ids::texts(known@);
        assert forall|id: Seq<char>| names.contains(id) == attempts@.dom().contains(id) by {
            assert(names.to_set().contains(id) == names.contains(id));
        }
        assert(attempt_ids@ =~= tried(attempts@));
    }
    DownloadRequest::SubmitUrl { url, attempt_ids }
}

/// What effects ask for: first what can be done at once, in their order; then the downloads, in
/// one request for each address; last, where the order of pending files may have changed and the
/// download task is there to hear of it, that order.
pub fn apply_core_effects(
    effects: &Vec<CoreEffect>,
    state: &DownloadState,
    attempts: &FileIdMap<u64>,
    should_sync_pending: bool,
    download_task_running: bool,
    pending: &Vec<FileId>,
) -> (actions: Vec<EffectAction>)
    requires
        state.wf(),
    ensures
        ({
            let first = effects@.filter(acts_at_once());
            let files = enqueued(effects@, *state);
            let urls = sources_of(files, *state);
            let synced = should_sync_pending && download_task_running;
            &&& actions@.len() == first.len() + urls.len() + if synced {
                1int
            } else {
                0int
            }
            &&& forall|k: int|
                0 <= k < first.len() ==> answers(#[trigger] actions@[k], first[k], attempts@)
            &&& forall|k: int|
                0 <= k < urls.len() ==> resumes(
                    #[trigger] actions@[first.len() + k],
                    urls[k],
                    files_from(files, *state, urls[k]),
                    attempts@,
                )
            &&& synced ==> (actions@.last() matches EffectAction::Send(
                DownloadRequest::SyncPendingOrder { file_ids },
            ) && file_ids@ == pending@)
        }),
{
    let mut actions: Vec<EffectAction> = Vec::new();
    let mut i: usize = 0;
    proof {
        reveal(Seq::filter);
        assert(effects@.take(0).filter(acts_at_once()) =~= Seq::empty());
    }
    while i < effects.len()
        invariant
            i <= effects@.len(),
            actions@.len() == effects@.take(i as int).filter(acts_at_once()).len(),
            forall|k: int|
                0 <= k < actions@.len() ==> answers(
                    #[trigger] actions@[k],
                    effects@.take(i as int).filter(acts_at_once())[k],
                    attempts@,
                ),
        decreases effects.len() - i,
    {
        proof {
            assert(effects@.take(i as int + 1) =~= effects@.take(i as int).push(
                effects@[i as int],
            ));
            scheduler::lemma_filter_push(
                effects@.take(i as int),
                effects@[i as int],
                acts_at_once(),
            );
        }
        match &effects[i] {
            CoreEffect::PersistSession => actions.push(EffectAction::Persist),
            CoreEffect::EnqueueUrlResolution { url } => actions.push(
                EffectAction::Send(submission(url.clone(), attempts)),
            ),
            CoreEffect::DeleteOutputArtifacts { path } => actions.push(
                EffectAction::DeleteOutput { path: path.clone() },
            ),
            CoreEffect::DeleteResumeArtifacts { path } => actions.push(
                EffectAction::DeleteResume { path: path.clone() },
            ),
            CoreEffect::PublishStatusMessage(message) => actions.push(
                EffectAction::SetStatus(message.clone()),
            ),
            CoreEffect::EnqueueFileDownload { .. } => {},
            CoreEffect::PublishViewSnapshot => {},
        }
        i += 1;
    }
    assert(effects@.take(i as int) =~= effects@);
    let ghost first = actions@;
    let ghost asked = effects@.filter(acts_at_once());
    let wanted = enqueued_files(effects, state);
    let groups = group_by_source(&wanted, state);
    let ghost files = enqueued(effects@, *state);
    let mut k: usize = 0;
    while k < groups.len()
        invariant
            k <= groups.keys().len(),
            groups.wf(),
            forall|j: int|
                0 <= j < groups.keys().len() ==> ids::texts(#[trigger] groups.values()[j]@)
                    == files_from(files, *state, groups.keys()[j]),
            actions@.len() == first.len() + k,
            actions@.take(first.len() as int) == first,
            first.len() == asked.len(),
            forall|j: int|
                0 <= j < first.len() ==> answers(#[trigger] first[j], asked[j], attempts@),
            forall|j: int|
                0 <= j < k ==> resumes(
                    #[trigger] actions@[first.len() + j],
                    groups.keys()[j],
                    files_from(files, *state, groups.keys()[j]),
                    attempts@,
                ),
        decreases groups.keys().len() - k,
    {
        let group = groups.value(k);
        let attempt_ids = earlier_attempts(group, attempts);
        let ghost before = actions@;
        actions.push(
            EffectAction::Send(
                DownloadRequest::ResumeFileIds {
                    source_url: groups.key(k),
                    file_ids: copy_ids(group),
                    attempt_ids,
                },
            ),
        );
        assert(actions@.take(first.len() as int) =~= before.take(first.len() as int));
        k += 1;
    }
    let ghost resumed = actions@;
    if download_task_running && should_sync_pending {
        actions.push(
            EffectAction::Send(
                DownloadRequest::SyncPendingOrder { file_ids: copy_ids(pending) },
            ),
        );
        assert(actions@.take(first.len() as int) =~= resumed.take(first.len() as int));
        assert forall|j: int| 0 <= j < k implies #[trigger] actions@[first.len() + j]
            == resumed[first.len() + j] by {}
    }
    assert forall|j: int| 0 <= j < asked.len() implies answers(
        #[trigger] actions@[j],
        asked[j],
        attempts@,
    ) by {
        assert(actions@.take(first.len() as int)[j] == first[j]);
    }
    actions
}

/// A file that is found behind a submitted address is queued under its current attempt, whether
/// or not it was tried before.
pub proof fn law_submissions_queue_current_attempts(
    tracking: TrackingModel,
    request: DownloadRequest,
    url: String,
    item: DownloadItem,
    resolved: ResolvedUrl,
)
    requires
        submits(request, url, tracking.attempts),
    ensures
        ({
            let plan = requests::RequestModel::empty().after(request);
            &&& plan.links == seq![url@]
            &&& plan.sources[0].all
            &&& batch::download_of(
                item,
                resolved,
                RequestedFiles::All,
                plan.sources[0].attempts,
            ).attempt_id == tracking.attempt(item.path@)
        }),
{
}

/// Every known file whose download is asked for is in the request for its address, once, and in
/// no other request.
pub proof fn law_each_download_is_requested_once(
    effects: Seq<CoreEffect>,
    state: DownloadState,
    id: Seq<char>,
)
    requires
        enqueued(effects, state).contains(id),
    ensures
        ({
            let files = enqueued(effects, state);
            let urls = sources_of(files, state);
            let url = state.file(id).source_url@;
            &&& urls.no_duplicates()
            &&& urls.contains(url)
            &&& files_from(files, state, url).contains(id)
            &&& files_from(files, state, url).no_duplicates()
            &&& forall|other: Seq<char>|
                other != url ==> !#[trigger] files_from(files, state, other).contains(id)
        }),
{
    broadcast use vstd::seq_lib::group_filter_ensures;

    let files = enqueued(effects, state);
    let url = state.file(id).source_url@;
    let source = source_in(state);
    let at = choose|at: int| 0 <= at < files.len() && files[at] == id;
    assert(files.map_values(source)[at] == url);
    text::law_first_seen(files.map_values(source));
    let here = comes_from(state, url);
    text::law_first_seen(files.filter(here));
    assert(here(files[at]));
    assert(files.filter(here).contains(id));
    assert forall|other: Seq<char>| other != url implies !#[trigger] files_from(
        files,
        state,
        other,
    ).contains(id) by {
        let there = comes_from(state, other);
        text::law_first_seen(files.filter(there));
        if files.filter(there).contains(id) {
            let j = choose|j: int|
                0 <= j < files.filter(there).len() && files.filter(there)[j] == id;
            assert(there(files.filter(there)[j]));
        }
    }
}

/// What effects ask for in turn is asked for together, in the same order; only the download of a
/// file that the core knows is a download to ask for.
pub proof fn law_downloads_are_asked_for_in_order(
    first: Seq<CoreEffect>,
    second: Seq<CoreEffect>,
    state: DownloadState,
    file_id: FileId,
)
    ensures
        enqueued(first + second, state) == enqueued(first, state) + enqueued(second, state),
        enqueued(Seq::empty(), state).len() == 0,
        enqueued(seq![CoreEffect::EnqueueFileDownload { file_id }], state) == (if state.has(
            file_id@,
        ) {
            seq![file_id@]
        } else {
            Seq::empty()
        }),
        forall|effect: CoreEffect|
            !(effect is EnqueueFileDownload) ==> (#[trigger] enqueued(seq![effect], state)).len()
                == 0,
    decreases second.len(),
{
    reveal_with_fuel(enqueued, 2);
    if second.len() == 0 {
        assert(first + second =~= first);
        assert(enqueued(first, state) + enqueued(second, state) =~= enqueued(first, state));
    } else {
        law_downloads_are_asked_for_in_order(first, second.drop_last(), state, file_id);
        assert((first + second).drop_last() =~= first + second.drop_last());
        assert((first + second).last() == second.last());
        assert(enqueued(first + second, state) =~= enqueued(first, state) + enqueued(
            second,
            state,
        ));
    }
    assert(seq![CoreEffect::EnqueueFileDownload { file_id }].drop_last() =~= Seq::empty());
    assert(Seq::<Seq<char>>::empty().push(file_id@) =~= seq![file_id@]);
    assert forall|effect: CoreEffect| !(effect is EnqueueFileDownload) implies (#[trigger] enqueued(
        seq![effect],
        state,
    )).len() == 0 by {
        assert(seq![effect].drop_last() =~= Seq::empty());
        assert(seq![effect].last() == effect);
    }
}

/// Files are asked for under the addresses they came from: what is asked for under an address are
/// the files asked for that came from it, and only addresses of such files are asked.
pub proof fn law_downloads_are_asked_for_where_they_came_from(
    files: Seq<Seq<char>>,
    state: DownloadState,
    url: Seq<char>,
    id: Seq<char>,
)
    ensures
        files_from(files, state, url).contains(id) <==> files.contains(id) && state.file(
            id,
        ).source_url@ == url,
        sources_of(files, state).contains(url) <==> exists|k: int|
            0 <= k < files.len() && state.file(#[trigger] files[k]).source_url@ == url,
{
    let kept = files.filter(comes_from(state, url));
    text::law_first_seen(kept);
    scheduler::lemma_filter_to_set(files, comes_from(state, url));
    assert(kept.to_set().contains(id) == kept.contains(id));
    assert(files.to_set().contains(id) == files.contains(id));
    assert(files_from(files, state, url).contains(id) == kept.contains(id));
    let named = files.map_values(source_in(state));
    text::law_first_seen(named);
    assert(sources_of(files, state).contains(url) == named.contains(url));
    if named.contains(url) {
        let k = choose|k: int| 0 <= k < named.len() && named[k] == url;
        assert(state.file(files[k]).source_url@ == url);
    }
    if exists|k: int| 0 <= k < files.len() && state.file(#[trigger] files[k]).source_url@ == url {
        let k = choose|k: int|
            0 <= k < files.len() && state.file(#[trigger] files[k]).source_url@ == url;
        assert(named[k] == url);
    }
}

/// A request that resumes a file names its attempt exactly where it was tried before.
pub proof fn law_resumed_files_run_under_their_attempts(
    action: EffectAction,
    url: Seq<char>,
    files: Seq<Seq<char>>,
    attempts: Map<Seq<char>, u64>,
    id: Seq<char>,
)
    requires
        resumes(action, url, files, attempts),
        files.contains(id),
    ensures
        action matches EffectAction::Send(
            DownloadRequest::ResumeFileIds { source_url, file_ids, attempt_ids },
        ) && {
            &&& source_url@ == url
            &&& ids::texts(file_ids@) == files
            &&& attempt_ids@.dom().contains(id) <==> attempts.dom().contains(id) && attempts[id]
                > 0
            &&& attempt_ids@.dom().contains(id) ==> attempt_ids@[id] == attempts[id]
        },
{
}

} // verus!
