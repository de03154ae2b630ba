//! What the application does to all files of a package.

use vstd::prelude::*;

use crate::app::{App, AppStep, Status};
use crate::commands::{self, package_positions, reverify_target_for_core_file, verify_request};
use crate::effects::{self, group_by_source};
use crate::ids::{self, copy_ids, FileId, PackageId};
use crate::model::{FileState, PackageState, PackageStatus};
use crate::scheduler;
use crate::sorted::{self, insert_sorted};
use crate::tracking::TrackingModel;
use crate::verification::VerificationTarget;

verus! {

/// Whether nothing of a file can be verified.
pub open spec fn is_stale() -> spec_fn(FileState) -> bool {
    |file: FileState| commands::target_of(file) is None
}

/// Whether something of a file can be verified.
pub open spec fn is_live() -> spec_fn(FileState) -> bool {
    |file: FileState| commands::target_of(file) is Some
}

/// Whether a file is verified in a certain way.
pub open spec fn is_verified_as(target: VerificationTarget) -> spec_fn(FileState) -> bool {
    |file: FileState| commands::target_of(file) == Some(target)
}

/// The names of files.
pub open spec fn names(files: Seq<FileState>) -> Seq<Seq<char>> {
    files.map_values(|file: FileState| file.id@)
}

/// What is under way once no file is being verified any more.
pub open spec fn cleared_all(tracking: TrackingModel, files: Seq<FileState>) -> TrackingModel
    decreases files.len(),
{
    if files.len() == 0 {
        tracking
    } else {
        cleared_all(tracking, files.drop_last()).cleared(files.last().id@)
    }
}

/// What is under way once the verification of files was asked for.
pub open spec fn reverified_all(tracking: TrackingModel, files: Seq<FileState>) -> TrackingModel
    decreases files.len(),
{
    if files.len() == 0 {
        tracking
    } else {
        let file = files.last();
        commands::with_reverify(
            reverified_all(tracking, files.drop_last()),
            file.id@,
            commands::target_of(file)->0,
            file.lifecycle is Downloading,
        )
    }
}

/// What follows for each file whose verification is asked for.
pub open spec fn reverify_all_steps(tracking: TrackingModel, files: Seq<FileState>) -> Seq<AppStep>
    decreases files.len(),
{
    if files.len() == 0 {
        Seq::empty()
    } else {
        let file = files.last();
        reverify_all_steps(tracking, files.drop_last()) + commands::reverify_steps(
            reverified_all(tracking, files.drop_last()),
            file.id,
            file.lifecycle is Downloading,
        )
    }
}

/// The rows that are brought up to date.
pub open spec fn refresh_steps(files: Seq<FileState>) -> Seq<AppStep> {
    files.map_values(|file: FileState| AppStep::RefreshFile(file.id))
}

/// Whether steps ask for the verification of files, in one request for each address.
pub open spec fn asks_for_groups(
    steps: Seq<AppStep>,
    state: crate::model::DownloadState,
    target: VerificationTarget,
    files: Seq<Seq<char>>,
) -> bool {
    let urls = effects::sources_of(files, state);
    &&& steps.len() == urls.len()
    &&& forall|k: int|
        0 <= k < urls.len() ==> commands::asks_to_verify(
            #[trigger] steps[k],
            target,
            urls[k],
            effects::files_from(files, state, urls[k]),
        )
}

/// Asks for the verification of files, in one request for each address.
fn group_requests(
    state: &crate::model::DownloadState,
    target: VerificationTarget,
    files: &Vec<FileId>,
) -> (steps: Vec<AppStep>)
    requires
        state.wf(),
        forall|k: int| 0 <= k < files@.len() ==> state.has(#[trigger] files@[k]@),
    ensures
        asks_for_groups(steps@, *state, target, ids::texts(files@)),
{
    let groups = group_by_source(files, state);
    let mut steps: Vec<AppStep> = Vec::new();
    let mut k: usize = 0;
    while k < groups.len()
        invariant
            groups.wf(),
            k <= groups.keys().len(),
            steps@.len() == k,
            forall|j: int|
                0 <= j < groups.keys().len() ==> ids::texts(#[trigger] groups.values()[j]@)
                    == effects::files_from(ids::texts(files@), *state, groups.keys()[j]),
            forall|j: int|
                0 <= j < k ==> commands::asks_to_verify(
                    #[trigger] steps@[j],
                    target,
                    groups.keys()[j],
                    effects::files_from(ids::texts(files@), *state, groups.keys()[j]),
                ),
        decreases groups.keys().len() - k,
    {
        steps.push(verify_request(target, groups.key(k), copy_ids(groups.value(k))));
        k += 1;
    }
    steps
}

/// How the verification of a package is asked for.
pub open spec fn package_reverified(
    before: App,
    after: App,
    package_id: PackageId,
    steps: Seq<AppStep>,
) -> bool {
    &&& after == (App { tracking: after.tracking, ..before })
    &&& ({
        let state = before.core_state;
        let files = commands::package_files(state, package_id);
        let stale = files.filter(is_stale());
        let live = files.filter(is_live());
        let cleared = cleared_all(before.tracking@, stale);
        let first = refresh_steps(stale) + reverify_all_steps(cleared, live);
        let resumed = names(files.filter(is_verified_as(VerificationTarget::Resume)));
        let completed = names(files.filter(is_verified_as(VerificationTarget::Completed)));
        let n = first.len() as int;
        let r = effects::sources_of(resumed, state).len() as int;
        &&& after.tracking@ =~= reverified_all(cleared, live)
        &&& if live.len() == 0 {
            steps =~= first.push(AppStep::SetStatus(Status::NothingToVerify))
        } else {
            &&& steps.len() > n + r
            &&& steps.take(n) == first
            &&& asks_for_groups(
                steps.subrange(n, n + r),
                state,
                VerificationTarget::Resume,
                resumed,
            )
            &&& asks_for_groups(
                steps.subrange(n + r, steps.len() - 1),
                state,
                VerificationTarget::Completed,
                completed,
            )
            &&& steps.last() == AppStep::SetStatus(
                Status::VerifyingPackage { count: live.len() as usize },
            )
        }
    })
}

/// How a package is retried.
pub open spec fn package_retried(
    before: App,
    package_id: PackageId,
    session_urls: Vec<String>,
    steps: Seq<AppStep>,
) -> bool {
    &&& match before.package(package_id) {
        None => steps =~= Seq::<AppStep>::empty(),
        Some(package) => {
            let files = commands::package_files(before.core_state, package_id);
            let failed = files.filter(has_failed());
            let unwell = package.error is Some || package.status == PackageStatus::Failed;
            if failed.len() > 0 || !unwell {
                steps =~= failed.map_values(|file: FileState| AppStep::RetryFile(file.id))
            } else {
                &&& steps.len() >= 3
                &&& steps[0] == AppStep::RemovePackage(package_id)
                &&& retries_sources(
                    steps.subrange(1, steps.len() - 2),
                    if files.len() == 0 && ids::texts(session_urls@).contains(
                        package.key@,
                    ) {
                        Set::empty().insert(package.key@)
                    } else {
                        sources(files).to_set()
                    },
                )
                &&& steps[steps.len() - 2] == AppStep::SyncVisible
                &&& steps[steps.len() - 1] == AppStep::RecomputeTotals
            }
        },
    }
}

impl App {
    /// Ends the verification of those files of a package of which nothing can be verified.
    fn clear_stale_files(&mut self, at: &Vec<usize>, files: Ghost<Seq<FileState>>) -> (steps: Vec<
        AppStep,
    >)
        requires
            old(self).wf(),
            at@.len() == files@.len(),
            forall|j: int|
                0 <= j < at@.len() ==> (#[trigger] at@[j]) < old(
                    self,
                ).core_state.files.values().len() && old(
                    self,
                ).core_state.files.values()[at@[j] as int] == files@[j],
        ensures
            *final(self) == (App { tracking: final(self).tracking, ..*old(self) }),
            final(self).tracking@ == cleared_all(old(self).tracking@, files@.filter(is_stale())),
            steps@ == refresh_steps(files@.filter(is_stale())),
    {
        let mut steps: Vec<AppStep> = Vec::new();
        let mut k: usize = 0;
        let ghost files = files@;
        proof {
            reveal(Seq::filter);
            assert(files.take(0).filter(is_stale()) =~= Seq::empty());
            assert(refresh_steps(Seq::empty()) =~= Seq::empty());
        }
        while k < at.len()
            invariant
                old(self).wf(),
                *self == (App { tracking: self.tracking, ..*old(self) }),
                k <= at@.len(),
                at@.len() == files.len(),
                forall|j: int|
                    0 <= j < at@.len() ==> (#[trigger] at@[j])
                        < self.core_state.files.values().len()
                        && self.core_state.files.values()[at@[j] as int] == files[j],
                self.tracking@ == cleared_all(
                    old(self).tracking@,
                    files.take(k as int).filter(is_stale()),
                ),
                steps@ == refresh_steps(files.take(k as int).filter(is_stale())),
            decreases at.len() - k,
        {
            let ghost before = files.take(k as int).filter(is_stale());
            proof {
                assert(files.take(k as int + 1) =~= files.take(k as int).push(files[k as int]));
                scheduler::lemma_filter_push(files.take(k as int), files[k as int], is_stale());
            }
            let file = self.core_state.files.value(at[k]);
            if reverify_target_for_core_file(file).is_none() {
                let id = file.id.clone();
                self.tracking.clear_verification_state(&id);
                steps.push(AppStep::RefreshFile(id));
                proof {
                    assert(before.push(files[k as int]).drop_last() =~= before);
                    assert(steps@ =~= refresh_steps(before.push(files[k as int])));
                }
            }
            k += 1;
        }
        assert(files.take(k as int) =~= files);
        steps
    }

    /// Asks for the verification of the files of a package. Those of which nothing can be
    /// verified are no longer marked; the others are asked for in one request for each address,
    /// first those that are not complete, then those that are.
    pub fn perform_reverify_package_action(&mut self, package_id: PackageId) -> (steps: Vec<
        AppStep,
    >)
        requires
            old(self).wf(),
        ensures
            package_reverified(*old(self), *final(self), package_id, steps@),
    {
        let at = package_positions(&self.core_state, package_id);
        let ghost files = commands::package_files(self.core_state, package_id);
        let mut steps = self.clear_stale_files(&at, Ghost(files));
        let ghost refreshed = steps@;
        let ghost cleared = self.tracking@;
        let mut resumed: Vec<FileId> = Vec::new();
        let mut completed: Vec<FileId> = Vec::new();
        let mut count: usize = 0;
        let mut k: usize = 0;
        let ghost live = is_live();
        let ghost resuming = is_verified_as(VerificationTarget::Resume);
        let ghost complete = is_verified_as(VerificationTarget::Completed);
        proof {
            reveal(Seq::filter);
            assert(files.take(0).filter(live) =~= Seq::empty());
            assert(files.take(0).filter(resuming) =~= Seq::empty());
            assert(files.take(0).filter(complete) =~= Seq::empty());
            assert(ids::texts(resumed@) =~= names(Seq::empty()));
            assert(ids::texts(completed@) =~= names(Seq::empty()));
            assert(steps@ =~= refreshed + reverify_all_steps(cleared, Seq::empty()));
        }
        while k < at.len()
            invariant
                old(self).wf(),
                *self == (App { tracking: self.tracking, ..*old(self) }),
                k <= at@.len(),
                at@.len() == files.len(),
                live == is_live(),
                resuming == is_verified_as(VerificationTarget::Resume),
                complete == is_verified_as(VerificationTarget::Completed),
                forall|j: int|
                    0 <= j < at@.len() ==> (#[trigger] at@[j])
                        < self.core_state.files.values().len()
                        && self.core_state.files.values()[at@[j] as int] == files[j],
                count == files.take(k as int).filter(live).len(),
                count <= k,
                self.tracking@ == reverified_all(cleared, files.take(k as int).filter(live)),
                steps@ == refreshed + reverify_all_steps(
                    cleared,
                    files.take(k as int).filter(live),
                ),
                ids::texts(resumed@) == names(files.take(k as int).filter(resuming)),
                ids::texts(completed@) == names(files.take(k as int).filter(complete)),
                forall|j: int|
                    0 <= j < resumed@.len() ==> self.core_state.has(#[trigger] resumed@[j]@),
                forall|j: int|
                    0 <= j < completed@.len() ==> self.core_state.has(#[trigger] completed@[j]@),
            decreases at.len() - k,
        {
            let ghost before = files.take(k as int).filter(live);
            let ghost file0 = files[k as int];
            proof {
                assert(files.take(k as int + 1) =~= files.take(k as int).push(file0));
                scheduler::lemma_filter_push(files.take(k as int), file0, live);
                scheduler::lemma_filter_push(files.take(k as int), file0, resuming);
                scheduler::lemma_filter_push(files.take(k as int), file0, complete);
            }
            let file = self.core_state.files.value(at[k]);
            if let Some(target) = reverify_target_for_core_file(file) {
                let id = file.id.clone();
                let downloading = file.lifecycle.is_downloading();
                proof {
                    assert(self.core_state.files.values()[at@[k as int] as int].id@
                        == self.core_state.files.keys()[at@[k as int] as int]);
                    assert(self.core_state.has(id@));
                }
                let ghost steps_before = steps@;
                let ghost tracking_before = self.tracking@;
                let mut more = self.begin_reverify(&id, target, downloading);
                let ghost added = more@;
                steps.append(&mut more);
                proof {
                    assert(before.push(file0).drop_last() =~= before);
                    assert(steps@ =~= refreshed + (reverify_all_steps(cleared, before) + added));
                }
                let ghost resumed_before = resumed@;
                let ghost completed_before = completed@;
                match target {
                    VerificationTarget::Completed => {
                        completed.push(id);
                        proof {
                            assert(ids::texts(completed@) =~= ids::texts(completed_before).push(
                                file0.id@,
                            ));
                            assert(names(files.take(k as int).filter(complete).push(file0))
                                =~= names(files.take(k as int).filter(complete)).push(file0.id@));
                        }
                    },
                    VerificationTarget::Resume => {
                        resumed.push(id);
                        proof {
                            assert(ids::texts(resumed@) =~= ids::texts(resumed_before).push(
                                file0.id@,
                            ));
                            assert(names(files.take(k as int).filter(resuming).push(file0))
                                =~= names(files.take(k as int).filter(resuming)).push(file0.id@));
                        }
                    },
                }
                count += 1;
            }
            k += 1;
        }
        assert(files.take(k as int) =~= files);
        let ghost first = steps@;
        if count == 0 {
            steps.push(AppStep::SetStatus(Status::NothingToVerify));
            return steps;
        }
        let mut sends = group_requests(&self.core_state, VerificationTarget::Resume, &resumed);
        let ghost one = sends@;
        steps.append(&mut sends);
        let mut sends = group_requests(&self.core_state, VerificationTarget::Completed, &completed);
        let ghost two = sends@;
        steps.append(&mut sends);
        steps.push(AppStep::SetStatus(Status::VerifyingPackage { count }));
        proof {
            let n = first.len() as int;
            let r = one.len() as int;
            assert(steps@.take(n) =~= first);
            assert(steps@.subrange(n, n + r) =~= one);
            assert(steps@.subrange(n + r, steps@.len() - 1) =~= two);
        }
        steps
    }

    /// The package of an identity.
    pub open spec fn package(&self, package_id: PackageId) -> Option<PackageState> {
        first_package(self.core_state.packages@, package_id)
    }

    /// Retries the failed files of a package. A failed package without failed files is dropped
    /// and its addresses are submitted anew, in alphabetical order; where it has no files, its key
    /// is its address if the session knows that.
    pub fn perform_retry_package_action(
        &self,
        package_id: PackageId,
        session_urls: &Vec<String>,
    ) -> (steps: Vec<AppStep>)
        requires
            self.wf(),
        ensures
            package_retried(*self, package_id, *session_urls, steps@),
    {
        let package = match find_package(&self.core_state.packages, package_id) {
            Some(package) => package,
            None => {
                return Vec::new();
            },
        };
        let unwell = package.error.is_some() || package.status == PackageStatus::Failed;
        let at = package_positions(&self.core_state, package_id);
        let ghost files = commands::package_files(self.core_state, package_id);
        let ghost step = |file: FileState| AppStep::RetryFile(file.id);
        let mut steps: Vec<AppStep> = Vec::new();
        let mut urls: Vec<String> = Vec::new();
        let mut k: usize = 0;
        proof {
            reveal(Seq::filter);
            assert(files.take(0).filter(has_failed()) =~= Seq::empty());
            assert(steps@ =~= files.take(0).filter(has_failed()).map_values(step));
            assert(ids::texts(urls@).to_set() =~= sources(files.take(0)).to_set());
        }
        while k < at.len()
            invariant
                self.wf(),
                k <= at@.len(),
                at@.len() == files.len(),
                step == (|file: FileState| AppStep::RetryFile(file.id)),
                forall|j: int|
                    0 <= j < at@.len() ==> (#[trigger] at@[j])
                        < self.core_state.files.values().len()
                        && self.core_state.files.values()[at@[j] as int] == files[j],
                steps@ == files.take(k as int).filter(has_failed()).map_values(step),
                sorted::is_sorted(ids::texts(urls@)),
                ids::texts(urls@).to_set() == sources(files.take(k as int)).to_set(),
            decreases at.len() - k,
        {
            let ghost before = files.take(k as int).filter(has_failed());
            let ghost file0 = files[k as int];
            proof {
                assert(files.take(k as int + 1) =~= files.take(k as int).push(file0));
                scheduler::lemma_filter_push(files.take(k as int), file0, has_failed());
                assert(sources(files.take(k as int + 1)) =~= sources(files.take(k as int)).push(
                    file0.source_url@,
                ));
                ids::lemma_push_to_set(sources(files.take(k as int)), file0.source_url@);
            }
            let file = self.core_state.files.value(at[k]);
            insert_sorted(&mut urls, file.source_url.clone());
            if file.lifecycle.is_failed() {
                steps.push(AppStep::RetryFile(file.id.clone()));
                assert(steps@ =~= before.push(file0).map_values(step));
            }
            k += 1;
        }
        assert(files.take(k as int) =~= files);
        if steps.len() > 0 || !unwell {
            return steps;
        }
        if urls.len() == 0 && ids::lists(session_urls, &package.key) {
            proof {
                if files.len() > 0 {
                    assert(sources(files)[0] == files[0].source_url@);
                    assert(sources(files).to_set().contains(files[0].source_url@));
                    assert(ids::texts(urls@).to_set().contains(files[0].source_url@));
                }
                assert(ids::texts(urls@).to_set() =~= Set::empty());
            }
            insert_sorted(&mut urls, package.key.clone());
        } else {
            proof {
                if files.len() == 0 {
                    assert(sources(files).to_set() =~= Set::empty());
                    if urls@.len() > 0 {
                        assert(ids::texts(urls@)[0] == urls@[0]@);
                        assert(ids::texts(urls@).to_set().contains(urls@[0]@));
                    }
                }
            }
        }
        let mut steps: Vec<AppStep> = Vec::new();
        steps.push(AppStep::RemovePackage(package_id));
        let mut k: usize = 0;
        while k < urls.len()
            invariant
                k <= urls@.len(),
                steps@.len() == k + 1,
                steps@[0] == AppStep::RemovePackage(package_id),
                forall|j: int|
                    0 <= j < k ==> #[trigger] steps@[j + 1] == AppStep::RetrySource(urls@[j]),
            decreases urls.len() - k,
        {
            steps.push(AppStep::RetrySource(urls[k].clone()));
            k += 1;
        }
        let ghost middle = steps@.skip(1);
        steps.push(AppStep::SyncVisible);
        steps.push(AppStep::RecomputeTotals);
        proof {
            assert(steps@.subrange(1, steps@.len() - 2) =~= middle);
            assert forall|j: int| 0 <= j < middle.len() implies #[trigger] middle[j]
                == AppStep::RetrySource(urls@[j]) by {
                assert(middle[j] == steps@[j + 1]);
            }
            assert(retried(middle) =~= ids::texts(urls@));
        }
        steps
    }
}

/// Whether a file has failed.
pub open spec fn has_failed() -> spec_fn(FileState) -> bool {
    |file: FileState| file.lifecycle is Failed
}

/// The addresses of files.
pub open spec fn sources(files: Seq<FileState>) -> Seq<Seq<char>> {
    files.map_values(|file: FileState| file.source_url@)
}

/// The addresses that steps submit anew.
pub open spec fn retried(steps: Seq<AppStep>) -> Seq<Seq<char>> {
    steps.map_values(|step: AppStep| step->RetrySource_0@)
}

/// Whether steps submit addresses anew, each once and in alphabetical order.
pub open spec fn retries_sources(steps: Seq<AppStep>, urls: Set<Seq<char>>) -> bool {
    &&& forall|k: int| 0 <= k < steps.len() ==> (#[trigger] steps[k]) is RetrySource
    &&& sorted::is_sorted(retried(steps))
    &&& retried(steps).to_set() == urls
}

/// The first package of an identity.
pub open spec fn first_package(packages: Seq<PackageState>, package_id: PackageId) -> Option<
    PackageState,
>
    decreases packages.len(),
{
    if packages.len() == 0 {
        None
    } else if packages[0].id == package_id {
        Some(packages[0])
    } else {
        first_package(packages.drop_first(), package_id)
    }
}

/// The first package of an identity.
pub fn find_package(packages: &Vec<PackageState>, package_id: PackageId) -> (package: Option<
    &PackageState,
>)
    ensures
        match package {
            Some(found) => first_package(packages@, package_id) == Some(*found),
            None => first_package(packages@, package_id) is None,
        },
{
    let mut i: usize = 0;
    assert(packages@.skip(0) =~= packages@);
    while i < packages.len()
        invariant
            i <= packages@.len(),
            first_package(packages@, package_id) == first_package(
                packages@.skip(i as int),
                package_id,
            ),
        decreases packages.len() - i,
    {
        assert(packages@.skip(i as int).drop_first() =~= packages@.skip(i as int + 1));
        if packages[i].id == package_id {
            return Some(&packages[i]);
        }
        i += 1;
    }
    None
}

} // verus!
