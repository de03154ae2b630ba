//! Saving sessions and going on with them after a restart.

use vstd::prelude::*;

use crate::app::{App, AppStep, Status};
use crate::effects::{self, submission};
use crate::ids::{self, lists, FileId};
use crate::model::FileEntry;
use crate::scheduler;

verus! {

/// What is done with a session on disk.
#[derive(Clone, Copy, Debug, PartialEq, Eq, Structural)]
pub enum SessionWrite {
    /// It is written.
    Save,
    /// It holds nothing, and its file is removed.
    Remove,
}

/// What is done with a session on disk that holds so many addresses and packages.
pub fn session_write(urls: usize, packages: usize) -> (write: SessionWrite)
    ensures
        write == (if urls == 0 && packages == 0 {
            SessionWrite::Remove
        } else {
            SessionWrite::Save
        }),
{
    if urls == 0 && packages == 0 {
        SessionWrite::Remove
    } else {
        SessionWrite::Save
    }
}

/// What the status line says where a session could not be written; a file that is not there needs
/// no removing. Where there is nothing to say, the session is taken over.
pub fn session_failure(write: SessionWrite, error: Option<String>, not_found: bool) -> (said: Option<
    Status,
>)
    ensures
        said == (match error {
            Some(error) => match write {
                SessionWrite::Save => Some(Status::SessionSaveFailed { error }),
                SessionWrite::Remove => if not_found {
                    None
                } else {
                    Some(Status::SessionRemoveFailed { error })
                },
            },
            None => None,
        }),
{
    match error {
        Some(error) => match write {
            SessionWrite::Save => Some(Status::SessionSaveFailed { error }),
            SessionWrite::Remove => {
                if not_found {
                    None
                } else {
                    Some(Status::SessionRemoveFailed { error })
                }
            },
        },
        None => None,
    }
}

/// Whether an address has no known files.
pub open spec fn waits(sources: Seq<Seq<char>>) -> spec_fn(String) -> bool {
    |url: String| !sources.contains(url@)
}

/// The addresses of a session that goes on that have no known files.
pub open spec fn without_files(urls: Seq<String>, sources: Seq<Seq<char>>) -> Seq<String> {
    urls.filter(waits(sources))
}

/// What follows for the addresses of a session that goes on: those without known files are shown
/// as waiting and submitted again, in their order.
pub open spec fn resumed(
    app: App,
    urls: Seq<String>,
    sources: Seq<Seq<char>>,
    steps: Seq<AppStep>,
) -> bool {
    let waiting = without_files(urls, sources);
    &&& steps.len() == 2 * waiting.len()
    &&& forall|k: int|
        0 <= k < waiting.len() ==> {
            &&& steps[2 * k] == AppStep::QueuePlaceholder(#[trigger] waiting[k])
            &&& steps[2 * k + 1] matches AppStep::Send(request) && effects::submits(
                request,
                waiting[k],
                app.tracking@.attempts,
            )
        }
}

impl App {
    /// What follows for the addresses of a session that goes on: those without known files are
    /// submitted again. `sources` are the addresses of the known files.
    pub fn resume_from_restart(&self, urls: &Vec<String>, sources: &Vec<String>) -> (steps: Vec<
        AppStep,
    >)
        ensures
            resumed(*self, urls@, ids::texts(sources@), steps@),
    {
        let mut steps: Vec<AppStep> = Vec::new();
        let mut i: usize = 0;
        let ghost known = ids::texts(sources@);
        proof {
            reveal(Seq::filter);
            assert(without_files(urls@.take(0), known) =~= Seq::empty());
        }
        while i < urls.len()
            invariant
                i <= urls@.len(),
                known == ids::texts(sources@),
                resumed(*self, urls@.take(i as int), known, steps@),
            decreases urls.len() - i,
        {
            let ghost earlier = urls@.take(i as int);
            let ghost before = steps@;
            proof {
                assert(urls@.take(i as int + 1) =~= earlier.push(urls@[i as int]));
                scheduler::lemma_filter_push(earlier, urls@[i as int], waits(known));
            }
            if !lists(sources, &urls[i]) {
                steps.push(AppStep::QueuePlaceholder(urls[i].clone()));
                steps.push(
                    AppStep::Send(submission(urls[i].clone(), &self.tracking.file_attempt_ids)),
                );
                proof {
                    let waiting = without_files(earlier, known);
                    let longer = without_files(urls@.take(i as int + 1), known);
                    assert forall|k: int| 0 <= k < longer.len() implies {
                        &&& steps@[2 * k] == AppStep::QueuePlaceholder(#[trigger] longer[k])
                        &&& steps@[2 * k + 1] matches AppStep::Send(request)
                            && effects::submits(request, longer[k], self.tracking@.attempts)
                    } by {
                        if k < waiting.len() {
                            assert(longer[k] == waiting[k]);
                            assert(steps@[2 * k] == before[2 * k]);
                            assert(steps@[2 * k + 1] == before[2 * k + 1]);
                        }
                    }
                    assert(longer == waiting.push(urls@[i as int]));
                    assert(resumed(*self, urls@.take(i as int + 1), known, steps@));
                }
            } else {
                assert(without_files(urls@.take(i as int + 1), known) == without_files(
                    earlier,
                    known,
                ));
                assert(resumed(*self, urls@.take(i as int + 1), known, steps@));
            }
            i += 1;
        }
        assert(urls@.take(i as int) =~= urls@);
        steps
    }

    /// Whether a shutdown saves what the core knows: where there is a session and the core knows
    /// anything.
    pub fn refreshes_session(&self, has_session: bool) -> (refreshes: bool)
        requires
            self.wf(),
        ensures
            refreshes == (has_session && (self.core_state.packages@.len() > 0
                || self.core_state.files.keys().len() > 0)),
    {
        has_session && (self.core_state.packages.len() > 0 || self.core_state.files.len() > 0)
    }

    /// The files that are shown.
    pub fn visible_ids(&self) -> (shown: Vec<FileId>)
        ensures
            shown@ == self.files@.map_values(|file: FileEntry| file.id),
    {
        let mut shown: Vec<FileId> = Vec::new();
        let mut i: usize = 0;
        while i < self.files.len()
            invariant
                i <= self.files@.len(),
                shown@.len() == i,
                forall|k: int| 0 <= k < i ==> #[trigger] shown@[k] == self.files@[k].id,
            decreases self.files.len() - i,
        {
            shown.push(self.files[i].id.clone());
            i += 1;
        }
        assert(shown@ =~= self.files@.map_values(|file: FileEntry| file.id));
        shown
    }
}

/// Every address of a session that goes on and has no known files is submitted again.
pub proof fn law_addresses_without_files_are_submitted_again(
    app: App,
    urls: Seq<String>,
    sources: Seq<Seq<char>>,
    steps: Seq<AppStep>,
    at: int,
)
    requires
        resumed(app, urls, sources, steps),
        0 <= at < urls.len(),
        !sources.contains(urls[at]@),
    ensures
        exists|k: int|
            0 <= k < steps.len() && (#[trigger] steps[k] matches AppStep::Send(request)
                && effects::submits(request, urls[at], app.tracking@.attempts)),
{
    broadcast use vstd::seq_lib::group_filter_ensures;

    let waiting = without_files(urls, sources);
    assert(waits(sources)(urls[at]));
    assert(waiting.contains(urls[at]));
    let k = choose|k: int| 0 <= k < waiting.len() && waiting[k] == urls[at];
    assert(steps[2 * k] == AppStep::QueuePlaceholder(waiting[k]));
    assert(steps[2 * k + 1] is Send);
}

} // verus!
