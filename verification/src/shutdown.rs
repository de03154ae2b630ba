//! Pausing downloads, cancelling them and waiting for their end.

use vstd::prelude::*;

use crate::app::{App, AppStep, Status};
use crate::commands;
use crate::ids::{self, FileId, FileIdSet};
use crate::model::{CoreEvent, FileEntry, FileStatus, TransientRow};
use crate::scheduler;
use crate::tracking::TrackingModel;
use crate::verification::VerificationTarget;

verus! {

/// Whether a row shows a transfer.
pub open spec fn is_downloading() -> spec_fn(FileEntry) -> bool {
    |file: FileEntry| file.status is Downloading
}

/// The files of the rows that show a transfer.
pub open spec fn downloading(files: Seq<FileEntry>) -> Seq<FileId> {
    files.filter(is_downloading()).map_values(|file: FileEntry| file.id)
}

/// What is under way without tokens for files.
pub open spec fn untokened_all(tracking: TrackingModel, files: Seq<FileId>) -> TrackingModel
    decreases files.len(),
{
    if files.len() == 0 {
        tracking
    } else {
        untokened_all(tracking, files.drop_last()).untokened(files.last()@)
    }
}

/// What follows for one file whose transfer is paused.
pub open spec fn pause_step(app: App, tracking: TrackingModel, id: FileId) -> Seq<AppStep> {
    commands::cancel_step(tracking, id) + (if app.core_state.has(id@) {
        seq![AppStep::Apply(CoreEvent::FileCancelled { file_id: id })]
    } else if app.overlays(id@) {
        seq![AppStep::SyncVisible]
    } else {
        Seq::empty()
    }) + seq![AppStep::ResetRate(id)]
}

/// What follows for files whose transfers are paused.
pub open spec fn pause_steps(app: App, files: Seq<FileId>) -> Seq<AppStep>
    decreases files.len(),
{
    if files.len() == 0 {
        Seq::empty()
    } else {
        pause_steps(app, files.drop_last()) + pause_step(
            app,
            untokened_all(app.tracking@, files.drop_last()),
            files.last(),
        )
    }
}

/// An overlay row once transfers are paused.
pub open spec fn paused_row(row: TransientRow, paused: bool) -> TransientRow {
    if paused {
        row.with_entry(FileEntry { status: FileStatus::Queued, ..row.entry() })
    } else {
        row
    }
}

/// Whether overlay rows are those of another time, with some transfers paused.
pub open spec fn rows_paused(before: App, after: App, files: Seq<FileId>) -> bool {
    &&& after.overlay_files.keys() == before.overlay_files.keys()
    &&& after.overlay_files.values().len() == before.overlay_files.values().len()
    &&& forall|k: int|
        0 <= k < before.overlay_files.keys().len() ==> #[trigger] after.overlay_files.values()[k]
            == paused_row(
            before.overlay_files.values()[k],
            !before.core_state.has(before.overlay_files.keys()[k]) && ids::texts(files).contains(
                before.overlay_files.keys()[k],
            ),
        )
}

/// How downloads are paused.
pub open spec fn downloads_paused(before: App, after: App, steps: Seq<AppStep>) -> bool {
    if before.paused {
        after == before && steps =~= Seq::<AppStep>::empty()
    } else {
        let files = downloading(before.files@);
        &&& after == (App {
            paused: true,
            tracking: after.tracking,
            overlay_files: after.overlay_files,
            ..before
        })
        &&& after.tracking@ =~= untokened_all(before.tracking@, files)
        &&& rows_paused(before, after, files)
        &&& steps =~= seq![AppStep::BroadcastPause(true)] + pause_steps(before, files) + seq![
            AppStep::ResetAggregateRate,
            AppStep::SetStatus(Status::Paused),
        ]
    }
}

/// Whether a step deletes nothing, neither a file nor resume data nor an entry of the session.
pub open spec fn deletes_nothing(step: AppStep) -> bool {
    match step {
        AppStep::BroadcastPause(_) => true,
        AppStep::CancelToken(_) => true,
        AppStep::Apply(CoreEvent::FileCancelled { .. }) => true,
        AppStep::SyncVisible => true,
        AppStep::ResetRate(_) => true,
        AppStep::ResetAggregateRate => true,
        AppStep::SetStatus(_) => true,
        _ => false,
    }
}

/// Pausing deletes nothing: transfers are cancelled, and what they have so far stays.
pub proof fn law_pausing_deletes_nothing(before: App, after: App, steps: Seq<AppStep>)
    requires
        downloads_paused(before, after, steps),
    ensures
        forall|k: int| 0 <= k < steps.len() ==> deletes_nothing(#[trigger] steps[k]),
        after.core_state == before.core_state,
        after.files == before.files,
{
    if !before.paused {
        lemma_pause_steps_delete_nothing(before, downloading(before.files@));
    }
}

/// Pausing files deletes nothing.
proof fn lemma_pause_steps_delete_nothing(app: App, files: Seq<FileId>)
    ensures
        forall|k: int|
            0 <= k < pause_steps(app, files).len() ==> deletes_nothing(
                #[trigger] pause_steps(app, files)[k],
            ),
    decreases files.len(),
{
    if files.len() > 0 {
        lemma_pause_steps_delete_nothing(app, files.drop_last());
        let earlier = pause_steps(app, files.drop_last());
        let added = pause_step(app, untokened_all(app.tracking@, files.drop_last()), files.last());
        assert forall|k: int| 0 <= k < pause_steps(app, files).len() implies deletes_nothing(
            #[trigger] pause_steps(app, files)[k],
        ) by {
            if k < earlier.len() {
                assert(pause_steps(app, files)[k] == earlier[k]);
            } else {
                assert(pause_steps(app, files)[k] == added[k - earlier.len()]);
            }
        }
    }
}

/// The files of the rows that show a transfer.
pub fn downloading_files(files: &Vec<FileEntry>) -> (downloads: Vec<FileId>)
    ensures
        downloads@ == downloading(files@),
{
    let mut downloads: Vec<FileId> = Vec::new();
    let mut i: usize = 0;
    let ghost keep = is_downloading();
    let ghost name = |file: FileEntry| file.id;
    assert(files@.take(0).filter(keep) =~= Seq::empty()) by {
        reveal(Seq::filter);
    }
    while i < files.len()
        invariant
            i <= files@.len(),
            keep == is_downloading(),
            name == (|file: FileEntry| file.id),
            downloads@ =~= files@.take(i as int).filter(keep).map_values(name),
        decreases files.len() - i,
    {
        let ghost before = files@.take(i as int).filter(keep);
        proof {
            assert(files@.take(i as int + 1) =~= files@.take(i as int).push(files@[i as int]));
            scheduler::lemma_filter_push(files@.take(i as int), files@[i as int], keep);
        }
        if files[i].status.is_downloading() {
            downloads.push(files[i].id.clone());
            assert(downloads@ =~= before.push(files@[i as int]).map_values(name));
        }
        i += 1;
    }
    assert(files@.take(i as int) =~= files@);
    downloads
}

impl App {
    /// Shows the row of a paused transfer as queued.
    fn queue_overlay_row(&mut self, id: &FileId) -> (shown: bool)
        requires
            old(self).wf(),
        ensures
            final(self).wf(),
            *final(self) == (App { overlay_files: final(self).overlay_files, ..*old(self) }),
            shown == old(self).overlays(id@),
            final(self).overlay_files.keys() == old(self).overlay_files.keys(),
            final(self).overlay_files.values() == (if shown {
                let at = old(self).overlay_files.keys().index_of(id@);
                old(self).overlay_files.values().update(
                    at,
                    paused_row(old(self).overlay_files.values()[at], true),
                )
            } else {
                old(self).overlay_files.values()
            }),
    {
        let at = match self.overlay_files.find(id) {
            Some(at) => at,
            None => {
                return false;
            },
        };
        assert(self.overlay_files.keys()[at as int] == id@);
        let shown = self.overlay_files.value(at);
        let entry = FileEntry {
            id: shown.file().id.clone(),
            name: shown.file().name.clone(),
            size: shown.file().size,
            downloaded: shown.file().downloaded,
            status: FileStatus::Queued,
        };
        let row = match shown {
            TransientRow::PendingUrl { source_url, .. } => TransientRow::PendingUrl {
                file: entry,
                source_url: source_url.clone(),
            },
            TransientRow::UiError { .. } => TransientRow::UiError { file: entry },
        };
        let _ = self.overlay_files.replace(at, row);
        true
    }

    /// Pauses downloads: cancels the transfers that are shown and queues their files again.
    pub fn pause_downloads(&mut self) -> (steps: Vec<AppStep>)
        requires
            old(self).wf(),
        ensures
            final(self).wf(),
            downloads_paused(*old(self), *final(self), steps@),
    {
        if self.paused {
            return Vec::new();
        }
        let files = downloading_files(&self.files);
        let mut steps = self.set_paused(true);
        let mut i: usize = 0;
        assert(steps@ =~= seq![AppStep::BroadcastPause(true)] + pause_steps(
            *old(self),
            files@.take(0),
        ));
        while i < files.len()
            invariant
                old(self).wf(),
                self.wf(),
                i <= files@.len(),
                *self == (App {
                    paused: true,
                    tracking: self.tracking,
                    overlay_files: self.overlay_files,
                    ..*old(self)
                }),
                self.tracking@ =~= untokened_all(old(self).tracking@, files@.take(i as int)),
                rows_paused(*old(self), *self, files@.take(i as int)),
                steps@ =~= seq![AppStep::BroadcastPause(true)] + pause_steps(
                    *old(self),
                    files@.take(i as int),
                ),
            decreases files.len() - i,
        {
            let ghost before = files@.take(i as int);
            let ghost app = *self;
            let id = &files[i];
            proof {
                assert(files@.take(i as int + 1).drop_last() =~= before);
                assert(files@.take(i as int + 1).last() == *id);
                assert(ids::texts(files@.take(i as int + 1)) =~= ids::texts(before).push(id@));
                assert forall|text: Seq<char>|
                    #[trigger] ids::texts(files@.take(i as int + 1)).contains(text)
                    <==> ids::texts(before).contains(text) || text == id@ by {
                    let listed = ids::texts(before);
                    let longer = ids::texts(files@.take(i as int + 1));
                    if listed.contains(text) {
                        let k = choose|k: int| 0 <= k < listed.len() && listed[k] == text;
                        assert(longer[k] == text);
                    }
                    assert(longer[i as int] == id@);
                    if longer.contains(text) && text != id@ {
                        let k = choose|k: int| 0 <= k < longer.len() && longer[k] == text;
                        assert(listed[k] == text);
                    }
                }
            }
            let ghost steps_before = steps@;
            let mut added: Vec<AppStep> = Vec::new();
            if self.tracking.cancellation_tokens.remove(id) {
                added.push(AppStep::CancelToken(id.clone()));
            }
            if self.core_state.contains_file(id) {
                added.push(AppStep::Apply(CoreEvent::FileCancelled { file_id: id.clone() }));
            } else if self.queue_overlay_row(id) {
                added.push(AppStep::SyncVisible);
            }
            added.push(AppStep::ResetRate(id.clone()));
            proof {
                assert(added@ =~= pause_step(
                    *old(self),
                    untokened_all(old(self).tracking@, before),
                    *id,
                ));
                let keys = old(self).overlay_files.keys();
                assert forall|k: int| 0 <= k < keys.len() implies #[trigger] self.overlay_files.values()[k]
                    == paused_row(
                    old(self).overlay_files.values()[k],
                    !old(self).core_state.has(keys[k]) && ids::texts(
                        files@.take(i as int + 1),
                    ).contains(keys[k]),
                ) by {
                    assert(app.overlay_files.values()[k] == paused_row(
                        old(self).overlay_files.values()[k],
                        !old(self).core_state.has(keys[k]) && ids::texts(before).contains(keys[k]),
                    ));
                    if keys.contains(id@) {
                        assert(keys[keys.index_of(id@)] == id@);
                    } else {
                        assert(keys.contains(keys[k]));
                    }
                }
            }
            steps.append(&mut added);
            i += 1;
        }
        assert(files@.take(i as int) =~= files@);
        steps.push(AppStep::ResetAggregateRate);
        steps.push(AppStep::SetStatus(Status::Paused));
        steps
    }

    /// The files that a shutdown has to wait for: those whose transfers are shown, those whose
    /// verification cannot be left, and those whose transfers can be cancelled.
    pub open spec fn active_files(&self) -> Set<Seq<char>> {
        ids::texts(downloading(self.files@)).to_set().union(self.tracking@.blocking).union(
            self.tracking@.tokens,
        )
    }

    /// The files that the core knows and whose verification a shutdown skips.
    pub open spec fn left_files(&self) -> Set<Seq<char>> {
        self.tracking@.inflight.difference(self.tracking@.blocking).filter(
            |id: Seq<char>| self.core_state.has(id),
        )
    }

    /// The files that a shutdown waits for once it has skipped the verifications that block
    /// nothing.
    pub open spec fn awaited_files(&self) -> Set<Seq<char>> {
        ids::texts(downloading(self.files@)).to_set().difference(self.left_files()).union(
            self.tracking@.blocking,
        ).union(self.tracking@.tokens)
    }

    /// The files that a shutdown has to wait for.
    pub fn active_shutdown_file_ids(&self) -> (pending: FileIdSet)
        ensures
            pending@ == self.active_files(),
    {
        let mut pending = FileIdSet::of(&downloading_files(&self.files));
        pending.extend(&self.tracking.shutdown_blocking_verifications.to_vec());
        pending.extend(&self.tracking.cancellation_tokens.to_vec());
        assert(pending@ =~= self.active_files());
        pending
    }

    /// Skips verifications, as if the download task had said so.
    fn skip_verifications(&mut self, files: &Vec<FileId>) -> (steps: Vec<AppStep>)
        requires
            old(self).wf(),
        ensures
            skipped_all(*old(self), *final(self), files@, steps@),
    {
        let mut steps: Vec<AppStep> = Vec::new();
        let mut i: usize = 0;
        assert(files@.take(0) =~= Seq::empty());
        while i < files.len()
            invariant
                old(self).wf(),
                i <= files@.len(),
                skipped_all(*old(self), *self, files@.take(i as int), steps@),
            decreases files.len() - i,
        {
            let id = &files[i];
            proof {
                assert(files@.take(i as int + 1).drop_last() =~= files@.take(i as int));
                assert(files@.take(i as int + 1).last() == *id);
            }
            let ghost app = *self;
            let completed = match self.tracking.verification_targets.get(id) {
                Some(target) => *target == VerificationTarget::Completed,
                None => false,
            };
            let mut skipped = self.handle_verification_skipped_event(id.clone(), completed);
            steps.append(&mut skipped);
            i += 1;
        }
        assert(files@.take(i as int) =~= files@);
        steps
    }

    /// The files whose verification a shutdown need not wait for.
    fn nonblocking_verifications(&self) -> (files: Vec<FileId>)
        ensures
            ids::texts(files@).no_duplicates(),
            ids::texts(files@).to_set() == self.tracking@.inflight.difference(
                self.tracking@.blocking,
            ),
    {
        let all = self.tracking.verification_inflight_files.to_vec();
        let mut files: Vec<FileId> = Vec::new();
        let mut i: usize = 0;
        let ghost keep = |id: Seq<char>| !self.tracking@.blocking.contains(id);
        proof {
            assert(ids::texts(all@).take(0).filter(keep) =~= Seq::empty()) by {
                reveal(Seq::filter);
            }
            assert(ids::texts(files@) =~= Seq::empty());
        }
        while i < all.len()
            invariant
                i <= all@.len(),
                keep == (|id: Seq<char>| !self.tracking@.blocking.contains(id)),
                ids::texts(files@) == ids::texts(all@).take(i as int).filter(keep),
            decreases all.len() - i,
        {
            let ghost before = ids::texts(files@);
            proof {
                assert(ids::texts(all@).take(i as int + 1) =~= ids::texts(all@).take(i as int).push(
                    all@[i as int]@,
                ));
                scheduler::lemma_filter_push(
                    ids::texts(all@).take(i as int),
                    all@[i as int]@,
                    keep,
                );
            }
            if !self.tracking.shutdown_blocking_verifications.contains(&all[i]) {
                files.push(all[i].clone());
                assert(ids::texts(files@) =~= before.push(all@[i as int]@));
            }
            i += 1;
        }
        proof {
            assert(ids::texts(all@).take(i as int) =~= ids::texts(all@));
            scheduler::lemma_filter_to_set(ids::texts(all@), keep);
            lemma_filter_distinct(ids::texts(all@), keep);
            assert(ids::texts(files@).to_set() =~= self.tracking@.inflight.difference(
                self.tracking@.blocking,
            ));
        }
        files
    }

    /// Skips the verifications that a shutdown need not wait for.
    pub fn skip_nonblocking_shutdown_verifications(&mut self) -> (steps: Vec<AppStep>)
        requires
            old(self).wf(),
        ensures
            exists|files: Seq<FileId>|
                ids::texts(files).no_duplicates() && ids::texts(files).to_set() == old(
                    self,
                ).tracking@.inflight.difference(old(self).tracking@.blocking)
                    && #[trigger] skipped_all(*old(self), *final(self), files, steps@),
    {
        let files = self.nonblocking_verifications();
        self.skip_verifications(&files)
    }

    /// Skips every verification.
    pub fn skip_all_shutdown_verifications(&mut self) -> (steps: Vec<AppStep>)
        requires
            old(self).wf(),
        ensures
            exists|files: Seq<FileId>|
                ids::texts(files).no_duplicates() && ids::texts(files).to_set() == old(
                    self,
                ).tracking@.inflight && #[trigger] skipped_all(
                    *old(self),
                    *final(self),
                    files,
                    steps@,
                ),
    {
        let files = self.tracking.verification_inflight_files.to_vec();
        self.skip_verifications(&files)
    }

    /// Notes what a shutdown waits for, pauses downloads and cancels every transfer. Says
    /// whether there is something to wait for.
    fn stop_transfers(&mut self) -> (begun: (Vec<AppStep>, bool))
        requires
            old(self).wf(),
        ensures
            final(self).wf(),
            final(self).paused,
            final(self).tracking@.shutdown == old(self).active_files(),
            final(self).tracking@.inflight == old(self).tracking@.inflight,
            begun.1 == (old(self).active_files() != Set::<Seq<char>>::empty()),
            transfers_stopped(*old(self), *final(self), begun.0@),
            forall|id: Seq<char>| #[trigger]
                old(self).tracking@.tokens.contains(id) ==> exists|k: int|
                    0 <= k < begun.0@.len() && cancels(#[trigger] begun.0@[k], id),
    {
        let pending = self.active_shutdown_file_ids();
        let waiting = !pending.is_empty();
        self.tracking.shutdown_pending_files = pending;
        let ghost noted = *self;
        let mut steps = self.pause_downloads();
        proof {
            if !noted.paused {
                lemma_pause_cancels(noted, downloading(noted.files@));
                let files = downloading(noted.files@);
                lemma_untokened_all(noted.tracking@, files);
                assert forall|id: Seq<char>|
                    #[trigger] noted.tracking@.tokens.contains(id)
                        && !self.tracking@.tokens.contains(id) implies exists|k: int|
                    0 <= k < steps@.len() && cancels(#[trigger] steps@[k], id) by {
                    let k = choose|k: int|
                        0 <= k < pause_steps(noted, files).len() && cancels(
                            #[trigger] pause_steps(noted, files)[k],
                            id,
                        );
                    assert(steps@[k + 1] == pause_steps(noted, files)[k]);
                    assert(cancels(steps@[k + 1], id));
                }
            }
        }
        let ghost paused_steps = steps@;
        let left = self.tracking.cancellation_tokens.to_vec();
        let mut i: usize = 0;
        while i < left.len()
            invariant
                i <= left@.len(),
                steps@.len() == paused_steps.len() + i,
                forall|k: int| 0 <= k < paused_steps.len() ==> steps@[k] == paused_steps[k],
                forall|k: int|
                    0 <= k < i ==> #[trigger] steps@[paused_steps.len() + k]
                        == AppStep::CancelToken(left@[k]),
            decreases left.len() - i,
        {
            steps.push(AppStep::CancelToken(left[i].clone()));
            i += 1;
        }
        let ghost done = steps@;
        let begun = (steps, waiting);
        proof {
            assert forall|k: int| 0 <= k < left@.len() implies #[trigger] done[paused_steps.len()
                + k] == AppStep::CancelToken(left@[k]) by {}
            let expected = paused_steps + cancellations(left@);
            assert forall|k: int| 0 <= k < done.len() implies done[k] == expected[k] by {
                if k >= paused_steps.len() {
                    assert(done[paused_steps.len() + (k - paused_steps.len())]
                        == AppStep::CancelToken(left@[k - paused_steps.len()]));
                }
            }
            assert(begun.0@ =~= expected);
            assert(downloads_paused(noted, *self, paused_steps));
            if noted.paused {
                assert(self.tracking@.shutdown == old(self).active_files());
            } else {
                lemma_untokened_all(noted.tracking@, downloading(noted.files@));
            }
        }
        proof {
            assert forall|id: Seq<char>| #[trigger]
                old(self).tracking@.tokens.contains(id) implies exists|k: int|
                0 <= k < begun.0@.len() && cancels(#[trigger] begun.0@[k], id) by {
                if self.tracking@.tokens.contains(id) {
                    assert(ids::texts(left@).to_set().contains(id));
                    let k = choose|k: int|
                        0 <= k < ids::texts(left@).len() && ids::texts(left@)[k] == id;
                    assert(cancels(done[paused_steps.len() + k], left@[k]@));
                    assert(cancels(begun.0@[paused_steps.len() + k], id));
                } else {
                    assert(noted.tracking@.tokens.contains(id));
                    let k = choose|k: int|
                        0 <= k < paused_steps.len() && cancels(#[trigger] paused_steps[k], id);
                    assert(cancels(begun.0@[k], id));
                }
            }
        }
        begun
    }

    /// The rows once some verifications are skipped: none of them shows a transfer of such a
    /// file that the core knows.
    fn rested_rows(&self, files: &Vec<FileId>) -> (rows: Vec<FileEntry>)
        requires
            self.wf(),
        ensures
            rows_rested(*self, files@, rows@),
    {
        let skipped = FileIdSet::of(files);
        let mut rows: Vec<FileEntry> = Vec::new();
        let mut i: usize = 0;
        while i < self.files.len()
            invariant
                self.wf(),
                i <= self.files@.len(),
                skipped@ == ids::texts(files@).to_set(),
                rows@.len() == i,
                forall|k: int|
                    0 <= k < i ==> #[trigger] rows@[k] == rested_row(
                        *self,
                        files@,
                        self.files@[k],
                    ),
            decreases self.files.len() - i,
        {
            let row = &self.files[i];
            let mut rested = row.copy();
            if row.status.is_downloading() && skipped.contains(&row.id)
                && self.core_state.contains_file(&row.id) {
                let completed = match self.tracking.verification_targets.get(&row.id) {
                    Some(target) => *target == VerificationTarget::Completed,
                    None => false,
                };
                rested.status = if completed {
                    FileStatus::Complete
                } else {
                    FileStatus::Queued
                };
            }
            rows.push(rested);
            i += 1;
        }
        rows
    }

    /// Begins a shutdown: skips the verifications that it need not wait for, notes what it
    /// waits for, pauses downloads and cancels every transfer. Says whether there is something
    /// to wait for. A file whose verification is skipped is no longer shown as a transfer, so
    /// it is neither paused nor waited for unless a token of it is left.
    pub fn begin_shutdown(&mut self) -> (begun: (Vec<AppStep>, bool))
        requires
            old(self).wf(),
        ensures
            final(self).wf(),
            final(self).paused,
            final(self).tracking@.shutdown == old(self).awaited_files(),
            final(self).tracking@.inflight == old(self).tracking@.inflight.intersect(
                old(self).tracking@.blocking,
            ),
            begun.1 == (old(self).awaited_files() != Set::<Seq<char>>::empty()),
            exists|files: Seq<FileId>, skipped: App, first: Seq<AppStep>, rest: Seq<AppStep>|
                {
                    &&& ids::texts(files).no_duplicates()
                    &&& ids::texts(files).to_set() == old(self).tracking@.inflight.difference(
                        old(self).tracking@.blocking,
                    )
                    &&& #[trigger] skipped_and_rested(*old(self), skipped, files, first)
                    &&& #[trigger] transfers_stopped(skipped, *final(self), rest)
                    &&& begun.0@ == first + rest
                },
            forall|id: Seq<char>| #[trigger]
                old(self).tracking@.tokens.contains(id) ==> exists|k: int|
                    0 <= k < begun.0@.len() && cancels(#[trigger] begun.0@[k], id),
    {
        let files = self.nonblocking_verifications();
        let rows = self.rested_rows(&files);
        let mut steps = self.skip_verifications(&files);
        self.files = rows;
        let ghost skipped = *self;
        let ghost first = steps@;
        proof {
            assert(skipped_and_rested(*old(self), skipped, files@, first));
            lemma_tracking_skipped(old(self).tracking@, files@);
            lemma_rested_active(*old(self), skipped, files@, first);
        }
        let (mut stopped, waiting) = self.stop_transfers();
        let ghost rest = stopped@;
        steps.append(&mut stopped);
        let begun = (steps, waiting);
        proof {
            assert(begun.0@ =~= first + rest);
            assert forall|id: Seq<char>|
                self.tracking@.inflight.contains(id) == #[trigger] old(
                    self,
                ).tracking@.inflight.intersect(old(self).tracking@.blocking).contains(id) by {
                assert(ids::texts(files@).to_set().contains(id) == ids::texts(files@).contains(
                    id,
                ));
            }
            assert(self.tracking@.inflight =~= old(self).tracking@.inflight.intersect(
                old(self).tracking@.blocking,
            ));
            assert forall|id: Seq<char>| #[trigger]
                old(self).tracking@.tokens.contains(id) implies exists|k: int|
                0 <= k < begun.0@.len() && cancels(#[trigger] begun.0@[k], id) by {
                assert(skipped.tracking@.tokens.contains(id));
                let k = choose|k: int| 0 <= k < rest.len() && cancels(#[trigger] rest[k], id);
                assert(begun.0@[first.len() + k] == rest[k]);
                assert(cancels(begun.0@[first.len() + k], id));
            }
        }
        begun
    }

    /// Ends a shutdown that took too long: cancels what is left and waits for nothing.
    pub fn force_shutdown(&mut self) -> (steps: Vec<AppStep>)
        ensures
            *final(self) == (App { tracking: final(self).tracking, ..*old(self) }),
            final(self).tracking@ == (TrackingModel {
                tokens: Set::empty(),
                shutdown: Set::empty(),
                ..old(self).tracking@
            }),
            steps@.len() == old(self).tracking@.tokens.len(),
            forall|k: int| 0 <= k < steps@.len() ==> (#[trigger] steps@[k]) is CancelToken,
            forall|id: Seq<char>| #[trigger]
                old(self).tracking@.tokens.contains(id) ==> exists|k: int|
                    0 <= k < steps@.len() && cancels(#[trigger] steps@[k], id),
    {
        let left = self.tracking.cancellation_tokens.to_vec();
        let mut steps: Vec<AppStep> = Vec::new();
        let mut i: usize = 0;
        while i < left.len()
            invariant
                i <= left@.len(),
                steps@.len() == i,
                forall|k: int|
                    0 <= k < i ==> #[trigger] steps@[k] == AppStep::CancelToken(left@[k]),
            decreases left.len() - i,
        {
            steps.push(AppStep::CancelToken(left[i].clone()));
            i += 1;
        }
        proof {
            ids::texts(left@).unique_seq_to_set();
            assert forall|id: Seq<char>| #[trigger]
                old(self).tracking@.tokens.contains(id) implies exists|k: int|
                0 <= k < steps@.len() && cancels(#[trigger] steps@[k], id) by {
                assert(ids::texts(left@).to_set().contains(id));
                let k = choose|k: int|
                    0 <= k < ids::texts(left@).len() && ids::texts(left@)[k] == id;
                assert(cancels(steps@[k], id));
            }
        }
        self.tracking.cancellation_tokens.clear();
        self.tracking.shutdown_pending_files.clear();
        steps
    }

    /// The token of a transfer arrived. It is kept where the transfer belongs to the current
    /// attempt at a file that is not complete; while downloads are paused it is cancelled, and
    /// kept only where a shutdown waits for the file.
    pub fn handle_token_message(&mut self, file_id: FileId, attempt_id: u64) -> (decision:
        TokenDecision)
        requires
            old(self).wf(),
        ensures
            *final(self) == (App { tracking: final(self).tracking, ..*old(self) }),
            ({
                let accepted = old(self).accepts(file_id@, attempt_id) && !(old(
                    self,
                ).core_state.file(file_id@).lifecycle is Complete);
                let awaited = old(self).tracking@.shutdown.contains(file_id@);
                &&& decision.cancel == (!accepted || old(self).paused)
                &&& decision.keep == (accepted && (!old(self).paused || awaited))
                &&& final(self).tracking@ == (if decision.keep {
                    TrackingModel {
                        tokens: old(self).tracking@.tokens.insert(file_id@),
                        ..old(self).tracking@
                    }
                } else {
                    old(self).tracking@
                })
            }),
    {
        if !self.accepts_current_attempt_update(&file_id, attempt_id) {
            return TokenDecision { cancel: true, keep: false };
        }
        if self.paused && !self.tracking.shutdown_pending_files.contains(&file_id) {
            return TokenDecision { cancel: true, keep: false };
        }
        let _ = self.tracking.cancellation_tokens.insert(file_id);
        TokenDecision { cancel: self.paused, keep: true }
    }
}

/// What becomes of the token of a transfer.
#[derive(Clone, Copy, Debug, PartialEq, Eq, Structural)]
pub struct TokenDecision {
    /// The transfer is cancelled.
    pub cancel: bool,
    /// The token is kept.
    pub keep: bool,
}

/// Cancels the transfers of files.
pub open spec fn cancellations(files: Seq<FileId>) -> Seq<AppStep> {
    files.map_values(|id: FileId| AppStep::CancelToken(id))
}

/// Whether a step cancels the transfer of a file.
pub open spec fn cancels(step: AppStep, id: Seq<char>) -> bool {
    step matches AppStep::CancelToken(file) && file@ == id
}

/// Whether a verification of a file is of all of it.
pub open spec fn verifies_completed(tracking: TrackingModel, id: Seq<char>) -> bool {
    tracking.targets.dom().contains(id) && tracking.targets[id] == VerificationTarget::Completed
}

/// What is under way once verifications were skipped.
pub open spec fn tracking_skipped(tracking: TrackingModel, files: Seq<FileId>) -> TrackingModel
    decreases files.len(),
{
    if files.len() == 0 {
        tracking
    } else {
        let id = files.last()@;
        tracking_skipped(tracking, files.drop_last()).settled(id).cleared(id)
    }
}

/// What follows where verifications are skipped.
pub open spec fn skips(app: App, files: Seq<FileId>) -> Seq<AppStep>
    decreases files.len(),
{
    if files.len() == 0 {
        Seq::empty()
    } else {
        skips(app, files.drop_last()) + app.skip_steps(
            files.last(),
            verifies_completed(
                tracking_skipped(app.tracking@, files.drop_last()),
                files.last()@,
            ),
        )
    }
}

/// How verifications are skipped.
pub open spec fn skipped_all(
    before: App,
    after: App,
    files: Seq<FileId>,
    steps: Seq<AppStep>,
) -> bool {
    &&& after == (App { tracking: after.tracking, ..before })
    &&& after.tracking@ =~= tracking_skipped(before.tracking@, files)
    &&& steps =~= skips(before, files)
}

/// A row once verifications are skipped: where it shows a transfer of such a file that the core
/// knows, the file is complete if all of it was verified, and queued again if not.
pub open spec fn rested_row(app: App, files: Seq<FileId>, row: FileEntry) -> FileEntry {
    if row.status is Downloading && ids::texts(files).contains(row.id@) && app.core_state.has(
        row.id@,
    ) {
        FileEntry {
            status: if verifies_completed(app.tracking@, row.id@) {
                FileStatus::Complete
            } else {
                FileStatus::Queued
            },
            ..row
        }
    } else {
        row
    }
}

/// Whether rows are those that are shown once verifications are skipped.
pub open spec fn rows_rested(app: App, files: Seq<FileId>, rows: Seq<FileEntry>) -> bool {
    &&& rows.len() == app.files@.len()
    &&& forall|k: int|
        0 <= k < rows.len() ==> #[trigger] rows[k] == rested_row(app, files, app.files@[k])
}

/// How verifications are skipped and their rows shown as what they then are.
pub open spec fn skipped_and_rested(
    before: App,
    after: App,
    files: Seq<FileId>,
    steps: Seq<AppStep>,
) -> bool {
    &&& after == (App { tracking: after.tracking, files: after.files, ..before })
    &&& after.tracking@ =~= tracking_skipped(before.tracking@, files)
    &&& rows_rested(before, files, after.files@)
    &&& steps =~= skips(before, files)
}

/// How the transfers stop that a shutdown waits for: it notes them, pauses downloads, and cancels
/// what can still be cancelled.
pub open spec fn transfers_stopped(before: App, after: App, steps: Seq<AppStep>) -> bool {
    exists|noted: App, paused: Seq<AppStep>, left: Seq<FileId>|
        {
            &&& noted == (App { tracking: noted.tracking, ..before })
            &&& noted.tracking@ == (TrackingModel {
                shutdown: before.active_files(),
                ..before.tracking@
            })
            &&& #[trigger] downloads_paused(noted, after, paused)
            &&& ids::texts(left).no_duplicates()
            &&& ids::texts(left).to_set() == after.tracking@.tokens
            &&& steps == paused + #[trigger] cancellations(left)
        }
}

/// What a list names: what it names without its last entry, and that entry.
proof fn lemma_last_listed(files: Seq<FileId>)
    requires
        files.len() > 0,
    ensures
        forall|id: Seq<char>| #[trigger]
            ids::texts(files).contains(id) <==> ids::texts(files.drop_last()).contains(id) || id
                == files.last()@,
{
    let listed = ids::texts(files.drop_last());
    let longer = ids::texts(files);
    assert forall|id: Seq<char>| #[trigger] longer.contains(id) <==> listed.contains(id) || id
        == files.last()@ by {
        if listed.contains(id) {
            let k = choose|k: int| 0 <= k < listed.len() && listed[k] == id;
            assert(longer[k] == id);
        }
        assert(longer[files.len() - 1] == files.last()@);
        if longer.contains(id) && id != files.last()@ {
            let k = choose|k: int| 0 <= k < longer.len() && longer[k] == id;
            assert(listed[k] == id);
        }
    }
}

/// What skipping verifications leaves alone.
proof fn lemma_tracking_skipped(tracking: TrackingModel, files: Seq<FileId>)
    ensures
        tracking_skipped(tracking, files).tokens == tracking.tokens,
        forall|id: Seq<char>| #[trigger]
            tracking_skipped(tracking, files).inflight.contains(id) == (tracking.inflight.contains(
                id,
            ) && !ids::texts(files).contains(id)),
        forall|id: Seq<char>| #[trigger]
            tracking_skipped(tracking, files).blocking.contains(id) == (tracking.blocking.contains(
                id,
            ) && !ids::texts(files).contains(id)),
    decreases files.len(),
{
    if files.len() > 0 {
        let earlier = files.drop_last();
        lemma_tracking_skipped(tracking, earlier);
        lemma_last_listed(files);
    }
}

/// A file is among those shown as transfers exactly where a row shows a transfer of it.
proof fn lemma_downloading(files: Seq<FileEntry>, id: Seq<char>)
    ensures
        ids::texts(downloading(files)).contains(id) <==> exists|k: int|
            0 <= k < files.len() && (#[trigger] files[k]).status is Downloading && files[k].id@
                == id,
{
    broadcast use vstd::seq_lib::group_filter_ensures;

    let shown = files.filter(is_downloading());
    let texts = ids::texts(downloading(files));
    if texts.contains(id) {
        let k = choose|k: int| 0 <= k < texts.len() && texts[k] == id;
        assert(is_downloading()(shown[k]));
        assert(shown.contains(shown[k]));
        files.lemma_filter_contains_rev(is_downloading(), shown[k]);
        let m = choose|m: int| 0 <= m < files.len() && files[m] == shown[k];
        assert(files[m].status is Downloading && files[m].id@ == id);
    }
    if exists|k: int|
        0 <= k < files.len() && (#[trigger] files[k]).status is Downloading && files[k].id@
            == id {
        let k = choose|k: int|
            0 <= k < files.len() && (#[trigger] files[k]).status is Downloading && files[k].id@
                == id;
        assert(is_downloading()(files[k]));
        assert(shown.contains(files[k]));
        let m = choose|m: int| 0 <= m < shown.len() && shown[m] == files[k];
        assert(texts[m] == id);
    }
}

/// What a shutdown waits for once verifications are skipped.
proof fn lemma_rested_active(before: App, after: App, files: Seq<FileId>, steps: Seq<AppStep>)
    requires
        skipped_and_rested(before, after, files, steps),
        ids::texts(files).to_set() == before.tracking@.inflight.difference(
            before.tracking@.blocking,
        ),
    ensures
        after.active_files() == before.awaited_files(),
{
    lemma_tracking_skipped(before.tracking@, files);
    assert forall|id: Seq<char>| after.active_files().contains(id) <==> #[trigger]
        before.awaited_files().contains(id) by {
        lemma_downloading(before.files@, id);
        lemma_downloading(after.files@, id);
        assert(ids::texts(files).to_set().contains(id) == ids::texts(files).contains(id));
        let left = before.left_files();
        assert(left.contains(id) == (ids::texts(files).contains(id) && before.core_state.has(id)));
        if ids::texts(downloading(after.files@)).contains(id) {
            let k = choose|k: int|
                0 <= k < after.files@.len() && (#[trigger] after.files@[k]).status is Downloading
                    && after.files@[k].id@ == id;
            assert(after.files@[k] == rested_row(before, files, before.files@[k]));
            assert(before.files@[k].status is Downloading && before.files@[k].id@ == id);
        }
        if ids::texts(downloading(before.files@)).contains(id) && !left.contains(id) {
            let k = choose|k: int|
                0 <= k < before.files@.len() && (#[trigger] before.files@[k]).status is Downloading
                    && before.files@[k].id@ == id;
            assert(after.files@[k] == rested_row(before, files, before.files@[k]));
            assert(after.files@[k].status is Downloading && after.files@[k].id@ == id);
        }
    }
    assert(after.active_files() =~= before.awaited_files());
}

/// A list without repetition has none after filtering.
proof fn lemma_filter_distinct(list: Seq<Seq<char>>, keep: spec_fn(Seq<char>) -> bool)
    requires
        list.no_duplicates(),
    ensures
        list.filter(keep).no_duplicates(),
    decreases list.len(),
{
    reveal(Seq::filter);
    if list.len() > 0 {
        let shorter = list.drop_last();
        lemma_filter_distinct(shorter, keep);
        scheduler::lemma_filter_to_set(shorter, keep);
        let kept = shorter.filter(keep);
        if kept.contains(list.last()) {
            assert(kept.to_set().contains(list.last()));
            assert(shorter.to_set().contains(list.last()));
            let k = choose|k: int| 0 <= k < shorter.len() && shorter[k] == list.last();
            assert(list[k] == list[list.len() - 1]);
        }
    }
}

/// The tokens that are left once those of some files are gone.
proof fn lemma_untokened_all(tracking: TrackingModel, files: Seq<FileId>)
    ensures
        untokened_all(tracking, files) == (TrackingModel {
            tokens: untokened_all(tracking, files).tokens,
            ..tracking
        }),
        forall|id: Seq<char>| #[trigger]
            untokened_all(tracking, files).tokens.contains(id) == (tracking.tokens.contains(id)
                && !ids::texts(files).contains(id)),
    decreases files.len(),
{
    if files.len() > 0 {
        let earlier = files.drop_last();
        lemma_untokened_all(tracking, earlier);
        lemma_last_listed(files);
    }
}

/// Pausing cancels each transfer whose token it drops.
proof fn lemma_pause_cancels(app: App, files: Seq<FileId>)
    ensures
        forall|id: Seq<char>| #[trigger]
            app.tracking@.tokens.contains(id) && !untokened_all(
                app.tracking@,
                files,
            ).tokens.contains(id) ==> exists|k: int|
                0 <= k < pause_steps(app, files).len() && cancels(
                    #[trigger] pause_steps(app, files)[k],
                    id,
                ),
    decreases files.len(),
{
    if files.len() > 0 {
        let earlier = files.drop_last();
        lemma_pause_cancels(app, earlier);
        let before = pause_steps(app, earlier);
        let tracking = untokened_all(app.tracking@, earlier);
        let added = pause_step(app, tracking, files.last());
        assert forall|id: Seq<char>| #[trigger]
            app.tracking@.tokens.contains(id) && !untokened_all(
                app.tracking@,
                files,
            ).tokens.contains(id) implies exists|k: int|
            0 <= k < pause_steps(app, files).len() && cancels(
                #[trigger] pause_steps(app, files)[k],
                id,
            ) by {
            if tracking.tokens.contains(id) {
                assert(id == files.last()@);
                assert(added[0] == AppStep::CancelToken(files.last()));
                assert(pause_steps(app, files)[before.len() as int] == added[0]);
                assert(cancels(pause_steps(app, files)[before.len() as int], id));
            } else {
                let k = choose|k: int| 0 <= k < before.len() && cancels(#[trigger] before[k], id);
                assert(pause_steps(app, files)[k] == before[k]);
                assert(cancels(pause_steps(app, files)[k], id));
            }
        }
    }
}

/// A shutdown has to wait for a file exactly where a row shows a transfer of it, its verification
/// cannot be left, or its transfer can be cancelled.
pub proof fn law_active_files_are_waited_for(app: App, id: Seq<char>)
    ensures
        app.active_files().contains(id) <==> (exists|k: int|
            0 <= k < app.files@.len() && (#[trigger] app.files@[k]).status is Downloading
                && app.files@[k].id@ == id) || app.tracking@.blocking.contains(id)
            || app.tracking@.tokens.contains(id),
{
    lemma_downloading(app.files@, id);
    let shown = ids::texts(downloading(app.files@));
    assert(shown.to_set().contains(id) == shown.contains(id));
}

/// A shutdown waits for every file with a transfer that can be cancelled or a verification that
/// cannot be left; it waits for no file that has neither and is not shown as a transfer, and for
/// none whose verification it skips.
pub proof fn law_awaited_files(app: App, id: Seq<char>)
    ensures
        app.tracking@.tokens.contains(id) ==> app.awaited_files().contains(id),
        app.tracking@.blocking.contains(id) ==> app.awaited_files().contains(id),
        app.awaited_files().contains(id) ==> app.active_files().contains(id),
        app.active_files().contains(id) && !app.awaited_files().contains(id)
            ==> app.tracking@.inflight.contains(id) && !app.tracking@.blocking.contains(id)
            && app.core_state.has(id),
        app.tracking@.inflight.contains(id) && app.core_state.has(id)
            && !app.tracking@.blocking.contains(id) && !app.tracking@.tokens.contains(id)
            ==> !app.awaited_files().contains(id),
{
}

/// What skipping verifications leaves of other files, and what it ends of its own.
proof fn lemma_skipped_parts(tracking: TrackingModel, files: Seq<FileId>, id: Seq<char>)
    ensures
        ({
            let after = tracking_skipped(tracking, files);
            let named = ids::texts(files).contains(id);
            &&& after.verifying.contains(id) == (tracking.verifying.contains(id) && !named)
            &&& after.inflight.contains(id) == (tracking.inflight.contains(id) && !named)
            &&& after.blocking.contains(id) == (tracking.blocking.contains(id) && !named)
            &&& after.shutdown.contains(id) == (tracking.shutdown.contains(id) && !named)
            &&& after.startup.contains(id) == (tracking.startup.contains(id) && !named)
            &&& after.reverify.contains(id) == (tracking.reverify.contains(id) && !named)
            &&& after.targets.dom().contains(id) == (tracking.targets.dom().contains(id) && !named)
            &&& after.targets.dom().contains(id) ==> after.targets[id] == tracking.targets[id]
            &&& after.tokens == tracking.tokens
            &&& after.reset == tracking.reset
            &&& after.attempts == tracking.attempts
        }),
    decreases files.len(),
{
    if files.len() > 0 {
        lemma_skipped_parts(tracking, files.drop_last(), id);
        lemma_last_listed(files);
        assert(ids::texts(files).contains(id) <==> ids::texts(files.drop_last()).contains(id) || id
            == files.last()@);
    }
}

/// Skipping verifications ends them: nothing of them stays under way, and no shutdown waits for
/// them. Transfers, attempts and the verifications of other files stay as they are.
pub proof fn law_skipped_verifications_are_over(
    before: App,
    after: App,
    files: Seq<FileId>,
    steps: Seq<AppStep>,
    id: Seq<char>,
)
    requires
        skipped_all(before, after, files, steps),
    ensures
        ({
            let named = ids::texts(files).contains(id);
            let old_tracking = before.tracking@;
            let new_tracking = after.tracking@;
            &&& named ==> {
                &&& !new_tracking.inflight.contains(id)
                &&& !new_tracking.verifying.contains(id)
                &&& !new_tracking.targets.dom().contains(id)
                &&& !new_tracking.shutdown.contains(id)
                &&& !new_tracking.blocking.contains(id)
                &&& !new_tracking.startup.contains(id)
                &&& !new_tracking.reverify.contains(id)
            }
            &&& !named ==> {
                &&& new_tracking.inflight.contains(id) == old_tracking.inflight.contains(id)
                &&& new_tracking.verifying.contains(id) == old_tracking.verifying.contains(id)
                &&& new_tracking.shutdown.contains(id) == old_tracking.shutdown.contains(id)
                &&& new_tracking.blocking.contains(id) == old_tracking.blocking.contains(id)
            }
            &&& new_tracking.tokens == old_tracking.tokens
            &&& new_tracking.attempts == old_tracking.attempts
            &&& after.core_state == before.core_state
        }),
{
    lemma_skipped_parts(before.tracking@, files, id);
}

/// The core is told of each verification that is skipped: a complete file stays complete, and any
/// other is queued again.
pub proof fn law_skipped_verifications_reach_the_core(
    before: App,
    after: App,
    files: Seq<FileId>,
    steps: Seq<AppStep>,
    k: int,
)
    requires
        skipped_all(before, after, files, steps),
        ids::texts(files).no_duplicates(),
        0 <= k < files.len(),
        before.core_state.has(files[k]@),
    ensures
        ({
            let targets = before.tracking@.targets;
            let id = files[k];
            if targets.dom().contains(id@) && targets[id@] == VerificationTarget::Completed {
                steps.contains(AppStep::Apply(CoreEvent::FileVerificationCompleted { file_id: id }))
            } else {
                steps.contains(AppStep::Apply(CoreEvent::FileCancelled { file_id: id }))
            }
        }),
{
    lemma_skip_told(before, files, k);
}

/// The steps of skipping verifications hold those of each file.
proof fn lemma_skip_told(app: App, files: Seq<FileId>, k: int)
    requires
        ids::texts(files).no_duplicates(),
        0 <= k < files.len(),
        app.core_state.has(files[k]@),
    ensures
        ({
            let targets = app.tracking@.targets;
            let id = files[k];
            skips(app, files).contains(
                AppStep::Apply(
                    if targets.dom().contains(id@) && targets[id@]
                        == VerificationTarget::Completed {
                        CoreEvent::FileVerificationCompleted { file_id: id }
                    } else {
                        CoreEvent::FileCancelled { file_id: id }
                    },
                ),
            )
        }),
    decreases files.len(),
{
    let earlier = files.drop_last();
    let steps = skips(app, files);
    let before = skips(app, earlier);
    let texts = ids::texts(files);
    let shorter = ids::texts(earlier);
    assert forall|i: int| 0 <= i < shorter.len() implies shorter[i] == texts[i] by {}
    let targets = app.tracking@.targets;
    let id = files[k];
    let told = AppStep::Apply(
        if targets.dom().contains(id@) && targets[id@] == VerificationTarget::Completed {
            CoreEvent::FileVerificationCompleted { file_id: id }
        } else {
            CoreEvent::FileCancelled { file_id: id }
        },
    );
    if k < earlier.len() {
        assert(earlier[k] == files[k]);
        lemma_skip_told(app, earlier, k);
        let j = choose|j: int| 0 <= j < before.len() && before[j] == told;
        assert(steps[j] == told);
    } else {
        lemma_skipped_parts(app.tracking@, earlier, id@);
        assert(!shorter.contains(id@)) by {
            if shorter.contains(id@) {
                let i = choose|i: int| 0 <= i < shorter.len() && shorter[i] == id@;
                assert(texts[i] == texts[k]);
            }
        }
        let added = app.skip_steps(
            id,
            verifies_completed(tracking_skipped(app.tracking@, earlier), id@),
        );
        assert(added[0] == told);
        assert(steps[before.len() as int] == told);
    }
}

/// Once verifications are skipped, no row shows a transfer of such a file that the core knows: it is
/// complete or queued. All else of the rows stays.
pub proof fn law_rows_of_skipped_verifications_rest(
    app: App,
    files: Seq<FileId>,
    rows: Seq<FileEntry>,
    k: int,
)
    requires
        rows_rested(app, files, rows),
        0 <= k < rows.len(),
    ensures
        ({
            let row = app.files@[k];
            let skipped = row.status is Downloading && app.core_state.has(row.id@) && ids::texts(
                files,
            ).contains(row.id@);
            &&& rows.len() == app.files@.len()
            &&& !skipped ==> rows[k] == row
            &&& skipped ==> !(rows[k].status is Downloading)
            &&& skipped ==> (rows[k].status is Complete <==> app.tracking@.targets.dom().contains(
                row.id@,
            ) && app.tracking@.targets[row.id@] == VerificationTarget::Completed)
            &&& rows[k].status is Error <==> row.status is Error
            &&& rows[k].id == row.id
            &&& rows[k].name == row.name
            &&& rows[k].size == row.size
            &&& rows[k].downloaded == row.downloaded
        }),
{
}

/// Transfers stop for a shutdown: downloads are paused, what is waited for is noted, and every
/// transfer that can be cancelled is.
pub proof fn law_transfers_stop(before: App, after: App, steps: Seq<AppStep>, id: Seq<char>)
    requires
        transfers_stopped(before, after, steps),
        !before.paused,
    ensures
        after.paused,
        after.tracking@.shutdown == before.active_files(),
        after.tracking@.inflight == before.tracking@.inflight,
        after.core_state == before.core_state,
        steps.contains(AppStep::BroadcastPause(true)),
        before.tracking@.tokens.contains(id) ==> exists|k: int|
            0 <= k < steps.len() && cancels(#[trigger] steps[k], id),
{
    let (noted, paused, left) = choose|noted: App, paused: Seq<AppStep>, left: Seq<FileId>|
        {
            &&& noted == (App { tracking: noted.tracking, ..before })
            &&& noted.tracking@ == (TrackingModel {
                shutdown: before.active_files(),
                ..before.tracking@
            })
            &&& #[trigger] downloads_paused(noted, after, paused)
            &&& ids::texts(left).no_duplicates()
            &&& ids::texts(left).to_set() == after.tracking@.tokens
            &&& steps == paused + #[trigger] cancellations(left)
        };
    let files = downloading(noted.files@);
    lemma_untokened_all(noted.tracking@, files);
    lemma_pause_cancels(noted, files);
    let middle = pause_steps(noted, files);
    assert(steps[0] == AppStep::BroadcastPause(true));
    if before.tracking@.tokens.contains(id) {
        if after.tracking@.tokens.contains(id) {
            let texts = ids::texts(left);
            assert(texts.to_set().contains(id));
            let j = choose|j: int| 0 <= j < texts.len() && texts[j] == id;
            assert(cancellations(left)[j] == AppStep::CancelToken(left[j]));
            assert(steps[paused.len() + j] == cancellations(left)[j]);
            assert(cancels(steps[paused.len() + j], id));
        } else {
            assert(noted.tracking@.tokens.contains(id) && !untokened_all(
                noted.tracking@,
                files,
            ).tokens.contains(id));
            let j = choose|j: int| 0 <= j < middle.len() && cancels(#[trigger] middle[j], id);
            assert(paused[j + 1] == middle[j]);
            assert(steps[j + 1] == middle[j]);
            assert(cancels(steps[j + 1], id));
        }
    }
}

/// A row that stands for no file of the core shows no transfer once it is paused; its address and
/// all else of it stay.
pub proof fn law_paused_rows_are_queued(
    before: App,
    after: App,
    files: Seq<FileId>,
    k: int,
)
    requires
        rows_paused(before, after, files),
        0 <= k < before.overlay_files.keys().len(),
    ensures
        ({
            let key = before.overlay_files.keys()[k];
            let old_row = before.overlay_files.values()[k];
            let new_row = after.overlay_files.values()[k];
            let paused = ids::texts(files).contains(key) && !before.core_state.has(key);
            &&& after.overlay_files.keys()[k] == key
            &&& !paused ==> new_row == old_row
            &&& paused ==> new_row.entry().status is Queued
            &&& new_row.entry().id == old_row.entry().id
            &&& new_row.entry().downloaded == old_row.entry().downloaded
            &&& new_row is PendingUrl <==> old_row is PendingUrl
            &&& old_row is PendingUrl ==> new_row->source_url == old_row->source_url
        }),
{
}

} // verus!
