//! What is under way for each file: verifications, attempts, resets and cancellation tokens.

use vstd::prelude::*;

use crate::ids::{FileId, FileIdMap, FileIdSet};
use crate::verification::VerificationTarget;

verus! {

/// What is under way for each file.
pub struct FileTracking {
    /// Files in an explicit verification pass.
    pub verifying_files: FileIdSet,
    /// Files that accept verification progress.
    pub verification_inflight_files: FileIdSet,
    /// What is verified of a file.
    pub verification_targets: FileIdMap<VerificationTarget>,
    /// Verifications that a shutdown waits for.
    pub shutdown_blocking_verifications: FileIdSet,
    /// Files that go on after a restart and keep what they have.
    pub startup_resume_pending_files: FileIdSet,
    /// Files that were stopped to be verified and keep what they have when they go on.
    pub reverify_pending_files: FileIdSet,
    /// Files that were reset and wait for a new attempt.
    pub reset_pending_files: FileIdSet,
    /// Files that a shutdown waits for.
    pub shutdown_pending_files: FileIdSet,
    /// Files whose transfer can be cancelled.
    pub cancellation_tokens: FileIdSet,
    /// The number of the current attempt at a file.
    pub file_attempt_ids: FileIdMap<u64>,
}

/// What is under way for each file, by name.
#[verifier::ext_equal]
pub struct TrackingModel {
    pub verifying: Set<Seq<char>>,
    pub inflight: Set<Seq<char>>,
    pub targets: Map<Seq<char>, VerificationTarget>,
    pub blocking: Set<Seq<char>>,
    pub startup: Set<Seq<char>>,
    pub reverify: Set<Seq<char>>,
    pub reset: Set<Seq<char>>,
    pub shutdown: Set<Seq<char>>,
    pub tokens: Set<Seq<char>>,
    pub attempts: Map<Seq<char>, u64>,
}

impl View for FileTracking {
    type V = TrackingModel;

    open spec fn view(&self) -> TrackingModel {
        TrackingModel {
            verifying: self.verifying_files@,
            inflight: self.verification_inflight_files@,
            targets: self.verification_targets@,
            blocking: self.shutdown_blocking_verifications@,
            startup: self.startup_resume_pending_files@,
            reverify: self.reverify_pending_files@,
            reset: self.reset_pending_files@,
            shutdown: self.shutdown_pending_files@,
            tokens: self.cancellation_tokens@,
            attempts: self.file_attempt_ids@,
        }
    }
}

impl TrackingModel {
    /// The number of the current attempt at a file; a file that was never tried is at zero.
    pub open spec fn attempt(self, id: Seq<char>) -> u64 {
        if self.attempts.dom().contains(id) {
            self.attempts[id]
        } else {
            0
        }
    }

    /// With a new attempt at a file.
    pub open spec fn bumped(self, id: Seq<char>) -> TrackingModel {
        TrackingModel {
            attempts: self.attempts.insert(
                id,
                if self.attempt(id) == u64::MAX {
                    u64::MAX
                } else {
                    (self.attempt(id) + 1) as u64
                },
            ),
            ..self
        }
    }

    /// Without a verification of a file under way.
    pub open spec fn unverified(self, id: Seq<char>) -> TrackingModel {
        TrackingModel {
            verifying: self.verifying.remove(id),
            inflight: self.inflight.remove(id),
            targets: self.targets.remove(id),
            blocking: self.blocking.remove(id),
            ..self
        }
    }

    /// Without a verification of a file under way or to be followed by a resumed transfer.
    pub open spec fn cleared(self, id: Seq<char>) -> TrackingModel {
        TrackingModel {
            startup: self.startup.remove(id),
            reverify: self.reverify.remove(id),
            ..self.unverified(id)
        }
    }

    /// With a verification of a file under way.
    pub open spec fn verified_as(self, id: Seq<char>, target: VerificationTarget) -> TrackingModel {
        TrackingModel {
            verifying: self.verifying.insert(id),
            inflight: self.inflight.insert(id),
            targets: self.targets.insert(id, target),
            ..self
        }
    }

    /// Without a shutdown that waits for a file.
    pub open spec fn settled(self, id: Seq<char>) -> TrackingModel {
        TrackingModel { shutdown: self.shutdown.remove(id), ..self }
    }

    /// Without a token for a file.
    pub open spec fn untokened(self, id: Seq<char>) -> TrackingModel {
        TrackingModel { tokens: self.tokens.remove(id), ..self }
    }

    /// Without a file that waits for a new attempt.
    pub open spec fn unreset(self, id: Seq<char>) -> TrackingModel {
        TrackingModel { reset: self.reset.remove(id), ..self }
    }

    /// Whether a file is being verified.
    pub open spec fn verifies(self, id: Seq<char>) -> bool {
        self.targets.dom().contains(id) && self.inflight.contains(id)
    }

    /// Whether nothing of a verification is left of a file.
    pub open spec fn has_no_verification(self, id: Seq<char>) -> bool {
        &&& !self.verifying.contains(id)
        &&& !self.inflight.contains(id)
        &&& !self.targets.dom().contains(id)
        &&& !self.blocking.contains(id)
    }
}

impl FileTracking {
    /// Nothing under way.
    pub fn new() -> (tracking: FileTracking)
        ensures
            tracking@ == (TrackingModel {
                verifying: Set::empty(),
                inflight: Set::empty(),
                targets: Map::empty(),
                blocking: Set::empty(),
                startup: Set::empty(),
                reverify: Set::empty(),
                reset: Set::empty(),
                shutdown: Set::empty(),
                tokens: Set::empty(),
                attempts: Map::empty(),
            }),
    {
        FileTracking {
            verifying_files: FileIdSet::new(),
            verification_inflight_files: FileIdSet::new(),
            verification_targets: FileIdMap::new(),
            shutdown_blocking_verifications: FileIdSet::new(),
            startup_resume_pending_files: FileIdSet::new(),
            reverify_pending_files: FileIdSet::new(),
            reset_pending_files: FileIdSet::new(),
            shutdown_pending_files: FileIdSet::new(),
            cancellation_tokens: FileIdSet::new(),
            file_attempt_ids: FileIdMap::new(),
        }
    }

    /// Makes a shutdown wait for a file.
    pub fn track_shutdown_pending_file(&mut self, id: &FileId)
        ensures
            final(self)@ == (TrackingModel {
                shutdown: old(self)@.shutdown.insert(id@),
                ..old(self)@
            }),
    {
        let _ = self.shutdown_pending_files.insert(id.clone());
    }

    /// Lets a shutdown no longer wait for a file.
    pub fn resolve_shutdown_pending_file(&mut self, id: &FileId)
        ensures
            final(self)@ == old(self)@.settled(id@),
    {
        let _ = self.shutdown_pending_files.remove(id);
    }

    /// Ends the verification of a file.
    pub fn end_verification(&mut self, id: &FileId)
        ensures
            final(self)@ == old(self)@.unverified(id@),
            final(self)@.has_no_verification(id@),
    {
        let _ = self.verifying_files.remove(id);
        let _ = self.verification_inflight_files.remove(id);
        let _ = self.verification_targets.remove(id);
        let _ = self.shutdown_blocking_verifications.remove(id);
    }

    /// Ends the verification of a file and forgets that its transfer was to go on.
    pub fn clear_verification_state(&mut self, id: &FileId)
        ensures
            final(self)@ == old(self)@.cleared(id@),
            final(self)@.has_no_verification(id@),
    {
        self.end_verification(id);
        let _ = self.startup_resume_pending_files.remove(id);
        let _ = self.reverify_pending_files.remove(id);
    }

    /// Begins the verification of a file.
    pub fn begin_verification(&mut self, id: &FileId, target: VerificationTarget)
        ensures
            final(self)@ == old(self)@.verified_as(id@, target),
            final(self)@.verifies(id@),
    {
        let _ = self.verifying_files.insert(id.clone());
        let _ = self.verification_inflight_files.insert(id.clone());
        self.verification_targets.insert(id.clone(), target);
    }

    /// Whether a reset file waits for a new attempt.
    pub fn reset_is_waiting_for_new_attempt(&self, id: &FileId) -> (waiting: bool)
        ensures
            waiting == self@.reset.contains(id@),
    {
        self.reset_pending_files.contains(id)
    }

    /// The number of the current attempt at a file.
    pub fn current_attempt_id(&self, id: &FileId) -> (attempt: u64)
        ensures
            attempt == self@.attempt(id@),
    {
        match self.file_attempt_ids.get(id) {
            Some(attempt) => *attempt,
            None => 0,
        }
    }

    /// Begins a new attempt at a file.
    pub fn bump_file_attempt_id(&mut self, id: &FileId) -> (attempt: u64)
        ensures
            final(self)@ == old(self)@.bumped(id@),
            attempt == final(self)@.attempt(id@),
            old(self)@.attempt(id@) < u64::MAX ==> attempt == old(self)@.attempt(id@) + 1,
    {
        let current: u64 = self.current_attempt_id(id);
        let next: u64 = if current == u64::MAX {
            u64::MAX
        } else {
            current + 1
        };
        self.file_attempt_ids.insert(id.clone(), next);
        next
    }

    /// Whether an event belongs to the current attempt at a file.
    pub fn event_matches_current_attempt(&self, id: &FileId, attempt_id: u64) -> (matches: bool)
        ensures
            matches == (self@.attempt(id@) == attempt_id),
    {
        self.current_attempt_id(id) == attempt_id
    }

    /// Whether a file is being verified.
    pub fn is_verification_active(&self, id: &FileId) -> (active: bool)
        ensures
            active == self@.verifies(id@),
    {
        self.verification_targets.contains_key(id) && self.verification_inflight_files.contains(id)
    }
}

/// A new attempt leaves events of the old one behind, unless the numbers have run out.
pub proof fn law_new_attempt_outdates_events(tracking: TrackingModel, id: Seq<char>, attempt: u64)
    requires
        attempt <= tracking.attempt(id),
        tracking.attempt(id) < u64::MAX,
    ensures
        tracking.bumped(id).attempt(id) != attempt,
        forall|other: Seq<char>|
            other != id ==> #[trigger] tracking.bumped(id).attempt(other) == tracking.attempt(
                other,
            ),
{
}

/// Clearing what is under way for one file leaves the other files as they are.
pub proof fn law_clearing_concerns_one_file(
    tracking: TrackingModel,
    id: Seq<char>,
    other: Seq<char>,
)
    requires
        other != id,
    ensures
        tracking.cleared(id).has_no_verification(id),
        tracking.cleared(id).verifies(other) == tracking.verifies(other),
        tracking.cleared(id).verifying.contains(other) == tracking.verifying.contains(other),
        tracking.cleared(id).reverify.contains(other) == tracking.reverify.contains(other),
        tracking.cleared(id).cleared(id) =~= tracking.cleared(id),
{
}

} // verus!
