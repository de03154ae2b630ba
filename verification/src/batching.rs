//! Work that is put off until a batch of updates is over.

use vstd::prelude::*;

verus! {

/// Work that is done at once outside a batch, and once at the end of the outermost one.
#[derive(Clone, Copy, Debug, PartialEq, Eq, Structural)]
pub struct Deferral {
    pub depth: usize,
    pub pending: bool,
}

impl Deferral {
    /// Outside a batch, nothing is put off.
    pub open spec fn wf(&self) -> bool {
        self.depth == 0 ==> !self.pending
    }

    /// Outside a batch.
    pub fn new() -> (deferral: Deferral)
        ensures
            deferral.wf(),
            deferral.depth == 0,
    {
        Deferral { depth: 0, pending: false }
    }

    /// A batch begins; says whether it is the outermost one.
    pub fn begin(&mut self) -> (outermost: bool)
        requires
            old(self).wf(),
            old(self).depth < usize::MAX,
        ensures
            final(self).wf(),
            final(self).depth == old(self).depth + 1,
            final(self).pending == old(self).pending,
            outermost == (old(self).depth == 0),
    {
        let outermost = self.depth == 0;
        self.depth = self.depth + 1;
        outermost
    }

    /// Work is wanted; says whether it is to be done now.
    pub fn request(&mut self) -> (now: bool)
        requires
            old(self).wf(),
        ensures
            final(self).wf(),
            final(self).depth == old(self).depth,
            now == (old(self).depth == 0),
            final(self).pending == (old(self).depth > 0),
    {
        if self.depth > 0 {
            self.pending = true;
            false
        } else {
            true
        }
    }

    /// A batch ends; says whether work that was put off is to be done now.
    pub fn end(&mut self) -> (now: bool)
        requires
            old(self).wf(),
        ensures
            final(self).wf(),
            final(self).depth == if old(self).depth == 0 {
                0
            } else {
                (old(self).depth - 1) as usize
            },
            now == (old(self).depth <= 1 && old(self).pending),
            final(self).pending == (old(self).depth > 1 && old(self).pending),
    {
        if self.depth > 0 {
            self.depth = self.depth - 1;
        }
        if self.depth != 0 {
            return false;
        }
        let now = self.pending;
        self.pending = false;
        now
    }
}

/// What is done with a saved session.
#[derive(Debug, PartialEq, Eq)]
pub enum PendingSessionPersistence<S> {
    Save(S),
    Remove(String),
}

/// What is to be saved once a batch is over.
#[derive(Debug, PartialEq, Eq)]
pub enum SessionFlush<S> {
    /// Nothing.
    Nothing,
    /// What the core knows.
    CoreState,
    /// What was put off last.
    Pending(PendingSessionPersistence<S>),
}

/// Saving a session, put off until the outermost batch is over.
pub struct DeferredPersistence<S> {
    pub depth: usize,
    /// What the core knows is to be saved, and no change was put off since that was wanted.
    pub core_state: bool,
    pub pending: Option<PendingSessionPersistence<S>>,
}

impl<S> DeferredPersistence<S> {
    /// Once what the core knows is to be saved.
    pub open spec fn core_state_wanted(self) -> DeferredPersistence<S> {
        DeferredPersistence { core_state: self.core_state || self.depth > 0, ..self }
    }

    /// Once the session is about to be changed, with what the core knows taken into it.
    pub open spec fn change_begun(self) -> DeferredPersistence<S> {
        DeferredPersistence { core_state: false, ..self }
    }

    /// Once a change of the session is put off; outside a batch none is.
    pub open spec fn change_put_off(
        self,
        change: PendingSessionPersistence<S>,
    ) -> DeferredPersistence<S> {
        if self.depth > 0 {
            DeferredPersistence { pending: Some(change), ..self }
        } else {
            self
        }
    }

    /// Once a batch is over.
    pub open spec fn batch_ended(self) -> DeferredPersistence<S> {
        if self.depth > 1 {
            DeferredPersistence { depth: (self.depth - 1) as usize, ..self }
        } else {
            DeferredPersistence { depth: 0, core_state: false, pending: None }
        }
    }

    /// What is to be saved when a batch ends.
    pub open spec fn flushed(self, panicking: bool) -> SessionFlush<S> {
        if self.depth > 1 || panicking {
            SessionFlush::Nothing
        } else if self.core_state {
            SessionFlush::CoreState
        } else {
            match self.pending {
                Some(pending) => SessionFlush::Pending(pending),
                None => SessionFlush::Nothing,
            }
        }
    }

    /// What is to be saved when the outermost batch ends, with nothing wanted in between.
    pub open spec fn outermost_flush(self) -> SessionFlush<S>
        decreases self.depth,
    {
        if self.depth > 1 {
            self.batch_ended().outermost_flush()
        } else {
            self.flushed(false)
        }
    }

    /// Outside a batch.
    pub fn new() -> (deferred: DeferredPersistence<S>)
        ensures
            deferred.depth == 0,
            !deferred.core_state,
            deferred.pending is None,
    {
        DeferredPersistence { depth: 0, core_state: false, pending: None }
    }

    /// A batch begins.
    pub fn begin(&mut self)
        requires
            old(self).depth < usize::MAX,
        ensures
            *final(self) == (DeferredPersistence {
                depth: (old(self).depth + 1) as usize,
                ..*old(self)
            }),
    {
        self.depth = self.depth + 1;
    }

    /// What the core knows is to be saved; says whether that is to be done now.
    pub fn want_core_state(&mut self) -> (now: bool)
        ensures
            now == (old(self).depth == 0),
            *final(self) == old(self).core_state_wanted(),
    {
        if self.depth > 0 {
            self.core_state = true;
            false
        } else {
            true
        }
    }

    /// The session is about to be changed; says whether what the core knows is to be taken into
    /// it first, because saving that was put off.
    pub fn begin_change(&mut self) -> (take_core_state: bool)
        ensures
            take_core_state == old(self).core_state,
            *final(self) == old(self).change_begun(),
    {
        let take_core_state = self.core_state;
        self.core_state = false;
        take_core_state
    }

    /// The session was changed; gives the change back where it is to be carried out now.
    pub fn put_off(&mut self, change: PendingSessionPersistence<S>) -> (now: Option<
        PendingSessionPersistence<S>,
    >)
        ensures
            now == (if old(self).depth > 0 {
                None
            } else {
                Some(change)
            }),
            *final(self) == old(self).change_put_off(change),
    {
        if self.depth > 0 {
            self.pending = Some(change);
            None
        } else {
            Some(change)
        }
    }

    /// A batch ends. At the end of the outermost one what the core knows is saved where that was
    /// wanted after the last change, and else the last change; nothing stays put off. After a
    /// panic nothing is saved.
    pub fn end(&mut self, panicking: bool) -> (flush: SessionFlush<S>)
        ensures
            *final(self) == old(self).batch_ended(),
            flush == old(self).flushed(panicking),
    {
        if self.depth > 0 {
            self.depth = self.depth - 1;
        }
        if self.depth != 0 {
            return SessionFlush::Nothing;
        }
        let core_state = self.core_state;
        self.core_state = false;
        let pending = self.pending.take();
        if panicking {
            return SessionFlush::Nothing;
        }
        if core_state {
            return SessionFlush::CoreState;
        }
        match pending {
            Some(pending) => SessionFlush::Pending(pending),
            None => SessionFlush::Nothing,
        }
    }
}

/// What is saved at the end of the outermost batch is decided by what was put off when that ends.
proof fn lemma_outermost_flush<S>(deferred: DeferredPersistence<S>)
    ensures
        deferred.outermost_flush() == (DeferredPersistence { depth: 1, ..deferred }).flushed(false),
    decreases deferred.depth,
{
    if deferred.depth > 1 {
        lemma_outermost_flush(deferred.batch_ended());
    }
}

/// A change of the session that is put off after a save of the core's state was wanted is what is
/// saved at the end of the outermost batch, and the core's state is taken into it before.
pub proof fn law_change_after_core_save_is_flushed<S>(
    deferred: DeferredPersistence<S>,
    change: PendingSessionPersistence<S>,
)
    requires
        deferred.depth > 0,
    ensures
        deferred.core_state_wanted().core_state,
        deferred.core_state_wanted().change_begun().change_put_off(change).outermost_flush()
            == SessionFlush::Pending(change),
{
    lemma_outermost_flush(
        deferred.core_state_wanted().change_begun().change_put_off(change),
    );
}

/// Of several changes that are put off, the last one is saved at the end of the outermost batch.
pub proof fn law_last_change_is_flushed<S>(
    deferred: DeferredPersistence<S>,
    earlier: PendingSessionPersistence<S>,
    change: PendingSessionPersistence<S>,
)
    requires
        deferred.depth > 0,
    ensures
        !deferred.change_begun().change_put_off(earlier).core_state,
        deferred.change_begun().change_put_off(earlier).change_begun().change_put_off(
            change,
        ).outermost_flush() == SessionFlush::Pending(change),
{
    lemma_outermost_flush(
        deferred.change_begun().change_put_off(earlier).change_begun().change_put_off(change),
    );
}

/// A save of the core's state that is wanted after the last change is what is saved at the end of
/// the outermost batch.
pub proof fn law_core_save_after_change_is_flushed<S>(
    deferred: DeferredPersistence<S>,
    change: PendingSessionPersistence<S>,
)
    requires
        deferred.depth > 0,
    ensures
        deferred.change_begun().change_put_off(change).core_state_wanted().outermost_flush()
            == SessionFlush::<S>::CoreState,
{
    lemma_outermost_flush(
        deferred.change_begun().change_put_off(change).core_state_wanted(),
    );
}

/// The state after requests inside batches.
pub open spec fn requested(deferral: Deferral, count: nat) -> Deferral
    decreases count,
{
    if count == 0 {
        deferral
    } else {
        let before = requested(deferral, (count - 1) as nat);
        Deferral { pending: before.pending || before.depth > 0, ..before }
    }
}

/// However often work is wanted inside a batch, it is put off as one piece of work.
pub proof fn law_requests_collapse(deferral: Deferral, count: nat)
    requires
        deferral.depth > 0,
        count > 0,
    ensures
        requested(deferral, count) == (Deferral { pending: true, ..deferral }),
    decreases count,
{
    if count > 1 {
        law_requests_collapse(deferral, (count - 1) as nat);
    } else {
        assert(requested(deferral, 0) == deferral);
    }
}

} // verus!
