//! How events are drained and how the application runs until it is shut down.

use vstd::prelude::*;

use crate::app::App;
use crate::events::{DownloadEvent, ProgressDelta};
use crate::ids::FileId;
use crate::shutdown;
use crate::verification::VerificationTarget;

verus! {

/// How many events of the download task are taken at a time.
pub const MAX_DOWNLOAD_EVENTS_PER_TICK: usize = 256;

/// How many tokens are taken at a time.
pub const MAX_TOKEN_MESSAGES_PER_TICK: usize = 256;

/// How many requests of the user are taken at a time.
pub const MAX_UI_ACTIONS_PER_TICK: usize = 64;

/// How long a shutdown waits, in milliseconds.
pub const HEADLESS_SHUTDOWN_TIMEOUT_MS: u64 = 5_000;

/// Progress that is to be handled together.
#[derive(Debug, PartialEq, Eq)]
pub struct PendingProgress {
    pub id: FileId,
    pub attempt_id: u64,
    pub delta: ProgressDelta,
}

/// A sum that stops at the largest number.
pub open spec fn capped_sum(a: u64, b: u64) -> u64 {
    if a + b > u64::MAX {
        u64::MAX
    } else {
        (a + b) as u64
    }
}

/// Progress added to progress.
pub open spec fn joined_delta(a: ProgressDelta, b: ProgressDelta) -> ProgressDelta {
    ProgressDelta {
        total_bytes_delta: capped_sum(a.total_bytes_delta, b.total_bytes_delta),
        network_bytes_delta: capped_sum(a.network_bytes_delta, b.network_bytes_delta),
    }
}

impl PendingProgress {
    /// Whether progress is of the same attempt at the same file.
    pub open spec fn matches(self, other: PendingProgress) -> bool {
        self.id@ == other.id@ && self.attempt_id == other.attempt_id
    }

    /// The event that stands for the progress.
    pub open spec fn event(self) -> DownloadEvent {
        DownloadEvent::Progress { id: self.id, delta: self.delta, attempt_id: self.attempt_id }
    }
}

/// Progress added to what waits: to that of the same attempt at the same file, else behind the
/// others.
pub open spec fn merged(pending: Seq<PendingProgress>, more: PendingProgress) -> Seq<
    PendingProgress,
>
    decreases pending.len(),
{
    if pending.len() == 0 {
        seq![more]
    } else if pending[0].matches(more) {
        seq![
            PendingProgress { delta: joined_delta(pending[0].delta, more.delta), ..pending[0] },
        ] + pending.drop_first()
    } else {
        seq![pending[0]] + merged(pending.drop_first(), more)
    }
}

/// The events that stand for progress.
pub open spec fn flushed(pending: Seq<PendingProgress>) -> Seq<DownloadEvent> {
    pending.map_values(|progress: PendingProgress| progress.event())
}

/// Where progress is added.
proof fn lemma_merged(pending: Seq<PendingProgress>, more: PendingProgress, at: int)
    requires
        0 <= at <= pending.len(),
        forall|k: int| 0 <= k < at ==> !(#[trigger] pending[k]).matches(more),
        at < pending.len() ==> pending[at].matches(more),
    ensures
        merged(pending, more) == if at < pending.len() {
            pending.update(
                at,
                PendingProgress {
                    delta: joined_delta(pending[at].delta, more.delta),
                    ..pending[at]
                },
            )
        } else {
            pending.push(more)
        },
    decreases pending.len(),
{
    if pending.len() > 0 && at > 0 {
        let rest = pending.drop_first();
        assert forall|k: int| 0 <= k < at - 1 implies !(#[trigger] rest[k]).matches(more) by {
            assert(rest[k] == pending[k + 1]);
        }
        lemma_merged(rest, more, at - 1);
        assert(!pending[0].matches(more));
    }
    let expected = if at < pending.len() {
        pending.update(
            at,
            PendingProgress {
                delta: joined_delta(pending[at].delta, more.delta),
                ..pending[at]
            },
        )
    } else {
        pending.push(more)
    };
    assert(merged(pending, more) =~= expected);
}

/// Events on their way to their handlers. Progress waits and is handled together, but never
/// after an event that came behind it.
pub struct EventDrain {
    pub taken: usize,
    pub pending: Vec<PendingProgress>,
}

impl EventDrain {
    /// Nothing taken yet.
    pub fn new() -> (drain: EventDrain)
        ensures
            drain.taken == 0,
            drain.pending@ == Seq::<PendingProgress>::empty(),
    {
        EventDrain { taken: 0, pending: Vec::new() }
    }

    /// Whether another event may be taken.
    pub fn wants_more(&self) -> (more: bool)
        ensures
            more == (self.taken < MAX_DOWNLOAD_EVENTS_PER_TICK),
    {
        self.taken < MAX_DOWNLOAD_EVENTS_PER_TICK
    }

    /// Takes an event and gives those that are to be handled now.
    pub fn take(&mut self, event: DownloadEvent) -> (events: Vec<DownloadEvent>)
        requires
            old(self).taken < MAX_DOWNLOAD_EVENTS_PER_TICK,
        ensures
            final(self).taken == old(self).taken + 1,
            match event {
                DownloadEvent::Progress { id, delta, attempt_id } => {
                    &&& final(self).pending@ == merged(
                        old(self).pending@,
                        PendingProgress { id, attempt_id, delta },
                    )
                    &&& events@ == Seq::<DownloadEvent>::empty()
                },
                _ => {
                    &&& final(self).pending@ == Seq::<PendingProgress>::empty()
                    &&& events@ == flushed(old(self).pending@).push(event)
                },
            },
    {
        self.taken = self.taken + 1;
        match event {
            DownloadEvent::Progress { id, delta, attempt_id } => {
                self.add(PendingProgress { id, attempt_id, delta });
                Vec::new()
            },
            event => {
                let mut events = self.flush();
                events.push(event);
                events
            },
        }
    }

    /// Adds progress to what waits.
    fn add(&mut self, more: PendingProgress)
        ensures
            final(self).taken == old(self).taken,
            final(self).pending@ == merged(old(self).pending@, more),
    {
        let mut i: usize = 0;
        while i < self.pending.len()
            invariant
                *self == *old(self),
                i <= self.pending@.len(),
                forall|k: int| 0 <= k < i ==> !(#[trigger] self.pending@[k]).matches(more),
            decreases self.pending.len() - i,
        {
            let waiting = &self.pending[i];
            if waiting.attempt_id == more.attempt_id && *waiting.id.as_str() == *more.id.as_str() {
                proof {
                    lemma_merged(self.pending@, more, i as int);
                }
                let joined = PendingProgress {
                    id: waiting.id.clone(),
                    attempt_id: waiting.attempt_id,
                    delta: ProgressDelta {
                        total_bytes_delta: waiting.delta.total_bytes_delta.saturating_add(
                            more.delta.total_bytes_delta,
                        ),
                        network_bytes_delta: waiting.delta.network_bytes_delta.saturating_add(
                            more.delta.network_bytes_delta,
                        ),
                    },
                };
                self.pending.set(i, joined);
                return;
            }
            i += 1;
        }
        proof {
            lemma_merged(self.pending@, more, self.pending@.len() as int);
        }
        self.pending.push(more);
    }

    /// Gives the progress that waits, to be handled now.
    pub fn flush(&mut self) -> (events: Vec<DownloadEvent>)
        ensures
            final(self).taken == old(self).taken,
            final(self).pending@ == Seq::<PendingProgress>::empty(),
            events@ == flushed(old(self).pending@),
    {
        let mut events: Vec<DownloadEvent> = Vec::new();
        let mut i: usize = 0;
        while i < self.pending.len()
            invariant
                *self == *old(self),
                i <= self.pending@.len(),
                events@ =~= flushed(self.pending@.take(i as int)),
            decreases self.pending.len() - i,
        {
            let waiting = &self.pending[i];
            events.push(
                DownloadEvent::Progress {
                    id: waiting.id.clone(),
                    delta: waiting.delta,
                    attempt_id: waiting.attempt_id,
                },
            );
            i += 1;
        }
        assert(self.pending@.take(i as int) =~= self.pending@);
        self.pending = Vec::new();
        events
    }
}

/// What is handled, and what still waits, once events have been taken.
pub open spec fn drained(events: Seq<DownloadEvent>) -> (Seq<DownloadEvent>, Seq<PendingProgress>)
    decreases events.len(),
{
    if events.len() == 0 {
        (Seq::empty(), Seq::empty())
    } else {
        let (handled, pending) = drained(events.drop_last());
        match events.last() {
            DownloadEvent::Progress { id, delta, attempt_id } => (
                handled,
                merged(pending, PendingProgress { id, attempt_id, delta }),
            ),
            event => (handled + flushed(pending).push(event), Seq::empty()),
        }
    }
}

/// Whether an event is something other than progress.
pub open spec fn is_lifecycle() -> spec_fn(DownloadEvent) -> bool {
    |event: DownloadEvent| !(event is Progress)
}

/// Progress holds no other event.
proof fn lemma_flushed_is_progress(pending: Seq<PendingProgress>)
    ensures
        flushed(pending).filter(is_lifecycle()) == Seq::<DownloadEvent>::empty(),
    decreases pending.len(),
{
    reveal(Seq::filter);
    if pending.len() > 0 {
        lemma_flushed_is_progress(pending.drop_last());
        assert(flushed(pending).drop_last() =~= flushed(pending.drop_last()));
    }
}

/// Events other than progress are all handled, in the order in which they came.
pub proof fn law_lifecycle_events_keep_their_order(events: Seq<DownloadEvent>)
    ensures
        drained(events).0.filter(is_lifecycle()) == events.filter(is_lifecycle()),
    decreases events.len(),
{
    reveal(Seq::filter);
    if events.len() > 0 {
        law_lifecycle_events_keep_their_order(events.drop_last());
        let (handled, pending) = drained(events.drop_last());
        if !(events.last() is Progress) {
            let keep = is_lifecycle();
            lemma_flushed_is_progress(pending);
            let more = flushed(pending).push(events.last());
            assert(more.drop_last() =~= flushed(pending));
            assert(more.filter(keep) =~= seq![events.last()]);
            Seq::filter_distributes_over_add(handled, more, keep);
        }
    }
}

/// When an event other than progress is handled, no progress that came before it still waits.
pub proof fn law_progress_comes_before_what_follows_it(
    events: Seq<DownloadEvent>,
    event: DownloadEvent,
)
    requires
        !(event is Progress),
    ensures
        drained(events.push(event)).0 == drained(events).0 + flushed(drained(events).1).push(event),
        drained(events.push(event)).1 == Seq::<PendingProgress>::empty(),
{
    assert(events.push(event).drop_last() =~= events);
}

/// The bytes that progress adds up to.
pub open spec fn bytes_of(pending: Seq<PendingProgress>) -> nat
    decreases pending.len(),
{
    if pending.len() == 0 {
        0
    } else {
        pending[0].delta.total_bytes_delta as nat + bytes_of(pending.drop_first())
    }
}

/// All bytes of progress that came over the network.
pub open spec fn network_bytes_of(pending: Seq<PendingProgress>) -> nat
    decreases pending.len(),
{
    if pending.len() == 0 {
        0
    } else {
        pending[0].delta.network_bytes_delta as nat + network_bytes_of(pending.drop_first())
    }
}

/// Handling progress together loses no bytes, as long as they can be counted.
pub proof fn law_merging_keeps_bytes(pending: Seq<PendingProgress>, more: PendingProgress)
    ensures
        bytes_of(pending) + more.delta.total_bytes_delta <= u64::MAX ==> bytes_of(
            merged(pending, more),
        ) == bytes_of(pending) + more.delta.total_bytes_delta,
        network_bytes_of(pending) + more.delta.network_bytes_delta <= u64::MAX
            ==> network_bytes_of(merged(pending, more)) == network_bytes_of(pending)
            + more.delta.network_bytes_delta,
    decreases pending.len(),
{
    if pending.len() == 0 {
        assert(merged(pending, more).drop_first() =~= Seq::empty());
        assert(bytes_of(Seq::empty()) == 0);
        assert(network_bytes_of(Seq::empty()) == 0);
    } else if pending[0].matches(more) {
        assert(merged(pending, more).drop_first() =~= pending.drop_first());
    } else {
        law_merging_keeps_bytes(pending.drop_first(), more);
        assert(merged(pending, more).drop_first() =~= merged(pending.drop_first(), more));
    }
}

/// The share of the bytes that are downloaded, in whole percent, where it is worth telling:
/// neither nothing nor everything, and something came over the network.
pub fn progress_summary_pct(
    files_total: usize,
    total_downloaded: u64,
    total_size: u64,
    total_network_downloaded: u64,
) -> (pct: Option<u64>)
    requires
        files_total > 0 && total_size > 0 && total_network_downloaded > 0 ==> total_downloaded * 100
            <= u64::MAX,
    ensures
        ({
            let worth_telling = files_total > 0 && total_size > 0 && total_network_downloaded > 0;
            let share = (total_downloaded as int * 100) / (total_size as int);
            pct == (if worth_telling && 0 < share < 100 {
                Some(share as u64)
            } else {
                None
            })
        }),
{
    if files_total == 0 || total_size == 0 || total_network_downloaded == 0 {
        return None;
    }
    let share: u64 = total_downloaded * 100 / total_size;
    if share > 0 && share < 100 {
        Some(share)
    } else {
        None
    }
}

/// What may wake the application while it runs without a terminal.
#[derive(Clone, Copy, Debug, PartialEq, Eq, Structural)]
pub enum HeadlessWake {
    /// It is to shut down; says whether there is something to wait for.
    ShutdownRequested { waiting: bool },
    /// The shutdown took too long.
    DeadlineElapsed,
    /// A token arrived.
    Token,
    /// An event of the download task arrived.
    Event,
    /// There will be no more events.
    EventsClosed,
    /// It is time to tell of progress.
    ProgressTick,
    /// It is time to publish.
    PublishTick,
}

/// What the application does once it is awake.
#[derive(Clone, Copy, Debug, PartialEq, Eq, Structural)]
pub enum HeadlessAction {
    /// Set the deadline of the shutdown.
    ArmDeadline,
    /// Cancel what is left and end.
    Force,
    /// End.
    Stop,
    /// Handle the token.
    HandleToken,
    /// Handle the event, and publish.
    HandleEvent,
    /// Tell of progress.
    LogProgress,
    /// Publish.
    Publish,
}

/// The application while it runs without a terminal.
#[derive(Clone, Copy, Debug, PartialEq, Eq, Structural)]
pub struct HeadlessLoop {
    pub shutting_down: bool,
    pub deadline_armed: bool,
}

impl HeadlessLoop {
    /// A deadline is only set during a shutdown.
    pub open spec fn wf(&self) -> bool {
        self.deadline_armed ==> self.shutting_down
    }

    /// What the application listens to: a shutdown once, the deadline once it is set, tokens
    /// during a shutdown.
    pub open spec fn hears(self, wake: HeadlessWake, publishes: bool) -> bool {
        match wake {
            HeadlessWake::ShutdownRequested { .. } => !self.shutting_down,
            HeadlessWake::DeadlineElapsed => self.deadline_armed,
            HeadlessWake::Token => self.shutting_down,
            HeadlessWake::PublishTick => publishes,
            _ => true,
        }
    }

    /// Running.
    pub fn new() -> (running: HeadlessLoop)
        ensures
            running.wf(),
            !running.shutting_down,
            !running.deadline_armed,
    {
        HeadlessLoop { shutting_down: false, deadline_armed: false }
    }

    /// Whether the application listens for something.
    pub fn listens(&self, wake: HeadlessWake, publishes: bool) -> (listens: bool)
        ensures
            listens == self.hears(wake, publishes),
    {
        match wake {
            HeadlessWake::ShutdownRequested { .. } => !self.shutting_down,
            HeadlessWake::DeadlineElapsed => self.deadline_armed,
            HeadlessWake::Token => self.shutting_down,
            HeadlessWake::PublishTick => publishes,
            _ => true,
        }
    }

    /// What the application does once it is awake.
    pub fn wake(&mut self, wake: HeadlessWake) -> (action: HeadlessAction)
        requires
            old(self).wf(),
            old(self).hears(wake, true),
        ensures
            final(self).wf(),
            *final(self) == (match wake {
                HeadlessWake::ShutdownRequested { waiting } => HeadlessLoop {
                    shutting_down: true,
                    deadline_armed: waiting,
                },
                _ => *old(self),
            }),
            action == (match wake {
                HeadlessWake::ShutdownRequested { waiting: true } => HeadlessAction::ArmDeadline,
                HeadlessWake::ShutdownRequested { waiting: false } => HeadlessAction::Stop,
                HeadlessWake::DeadlineElapsed => HeadlessAction::Force,
                HeadlessWake::Token => HeadlessAction::HandleToken,
                HeadlessWake::Event => HeadlessAction::HandleEvent,
                HeadlessWake::EventsClosed => HeadlessAction::Stop,
                HeadlessWake::ProgressTick => HeadlessAction::LogProgress,
                HeadlessWake::PublishTick => HeadlessAction::Publish,
            }),
    {
        match wake {
            HeadlessWake::ShutdownRequested { waiting } => {
                self.shutting_down = true;
                if waiting {
                    self.deadline_armed = true;
                    HeadlessAction::ArmDeadline
                } else {
                    HeadlessAction::Stop
                }
            },
            HeadlessWake::DeadlineElapsed => HeadlessAction::Force,
            HeadlessWake::Token => HeadlessAction::HandleToken,
            HeadlessWake::Event => HeadlessAction::HandleEvent,
            HeadlessWake::EventsClosed => HeadlessAction::Stop,
            HeadlessWake::ProgressTick => HeadlessAction::LogProgress,
            HeadlessWake::PublishTick => HeadlessAction::Publish,
        }
    }

    /// Whether the application ends after what it did: during a shutdown, once nothing is waited
    /// for.
    pub fn is_over(&self, app: &App) -> (over: bool)
        ensures
            over == (self.shutting_down && app.tracking@.shutdown == Set::<Seq<char>>::empty()),
    {
        self.shutting_down && app.tracking.shutdown_pending_files.is_empty()
    }
}

impl App {
    /// Whether a transfer or a verification is shown.
    pub fn has_active_dashboard_transfer(&self) -> (active: bool)
        ensures
            active == (shutdown::downloading(self.files@).len() > 0 || self.tracking@.targets != Map::<
                Seq<char>,
                VerificationTarget,
            >::empty()),
    {
        shutdown::downloading_files(&self.files).len() > 0
            || !self.tracking.verification_targets.is_empty()
    }
}

/// Whether a tick reads how much of the machine is used, and tells of progress: every fiftieth
/// does.
pub fn tick_reads_usage(tick_count: u32) -> (reads: bool)
    ensures
        reads == (tick_count % 50 == 0),
{
    tick_count % 50 == 0
}

/// Whether what is published is out of date after a tick.
pub fn tick_is_dirty(
    tick_count: u32,
    drained: bool,
    publishes_transfers: bool,
    transferring: bool,
    acted: bool,
    logged_in: bool,
) -> (dirty: bool)
    ensures
        dirty == (tick_count % 50 == 0 || drained || (publishes_transfers && transferring) || acted
            || logged_in),
{
    tick_reads_usage(tick_count) || drained || (publishes_transfers && transferring) || acted
        || logged_in
}

} // verus!
