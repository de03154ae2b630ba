//! What holds of progress that is handled together, of saved sessions and of the order of texts.

use vstd::prelude::*;

use crate::app::{App, AppStep};
use crate::batching::{DeferredPersistence, PendingSessionPersistence, SessionFlush};
use crate::effects;
use crate::events::DownloadEvent;
use crate::ids::PackageId;
use crate::paths;
use crate::persistence::{self, SaveStep, SaveWake, SessionPersistenceRequest};
use crate::runtime::{self, PendingProgress};
use crate::session;
use crate::sorted;

verus! {

/// The bytes that progress of one attempt at a file adds up to.
pub open spec fn bytes_for(pending: Seq<PendingProgress>, id: Seq<char>, attempt_id: u64) -> nat
    decreases pending.len(),
{
    if pending.len() == 0 {
        0
    } else if pending[0].id@ == id && pending[0].attempt_id == attempt_id {
        pending[0].delta.total_bytes_delta as nat + bytes_for(pending.drop_first(), id, attempt_id)
    } else {
        bytes_for(pending.drop_first(), id, attempt_id)
    }
}

/// Bytes of progress are counted for the attempt at the file that they belong to, and for no other,
/// as long as they can be counted.
pub proof fn law_progress_is_counted_for_its_attempt(
    pending: Seq<PendingProgress>,
    more: PendingProgress,
    id: Seq<char>,
    attempt_id: u64,
)
    requires
        bytes_for(pending, id, attempt_id) + more.delta.total_bytes_delta <= u64::MAX,
    ensures
        bytes_for(runtime::merged(pending, more), id, attempt_id) == bytes_for(
            pending,
            id,
            attempt_id,
        ) + if more.id@ == id && more.attempt_id == attempt_id {
            more.delta.total_bytes_delta as nat
        } else {
            0
        },
    decreases pending.len(),
{
    reveal_with_fuel(bytes_for, 2);
    let after = runtime::merged(pending, more);
    if pending.len() == 0 {
        assert(after.drop_first() =~= Seq::empty());
    } else if pending[0].matches(more) {
        assert(after.drop_first() =~= pending.drop_first());
    } else {
        law_progress_is_counted_for_its_attempt(pending.drop_first(), more, id, attempt_id);
        assert(after.drop_first() =~= runtime::merged(pending.drop_first(), more));
        assert(after[0] == pending[0]);
    }
}

/// Progress that waits is of different attempts or files, so that each is handled once.
pub proof fn law_waiting_progress_is_told_apart(
    pending: Seq<PendingProgress>,
    more: PendingProgress,
)
    requires
        are_apart(pending),
    ensures
        are_apart(runtime::merged(pending, more)),
        exists|k: int|
            0 <= k < runtime::merged(pending, more).len() && (#[trigger] runtime::merged(
                pending,
                more,
            )[k]).id@ == more.id@ && runtime::merged(pending, more)[k].attempt_id
                == more.attempt_id,
        runtime::merged(pending, more).len() <= pending.len() + 1,
        forall|k: int|
            0 <= k < pending.len() ==> (#[trigger] runtime::merged(pending, more)[k]).id
                == pending[k].id && runtime::merged(pending, more)[k].attempt_id
                == pending[k].attempt_id,
        runtime::merged(pending, more).len() >= pending.len(),
    decreases pending.len(),
{
    let after = runtime::merged(pending, more);
    if pending.len() == 0 {
        assert(after[0] == more);
    } else if pending[0].matches(more) {
        assert(after[0].id@ == more.id@);
        assert forall|k: int| 0 <= k < pending.len() implies (#[trigger] after[k]).id
            == pending[k].id && after[k].attempt_id == pending[k].attempt_id by {
            if k > 0 {
                assert(after[k] == pending.drop_first()[k - 1]);
            }
        }
        assert(after.len() == pending.len());
        assert forall|i: int, j: int| 0 <= i < j < after.len() implies !((#[trigger] after[i]).id@
            == (#[trigger] after[j]).id@ && after[i].attempt_id == after[j].attempt_id) by {
            assert(pending[i].id == after[i].id && pending[j].id == after[j].id);
        }
    } else {
        let rest = pending.drop_first();
        assert forall|i: int, j: int| 0 <= i < j < rest.len() implies !((#[trigger] rest[i]).id@ == (
        #[trigger] rest[j]).id@ && rest[i].attempt_id == rest[j].attempt_id) by {
            assert(rest[i] == pending[i + 1] && rest[j] == pending[j + 1]);
        }
        law_waiting_progress_is_told_apart(rest, more);
        let later = runtime::merged(rest, more);
        assert(after =~= seq![pending[0]] + later);
        let k = choose|k: int|
            0 <= k < later.len() && (#[trigger] later[k]).id@ == more.id@ && later[k].attempt_id
                == more.attempt_id;
        assert(after[k + 1] == later[k]);
        assert forall|i: int| 0 <= i < pending.len() implies (#[trigger] after[i]).id
            == pending[i].id && after[i].attempt_id == pending[i].attempt_id by {
            if i > 0 {
                assert(after[i] == later[i - 1]);
                assert(rest[i - 1] == pending[i]);
            }
        }
        assert forall|i: int, j: int| 0 <= i < j < after.len() implies !((#[trigger] after[i]).id@
            == (#[trigger] after[j]).id@ && after[i].attempt_id == after[j].attempt_id) by {
            assert(after[j] == later[j - 1]);
            if i > 0 {
                assert(after[i] == later[i - 1]);
            } else if j - 1 < rest.len() {
                assert(later[j - 1].id == rest[j - 1].id);
                assert(rest[j - 1] == pending[j]);
            } else {
                lemma_added_last(rest, more);
            }
        }
    }
}

/// What is added behind the others is the new progress.
proof fn lemma_added_last(pending: Seq<PendingProgress>, more: PendingProgress)
    ensures
        runtime::merged(pending, more).len() > pending.len() ==> runtime::merged(
            pending,
            more,
        )[pending.len() as int] == more,
        pending.len() <= runtime::merged(pending, more).len() <= pending.len() + 1,
    decreases pending.len(),
{
    if pending.len() > 0 && !pending[0].matches(more) {
        lemma_added_last(pending.drop_first(), more);
        let after = runtime::merged(pending, more);
        let later = runtime::merged(pending.drop_first(), more);
        assert(after =~= seq![pending[0]] + later);
    }
}

/// Whether no two pieces of progress are of the same attempt at the same file.
pub open spec fn are_apart(pending: Seq<PendingProgress>) -> bool {
    forall|i: int, j: int|
        0 <= i < j < pending.len() ==> !((#[trigger] pending[i]).id@ == (#[trigger] pending[j]).id@
            && pending[i].attempt_id == pending[j].attempt_id)
}

/// Progress is handled as it waits: in its order, each with its file, its attempt and its bytes.
pub proof fn law_waiting_progress_is_handled(pending: Seq<PendingProgress>, k: int)
    requires
        0 <= k < pending.len(),
    ensures
        runtime::flushed(pending).len() == pending.len(),
        runtime::flushed(pending)[k] == (DownloadEvent::Progress {
            id: pending[k].id,
            delta: pending[k].delta,
            attempt_id: pending[k].attempt_id,
        }),
{
}

/// The bytes that events tell of one attempt at a file.
pub open spec fn told(events: Seq<DownloadEvent>, id: Seq<char>, attempt_id: u64) -> nat
    decreases events.len(),
{
    if events.len() == 0 {
        0
    } else {
        told(events.drop_last(), id, attempt_id) + match events.last() {
            DownloadEvent::Progress { id: file, delta, attempt_id: attempt } => if file@ == id
                && attempt == attempt_id {
                delta.total_bytes_delta as nat
            } else {
                0
            },
            _ => 0,
        }
    }
}

/// Events that follow each other tell of the bytes of both.
proof fn lemma_told_together(
    a: Seq<DownloadEvent>,
    b: Seq<DownloadEvent>,
    id: Seq<char>,
    attempt_id: u64,
)
    ensures
        told(a + b, id, attempt_id) == told(a, id, attempt_id) + told(b, id, attempt_id),
    decreases b.len(),
{
    if b.len() > 0 {
        lemma_told_together(a, b.drop_last(), id, attempt_id);
        assert((a + b).drop_last() =~= a + b.drop_last());
        assert((a + b).last() == b.last());
    } else {
        assert(a + b =~= a);
    }
}

/// Progress that is handled tells of the bytes that waited.
proof fn lemma_flushed_bytes(pending: Seq<PendingProgress>, id: Seq<char>, attempt_id: u64)
    ensures
        told(runtime::flushed(pending), id, attempt_id) == bytes_for(pending, id, attempt_id),
    decreases pending.len(),
{
    let events = runtime::flushed(pending);
    if pending.len() > 0 {
        let rest = pending.drop_first();
        lemma_flushed_bytes(rest, id, attempt_id);
        let first = seq![pending[0].event()];
        assert(events =~= first + runtime::flushed(rest));
        lemma_told_together(first, runtime::flushed(rest), id, attempt_id);
        assert(first.drop_last() =~= Seq::empty());
        assert(told(first.drop_last(), id, attempt_id) == 0);
        assert(first.last() == pending[0].event());
    }
}

/// No byte is lost on the way: what is handled and what still waits of an attempt at a file add up
/// to what came, as long as it can be counted.
pub proof fn law_no_progress_is_lost(events: Seq<DownloadEvent>, id: Seq<char>, attempt_id: u64)
    requires
        told(events, id, attempt_id) <= u64::MAX,
        forall|k: int|
            0 <= k < events.len() ==> ((#[trigger] events[k]) matches DownloadEvent::Progress {
                id: file,
                attempt_id: attempt,
                ..
            } ==> file@ == id && attempt == attempt_id),
    ensures
        told(runtime::drained(events).0, id, attempt_id) + bytes_for(
            runtime::drained(events).1,
            id,
            attempt_id,
        ) == told(events, id, attempt_id),
    decreases events.len(),
{
    if events.len() > 0 {
        let earlier = events.drop_last();
        assert forall|k: int| 0 <= k < earlier.len() implies ((
        #[trigger] earlier[k]) matches DownloadEvent::Progress {
            id: file,
            attempt_id: attempt,
            ..
        } ==> file@ == id && attempt == attempt_id) by {
            assert(earlier[k] == events[k]);
        }
        assert(events[events.len() - 1] == events.last());
        law_no_progress_is_lost(earlier, id, attempt_id);
        let (handled, pending) = runtime::drained(earlier);
        match events.last() {
            DownloadEvent::Progress { id: file, delta, attempt_id: attempt } => {
                law_progress_is_counted_for_its_attempt(
                    pending,
                    PendingProgress { id: file, attempt_id: attempt, delta },
                    id,
                    attempt_id,
                );
            },
            event => {
                let flushed = runtime::flushed(pending);
                lemma_flushed_bytes(pending, id, attempt_id);
                let more = flushed.push(event);
                assert(more.drop_last() =~= flushed);
                lemma_told_together(handled, more, id, attempt_id);
            },
        }
    }
}

/// A save waits for a while for a later one: for as long as it may, but no longer than the longest
/// delay leaves.
pub proof fn law_saves_wait_for_later_ones(elapsed: u64)
    ensures
        elapsed + persistence::SESSION_SAVE_DEBOUNCE <= persistence::SESSION_SAVE_MAX_DELAY
            ==> persistence::wait_after(elapsed) == persistence::SESSION_SAVE_DEBOUNCE,
        persistence::SESSION_SAVE_MAX_DELAY < elapsed + persistence::SESSION_SAVE_DEBOUNCE
            && elapsed <= persistence::SESSION_SAVE_MAX_DELAY ==> elapsed + persistence::wait_after(
            elapsed,
        ) == persistence::SESSION_SAVE_MAX_DELAY,
        elapsed > persistence::SESSION_SAVE_MAX_DELAY ==> persistence::wait_after(elapsed) == 0,
{
}

/// No request of the writer is lost: what does not replace a save is done after it, a request to
/// write everything is confirmed once the save is written, and a removal drops a save to its place.
pub proof fn law_no_request_is_lost<S>(
    session: S,
    path: Seq<char>,
    request: SessionPersistenceRequest<S>,
)
    ensures
        match request {
            SessionPersistenceRequest::Flush => persistence::saved(
                session,
                path,
                SaveWake::Request(request),
            ) == (SaveStep::SaveAndConfirm { session }),
            SessionPersistenceRequest::Remove(removed) => persistence::saved(
                session,
                path,
                SaveWake::Request(request),
            ) == if paths::place(removed@) == paths::place(path) {
                SaveStep::Drop { next: request }
            } else {
                SaveStep::SaveThen { session, next: request }
            },
            SessionPersistenceRequest::Save { session: later, path: to } => persistence::saved(
                session,
                path,
                SaveWake::Request(request),
            ) == if paths::place(to@) == paths::place(path) {
                SaveStep::Wait { session: later }
            } else {
                SaveStep::SaveThen { session, next: request }
            },
        },
        persistence::saved(session, path, SaveWake::Timeout) == (SaveStep::Save { session }),
        persistence::saved(session, path, SaveWake::Disconnected) == (SaveStep::Save { session }),
{
}

/// A session is kept in one of two formats beside each other, told by the extension of its name;
/// a name with another extension has no other format.
pub proof fn law_sessions_have_two_formats(stem: Seq<char>, extension: Seq<char>)
    requires
        stem.len() > 0,
        stem.last() != '/',
        extension.len() > 0,
        extension.last() != '/',
        extension.last() != '.',
        forall|k: int| 0 <= k < extension.len() ==> #[trigger] extension[k] != '.',
    ensures
        persistence::alternate(stem + seq!['.'] + "toml"@) == Some(
            stem + seq!['.'] + "postcard"@,
        ),
        persistence::alternate(stem + seq!['.'] + "postcard"@) == Some(stem + seq!['.'] + "toml"@),
        extension != "toml"@ && extension != "postcard"@ ==> persistence::alternate(
            stem + seq!['.'] + extension,
        ) is None,
{
    reveal_strlit("toml");
    reveal_strlit("postcard");
    lemma_extension(stem, "toml"@, "toml"@);
    lemma_extension(stem, "postcard"@, "toml"@);
    lemma_extension(stem, "toml"@, "postcard"@);
    lemma_extension(stem, "postcard"@, "postcard"@);
    lemma_extension(stem, extension, "toml"@);
    lemma_extension(stem, extension, "postcard"@);
    let toml = stem + seq!['.'] + "toml"@;
    let postcard = stem + seq!['.'] + "postcard"@;
    assert(toml.take(toml.len() - 4) =~= stem + seq!['.']);
    assert(postcard.take(postcard.len() - 8) =~= stem + seq!['.']);
}

/// A name has the extension behind its last dot, and no other.
proof fn lemma_extension(stem: Seq<char>, extension: Seq<char>, other: Seq<char>)
    requires
        stem.len() > 0,
        stem.last() != '/',
        extension.len() > 0,
        other.len() > 0,
        extension.last() != '/',
        extension.last() != '.',
        forall|k: int| 0 <= k < extension.len() ==> #[trigger] extension[k] != '.',
        forall|k: int| 0 <= k < other.len() ==> #[trigger] other[k] != '.',
    ensures
        persistence::has_extension(stem + seq!['.'] + extension, other) <==> extension == other,
        paths::trimmed(stem + seq!['.'] + extension) == stem + seq!['.'] + extension,
{
    let name = stem + seq!['.'] + extension;
    assert(name.last() == extension.last());
    let at = name.len() - other.len() - 1;
    if extension == other {
        assert(name.skip(at + 1) =~= extension);
        assert(name[at - 1] == stem.last());
    } else if persistence::has_extension(name, other) {
        let found = name.skip(at + 1);
        if other.len() < extension.len() {
            assert(name[at] == extension[at - stem.len() - 1]);
        } else if other.len() == extension.len() {
            assert(found =~= extension);
        } else {
            assert(found[stem.len() - at - 1] == '.');
            assert(other[stem.len() - at - 1] == '.');
        }
    }
}

/// Only addresses without known files are submitted again, each as often as it was listed, and shown
/// as waiting just before.
pub proof fn law_addresses_with_files_are_not_submitted_again(
    app: App,
    urls: Seq<String>,
    sources: Seq<Seq<char>>,
    steps: Seq<AppStep>,
    k: int,
)
    requires
        session::resumed(app, urls, sources, steps),
        0 <= 2 * k < steps.len(),
    ensures
        steps.len() % 2 == 0,
        steps[2 * k] matches AppStep::QueuePlaceholder(url) && urls.contains(url)
            && !sources.contains(url@) && (steps[2 * k + 1] matches AppStep::Send(request)
            && effects::submits(request, url, app.tracking@.attempts)),
        steps.len() == 2 * urls.filter(|url: String| !sources.contains(url@)).len(),
        steps[2 * k] == AppStep::QueuePlaceholder(
            urls.filter(|url: String| !sources.contains(url@))[k],
        ),
{
    broadcast use vstd::seq_lib::group_filter_ensures;

    let keep = session::waits(sources);
    let waiting = urls.filter(keep);
    assert(waiting == session::without_files(urls, sources));
    assert(keep =~= (|url: String| !sources.contains(url@)));
    assert(steps[2 * k] == AppStep::QueuePlaceholder(waiting[k]));
    assert(keep(waiting[k]));
    assert(waiting.contains(waiting[k]));
    urls.lemma_filter_contains_rev(keep, waiting[k]);
}

/// After a panic nothing is saved, and inside another batch nothing is either; what was put off
/// stays put off until the outermost batch ends, and nothing does after that.
pub proof fn law_batches_save_at_their_end<S>(
    deferred: DeferredPersistence<S>,
    change: PendingSessionPersistence<S>,
    panicking: bool,
)
    ensures
        deferred.flushed(true) is Nothing,
        deferred.depth > 1 ==> deferred.flushed(panicking) is Nothing,
        deferred.depth > 1 ==> deferred.batch_ended().depth == deferred.depth - 1
            && deferred.batch_ended().pending == deferred.pending
            && deferred.batch_ended().core_state == deferred.core_state,
        deferred.depth <= 1 ==> deferred.batch_ended().depth == 0
            && deferred.batch_ended().pending is None && !deferred.batch_ended().core_state,
        deferred.depth <= 1 && !deferred.core_state && deferred.pending is None
            ==> deferred.flushed(panicking) is Nothing,
        deferred.depth == 0 ==> deferred.change_put_off(change) == deferred,
        deferred.depth == 0 && !deferred.core_state ==> !deferred.core_state_wanted().core_state,
{
}

/// Texts are ordered by the first character in which they differ; a text comes before those that it
/// begins.
pub proof fn law_the_first_difference_decides(
    head: Seq<char>,
    a: char,
    b: char,
    left: Seq<char>,
    right: Seq<char>,
)
    requires
        a != b,
    ensures
        sorted::text_before(head + seq![a] + left, head + seq![b] + right) <==> (a as int) < (
        b as int),
        sorted::text_before(head, head + seq![a] + left),
    decreases head.len(),
{
    let first = head + seq![a] + left;
    let second = head + seq![b] + right;
    if head.len() > 0 {
        let rest = head.drop_first();
        law_the_first_difference_decides(rest, a, b, left, right);
        assert(first.drop_first() =~= rest + seq![a] + left);
        assert(second.drop_first() =~= rest + seq![b] + right);
        assert(first[0] == head[0] && second[0] == head[0]);
    } else {
        assert(first[0] == a);
        assert(second[0] == b);
    }
}

/// The texts of a sorted list are different, and a list of one text is sorted.
pub proof fn law_sorted_lists(list: Seq<Seq<char>>, text: Seq<char>)
    ensures
        sorted::is_sorted(list) ==> list.no_duplicates(),
        sorted::is_sorted(seq![text]),
        sorted::is_sorted(list) && list.len() > 0 && sorted::text_before(list.last(), text)
            ==> sorted::is_sorted(list.push(text)),
{
    if sorted::is_sorted(list) {
        assert forall|i: int, j: int|
            0 <= i < list.len() && 0 <= j < list.len() && i != j implies list[i] != list[j] by {
            sorted::law_text_order_is_total(list[i], list[j]);
            if i < j {
                assert(sorted::text_before(list[i], list[j]));
            } else {
                assert(sorted::text_before(list[j], list[i]));
            }
        }
        if list.len() > 0 && sorted::text_before(list.last(), text) {
            let longer = list.push(text);
            assert forall|i: int, j: int| 0 <= i < j < longer.len() implies sorted::text_before(
                longer[i],
                longer[j],
            ) by {
                if j < list.len() {
                    assert(sorted::text_before(list[i], list[j]));
                } else if i < list.len() - 1 {
                    assert(sorted::text_before(list[i], list[list.len() - 1]));
                    sorted::law_text_order_is_transitive(list[i], list.last(), text);
                }
            }
        }
    }
}

/// The text of an identity has thirty-six characters: hexadecimal digits in lower case, with hyphens
/// behind the eighth, the twelfth, the sixteenth and the twentieth of them; the last digit is that
/// of the number.
pub proof fn law_identities_are_written_in_groups(id: PackageId, at: int)
    requires
        0 <= at < 36,
    ensures
        id.text().len() == 36,
        id.text()[at] == '-' <==> at == 8 || at == 13 || at == 18 || at == 23,
        id.text()[at] == '-' || '0' <= id.text()[at] <= '9' || 'a' <= id.text()[at] <= 'f',
        id.raw % 16 < 10 ==> id.text()[35] as int == '0' as int + id.raw % 16,
        id.raw % 16 >= 10 ==> id.text()[35] as int == 'a' as int + id.raw % 16 - 10,
{
    vstd::arithmetic::power::lemma_pow0(16);
    let power = vstd::arithmetic::power::pow(16, (31 - crate::ids::uuid_digit(at)) as nat);
    assert(0 <= (id.raw as int / power) % 16 < 16);
}

} // verus!
