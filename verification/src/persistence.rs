//! When sessions are written to disk, and where to.

use vstd::prelude::*;

use crate::paths::{self, same_place, trim};
use crate::text::{chars_of, text_of};

verus! {

/// How long a save waits for a later one, in nanoseconds.
pub const SESSION_SAVE_DEBOUNCE: u64 = 100_000_000;

/// How long a save waits at most, in nanoseconds.
pub const SESSION_SAVE_MAX_DELAY: u64 = 500_000_000;

/// What the writer is asked for.
#[derive(Debug, PartialEq, Eq)]
pub enum SessionPersistenceRequest<S> {
    Save { session: S, path: String },
    Remove(String),
    Flush,
}

/// Why the writer goes on with a save that waits.
pub enum SaveWake<S> {
    Request(SessionPersistenceRequest<S>),
    Timeout,
    Disconnected,
}

/// What the writer does with a save that waits.
#[derive(Debug, PartialEq, Eq)]
pub enum SaveStep<S> {
    /// Go on waiting with this session.
    Wait { session: S },
    /// Write nothing and go on with a request.
    Drop { next: SessionPersistenceRequest<S> },
    /// Write the session.
    Save { session: S },
    /// Write the session and say that everything is written.
    SaveAndConfirm { session: S },
    /// Write the session and go on with a request.
    SaveThen { session: S, next: SessionPersistenceRequest<S> },
}

/// How long a save waits that was wanted some time ago.
pub open spec fn wait_after(elapsed: u64) -> u64 {
    let left = if elapsed >= SESSION_SAVE_MAX_DELAY {
        0
    } else {
        (SESSION_SAVE_MAX_DELAY - elapsed) as u64
    };
    if left < SESSION_SAVE_DEBOUNCE {
        left
    } else {
        SESSION_SAVE_DEBOUNCE
    }
}

/// How long a save waits that was wanted some time ago; it is written at once where it has waited
/// long enough.
pub fn save_wait(elapsed: u64) -> (wait: u64)
    ensures
        wait == wait_after(elapsed),
{
    let left: u64 = if elapsed >= SESSION_SAVE_MAX_DELAY {
        0
    } else {
        SESSION_SAVE_MAX_DELAY - elapsed
    };
    if left < SESSION_SAVE_DEBOUNCE {
        left
    } else {
        SESSION_SAVE_DEBOUNCE
    }
}

/// What becomes of a save that waits.
pub open spec fn saved<S>(session: S, path: Seq<char>, wake: SaveWake<S>) -> SaveStep<S> {
    match wake {
        SaveWake::Request(SessionPersistenceRequest::Save { session: next, path: to }) if paths::place(
            to@,
        ) == paths::place(path) => SaveStep::Wait { session: next },
        SaveWake::Request(SessionPersistenceRequest::Remove(removed)) if paths::place(removed@)
            == paths::place(path) => SaveStep::Drop { next: SessionPersistenceRequest::Remove(removed) },
        SaveWake::Request(SessionPersistenceRequest::Flush) => SaveStep::SaveAndConfirm {
            session,
        },
        SaveWake::Request(next) => SaveStep::SaveThen { session, next },
        SaveWake::Timeout => SaveStep::Save { session },
        SaveWake::Disconnected => SaveStep::Save { session },
    }
}

/// What becomes of a save that waits: a later save to the same place takes its place, a removal
/// of that place drops it, and everything else has it written first.
pub fn persist_latest_save<S>(session: S, path: &str, wake: SaveWake<S>) -> (step: SaveStep<S>)
    ensures
        step == saved(session, path@, wake),
{
    match wake {
        SaveWake::Request(SessionPersistenceRequest::Save { session: next, path: to }) => {
            if same_place(&to, path) {
                SaveStep::Wait { session: next }
            } else {
                SaveStep::SaveThen {
                    session,
                    next: SessionPersistenceRequest::Save { session: next, path: to },
                }
            }
        },
        SaveWake::Request(SessionPersistenceRequest::Remove(removed)) => {
            if same_place(&removed, path) {
                SaveStep::Drop { next: SessionPersistenceRequest::Remove(removed) }
            } else {
                SaveStep::SaveThen { session, next: SessionPersistenceRequest::Remove(removed) }
            }
        },
        SaveWake::Request(SessionPersistenceRequest::Flush) => SaveStep::SaveAndConfirm {
            session,
        },
        SaveWake::Timeout => SaveStep::Save { session },
        SaveWake::Disconnected => SaveStep::Save { session },
    }
}

/// The session that waits after later saves to the same place.
pub open spec fn latest<S>(session: S, later: Seq<S>) -> S
    decreases later.len(),
{
    if later.len() == 0 {
        session
    } else {
        later.last()
    }
}

/// Of saves to one place, the last one is written.
pub proof fn law_latest_save_wins<S>(
    session: S,
    later: Seq<S>,
    next: S,
    path: Seq<char>,
    to: String,
)
    requires
        paths::place(to@) == paths::place(path),
    ensures
        saved(
            latest(session, later),
            path,
            SaveWake::Request(SessionPersistenceRequest::Save { session: next, path: to }),
        ) == (SaveStep::Wait { session: latest(session, later.push(next)) }),
        saved(latest(session, later), path, SaveWake::Timeout) == (SaveStep::Save {
            session: latest(session, later),
        }),
{
}

/// A save that waits is not lost: but for a removal of its place, and a later save to it, it is
/// written before anything else is done.
pub proof fn law_no_save_is_lost<S>(session: S, path: Seq<char>, wake: SaveWake<S>)
    requires
        !(wake matches SaveWake::Request(SessionPersistenceRequest::Remove(removed))
            && paths::place(removed@) == paths::place(path)),
        !(wake matches SaveWake::Request(SessionPersistenceRequest::Save { path: to, .. })
            && paths::place(to@) == paths::place(path)),
    ensures
        saved(session, path, wake) matches SaveStep::Save { session: written } ==> written
            == session,
        saved(session, path, wake) matches SaveStep::SaveAndConfirm { session: written } ==> written
            == session,
        saved(session, path, wake) matches SaveStep::SaveThen { session: written, .. } ==> written
            == session,
        !(saved(session, path, wake) is Wait),
        !(saved(session, path, wake) is Drop),
{
}

/// However often a save is replaced, it is written within the longest delay.
pub proof fn law_saves_are_not_put_off_forever(elapsed: u64)
    requires
        elapsed <= SESSION_SAVE_MAX_DELAY,
    ensures
        elapsed + wait_after(elapsed) <= SESSION_SAVE_MAX_DELAY,
        elapsed < SESSION_SAVE_MAX_DELAY ==> wait_after(elapsed) > 0,
        wait_after(SESSION_SAVE_MAX_DELAY) == 0,
{
}

/// Whether a path names a file with an extension; what [`paths::trimmed`] leaves out at its end
/// does not count.
pub open spec fn has_extension(path: Seq<char>, extension: Seq<char>) -> bool {
    let name = paths::trimmed(path);
    let stem = name.len() - extension.len() - 1;
    &&& stem > 0
    &&& name[stem] == '.'
    &&& name[stem - 1] != '/'
    &&& name.skip(stem + 1) == extension
}

/// A path with another extension, up to the end of its name.
pub open spec fn with_extension(
    path: Seq<char>,
    extension: Seq<char>,
    other: Seq<char>,
) -> Seq<char> {
    let name = paths::trimmed(path);
    name.take(name.len() - extension.len()) + other
}

/// A path with another extension, where it has the given one.
fn replaced_extension(path: &str, extension: &str, other: &str) -> (replaced: Option<String>)
    ensures
        match replaced {
            Some(text) => has_extension(path@, extension@) && text@ == with_extension(
                path@,
                extension@,
                other@,
            ),
            None => !has_extension(path@, extension@),
        },
{
    let name = trim(path);
    let chars = chars_of(&name);
    let wanted = chars_of(extension);
    if chars.len() <= wanted.len() || chars.len() - wanted.len() < 2 {
        return None;
    }
    let stem: usize = chars.len() - wanted.len() - 1;
    if chars[stem] != '.' || chars[stem - 1] == '/' {
        return None;
    }
    let mut i: usize = 0;
    while i < wanted.len()
        invariant
            chars@ == name@,
            name@ == paths::trimmed(path@),
            wanted@ == extension@,
            stem + 1 + wanted.len() == chars.len(),
            i <= wanted@.len(),
            forall|k: int| 0 <= k < i ==> chars@[stem + 1 + k] == #[trigger] wanted@[k],
        decreases wanted.len() - i,
    {
        if chars[stem + 1 + i] != wanted[i] {
            assert(name@.skip(stem as int + 1)[i as int] != extension@[i as int]);
            return None;
        }
        i += 1;
    }
    assert(name@.skip(stem as int + 1) =~= extension@);
    let mut text = text_of(&chars, 0, stem + 1);
    text.append(other);
    assert(text@ =~= with_extension(path@, extension@, other@));
    Some(text)
}

/// The place where a session is kept in the other format.
pub open spec fn alternate(path: Seq<char>) -> Option<Seq<char>> {
    if has_extension(path, "postcard"@) {
        Some(with_extension(path, "postcard"@, "toml"@))
    } else if has_extension(path, "toml"@) {
        Some(with_extension(path, "toml"@, "postcard"@))
    } else {
        None
    }
}

/// The place where a session is kept in the other format.
pub fn alternate_session_path(path: &str) -> (other: Option<String>)
    ensures
        match other {
            Some(text) => alternate(path@) == Some(text@),
            None => alternate(path@) is None,
        },
{
    match replaced_extension(path, "postcard", "toml") {
        Some(text) => Some(text),
        None => replaced_extension(path, "toml", "postcard"),
    }
}

/// What is deleted where a session is: first the session itself, then the one in the other
/// format.
pub fn removal_candidates(path: String) -> (candidates: Vec<String>)
    ensures
        candidates@.len() == if alternate(path@) is Some {
            2int
        } else {
            1int
        },
        candidates@[0] == path,
        alternate(path@) is Some ==> Some(candidates@[1]@) == alternate(path@),
{
    let other = alternate_session_path(&path);
    let mut candidates: Vec<String> = Vec::new();
    candidates.push(path);
    if let Some(text) = other {
        candidates.push(text);
    }
    candidates
}

/// The two formats of a session lie beside each other: the other place of the other place is
/// where the session is.
pub proof fn law_alternate_is_mutual(path: Seq<char>)
    requires
        alternate(path) is Some,
    ensures
        alternate(alternate(path)->0) == Some(paths::trimmed(path)),
        paths::place((alternate(alternate(path)->0))->0) == paths::place(path),
{
    reveal_strlit("postcard");
    reveal_strlit("toml");
    paths::law_trimming_keeps_the_place(path);
    let (from, to) = if has_extension(path, "postcard"@) {
        ("postcard"@, "toml"@)
    } else {
        ("toml"@, "postcard"@)
    };
    let name = paths::trimmed(path);
    let other = alternate(path)->0;
    let stem = name.len() - from.len() - 1;
    assert(other == name.take(stem + 1) + to);
    assert(other.last() == to.last());
    assert(paths::trimmed(other) == other);
    assert(other.skip(stem + 1) =~= to);
    assert(other.len() - to.len() - 1 == stem);
    assert(has_extension(other, to));
    assert(other.take(stem + 1) =~= name.take(stem + 1));
    assert(name =~= name.take(stem + 1) + name.skip(stem + 1));
    if to == "toml"@ {
        if has_extension(other, "postcard"@) {
            let k = other.len() - 9;
            assert(other.skip(k + 1).last() == 'd');
            assert(other.last() == other.skip(stem + 1).last());
        }
    }
}

} // verus!
