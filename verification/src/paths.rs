//! Paths, read by their components.
//!
//! Two texts name one place where they have the same components: repeated separators, separators
//! at the end, and `.` anywhere but at the beginning make no difference.

use vstd::prelude::*;

use crate::ids;
use crate::text::{self, chars_of, same_text, split, text_of};

verus! {

/// What a path is made of.
pub struct Place {
    /// The path begins at the root.
    pub absolute: bool,
    /// The names from there on.
    pub names: Seq<Seq<char>>,
}

/// Whether the piece at a position between separators is a component of a path.
pub open spec fn counts(piece: Seq<char>, at: int) -> bool {
    piece.len() > 0 && (piece != "."@ || at == 0)
}

/// The components among the pieces between separators.
pub open spec fn named(pieces: Seq<Seq<char>>) -> Seq<Seq<char>>
    decreases pieces.len(),
{
    if pieces.len() == 0 {
        Seq::empty()
    } else if counts(pieces.last(), pieces.len() - 1) {
        named(pieces.drop_last()).push(pieces.last())
    } else {
        named(pieces.drop_last())
    }
}

/// The place that a path names.
pub open spec fn place(path: Seq<char>) -> Place {
    Place {
        absolute: path.len() > 0 && path[0] == '/',
        names: named(text::pieces(path, '/')),
    }
}

/// The components of a path below the root.
fn component_names(path: &str) -> (names: Vec<String>)
    ensures
        ids::texts(names@) == place(path@).names,
{
    let parts = split(path, '/');
    let ghost pieces = text::pieces(path@, '/');
    let mut names: Vec<String> = Vec::new();
    let mut i: usize = 0;
    proof {
        assert(text::views(parts@).len() == parts@.len());
        assert(ids::texts(names@) =~= named(pieces.take(0)));
    }
    while i < parts.len()
        invariant
            i <= parts@.len(),
            parts@.len() == pieces.len(),
            text::views(parts@) == pieces,
            ids::texts(names@) == named(pieces.take(i as int)),
        decreases parts.len() - i,
    {
        let part = &parts[i];
        let ghost before = ids::texts(names@);
        proof {
            assert(text::views(parts@)[i as int] == part@);
            assert(pieces.take(i as int + 1).drop_last() =~= pieces.take(i as int));
            assert(pieces.take(i as int + 1).last() == part@);
            reveal_strlit("");
            assert(part@.len() == 0 <==> part@ =~= ""@);
        }
        if !same_text(part, "") && (!same_text(part, ".") || i == 0) {
            names.push(part.clone());
            assert(ids::texts(names@) =~= before.push(part@));
        }
        i += 1;
    }
    assert(pieces.take(i as int) =~= pieces);
    names
}

/// Whether a path begins at the root.
fn is_absolute(path: &str) -> (absolute: bool)
    ensures
        absolute == place(path@).absolute,
{
    let chars = chars_of(path);
    chars.len() > 0 && chars[0] == '/'
}

/// Whether two paths name one place.
pub fn same_place(a: &str, b: &str) -> (same: bool)
    ensures
        same == (place(a@) == place(b@)),
{
    let names = component_names(a);
    let others = component_names(b);
    is_absolute(a) == is_absolute(b) && ids::same_ids(&names, &others)
}

/// A path without separators and `/.` at its end.
pub open spec fn trimmed(path: Seq<char>) -> Seq<char>
    decreases path.len(),
{
    if path.len() > 1 && path.last() == '/' {
        trimmed(path.drop_last())
    } else if path.len() > 1 && path.last() == '.' && path[path.len() - 2] == '/' {
        trimmed(path.drop_last())
    } else {
        path
    }
}

/// A path without separators and `/.` at its end.
pub fn trim(path: &str) -> (short: String)
    ensures
        short@ == trimmed(path@),
{
    let chars = chars_of(path);
    let mut end: usize = chars.len();
    assert(path@.take(end as int) =~= path@);
    while end > 1 && (chars[end - 1] == '/' || (chars[end - 1] == '.' && chars[end - 2] == '/'))
        invariant
            chars@ == path@,
            end <= chars@.len(),
            trimmed(path@.take(end as int)) == trimmed(path@),
        decreases end,
    {
        assert(path@.take(end as int).drop_last() =~= path@.take(end as int - 1));
        end -= 1;
    }
    let short = text_of(&chars, 0, end);
    assert(short@ =~= path@.take(end as int));
    short
}

/// What is left out at the end of a path makes no difference to the place that it names.
pub proof fn law_trimming_keeps_the_place(path: Seq<char>)
    ensures
        place(trimmed(path)) == place(path),
        trimmed(trimmed(path)) == trimmed(path),
    decreases path.len(),
{
    let short = path.drop_last();
    if path.len() > 1 && path.last() == '/' {
        law_trimming_keeps_the_place(short);
        let pieces = text::pieces(path, '/');
        assert(pieces.drop_last() =~= text::pieces(short, '/'));
        assert(place(short).names == place(path).names);
    } else if path.len() > 1 && path.last() == '.' && path[path.len() - 2] == '/' {
        law_trimming_keeps_the_place(short);
        reveal_strlit(".");
        let shorter = short.drop_last();
        let earlier = text::pieces(shorter, '/');
        lemma_pieces(shorter);
        assert(text::pieces(short, '/') == earlier.push(Seq::empty()));
        let pieces = text::pieces(path, '/');
        assert(pieces.last() =~= "."@);
        assert(pieces.drop_last() =~= earlier);
        assert(text::pieces(short, '/').drop_last() =~= earlier);
        assert(place(short).names == place(path).names);
    }
}

/// There is always a piece between separators.
proof fn lemma_pieces(path: Seq<char>)
    ensures
        text::pieces(path, '/').len() > 0,
    decreases path.len(),
{
    if path.len() > 0 {
        lemma_pieces(path.drop_last());
    }
}

} // verus!
