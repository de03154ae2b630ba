//! Text helpers: character vectors, decimal numbers, splitting and joining.

use vstd::prelude::*;

verus! {

/// `String::push` of the standard library appends one character at the end.
pub assume_specification[ String::push ](target: &mut String, c: char)
    ensures
        final(target)@ == old(target)@.push(c),
;

/// Comparing two string slices of the standard library compares their characters.
pub assume_specification[ <str as PartialEq<str>>::eq ](a: &str, b: &str) -> (same: bool)
    ensures
        same == (a@ == b@),
;

/// The characters of a text, in order.
pub fn chars_of(text: &str) -> (chars: Vec<char>)
    ensures
        chars@ == text@,
{
    let mut chars: Vec<char> = Vec::new();
    for c in it: text.chars()
        invariant
            it.seq() == text@,
            chars@ == it.seq().take(it.index()),
    {
        chars.push(c);
    }
    chars
}

/// The text made of the characters `from..to` of a character vector.
pub fn text_of(chars: &Vec<char>, from: usize, to: usize) -> (text: String)
    requires
        from <= to <= chars.len(),
    ensures
        text@ == chars@.subrange(from as int, to as int),
{
    let mut text: String = String::new();
    let mut i: usize = from;
    while i < to
        invariant
            from <= i <= to <= chars.len(),
            text@ == chars@.subrange(from as int, i as int),
        decreases to - i,
    {
        text.push(chars[i]);
        i = i + 1;
    }
    text
}

/// One text behind another.
pub fn joined(head: &str, tail: &str) -> (text: String)
    ensures
        text@ == head@ + tail@,
{
    let mut text: String = head.to_owned();
    text.append(tail);
    text
}

/// Equality of two texts.
pub fn same_text(a: &str, b: &str) -> (same: bool)
    ensures
        same == (a@ == b@),
{
    *a == *b
}

/// The decimal digit `digit`.
pub open spec fn digit_char(digit: nat) -> char {
    if digit == 0 {
        '0'
    } else if digit == 1 {
        '1'
    } else if digit == 2 {
        '2'
    } else if digit == 3 {
        '3'
    } else if digit == 4 {
        '4'
    } else if digit == 5 {
        '5'
    } else if digit == 6 {
        '6'
    } else if digit == 7 {
        '7'
    } else if digit == 8 {
        '8'
    } else {
        '9'
    }
}

/// A number in decimal notation.
pub open spec fn decimal(number: nat) -> Seq<char>
    decreases number,
{
    if number < 10 {
        seq![digit_char(number)]
    } else {
        decimal(number / 10).push(digit_char(number % 10))
    }
}

/// Different numbers have different decimal notations.
pub proof fn lemma_decimal_injective(a: nat, b: nat)
    requires
        decimal(a) == decimal(b),
    ensures
        a == b,
    decreases a,
{
    lemma_decimal_nonempty(a);
    lemma_decimal_nonempty(b);
    let da = decimal(a);
    let db = decimal(b);
    assert(da.last() == db.last());
    if a < 10 && b < 10 {
        assert(da[0] == digit_char(a) && db[0] == digit_char(b));
    } else if a < 10 && b >= 10 {
        lemma_decimal_nonempty(b / 10);
        assert(db.len() == decimal(b / 10).len() + 1);
    } else if a >= 10 && b < 10 {
        lemma_decimal_nonempty(a / 10);
        assert(da.len() == decimal(a / 10).len() + 1);
    } else if a >= 10 {
        assert(da.drop_last() =~= decimal(a / 10));
        assert(db.drop_last() =~= decimal(b / 10));
        assert(da.last() == digit_char(a % 10) && db.last() == digit_char(b % 10));
        lemma_decimal_injective(a / 10, b / 10);
    }
}

/// A decimal notation has at least one digit.
pub proof fn lemma_decimal_nonempty(number: nat)
    ensures
        decimal(number).len() > 0,
    decreases number,
{
    if number >= 10 {
        lemma_decimal_nonempty(number / 10);
    }
}

/// The decimal digit `digit`.
fn digit_of(digit: u64) -> (c: char)
    requires
        digit < 10,
    ensures
        c == digit_char(digit as nat),
{
    match digit {
        0 => '0',
        1 => '1',
        2 => '2',
        3 => '3',
        4 => '4',
        5 => '5',
        6 => '6',
        7 => '7',
        8 => '8',
        _ => '9',
    }
}

/// A number in decimal notation.
pub fn decimal_text(number: u64) -> (text: String)
    ensures
        text@ == decimal(number as nat),
    decreases number,
{
    if number < 10 {
        let mut text = String::new();
        text.push(digit_of(number));
        assert(text@ =~= decimal(number as nat));
        text
    } else {
        let mut text = decimal_text(number / 10);
        text.push(digit_of(number % 10));
        text
    }
}

/// A number in decimal notation between two texts.
pub fn counted(head: &str, number: u64, tail: &str) -> (text: String)
    ensures
        text@ == head@ + decimal(number as nat) + tail@,
{
    let mut text = joined(head, &decimal_text(number));
    text.append(tail);
    text
}

/// A text between two others.
pub fn quoted(head: &str, body: &str, tail: &str) -> (text: String)
    ensures
        text@ == head@ + body@ + tail@,
{
    let mut text = joined(head, body);
    text.append(tail);
    text
}

/// Whether `at` is the last position of `c` in `text`.
pub open spec fn is_last_position(text: Seq<char>, c: char, at: int) -> bool {
    &&& 0 <= at < text.len()
    &&& text[at] == c
    &&& forall|j: int| at < j < text.len() ==> text[j] != c
}

/// The parts of `text` before and behind its last `c`.
pub open spec fn split_at_last(text: Seq<char>, c: char) -> Option<(Seq<char>, Seq<char>)>
    decreases text.len(),
{
    if text.len() == 0 {
        None
    } else if text.last() == c {
        Some((text.drop_last(), Seq::empty()))
    } else {
        match split_at_last(text.drop_last(), c) {
            Some((head, tail)) => Some((head, tail.push(text.last()))),
            None => None,
        }
    }
}

/// The last position of a character determines how a text is split there.
proof fn lemma_split_at_last(text: Seq<char>, c: char, at: int)
    requires
        is_last_position(text, c, at),
    ensures
        split_at_last(text, c) == Some((text.take(at), text.skip(at + 1))),
    decreases text.len(),
{
    if text.last() == c {
        assert(at == text.len() - 1);
        assert(text.take(at) =~= text.drop_last());
        assert(text.skip(at + 1) =~= Seq::empty());
    } else {
        let shorter = text.drop_last();
        assert(is_last_position(shorter, c, at));
        lemma_split_at_last(shorter, c, at);
        assert(shorter.take(at) =~= text.take(at));
        assert(shorter.skip(at + 1).push(text.last()) =~= text.skip(at + 1));
    }
}

/// A text without a character is not split there.
proof fn lemma_split_at_last_none(text: Seq<char>, c: char)
    requires
        forall|j: int| 0 <= j < text.len() ==> text[j] != c,
    ensures
        split_at_last(text, c) is None,
    decreases text.len(),
{
    if text.len() > 0 {
        assert(text.last() == text[text.len() - 1]);
        lemma_split_at_last_none(text.drop_last(), c);
    }
}

/// The parts of a text before and behind its last `c`.
pub fn rsplit_once(text: &str, c: char) -> (parts: Option<(String, String)>)
    ensures
        match parts {
            Some((head, tail)) => split_at_last(text@, c) == Some((head@, tail@)),
            None => split_at_last(text@, c) is None,
        },
{
    let chars = chars_of(text);
    let mut i: usize = chars.len();
    while i > 0
        invariant
            i <= chars.len(),
            chars@ == text@,
            forall|j: int| i <= j < chars.len() ==> chars@[j] != c,
        decreases i,
    {
        i = i - 1;
        if chars[i] == c {
            proof {
                lemma_split_at_last(text@, c, i as int);
                assert(chars@.subrange(0, i as int) =~= text@.take(i as int));
                assert(chars@.subrange(i as int + 1, chars@.len() as int) =~= text@.skip(
                    i as int + 1,
                ));
            }
            return Some((text_of(&chars, 0, i), text_of(&chars, i + 1, chars.len())));
        }
    }
    proof {
        lemma_split_at_last_none(text@, c);
    }
    None
}

/// A list without the entries that occurred before in it.
pub open spec fn first_seen(list: Seq<Seq<char>>) -> Seq<Seq<char>>
    decreases list.len(),
{
    if list.len() == 0 {
        Seq::empty()
    } else {
        let earlier = first_seen(list.drop_last());
        if list.drop_last().contains(list.last()) {
            earlier
        } else {
            earlier.push(list.last())
        }
    }
}

/// A list without repetition is its own list of first occurrences.
pub proof fn lemma_first_seen_distinct(list: Seq<Seq<char>>)
    requires
        list.no_duplicates(),
    ensures
        first_seen(list) == list,
    decreases list.len(),
{
    if list.len() > 0 {
        let shorter = list.drop_last();
        lemma_first_seen_distinct(shorter);
        if shorter.contains(list.last()) {
            let j = choose|j: int| 0 <= j < shorter.len() && shorter[j] == list.last();
            assert(list[j] == list[list.len() - 1]);
        }
        assert(shorter.push(list.last()) =~= list);
    }
}

/// A list of first occurrences repeats nothing and holds what the list holds.
pub proof fn law_first_seen(list: Seq<Seq<char>>)
    ensures
        first_seen(list).no_duplicates(),
        forall|entry: Seq<char>| #[trigger]
            first_seen(list).contains(entry) <==> list.contains(entry),
    decreases list.len(),
{
    if list.len() > 0 {
        let shorter = list.drop_last();
        law_first_seen(shorter);
        let seen = first_seen(list);
        let earlier = first_seen(shorter);
        assert forall|entry: Seq<char>| #[trigger] seen.contains(entry) <==> list.contains(
            entry,
        ) by {
            if list.contains(entry) {
                let j = choose|j: int| 0 <= j < list.len() && list[j] == entry;
                if j < shorter.len() {
                    assert(shorter[j] == entry);
                    assert(shorter.contains(entry));
                }
                if shorter.contains(entry) {
                    assert(earlier.contains(entry));
                    let k = choose|k: int| 0 <= k < earlier.len() && earlier[k] == entry;
                    assert(seen[k] == entry);
                } else {
                    assert(seen[earlier.len() as int] == entry);
                }
            }
            if seen.contains(entry) {
                let k = choose|k: int| 0 <= k < seen.len() && seen[k] == entry;
                if k < earlier.len() {
                    assert(earlier[k] == entry);
                    assert(earlier.contains(entry));
                    let j = choose|j: int| 0 <= j < shorter.len() && shorter[j] == entry;
                    assert(list[j] == entry);
                } else {
                    assert(list[list.len() - 1] == entry);
                }
            }
        }
        if !shorter.contains(list.last()) {
            assert(!earlier.contains(list.last()));
        }
    }
}

/// The pieces of a text between separators.
pub open spec fn pieces(text: Seq<char>, c: char) -> Seq<Seq<char>>
    decreases text.len(),
{
    if text.len() == 0 {
        seq![Seq::empty()]
    } else {
        let earlier = pieces(text.drop_last(), c);
        if text.last() == c {
            earlier.push(Seq::empty())
        } else {
            earlier.update(earlier.len() - 1, earlier.last().push(text.last()))
        }
    }
}

/// The texts that strings hold.
pub open spec fn views(list: Seq<String>) -> Seq<Seq<char>> {
    list.map_values(|entry: String| entry@)
}

/// The pieces of a text between separators.
pub fn split(text: &str, c: char) -> (parts: Vec<String>)
    ensures
        views(parts@) == pieces(text@, c),
        parts@.len() > 0,
{
    let chars = chars_of(text);
    let mut parts: Vec<String> = Vec::new();
    let mut current = String::new();
    let mut i: usize = 0;
    proof {
        assert(views(parts@).push(current@) =~= pieces(text@.take(0), c));
    }
    while i < chars.len()
        invariant
            chars@ == text@,
            i <= chars@.len(),
            views(parts@).push(current@) == pieces(text@.take(i as int), c),
        decreases chars.len() - i,
    {
        let next: char = chars[i];
        let ghost before = pieces(text@.take(i as int), c);
        let ghost parts_before = parts@;
        let ghost current_before = current@;
        proof {
            assert(text@.take(i as int + 1).drop_last() =~= text@.take(i as int));
            assert(before.last() == current_before);
        }
        if next == c {
            parts.push(current);
            current = String::new();
            proof {
                assert(views(parts@) =~= before);
                assert(current@ =~= Seq::<char>::empty());
            }
        } else {
            current.push(next);
            proof {
                assert(views(parts@).push(current@) =~= before.update(
                    before.len() - 1,
                    before.last().push(next),
                ));
            }
        }
        i += 1;
    }
    assert(text@.take(i as int) =~= text@);
    let ghost done = views(parts@).push(current@);
    parts.push(current);
    assert(views(parts@) =~= done);
    parts
}

/// Whether a text begins with another.
pub open spec fn begins_with(text: Seq<char>, prefix: Seq<char>) -> bool {
    prefix.len() <= text.len() && text.take(prefix.len() as int) == prefix
}

/// Whether a text begins with another.
pub fn starts_with(text: &str, prefix: &str) -> (starts: bool)
    ensures
        starts == begins_with(text@, prefix@),
{
    let chars = chars_of(text);
    let wanted = chars_of(prefix);
    if wanted.len() > chars.len() {
        return false;
    }
    let mut i: usize = 0;
    while i < wanted.len()
        invariant
            chars@ == text@,
            wanted@ == prefix@,
            wanted@.len() <= chars@.len(),
            i <= wanted@.len(),
            forall|k: int| 0 <= k < i ==> #[trigger] chars@[k] == wanted@[k],
        decreases wanted.len() - i,
    {
        if chars[i] != wanted[i] {
            assert(text@.take(prefix@.len() as int)[i as int] != prefix@[i as int]);
            return false;
        }
        i += 1;
    }
    assert(text@.take(prefix@.len() as int) =~= prefix@);
    true
}

} // verus!
