//! What holds of texts, paths and what is read from them.

use vstd::prelude::*;

use crate::duplicates;
use crate::html;
use crate::paths;
use crate::text;

verus! {

/// A text is split at its last separator: put together again, the parts are the text, and the
/// second one holds no separator. A text that is not split holds none at all.
pub proof fn law_splitting_takes_nothing_away(text: Seq<char>, c: char)
    ensures
        match text::split_at_last(text, c) {
            Some((head, tail)) => {
                &&& text == head + seq![c] + tail
                &&& forall|k: int| 0 <= k < tail.len() ==> tail[k] != c
            },
            None => forall|k: int| 0 <= k < text.len() ==> text[k] != c,
        },
    decreases text.len(),
{
    if text.len() > 0 {
        let shorter = text.drop_last();
        law_splitting_takes_nothing_away(shorter, c);
        if text.last() == c {
            assert(text =~= shorter + seq![c] + Seq::<char>::empty());
        } else {
            match text::split_at_last(shorter, c) {
                Some((head, tail)) => {
                    assert(text =~= shorter.push(text.last()));
                    assert((head + seq![c] + tail).push(text.last()) =~= head + seq![c]
                        + tail.push(text.last()));
                },
                None => {
                    assert forall|k: int| 0 <= k < text.len() implies text[k] != c by {
                        if k < shorter.len() {
                            assert(shorter[k] == text[k]);
                        }
                    }
                },
            }
        }
    }
}

/// What was put together around a separator is split there again, as long as the second part holds
/// none.
pub proof fn law_joined_texts_are_split_again(head: Seq<char>, tail: Seq<char>, c: char)
    requires
        forall|k: int| 0 <= k < tail.len() ==> tail[k] != c,
    ensures
        text::split_at_last(head + seq![c] + tail, c) == Some((head, tail)),
    decreases tail.len(),
{
    let whole = head + seq![c] + tail;
    if tail.len() == 0 {
        assert(whole.drop_last() =~= head);
        assert(whole.last() == c);
        assert(tail =~= Seq::empty());
    } else {
        law_joined_texts_are_split_again(head, tail.drop_last(), c);
        assert(whole.drop_last() =~= head + seq![c] + tail.drop_last());
        assert(whole.last() == tail[tail.len() - 1]);
        assert(tail.drop_last().push(whole.last()) =~= tail);
    }
}

/// The pieces of two texts around a separator are the pieces of the first and those of the second;
/// a text without separators is its only piece.
pub proof fn law_pieces_stand_between_separators(a: Seq<char>, b: Seq<char>, c: char)
    ensures
        text::pieces(a + seq![c] + b, c) == text::pieces(a, c) + text::pieces(b, c),
        (forall|k: int| 0 <= k < a.len() ==> a[k] != c) ==> text::pieces(a, c) == seq![a],
    decreases a.len() + b.len(),
{
    let whole = a + seq![c] + b;
    lemma_some_piece(a, c);
    lemma_some_piece(b, c);
    if b.len() == 0 {
        assert(whole.drop_last() =~= a);
        assert(whole.last() == c);
        assert(b =~= Seq::empty());
        assert(text::pieces(whole, c) =~= text::pieces(a, c) + text::pieces(b, c));
    } else {
        let shorter = b.drop_last();
        law_pieces_stand_between_separators(a, shorter, c);
        lemma_some_piece(shorter, c);
        assert(whole.drop_last() =~= a + seq![c] + shorter);
        assert(whole.last() == b.last());
        assert(text::pieces(whole, c) =~= text::pieces(a, c) + text::pieces(b, c));
    }
    if forall|k: int| 0 <= k < a.len() ==> a[k] != c {
        if a.len() == 0 {
            assert(a =~= Seq::empty());
        } else {
            let shorter = a.drop_last();
            assert forall|k: int| 0 <= k < shorter.len() implies shorter[k] != c by {
                assert(shorter[k] == a[k]);
            }
            law_pieces_stand_between_separators(shorter, Seq::empty(), c);
            assert(a.last() == a[a.len() - 1]);
            assert(shorter.push(a.last()) =~= a);
            assert(text::pieces(a, c) =~= seq![a]);
        }
    }
}

/// There is always a piece.
proof fn lemma_some_piece(text: Seq<char>, c: char)
    ensures
        text::pieces(text, c).len() > 0,
    decreases text.len(),
{
    if text.len() > 0 {
        lemma_some_piece(text.drop_last(), c);
    }
}

/// A text begins with another exactly where it is that text with something behind it.
pub proof fn law_beginnings(text: Seq<char>, prefix: Seq<char>, rest: Seq<char>)
    ensures
        text::begins_with(prefix + rest, prefix),
        text::begins_with(text, prefix) ==> text == prefix + text.skip(prefix.len() as int),
        text.len() < prefix.len() ==> !text::begins_with(text, prefix),
{
    assert((prefix + rest).take(prefix.len() as int) =~= prefix);
    if text::begins_with(text, prefix) {
        assert(text =~= text.take(prefix.len() as int) + text.skip(prefix.len() as int));
    }
}

/// A decimal notation is made of digits, read from the highest one: ten times a number and a digit
/// is written as the number with the digit behind it.
pub proof fn law_decimal_notation(number: nat, digit: nat)
    requires
        digit < 10,
    ensures
        text::decimal(digit) == seq![('0' as int + digit) as char],
        number > 0 ==> text::decimal(10 * number + digit) == text::decimal(number).push(
            ('0' as int + digit) as char,
        ),
{
    if number > 0 {
        assert((10 * number + digit) / 10 == number);
        assert((10 * number + digit) % 10 == digit);
    }
    assert(text::digit_char(digit) == ('0' as int + digit) as char);
}

/// The number that an entity gives in decimal notation is the code point of the character that it
/// stands for.
pub proof fn law_numbered_entities_stand_for_their_code_point(number: nat)
    requires
        0 <= number < 0xD800 || 0xE000 <= number <= 0x10FFFF,
    ensures
        html::entity_char(seq!['#'] + text::decimal(number) + seq![';']) == number,
{
    let entity = seq!['#'] + text::decimal(number) + seq![';'];
    let n = entity.len() as int;
    lemma_decimal_value(number);
    text::lemma_decimal_nonempty(number);
    assert(entity.subrange(1, n - 1) =~= text::decimal(number));
    assert(entity[1] == text::decimal(number)[0]);
    assert(entity.last() == ';');
    assert('0' <= text::decimal(number)[0] <= '9');
}

/// A decimal notation stands for its number.
proof fn lemma_decimal_value(number: nat)
    ensures
        html::digits_value(text::decimal(number), 10) == Some(number as int),
        text::decimal(number).len() > 0,
        '0' <= text::decimal(number)[0] <= '9',
    decreases number,
{
    let digits = text::decimal(number);
    reveal_with_fuel(html::digits_value, 2);
    if number < 10 {
        assert(digits.drop_last() =~= Seq::empty());
        assert(digits.last() == text::digit_char(number));
    } else {
        lemma_decimal_value(number / 10);
        assert(digits.drop_last() =~= text::decimal(number / 10));
        assert(digits.last() == text::digit_char(number % 10));
        assert(digits[0] == text::decimal(number / 10)[0]);
    }
}

/// Each entry of a list stands where it stood first: one more entry is put behind the others
/// exactly where it was not there yet.
pub proof fn law_repetitions_are_left_out(list: Seq<Seq<char>>, entry: Seq<char>)
    ensures
        text::first_seen(Seq::empty()).len() == 0,
        list.contains(entry) ==> text::first_seen(list.push(entry)) == text::first_seen(list),
        !list.contains(entry) ==> text::first_seen(list.push(entry)) == text::first_seen(list).push(
            entry,
        ),
{
    assert(list.push(entry).drop_last() =~= list);
}

/// A file that has to make way keeps its folder and its extension: the number stands behind the
/// stem of its name.
pub proof fn law_renamed_files_keep_folder_and_extension(
    folder: Seq<char>,
    stem: Seq<char>,
    extension: Seq<char>,
    ordinal: nat,
)
    requires
        folder.len() > 0,
        stem.len() > 0,
        extension.len() > 0,
        forall|k: int| 0 <= k < stem.len() ==> stem[k] != '/',
        forall|k: int| 0 <= k < extension.len() ==> extension[k] != '/' && extension[k] != '.',
    ensures
        duplicates::duplicate_text(
            folder + seq!['/'] + (stem + seq!['.'] + extension),
            ordinal,
        ) == folder + seq!['/'] + stem + seq![' ', '('] + text::decimal(ordinal) + seq![')', '.']
            + extension,
        duplicates::duplicate_text(stem + seq!['.'] + extension, ordinal) == stem + seq![' ', '(']
            + text::decimal(ordinal) + seq![')', '.'] + extension,
{
    reveal_strlit(" (");
    reveal_strlit(").");
    reveal_strlit("/");
    let file = stem + seq!['.'] + extension;
    let path = folder + seq!['/'] + file;
    assert forall|k: int| 0 <= k < file.len() implies file[k] != '/' by {
        if k < stem.len() {
            assert(file[k] == stem[k]);
        } else if k > stem.len() {
            assert(file[k] == extension[k - stem.len() - 1]);
        }
    }
    law_joined_texts_are_split_again(folder, file, '/');
    law_joined_texts_are_split_again(stem, extension, '.');
    law_splitting_takes_nothing_away(file, '/');
    assert(text::split_at_last(file, '/') is None) by {
        match text::split_at_last(file, '/') {
            Some((head, tail)) => {
                assert(file[head.len() as int] == '/');
            },
            None => {},
        }
    }
    assert(" ("@ =~= seq![' ', '(']);
    assert(")."@ =~= seq![')', '.']);
    assert("/"@ =~= seq!['/']);
    assert(duplicates::duplicate_text(path, ordinal) =~= folder + seq!['/'] + stem + seq![' ', '(']
        + text::decimal(ordinal) + seq![')', '.'] + extension);
    assert(duplicates::duplicate_text(file, ordinal) =~= stem + seq![' ', '('] + text::decimal(
        ordinal,
    ) + seq![')', '.'] + extension);
}

/// Two paths that lead on by the same names name one place exactly where they begin at one place:
/// one more name is one more component, unless it is empty or a dot.
pub proof fn law_one_more_name_is_one_more_component(path: Seq<char>, name: Seq<char>)
    requires
        path.len() > 0,
        forall|k: int| 0 <= k < name.len() ==> name[k] != '/',
    ensures
        ({
            let before = paths::place(path);
            let after = paths::place(path + seq!['/'] + name);
            &&& after.absolute == before.absolute
            &&& after.absolute == (path[0] == '/')
            &&& if name.len() == 0 || name == seq!['.'] {
                after.names == before.names
            } else {
                after.names == before.names.push(name)
            }
        }),
{
    reveal_strlit(".");
    let whole = path + seq!['/'] + name;
    law_pieces_stand_between_separators(path, name, '/');
    law_pieces_stand_between_separators(name, Seq::empty(), '/');
    lemma_some_piece(path, '/');
    let pieces = text::pieces(whole, '/');
    assert(pieces =~= text::pieces(path, '/').push(name));
    assert(pieces.drop_last() =~= text::pieces(path, '/'));
    assert("."@ =~= seq!['.']);
    assert(whole[0] == path[0]);
}

/// A path without separators is one component, and the empty path has none.
pub proof fn law_a_name_is_one_component(name: Seq<char>)
    requires
        forall|k: int| 0 <= k < name.len() ==> name[k] != '/',
    ensures
        name.len() > 0 ==> paths::place(name).names == seq![name],
        name.len() == 0 ==> paths::place(name).names.len() == 0,
        !paths::place(name).absolute,
{
    law_pieces_stand_between_separators(name, Seq::empty(), '/');
    reveal_with_fuel(paths::named, 2);
    assert(seq![name].drop_last() =~= Seq::empty());
    assert(seq![name].last() == name);
    if name.len() > 0 {
        assert(paths::place(name).names =~= seq![name]);
    }
}

/// Where a text stands in another, it is replaced there and the rest is read on; a character
/// where it does not stand is kept.
pub proof fn law_every_occurrence_is_replaced(
    rest: Seq<char>,
    needle: Seq<char>,
    with: Seq<char>,
)
    requires
        needle.len() > 0,
    ensures
        html::replaced_from(needle + rest, needle, with, 0) == with + html::replaced_from(
            rest,
            needle,
            with,
            0,
        ),
        rest.len() > 0 && !text::begins_with(rest, needle) ==> html::replaced_from(
            rest,
            needle,
            with,
            0,
        ) == seq![rest[0]] + html::replaced_from(rest.skip(1), needle, with, 0),
        html::replaced_from(Seq::empty(), needle, with, 0).len() == 0,
{
    assert((needle + rest).subrange(0, needle.len() as int) =~= needle);
    lemma_replaced_shifts(needle, rest, needle, with, 0);
    if rest.len() > 0 && !text::begins_with(rest, needle) {
        if needle.len() <= rest.len() {
            assert(rest.subrange(0, needle.len() as int) =~= rest.take(needle.len() as int));
        }
        assert(rest =~= seq![rest[0]] + rest.skip(1));
        lemma_replaced_shifts(seq![rest[0]], rest.skip(1), needle, with, 0);
    }
}

/// What is replaced later does not depend on what stands before.
proof fn lemma_replaced_shifts(
    head: Seq<char>,
    rest: Seq<char>,
    needle: Seq<char>,
    with: Seq<char>,
    at: int,
)
    requires
        0 <= at <= rest.len(),
        needle.len() > 0,
    ensures
        html::replaced_from(head + rest, needle, with, head.len() + at) == html::replaced_from(
            rest,
            needle,
            with,
            at,
        ),
    decreases rest.len() - at,
{
    let whole = head + rest;
    if at < rest.len() {
        if at + needle.len() <= rest.len() {
            assert(whole.subrange(head.len() + at, head.len() + at + needle.len())
                =~= rest.subrange(at, at + needle.len()));
        }
        assert(html::occurs_at(whole, needle, head.len() + at) == html::occurs_at(
            rest,
            needle,
            at,
        ));
        assert(whole[head.len() + at] == rest[at]);
        if html::occurs_at(rest, needle, at) {
            lemma_replaced_shifts(head, rest, needle, with, at + needle.len());
        } else {
            lemma_replaced_shifts(head, rest, needle, with, at + 1);
        }
    }
}

/// The number that hexadecimal digits stand for, read from the highest one.
pub open spec fn hexadecimal(digits: Seq<char>) -> nat
    decreases digits.len(),
{
    if digits.len() == 0 {
        0
    } else {
        16 * hexadecimal(digits.drop_last()) + hexadecimal_digit(digits.last())
    }
}

/// The value of a hexadecimal digit.
pub open spec fn hexadecimal_digit(c: char) -> nat {
    if c <= '9' {
        (c as int - '0' as int) as nat
    } else if c <= 'F' {
        (c as int - 'A' as int + 10) as nat
    } else {
        (c as int - 'a' as int + 10) as nat
    }
}

/// Whether all characters are hexadecimal digits.
pub open spec fn are_hexadecimal(digits: Seq<char>) -> bool {
    forall|k: int|
        0 <= k < digits.len() ==> '0' <= #[trigger] digits[k] <= '9' || 'a' <= digits[k] <= 'f'
            || 'A' <= digits[k] <= 'F'
}

/// Hexadecimal digits stand for their number.
proof fn lemma_hexadecimal_value(digits: Seq<char>)
    requires
        are_hexadecimal(digits),
    ensures
        html::digits_value(digits, 16) == Some(hexadecimal(digits) as int),
    decreases digits.len(),
{
    if digits.len() > 0 {
        let shorter = digits.drop_last();
        assert forall|k: int| 0 <= k < shorter.len() implies '0' <= #[trigger] shorter[k] <= '9'
            || 'a' <= shorter[k] <= 'f' || 'A' <= shorter[k] <= 'F' by {
            assert(shorter[k] == digits[k]);
        }
        lemma_hexadecimal_value(shorter);
        assert(digits[digits.len() - 1] == digits.last());
    }
}

/// The number that an entity gives in hexadecimal notation, behind an `x` in either case, is the
/// code point of the character that it stands for.
pub proof fn law_hexadecimal_entities_stand_for_their_code_point(digits: Seq<char>, mark: char)
    requires
        digits.len() > 0,
        are_hexadecimal(digits),
        mark == 'x' || mark == 'X',
        hexadecimal(digits) < 0xD800 || 0xE000 <= hexadecimal(digits) <= 0x10FFFF,
    ensures
        html::entity_char(seq!['#', mark] + digits + seq![';']) == hexadecimal(digits),
        html::entity_char(seq!['#', mark, '+'] + digits + seq![';']) == hexadecimal(digits),
{
    lemma_hexadecimal_value(digits);
    let entity = seq!['#', mark] + digits + seq![';'];
    let n = entity.len() as int;
    assert(digits[0] != '+');
    assert(entity.subrange(2, n - 1) =~= digits);
    assert(entity.last() == ';');
    assert(entity[0] == '#' && entity[1] == mark);
    let signed = seq!['#', mark, '+'] + digits + seq![';'];
    let m = signed.len() as int;
    assert(signed.subrange(2, m - 1) =~= seq!['+'] + digits);
    assert((seq!['+'] + digits).skip(1) =~= digits);
    assert(signed.last() == ';');
    assert(signed[0] == '#' && signed[1] == mark);
}

/// A number may stand behind a plus sign; one that is no code point stands for a blank.
pub proof fn law_numbers_in_entities(number: nat)
    ensures
        0 <= number < 0xD800 || 0xE000 <= number <= 0x10FFFF ==> html::entity_char(
            seq!['#', '+'] + text::decimal(number) + seq![';'],
        ) == number,
        0xD800 <= number < 0xE000 || number > 0x10FFFF ==> html::entity_char(
            seq!['#'] + text::decimal(number) + seq![';'],
        ) == ' ' as int,
{
    lemma_decimal_value(number);
    text::lemma_decimal_nonempty(number);
    let digits = text::decimal(number);
    let signed = seq!['#', '+'] + digits + seq![';'];
    let n = signed.len() as int;
    assert(signed.subrange(1, n - 1) =~= seq!['+'] + digits);
    assert((seq!['+'] + digits).skip(1) =~= digits);
    assert(signed[0] == '#' && signed[1] == '+' && signed.last() == ';');
    let entity = seq!['#'] + digits + seq![';'];
    assert(entity.subrange(1, entity.len() - 1) =~= digits);
    assert(entity[0] == '#' && entity[1] == digits[0]);
    reveal_strlit("amp;");
    reveal_strlit("lt;");
    reveal_strlit("gt;");
    reveal_strlit("quot;");
    reveal_strlit("apos;");
}

/// An entity that does not end with a semicolon stands for a blank, whatever is in it.
pub proof fn law_open_entities_stand_for_a_blank(entity: Seq<char>)
    requires
        entity.len() == 0 || entity.last() != ';',
    ensures
        html::entity_char(entity) == ' ' as int,
{
    reveal_strlit("amp;");
    reveal_strlit("lt;");
    reveal_strlit("gt;");
    reveal_strlit("quot;");
    reveal_strlit("apos;");
    assert("amp;"@.last() == ';' && "lt;"@.last() == ';' && "gt;"@.last() == ';');
    assert("quot;"@.last() == ';' && "apos;"@.last() == ';');
}

/// A character of ASCII takes one byte in UTF-8, one of at most eleven bits two, one of at most
/// sixteen bits three and any other four.
pub proof fn law_bytes_of_characters(c: char)
    ensures
        html::utf8_len(c) == 1 <==> c as int <= 0x7F,
        html::utf8_len(c) <= 2 <==> c as int <= 0x7FF,
        html::utf8_len(c) <= 3 <==> c as int <= 0xFFFF,
        1 <= html::utf8_len(c) <= 4,
{
}

/// A name that ends with a dot has no extension to keep, and neither has one that begins with its
/// only dot.
pub proof fn law_renamed_files_without_extension(stem: Seq<char>, ordinal: nat)
    requires
        stem.len() > 0,
        forall|k: int| 0 <= k < stem.len() ==> stem[k] != '/' && stem[k] != '.',
    ensures
        duplicates::duplicate_text(stem, ordinal) == stem + seq![' ', '('] + text::decimal(ordinal)
            + seq![')'],
        duplicates::duplicate_text(stem + seq!['.'], ordinal) == stem + seq![' ', '(']
            + text::decimal(ordinal) + seq![')'],
        duplicates::duplicate_text(seq!['.'] + stem, ordinal) == seq!['.'] + stem + seq![' ', '(']
            + text::decimal(ordinal) + seq![')'],
{
    reveal_strlit(" (");
    reveal_strlit(")");
    let none = Seq::<char>::empty();
    lemma_unsplit(stem, '/');
    lemma_unsplit(stem, '.');
    let dotted = stem + seq!['.'];
    lemma_unsplit(dotted, '/');
    law_joined_texts_are_split_again(stem, none, '.');
    assert(stem + seq!['.'] + none =~= dotted);
    let hidden = seq!['.'] + stem;
    lemma_unsplit(hidden, '/');
    law_joined_texts_are_split_again(none, stem, '.');
    assert(none + seq!['.'] + stem =~= hidden);
}

/// A text without a separator is not split.
proof fn lemma_unsplit(text: Seq<char>, c: char)
    requires
        forall|k: int| 0 <= k < text.len() ==> #[trigger] text[k] != c,
    ensures
        text::split_at_last(text, c) is None,
{
    law_splitting_takes_nothing_away(text, c);
    match text::split_at_last(text, c) {
        Some((head, tail)) => {
            assert(text[head.len() as int] == c);
        },
        None => {},
    }
}

} // verus!
