//! Reading and writing the little HTML that is needed.

use vstd::prelude::*;

use crate::ids;
use crate::text::{self, chars_of, text_of};

verus! {

/// `char::from_u32` of the standard library gives the character of a code point, and nothing for
/// a number that is none.
pub assume_specification[ char::from_u32 ](number: u32) -> (c: Option<char>)
    ensures
        match c {
            Some(found) => is_code_point(number as int) && found as int == number,
            None => !is_code_point(number as int),
        },
;

/// Whether a number is the code point of a character.
pub open spec fn is_code_point(number: int) -> bool {
    0 <= number < 0xD800 || 0xE000 <= number <= 0x10FFFF
}

/// How many bytes a character takes in UTF-8.
pub open spec fn utf8_len(c: char) -> nat {
    if (c as int) < 0x80 {
        1
    } else if (c as int) < 0x800 {
        2
    } else if (c as int) < 0x10000 {
        3
    } else {
        4
    }
}

/// How many bytes a character takes in UTF-8.
fn encoded_len(c: char) -> (bytes: usize)
    ensures
        bytes == utf8_len(c),
{
    let code: u32 = c as u32;
    if code < 0x80 {
        1
    } else if code < 0x800 {
        2
    } else if code < 0x10000 {
        3
    } else {
        4
    }
}

/// The value of a digit, where it is one.
pub open spec fn digit_value(c: char, radix: int) -> Option<int> {
    if '0' <= c <= '9' {
        Some(c as int - '0' as int)
    } else if radix == 16 && 'a' <= c <= 'f' {
        Some(c as int - 'a' as int + 10)
    } else if radix == 16 && 'A' <= c <= 'F' {
        Some(c as int - 'A' as int + 10)
    } else {
        None
    }
}

/// The number that digits stand for, where all of them are digits.
pub open spec fn digits_value(digits: Seq<char>, radix: int) -> Option<int>
    decreases digits.len(),
{
    if digits.len() == 0 {
        Some(0)
    } else {
        match (digits_value(digits.drop_last(), radix), digit_value(digits.last(), radix)) {
            (Some(higher), Some(digit)) => Some(higher * radix + digit),
            _ => None,
        }
    }
}

/// The number that a text stands for: digits, perhaps behind a plus sign.
pub open spec fn number_value(text: Seq<char>, radix: int) -> Option<int> {
    let digits = if text.len() > 0 && text[0] == '+' {
        text.skip(1)
    } else {
        text
    };
    if digits.len() == 0 {
        None
    } else {
        digits_value(digits, radix)
    }
}

/// More digits make no smaller number.
proof fn lemma_digits_grow(digits: Seq<char>, radix: int, shorter: int)
    requires
        0 <= shorter <= digits.len(),
        radix == 10 || radix == 16,
        digits_value(digits, radix) is Some,
    ensures
        digits_value(digits.take(shorter), radix) is Some,
        0 <= digits_value(digits.take(shorter), radix)->0 <= digits_value(digits, radix)->0,
    decreases digits.len(),
{
    if shorter == digits.len() {
        assert(digits.take(shorter) =~= digits);
        if digits.len() > 0 {
            lemma_digits_grow(digits.drop_last(), radix, 0);
        }
    } else {
        lemma_digits_grow(digits.drop_last(), radix, shorter);
        assert(digits.drop_last().take(shorter) =~= digits.take(shorter));
        let higher = digits_value(digits.drop_last(), radix)->0;
        assert(higher * radix >= higher) by (nonlinear_arith)
            requires
                higher >= 0,
                radix >= 10,
        ;
    }
}

/// The character whose code point a text gives in digits.
pub open spec fn coded_char(text: Seq<char>, radix: int) -> Option<int> {
    match number_value(text, radix) {
        Some(number) => if is_code_point(number) {
            Some(number)
        } else {
            None
        },
        None => None,
    }
}

/// The character whose code point stands in digits between two positions.
fn code_between(chars: &Vec<char>, from: usize, to: usize, radix: u32) -> (c: Option<char>)
    requires
        from <= to <= chars@.len(),
        radix == 10 || radix == 16,
    ensures
        match c {
            Some(found) => coded_char(chars@.subrange(from as int, to as int), radix as int)
                == Some(found as int),
            None => coded_char(chars@.subrange(from as int, to as int), radix as int) is None,
        },
{
    let ghost text = chars@.subrange(from as int, to as int);
    let mut start: usize = from;
    if from < to && chars[from] == '+' {
        start = from + 1;
    }
    let ghost digits = chars@.subrange(start as int, to as int);
    proof {
        if start > from {
            assert(text[0] == '+');
            assert(digits =~= text.skip(1));
        } else {
            assert(digits =~= text);
            if text.len() > 0 {
                assert(text[0] == chars@[from as int]);
            }
        }
    }
    if start == to {
        return None;
    }
    let mut value: u32 = 0;
    let mut i: usize = start;
    assert(digits.take(0) =~= Seq::empty());
    while i < to
        invariant
            from <= start <= i <= to <= chars@.len(),
            radix == 10 || radix == 16,
            digits == chars@.subrange(start as int, to as int),
            value <= 0x10FFFF,
            digits_value(digits.take(i - start), radix as int) == Some(value as int),
            start < to,
            text == chars@.subrange(from as int, to as int),
            number_value(text, radix as int) == digits_value(digits, radix as int),
        decreases to - i,
    {
        let c: char = chars[i];
        proof {
            let more = digits.take(i - start + 1);
            assert(more.drop_last() =~= digits.take(i - start));
            assert(more.last() == c);
        }
        let digit: u32 = if '0' <= c && c <= '9' {
            c as u32 - '0' as u32
        } else if radix == 16 && 'a' <= c && c <= 'f' {
            c as u32 - 'a' as u32 + 10
        } else if radix == 16 && 'A' <= c && c <= 'F' {
            c as u32 - 'A' as u32 + 10
        } else {
            proof {
                if digits_value(digits, radix as int) is Some {
                    lemma_digits_grow(digits, radix as int, i - start + 1);
                }
            }
            return None;
        };
        assert(value * radix <= 0x10FFFF * 16) by (nonlinear_arith)
            requires
                value <= 0x10FFFF,
                radix <= 16,
        ;
        value = value * radix + digit;
        if value > 0x10FFFF {
            proof {
                if digits_value(digits, radix as int) is Some {
                    lemma_digits_grow(digits, radix as int, i - start + 1);
                }
            }
            return None;
        }
        i += 1;
    }
    assert(digits.take(i - start) =~= digits);
    char::from_u32(value)
}

/// What an entity stands for, without its ampersand: a code point, one of the five that have a
/// name, else a blank.
pub open spec fn entity_char(entity: Seq<char>) -> int {
    let n = entity.len() as int;
    let closed = n > 0 && entity.last() == ';';
    let hex = n >= 2 && entity[0] == '#' && (entity[1] == 'x' || entity[1] == 'X');
    let numbered = n >= 1 && entity[0] == '#';
    if hex && closed && n >= 3 && coded_char(entity.subrange(2, n - 1), 16) is Some {
        coded_char(entity.subrange(2, n - 1), 16)->0
    } else if numbered && closed && n >= 2 && coded_char(entity.subrange(1, n - 1), 10) is Some {
        coded_char(entity.subrange(1, n - 1), 10)->0
    } else if entity == "amp;"@ {
        '&' as int
    } else if entity == "lt;"@ {
        '<' as int
    } else if entity == "gt;"@ {
        '>' as int
    } else if entity == "quot;"@ {
        '"' as int
    } else if entity == "apos;"@ {
        '\'' as int
    } else {
        ' ' as int
    }
}

/// What an entity stands for, without its ampersand.
pub fn decode_html_entity(entity: &str) -> (c: char)
    ensures
        c as int == entity_char(entity@),
{
    let chars = chars_of(entity);
    let n: usize = chars.len();
    if n >= 3 && chars[0] == '#' && (chars[1] == 'x' || chars[1] == 'X') && chars[n - 1] == ';' {
        if let Some(c) = code_between(&chars, 2, n - 1, 16) {
            return c;
        }
    }
    if n >= 2 && chars[0] == '#' && chars[n - 1] == ';' {
        if let Some(c) = code_between(&chars, 1, n - 1, 10) {
            return c;
        }
    }
    if *entity == *"amp;" {
        '&'
    } else if *entity == *"lt;" {
        '<'
    } else if *entity == *"gt;" {
        '>'
    } else if *entity == *"quot;" {
        '"'
    } else if *entity == *"apos;" {
        '\''
    } else {
        ' '
    }
}

/// How many bytes characters take in UTF-8.
pub open spec fn utf8_size(chars: Seq<char>) -> nat
    decreases chars.len(),
{
    if chars.len() == 0 {
        0
    } else {
        utf8_size(chars.drop_last()) + utf8_len(chars.last())
    }
}

/// Where an entity ends that begins at a position: behind its semicolon, or once it is longer
/// than ten bytes, or with the text.
pub open spec fn entity_end(html: Seq<char>, from: int, at: int) -> int
    decreases html.len() - at,
{
    if at >= html.len() {
        html.len() as int
    } else if html[at] == ';' || utf8_size(html.subrange(from, at + 1)) > 10 {
        at + 1
    } else {
        entity_end(html, from, at + 1)
    }
}

/// An entity ends behind where it begins.
proof fn lemma_entity_end(html: Seq<char>, from: int, at: int)
    requires
        0 <= from <= at <= html.len(),
    ensures
        at <= entity_end(html, from, at) <= html.len(),
    decreases html.len() - at,
{
    if at < html.len() && !(html[at] == ';' || utf8_size(html.subrange(from, at + 1)) > 10) {
        lemma_entity_end(html, from, at + 1);
    }
}

/// The text of HTML from a position on, inside a tag or outside: tags are left out, and entities
/// stand for their characters.
pub open spec fn text_from(html: Seq<char>, at: int, in_tag: bool) -> Seq<char>
    decreases html.len() - at,
{
    if at < 0 || at >= html.len() {
        Seq::empty()
    } else if html[at] == '<' {
        text_from(html, at + 1, true)
    } else if html[at] == '>' {
        text_from(html, at + 1, false)
    } else if in_tag {
        text_from(html, at + 1, true)
    } else if html[at] == '&' {
        let end = entity_end(html, at + 1, at + 1);
        if at < end <= html.len() {
            seq![entity_char(html.subrange(at + 1, end)) as char] + text_from(html, end, false)
        } else {
            Seq::empty()
        }
    } else {
        seq![html[at]] + text_from(html, at + 1, false)
    }
}

/// The text of HTML: tags are left out, and entities stand for their characters.
pub fn html_to_text(html: &str) -> (plain: String)
    ensures
        plain@ == text_from(html@, 0, false),
{
    let chars = chars_of(html);
    let mut plain = String::new();
    let mut in_tag = false;
    let mut i: usize = 0;
    assert(plain@ + text_from(html@, 0, false) =~= text_from(html@, 0, false));
    while i < chars.len()
        invariant
            chars@ == html@,
            i <= chars@.len(),
            plain@ + text_from(html@, i as int, in_tag) == text_from(html@, 0, false),
        decreases chars.len() - i,
    {
        let c: char = chars[i];
        let ghost before = plain@;
        if c == '<' {
            in_tag = true;
            i += 1;
        } else if c == '>' {
            in_tag = false;
            i += 1;
        } else if in_tag {
            i += 1;
        } else if c == '&' {
            let start: usize = i + 1;
            let mut end: usize = start;
            let mut bytes: usize = 0;
            let mut open = true;
            proof {
                assert(html@.subrange(start as int, end as int) =~= Seq::empty());
                lemma_entity_end(html@, start as int, start as int);
            }
            while open && end < chars.len()
                invariant
                    chars@ == html@,
                    start <= end <= chars@.len(),
                    bytes == utf8_size(html@.subrange(start as int, end as int)),
                    open ==> bytes <= 10,
                    open ==> entity_end(html@, start as int, start as int) == entity_end(
                        html@,
                        start as int,
                        end as int,
                    ),
                    !open ==> entity_end(html@, start as int, start as int) == end,
                decreases chars.len() - end,
            {
                let next: char = chars[end];
                proof {
                    let longer = html@.subrange(start as int, end as int + 1);
                    assert(longer.drop_last() =~= html@.subrange(start as int, end as int));
                    assert(longer.last() == next);
                }
                bytes = bytes + encoded_len(next);
                end += 1;
                if next == ';' || bytes > 10 {
                    open = false;
                }
            }
            let entity = text_of(&chars, start, end);
            assert(entity@ =~= html@.subrange(start as int, end as int));
            let decoded = decode_html_entity(&entity);
            plain.push(decoded);
            proof {
                assert(decoded as int == entity_char(entity@));
                assert(entity_char(html@.subrange(i as int + 1, end as int)) as char == decoded);
                assert(plain@ + text_from(html@, end as int, false) =~= before + (seq![decoded]
                    + text_from(html@, end as int, false)));
            }
            i = end;
        } else {
            plain.push(c);
            proof {
                assert(plain@ + text_from(html@, i as int + 1, false) =~= before + (seq![c]
                    + text_from(html@, i as int + 1, false)));
            }
            i += 1;
        }
    }
    assert(plain@ + text_from(html@, i as int, in_tag) =~= plain@);
    plain
}

/// A character in the text of a page.
pub open spec fn text_escape(c: char) -> Seq<char> {
    if c == '&' {
        "&amp;"@
    } else if c == '<' {
        "&lt;"@
    } else if c == '>' {
        "&gt;"@
    } else {
        seq![c]
    }
}

/// A character in an attribute of a page.
pub open spec fn attr_escape(c: char) -> Seq<char> {
    if c == '"' {
        "&quot;"@
    } else {
        text_escape(c)
    }
}

/// A text in a page, in an attribute or outside.
pub open spec fn escaped(value: Seq<char>, in_attr: bool) -> Seq<char>
    decreases value.len(),
{
    if value.len() == 0 {
        Seq::empty()
    } else {
        escaped(value.drop_last(), in_attr) + if in_attr {
            attr_escape(value.last())
        } else {
            text_escape(value.last())
        }
    }
}

/// A text in a page, in an attribute or outside.
fn escape(value: &str, in_attr: bool) -> (shown: String)
    ensures
        shown@ == escaped(value@, in_attr),
{
    let chars = chars_of(value);
    let mut shown = String::new();
    let mut i: usize = 0;
    assert(value@.take(0) =~= Seq::empty());
    while i < chars.len()
        invariant
            chars@ == value@,
            i <= chars@.len(),
            shown@ == escaped(value@.take(i as int), in_attr),
        decreases chars.len() - i,
    {
        let c: char = chars[i];
        proof {
            assert(value@.take(i as int + 1).drop_last() =~= value@.take(i as int));
        }
        if c == '&' {
            shown.append("&amp;");
        } else if c == '<' {
            shown.append("&lt;");
        } else if c == '>' {
            shown.append("&gt;");
        } else if c == '"' && in_attr {
            shown.append("&quot;");
        } else {
            let ghost before = shown@;
            shown.push(c);
            assert(shown@ =~= before + seq![c]);
        }
        i += 1;
    }
    assert(value@.take(i as int) =~= value@);
    shown
}

/// A text in an attribute of a page.
pub fn html_escape_attr(value: &str) -> (shown: String)
    ensures
        shown@ == escaped(value@, true),
{
    escape(value, true)
}

/// A text of a page.
pub fn html_escape_text(value: &str) -> (shown: String)
    ensures
        shown@ == escaped(value@, false),
{
    escape(value, false)
}

/// What is written into a page opens and closes no tag, and ends no attribute that it stands in.
pub proof fn law_escaped_text_is_inert(value: Seq<char>, in_attr: bool)
    ensures
        forall|i: int|
            0 <= i < escaped(value, in_attr).len() ==> (#[trigger] escaped(value, in_attr)[i]) != '<'
                && escaped(value, in_attr)[i] != '>',
        in_attr ==> forall|i: int|
            0 <= i < escaped(value, true).len() ==> (#[trigger] escaped(value, true)[i]) != '"',
    decreases value.len(),
{
    reveal_strlit("&amp;");
    reveal_strlit("&lt;");
    reveal_strlit("&gt;");
    reveal_strlit("&quot;");
    if value.len() > 0 {
        law_escaped_text_is_inert(value.drop_last(), in_attr);
        let earlier = escaped(value.drop_last(), in_attr);
        let added = if in_attr {
            attr_escape(value.last())
        } else {
            text_escape(value.last())
        };
        assert forall|i: int| 0 <= i < escaped(value, in_attr).len() implies (#[trigger] escaped(
            value,
            in_attr,
        )[i]) != '<' && escaped(value, in_attr)[i] != '>' && (in_attr ==> escaped(
            value,
            in_attr,
        )[i] != '"') by {
            if i < earlier.len() {
                assert(escaped(value, in_attr)[i] == earlier[i]);
            } else {
                assert(escaped(value, in_attr)[i] == added[i - earlier.len()]);
            }
        }
    }
}

/// What follows in HTML does not depend on what stands before it.
proof fn lemma_entity_end_shifts(head: Seq<char>, html: Seq<char>, from: int, at: int)
    requires
        0 <= from <= at <= html.len(),
    ensures
        entity_end(head + html, head.len() + from, head.len() + at) == head.len() + entity_end(
            html,
            from,
            at,
        ),
    decreases html.len() - at,
{
    if at < html.len() {
        assert((head + html)[head.len() + at] == html[at]);
        assert((head + html).subrange(head.len() + from, head.len() + at + 1) =~= html.subrange(
            from,
            at + 1,
        ));
        lemma_entity_end_shifts(head, html, from, at + 1);
    }
}

/// What follows in HTML does not depend on what stands before it.
proof fn lemma_text_from_shifts(head: Seq<char>, html: Seq<char>, at: int, in_tag: bool)
    requires
        0 <= at <= html.len(),
    ensures
        text_from(head + html, head.len() + at, in_tag) == text_from(html, at, in_tag),
    decreases html.len() - at,
{
    if at < html.len() {
        assert((head + html)[head.len() + at] == html[at]);
        if html[at] == '<' {
            lemma_text_from_shifts(head, html, at + 1, true);
        } else if html[at] == '>' {
            lemma_text_from_shifts(head, html, at + 1, false);
        } else if in_tag {
            lemma_text_from_shifts(head, html, at + 1, true);
        } else if html[at] == '&' {
            lemma_entity_end_shifts(head, html, at + 1, at + 1);
            lemma_entity_end(html, at + 1, at + 1);
            let end = entity_end(html, at + 1, at + 1);
            assert((head + html).subrange(head.len() + at + 1, head.len() + end) =~= html.subrange(
                at + 1,
                end,
            ));
            lemma_text_from_shifts(head, html, end, false);
        } else {
            lemma_text_from_shifts(head, html, at + 1, false);
        }
    }
}

/// Outside tags every character but the three that mean something is kept, once and in its place:
/// the text of HTML that begins with such characters begins with them and goes on with the text
/// of the rest.
pub proof fn law_plain_characters_are_kept(plain: Seq<char>, rest: Seq<char>)
    requires
        forall|i: int|
            0 <= i < plain.len() ==> (#[trigger] plain[i]) != '<' && plain[i] != '>' && plain[i]
                != '&',
    ensures
        text_from(plain + rest, 0, false) == plain + text_from(rest, 0, false),
    decreases plain.len(),
{
    if plain.len() == 0 {
        assert(plain + rest =~= rest);
        assert(plain + text_from(rest, 0, false) =~= text_from(rest, 0, false));
    } else {
        let shorter = plain.skip(1);
        assert forall|i: int| 0 <= i < shorter.len() implies (#[trigger] shorter[i]) != '<'
            && shorter[i] != '>' && shorter[i] != '&' by {
            assert(shorter[i] == plain[i + 1]);
        }
        law_plain_characters_are_kept(shorter, rest);
        let first = seq![plain[0]];
        assert(plain + rest =~= first + (shorter + rest));
        lemma_text_from_shifts(first, shorter + rest, 0, false);
        assert((first + (shorter + rest))[0] == plain[0]);
        assert(plain + text_from(rest, 0, false) =~= first + (shorter + text_from(rest, 0, false)));
    }
}

/// A text that holds none of the three characters that mean something is its own plain text.
pub proof fn law_plain_text_is_its_own_text(plain: Seq<char>)
    requires
        forall|i: int|
            0 <= i < plain.len() ==> (#[trigger] plain[i]) != '<' && plain[i] != '>' && plain[i]
                != '&',
    ensures
        text_from(plain, 0, false) == plain,
{
    law_plain_characters_are_kept(plain, Seq::empty());
    assert(plain + Seq::<char>::empty() =~= plain);
    assert(text_from(Seq::empty(), 0, false) =~= Seq::empty());
}

/// A tag and what stands in it are left out, and nothing of what follows is.
pub proof fn law_tags_are_left_out(tag: Seq<char>, rest: Seq<char>)
    requires
        forall|i: int| 0 <= i < tag.len() ==> (#[trigger] tag[i]) != '>',
    ensures
        text_from(seq!['<'] + tag + seq!['>'] + rest, 0, false) == text_from(rest, 0, false),
{
    let html = seq!['<'] + tag + seq!['>'] + rest;
    lemma_inside_tag(tag, rest);
    lemma_text_from_shifts(seq!['<'], tag + seq!['>'] + rest, 0, true);
    assert(seq!['<'] + (tag + seq!['>'] + rest) =~= html);
    assert(html[0] == '<');
}

/// Up to the end of a tag nothing is kept.
proof fn lemma_inside_tag(tag: Seq<char>, rest: Seq<char>)
    requires
        forall|i: int| 0 <= i < tag.len() ==> (#[trigger] tag[i]) != '>',
    ensures
        text_from(tag + seq!['>'] + rest, 0, true) == text_from(rest, 0, false),
    decreases tag.len(),
{
    let html = tag + seq!['>'] + rest;
    if tag.len() == 0 {
        lemma_text_from_shifts(seq!['>'], rest, 0, false);
        assert(html =~= seq!['>'] + rest);
        assert(html[0] == '>');
    } else {
        let shorter = tag.skip(1);
        assert forall|i: int| 0 <= i < shorter.len() implies (#[trigger] shorter[i]) != '>' by {
            assert(shorter[i] == tag[i + 1]);
        }
        lemma_inside_tag(shorter, rest);
        lemma_text_from_shifts(seq![tag[0]], shorter + seq!['>'] + rest, 0, true);
        assert(html =~= seq![tag[0]] + (shorter + seq!['>'] + rest));
        assert(html[0] == tag[0]);
    }
}

/// A short entity that ends with a semicolon stands for one character, and what follows it is
/// read on.
pub proof fn law_entities_stand_for_one_character(name: Seq<char>, rest: Seq<char>)
    requires
        forall|i: int| 0 <= i < name.len() ==> (#[trigger] name[i]) != ';',
        utf8_size(name) <= 10,
    ensures
        text_from(seq!['&'] + name + seq![';'] + rest, 0, false) == seq![
            entity_char(name + seq![';']) as char,
        ] + text_from(rest, 0, false),
{
    let entity = name + seq![';'];
    let html = seq!['&'] + name + seq![';'] + rest;
    assert(html =~= (seq!['&'] + entity) + rest);
    lemma_entity_ends(html, name, 1, rest);
    let end = entity_end(html, 1, 1);
    assert(end == 2 + name.len());
    assert(html.subrange(1, end) =~= entity);
    lemma_text_from_shifts(seq!['&'] + entity, rest, 0, false);
    assert(html[0] == '&');
}

/// A short entity ends behind its semicolon.
proof fn lemma_entity_ends(html: Seq<char>, name: Seq<char>, at: int, rest: Seq<char>)
    requires
        html == seq!['&'] + name + seq![';'] + rest,
        1 <= at <= 1 + name.len(),
        forall|i: int| 0 <= i < name.len() ==> (#[trigger] name[i]) != ';',
        utf8_size(name) <= 10,
    ensures
        entity_end(html, 1, at) == 2 + name.len(),
    decreases name.len() + 1 - at,
{
    if at == 1 + name.len() {
        assert(html[at] == ';');
    } else {
        assert(html[at] == name[at - 1]);
        assert(html.subrange(1, at + 1) =~= name.take(at));
        lemma_utf8_size_grows(name, at);
        lemma_entity_ends(html, name, at + 1, rest);
    }
}

/// Fewer characters take no more bytes.
proof fn lemma_utf8_size_grows(chars: Seq<char>, count: int)
    requires
        0 <= count <= chars.len(),
    ensures
        utf8_size(chars.take(count)) <= utf8_size(chars),
    decreases chars.len(),
{
    if count == chars.len() {
        assert(chars.take(count) =~= chars);
    } else {
        lemma_utf8_size_grows(chars.drop_last(), count);
        assert(chars.drop_last().take(count) =~= chars.take(count));
    }
}

/// The five entities that have a name stand for the characters that they are named after.
pub proof fn law_named_entities(rest: Seq<char>)
    ensures
        text_from("&amp;"@ + rest, 0, false) == seq!['&'] + text_from(rest, 0, false),
        text_from("&lt;"@ + rest, 0, false) == seq!['<'] + text_from(rest, 0, false),
        text_from("&gt;"@ + rest, 0, false) == seq!['>'] + text_from(rest, 0, false),
        text_from("&quot;"@ + rest, 0, false) == seq!['"'] + text_from(rest, 0, false),
        text_from("&apos;"@ + rest, 0, false) == seq!['\''] + text_from(rest, 0, false),
{
    reveal_strlit("&amp;");
    reveal_strlit("&lt;");
    reveal_strlit("&gt;");
    reveal_strlit("&quot;");
    reveal_strlit("&apos;");
    reveal_strlit("amp;");
    reveal_strlit("lt;");
    reveal_strlit("gt;");
    reveal_strlit("quot;");
    reveal_strlit("apos;");
    lemma_named_entity(seq!['a', 'm', 'p'], rest);
    lemma_named_entity(seq!['l', 't'], rest);
    lemma_named_entity(seq!['g', 't'], rest);
    lemma_named_entity(seq!['q', 'u', 'o', 't'], rest);
    lemma_named_entity(seq!['a', 'p', 'o', 's'], rest);
    assert("&amp;"@ =~= seq!['&'] + seq!['a', 'm', 'p'] + seq![';']);
    assert("&lt;"@ =~= seq!['&'] + seq!['l', 't'] + seq![';']);
    assert("&gt;"@ =~= seq!['&'] + seq!['g', 't'] + seq![';']);
    assert("&quot;"@ =~= seq!['&'] + seq!['q', 'u', 'o', 't'] + seq![';']);
    assert("&apos;"@ =~= seq!['&'] + seq!['a', 'p', 'o', 's'] + seq![';']);
    assert(seq!['a', 'm', 'p'] + seq![';'] =~= "amp;"@);
    assert(seq!['l', 't'] + seq![';'] =~= "lt;"@);
    assert(seq!['g', 't'] + seq![';'] =~= "gt;"@);
    assert(seq!['q', 'u', 'o', 't'] + seq![';'] =~= "quot;"@);
    assert(seq!['a', 'p', 'o', 's'] + seq![';'] =~= "apos;"@);
    assert("lt;"@.len() != "amp;"@.len());
    assert("gt;"@[0] != "lt;"@[0]);
    assert("quot;"@.len() != "amp;"@.len());
    assert("apos;"@[0] != "quot;"@[0]);
}

/// An entity of a few letters stands for one character.
proof fn lemma_named_entity(name: Seq<char>, rest: Seq<char>)
    requires
        name.len() <= 4,
        forall|i: int| 0 <= i < name.len() ==> 'a' <= (#[trigger] name[i]) <= 'z',
    ensures
        text_from(seq!['&'] + name + seq![';'] + rest, 0, false) == seq![
            entity_char(name + seq![';']) as char,
        ] + text_from(rest, 0, false),
{
    reveal_with_fuel(utf8_size, 6);
    law_entities_stand_for_one_character(name, rest);
}

/// What is written into a page reads back as what it was, in an attribute or outside.
pub proof fn law_escaped_text_reads_back(value: Seq<char>, in_attr: bool, rest: Seq<char>)
    ensures
        text_from(escaped(value, in_attr) + rest, 0, false) == value + text_from(rest, 0, false),
    decreases value.len(),
{
    if value.len() == 0 {
        assert(escaped(value, in_attr) + rest =~= rest);
        assert(value + text_from(rest, 0, false) =~= text_from(rest, 0, false));
    } else {
        let shorter = value.drop_last();
        let c = value.last();
        let added = if in_attr {
            attr_escape(c)
        } else {
            text_escape(c)
        };
        law_escaped_text_reads_back(shorter, in_attr, added + rest);
        assert(escaped(value, in_attr) + rest =~= escaped(shorter, in_attr) + (added + rest));
        law_named_entities(rest);
        if c != '<' && c != '>' && c != '&' && !(in_attr && c == '"') {
            law_plain_characters_are_kept(seq![c], rest);
        }
        assert(value + text_from(rest, 0, false) =~= shorter + (seq![c] + text_from(
            rest,
            0,
            false,
        )));
    }
}

/// Whether a text holds another at a position.
pub open spec fn occurs_at(text: Seq<char>, needle: Seq<char>, at: int) -> bool {
    0 <= at && at + needle.len() <= text.len() && text.subrange(at, at + needle.len()) == needle
}

/// A text from a position on, with every occurrence of another replaced, from left to right.
pub open spec fn replaced_from(
    text: Seq<char>,
    needle: Seq<char>,
    with: Seq<char>,
    at: int,
) -> Seq<char>
    decreases text.len() - at,
{
    if at < 0 || at >= text.len() || needle.len() == 0 {
        Seq::empty()
    } else if occurs_at(text, needle, at) {
        with + replaced_from(text, needle, with, at + needle.len())
    } else {
        seq![text[at]] + replaced_from(text, needle, with, at + 1)
    }
}

/// A text with every occurrence of another replaced, from left to right.
pub fn replace(text: &str, needle: &str, with: &str) -> (changed: String)
    requires
        needle@.len() > 0,
    ensures
        changed@ == replaced_from(text@, needle@, with@, 0),
{
    let chars = chars_of(text);
    let wanted = chars_of(needle);
    let mut changed = String::new();
    let mut i: usize = 0;
    assert(changed@ + replaced_from(text@, needle@, with@, 0) =~= replaced_from(
        text@,
        needle@,
        with@,
        0,
    ));
    while i < chars.len()
        invariant
            chars@ == text@,
            wanted@ == needle@,
            needle@.len() > 0,
            i <= chars@.len(),
            changed@ + replaced_from(text@, needle@, with@, i as int) == replaced_from(
                text@,
                needle@,
                with@,
                0,
            ),
        decreases chars.len() - i,
    {
        let ghost before = changed@;
        if matches_at(&chars, &wanted, i) {
            changed.append(with);
            proof {
                assert(changed@ + replaced_from(
                    text@,
                    needle@,
                    with@,
                    i as int + needle@.len(),
                ) =~= before + (with@ + replaced_from(
                    text@,
                    needle@,
                    with@,
                    i as int + needle@.len(),
                )));
            }
            i = i + wanted.len();
        } else {
            let c: char = chars[i];
            changed.push(c);
            proof {
                assert(changed@ + replaced_from(text@, needle@, with@, i as int + 1) =~= before + (
                seq![c] + replaced_from(text@, needle@, with@, i as int + 1)));
            }
            i += 1;
        }
    }
    assert(changed@ + replaced_from(text@, needle@, with@, i as int) =~= changed@);
    changed
}

/// Whether characters hold others at a position.
fn matches_at(chars: &Vec<char>, wanted: &Vec<char>, at: usize) -> (found: bool)
    requires
        at <= chars@.len(),
    ensures
        found == occurs_at(chars@, wanted@, at as int),
{
    if chars.len() - at < wanted.len() {
        return false;
    }
    let mut k: usize = 0;
    while k < wanted.len()
        invariant
            at <= chars.len(),
            at + wanted.len() <= chars.len(),
            k <= wanted@.len(),
            forall|j: int| 0 <= j < k ==> #[trigger] wanted@[j] == chars@[at + j],
        decreases wanted.len() - k,
    {
        if chars[at + k] != wanted[k] {
            assert(chars@.subrange(at as int, at + wanted@.len())[k as int] != wanted@[k as int]);
            return false;
        }
        k += 1;
    }
    assert(chars@.subrange(at as int, at + wanted@.len()) =~= wanted@);
    true
}

/// Whether a text holds another.
pub fn contains(text: &str, needle: &str) -> (found: bool)
    ensures
        found == exists|at: int| #[trigger] occurs_at(text@, needle@, at),
{
    let chars = chars_of(text);
    let wanted = chars_of(needle);
    let mut i: usize = 0;
    while i <= chars.len()
        invariant
            chars@ == text@,
            wanted@ == needle@,
            i <= chars.len() + 1,
            forall|at: int| 0 <= at < i ==> !#[trigger] occurs_at(text@, needle@, at),
        decreases chars.len() + 1 - i,
    {
        if matches_at(&chars, &wanted, i) {
            return true;
        }
        if i == chars.len() {
            assert forall|at: int| !#[trigger] occurs_at(text@, needle@, at) by {}
            return false;
        }
        i += 1;
    }
    false
}

/// Adds texts to a list, without those that are in it already.
pub fn append_unique_urls(urls: &mut Vec<String>, candidates: &Vec<String>)
    requires
        ids::texts(old(urls)@).no_duplicates(),
    ensures
        ids::texts(final(urls)@).no_duplicates(),
        ids::texts(final(urls)@) == text::first_seen(
            ids::texts(old(urls)@) + ids::texts(candidates@),
        ),
{
    let ghost before = ids::texts(urls@);
    let ghost added = ids::texts(candidates@);
    let mut i: usize = 0;
    proof {
        text::lemma_first_seen_distinct(before);
        assert(before + added.take(0) =~= before);
    }
    while i < candidates.len()
        invariant
            i <= candidates@.len(),
            added == ids::texts(candidates@),
            ids::texts(urls@) == text::first_seen(before + added.take(i as int)),
        decreases candidates.len() - i,
    {
        let ghost so_far = before + added.take(i as int);
        let ghost listed = ids::texts(urls@);
        proof {
            let more = before + added.take(i as int + 1);
            assert(more.drop_last() =~= so_far);
            assert(more.last() == candidates@[i as int]@);
            text::law_first_seen(so_far);
            assert(listed.contains(candidates@[i as int]@) == so_far.contains(
                candidates@[i as int]@,
            ));
        }
        if !ids::lists(urls, &candidates[i]) {
            urls.push(candidates[i].clone());
            assert(ids::texts(urls@) =~= listed.push(candidates@[i as int]@));
        }
        i += 1;
    }
    proof {
        assert(added.take(i as int) =~= added);
        text::law_first_seen(before + added);
    }
}

/// The addresses of a page, without repetition: those in its source, else those in its text, and
/// then those of the fallback.
pub fn merge_page_urls(page: &Vec<String>, text: &Vec<String>, fallback: &Vec<String>) -> (urls: Vec<
    String,
>)
    ensures
        ids::texts(urls@) == text::first_seen(
            (if page@.len() > 0 {
                ids::texts(page@)
            } else {
                ids::texts(text@)
            }) + ids::texts(fallback@),
        ),
{
    let mut urls: Vec<String> = Vec::new();
    let chosen = if page.len() > 0 {
        page
    } else {
        text
    };
    proof {
        assert(ids::texts(urls@) =~= Seq::empty());
        assert(ids::texts(urls@) + ids::texts(chosen@) =~= ids::texts(chosen@));
    }
    append_unique_urls(&mut urls, chosen);
    append_unique_urls(&mut urls, fallback);
    proof {
        lemma_first_seen_prefix(ids::texts(chosen@), ids::texts(fallback@));
    }
    urls
}

/// Dropping repetitions of a first part first makes no difference.
proof fn lemma_first_seen_prefix(first: Seq<Seq<char>>, second: Seq<Seq<char>>)
    ensures
        text::first_seen(text::first_seen(first) + second) == text::first_seen(first + second),
    decreases second.len(),
{
    let reduced = text::first_seen(first);
    text::law_first_seen(first);
    if second.len() == 0 {
        assert(reduced + second =~= reduced);
        assert(first + second =~= first);
        text::lemma_first_seen_distinct(reduced);
    } else {
        let shorter = second.drop_last();
        lemma_first_seen_prefix(first, shorter);
        assert((reduced + second).drop_last() =~= reduced + shorter);
        assert((first + second).drop_last() =~= first + shorter);
        assert((reduced + second).last() == second.last());
        assert((first + second).last() == second.last());
        text::law_first_seen(reduced + shorter);
        text::law_first_seen(first + shorter);
        assert((reduced + shorter).contains(second.last()) == text::first_seen(
            reduced + shorter,
        ).contains(second.last()));
        assert((first + shorter).contains(second.last()) == text::first_seen(
            first + shorter,
        ).contains(second.last()));
    }
}

} // verus!
