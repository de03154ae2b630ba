//! What holds of headers, keys and selectors.

use vstd::prelude::*;

use crate::dashboard::{DashboardFileRow, DashboardPackageRow, DownloadDashboardState};
use crate::ids;
use crate::login;
use crate::text;
use crate::text_laws;
use crate::web::{self, ActionTarget, ApiError, Found, ProxyHeaders};

verus! {

/// Among the characters of ASCII, white space is the space and the controls from the tabulator to
/// the carriage return; no letter, digit or sign is.
pub proof fn law_white_space(c: char)
    ensures
        (c as int) < 128 ==> (web::is_white(c) <==> c == ' ' || 9 <= c as int <= 13),
        '!' <= c <= '~' ==> !web::is_white(c),
        web::is_white(c) ==> c as int <= 0x3000,
{
}

/// Stripping a beginning takes away what is to be stripped, and no more.
proof fn lemma_start(left: Seq<char>, rest: Seq<char>, quotes: bool)
    requires
        forall|k: int| 0 <= k < left.len() ==> web::strips(#[trigger] left[k], quotes),
        rest.len() > 0 ==> !web::strips(rest[0], quotes),
    ensures
        web::trimmed_start(left + rest, quotes) == rest,
    decreases left.len(),
{
    let whole = left + rest;
    if left.len() > 0 {
        assert(whole[0] == left[0]);
        assert(whole.drop_first() =~= left.drop_first() + rest);
        assert forall|k: int| 0 <= k < left.drop_first().len() implies web::strips(
            #[trigger] left.drop_first()[k],
            quotes,
        ) by {
            assert(left.drop_first()[k] == left[k + 1]);
        }
        lemma_start(left.drop_first(), rest, quotes);
    } else {
        assert(whole =~= rest);
    }
}

/// Stripping an end takes away what is to be stripped, and no more.
proof fn lemma_end(rest: Seq<char>, right: Seq<char>, quotes: bool)
    requires
        forall|k: int| 0 <= k < right.len() ==> web::strips(#[trigger] right[k], quotes),
        rest.len() > 0 ==> !web::strips(rest.last(), quotes),
    ensures
        web::trimmed_end(rest + right, quotes) == rest,
    decreases right.len(),
{
    let whole = rest + right;
    if right.len() > 0 {
        assert(whole.last() == right[right.len() - 1]);
        assert(whole.drop_last() =~= rest + right.drop_last());
        assert forall|k: int| 0 <= k < right.drop_last().len() implies web::strips(
            #[trigger] right.drop_last()[k],
            quotes,
        ) by {
            assert(right.drop_last()[k] == right[k]);
        }
        lemma_end(rest, right.drop_last(), quotes);
    } else {
        assert(whole =~= rest);
    }
}

/// Stripping both sides leaves what stands between.
proof fn lemma_stripped(left: Seq<char>, core: Seq<char>, right: Seq<char>, quotes: bool)
    requires
        forall|k: int| 0 <= k < left.len() ==> web::strips(#[trigger] left[k], quotes),
        forall|k: int| 0 <= k < right.len() ==> web::strips(#[trigger] right[k], quotes),
        core.len() > 0 ==> !web::strips(core[0], quotes) && !web::strips(core.last(), quotes),
    ensures
        web::trimmed_end(web::trimmed_start(left + core + right, quotes), quotes) == core,
{
    let whole = left + core + right;
    if core.len() > 0 {
        let rest = core + right;
        assert(whole =~= left + rest);
        assert(rest[0] == core[0]);
        lemma_start(left, rest, quotes);
        lemma_end(core, right, quotes);
    } else {
        let all = left + right;
        let none = Seq::<char>::empty();
        assert(whole =~= all + none);
        assert forall|k: int| 0 <= k < all.len() implies web::strips(#[trigger] all[k], quotes) by {
            if k < left.len() {
                assert(all[k] == left[k]);
            } else {
                assert(all[k] == right[k - left.len()]);
            }
        }
        lemma_start(all, none, quotes);
        lemma_end(none, none, quotes);
        assert(none + none =~= none);
        assert(core =~= none);
    }
}

/// White space around a text is left out, and nothing of the text is.
pub proof fn law_white_space_around_is_left_out(left: Seq<char>, core: Seq<char>, right: Seq<char>)
    requires
        forall|k: int| 0 <= k < left.len() ==> web::is_white(#[trigger] left[k]),
        forall|k: int| 0 <= k < right.len() ==> web::is_white(#[trigger] right[k]),
        core.len() > 0 ==> !web::is_white(core[0]) && !web::is_white(core.last()),
    ensures
        web::trimmed(left + core + right) == core,
{
    lemma_stripped(left, core, right, false);
}

/// Quotation marks around a text are left out, and nothing of the text is.
pub proof fn law_quotation_marks_around_are_left_out(
    left: Seq<char>,
    core: Seq<char>,
    right: Seq<char>,
)
    requires
        forall|k: int| 0 <= k < left.len() ==> #[trigger] left[k] == '"',
        forall|k: int| 0 <= k < right.len() ==> #[trigger] right[k] == '"',
        core.len() > 0 ==> core[0] != '"' && core.last() != '"',
    ensures
        web::unquoted(left + core + right) == core,
{
    lemma_stripped(left, core, right, true);
}

/// What is stripped from a text is stripped, wherever the rest stands.
proof fn lemma_parts(text: Seq<char>, quotes: bool)
    ensures
        ({
            let core = web::trimmed_end(web::trimmed_start(text, quotes), quotes);
            &&& core.len() > 0 ==> !web::strips(core[0], quotes) && !web::strips(
                core.last(),
                quotes,
            )
            &&& forall|k: int|
                0 <= k < text.len() && !web::strips(#[trigger] text[k], quotes) ==> core.len() > 0
        }),
    decreases text.len(),
{
    if text.len() > 0 && web::strips(text[0], quotes) {
        lemma_parts(text.drop_first(), quotes);
        assert forall|k: int|
            0 <= k < text.len() && !web::strips(#[trigger] text[k], quotes) implies
            web::trimmed_end(web::trimmed_start(text, quotes), quotes).len() > 0 by {
            assert(text.drop_first()[k - 1] == text[k]);
        }
    } else {
        lemma_end_parts(text, quotes);
    }
}

/// What is stripped from an end is stripped, wherever the rest stands.
proof fn lemma_end_parts(text: Seq<char>, quotes: bool)
    requires
        text.len() > 0 ==> !web::strips(text[0], quotes),
    ensures
        ({
            let core = web::trimmed_end(text, quotes);
            &&& core.len() > 0 ==> !web::strips(core[0], quotes) && !web::strips(
                core.last(),
                quotes,
            )
            &&& text.len() > 0 ==> core.len() > 0
        }),
    decreases text.len(),
{
    if text.len() > 0 && web::strips(text.last(), quotes) {
        assert(text.len() > 1);
        assert(text.drop_last()[0] == text[0]);
        lemma_end_parts(text.drop_last(), quotes);
    }
}

/// A text is filled exactly where it has a character that is not white space.
pub proof fn law_filled_texts_have_something_in_them(text: Seq<char>)
    ensures
        web::is_filled(text) <==> exists|k: int|
            0 <= k < text.len() && !web::is_white(#[trigger] text[k]),
{
    lemma_parts(text, false);
    if forall|k: int| 0 <= k < text.len() ==> web::is_white(#[trigger] text[k]) {
        let none = Seq::<char>::empty();
        assert(text =~= text + none + none);
        lemma_stripped(text, none, none, false);
    }
}

/// The key of a request is the one that it was given: in its own header, whatever else is said, or
/// as a bearer token where its own header has nothing in it.
pub proof fn law_keys_are_read_back(
    key: &str,
    at: int,
    own: Option<&str>,
    authorization: Option<&str>,
)
    requires
        0 <= at < key@.len(),
        '!' <= key@[at] <= '~',
    ensures
        own == Some(key) ==> web::key_of(own, authorization) == Some(key@),
        authorization is Some && authorization->0@ == "Bearer "@ + key@ && (own is Some
            ==> own->0@.len() == 0) ==> web::key_of(own, authorization) == Some(key@),
{
    law_filled_texts_have_something_in_them(key@);
    assert(!web::is_white(key@[at]));
    let token = "Bearer "@;
    if authorization is Some && authorization->0@ == token + key@ {
        assert((token + key@).take(token.len() as int) =~= token);
        assert((token + key@).skip(token.len() as int) =~= key@);
    }
    if own is Some {
        law_filled_texts_have_something_in_them(own->0@);
    }
}

/// A key that a request brings stands in one of its headers and has something in it: a request
/// that says nothing brings none.
pub proof fn law_keys_come_from_the_request(own: Option<&str>, authorization: Option<&str>)
    ensures
        web::key_of(own, authorization) matches Some(key) ==> {
            &&& exists|k: int| 0 <= k < key.len() && !web::is_white(#[trigger] key[k])
            &&& (own is Some && own->0@ == key) || (authorization is Some && authorization->0@
                == "Bearer "@ + key)
        },
        own is None && authorization is None ==> web::key_of(own, authorization) is None,
{
    let token = "Bearer "@;
    if let Some(key) = web::key_of(own, authorization) {
        law_filled_texts_have_something_in_them(key);
        if authorization is Some && text::begins_with(authorization->0@, token) {
            assert(authorization->0@ =~= authorization->0@.take(token.len() as int)
                + authorization->0@.skip(token.len() as int));
        }
    }
}

/// Texts are the same but for their case where every character is the same, or is the other case of
/// the same Latin letter.
pub proof fn law_case_is_ignored(a: Seq<char>, b: Seq<char>)
    ensures
        login::same_ignoring_case(a, b) <==> a.len() == b.len() && forall|i: int|
            0 <= i < a.len() ==> a[i] == #[trigger] b[i] || ('A' <= a[i] <= 'Z' && b[i] as int
                == a[i] as int + 32) || ('A' <= b[i] <= 'Z' && a[i] as int == b[i] as int + 32),
        login::same_ignoring_case(a, b) == login::same_ignoring_case(b, a),
        login::same_ignoring_case(a, a),
{
    if login::same_ignoring_case(a, b) {
        assert forall|i: int| 0 <= i < a.len() implies a[i] == #[trigger] b[i] || ('A' <= a[i]
            <= 'Z' && b[i] as int == a[i] as int + 32) || ('A' <= b[i] <= 'Z' && a[i] as int
            == b[i] as int + 32) by {
            assert(login::ascii_lower(a[i]) == login::ascii_lower(b[i]));
        }
        assert(login::same_ignoring_case(b, a));
    }
    if login::same_ignoring_case(b, a) {
        assert(login::same_ignoring_case(a, b));
    }
    if a.len() == b.len() && forall|i: int|
        0 <= i < a.len() ==> a[i] == #[trigger] b[i] || ('A' <= a[i] <= 'Z' && b[i] as int
            == a[i] as int + 32) || ('A' <= b[i] <= 'Z' && a[i] as int == b[i] as int + 32) {
        assert forall|i: int| 0 <= i < a.len() implies login::ascii_lower(#[trigger] a[i])
            == login::ascii_lower(b[i]) by {
            let other = b[i];
        }
    }
}

/// The first equals sign of a text is the one behind its name.
proof fn lemma_first_equals(name: Seq<char>, rest: Seq<char>, at: int)
    requires
        0 <= at <= name.len(),
        forall|k: int| 0 <= k < name.len() ==> #[trigger] name[k] != '=',
    ensures
        web::first_equals(name + seq!['='] + rest, at) == Some(name.len() as int),
    decreases name.len() - at,
{
    let whole = name + seq!['='] + rest;
    if at < name.len() {
        assert(whole[at] == name[at]);
        lemma_first_equals(name, rest, at + 1);
    } else {
        assert(whole[at] == '=');
    }
}

/// A text without an equals sign has no first one.
proof fn lemma_no_equals(text: Seq<char>, at: int)
    requires
        0 <= at,
        forall|k: int| 0 <= k < text.len() ==> #[trigger] text[k] != '=',
    ensures
        web::first_equals(text, at) is None,
    decreases text.len() - at,
{
    if at < text.len() {
        lemma_no_equals(text, at + 1);
    }
}

/// A part that gives a name a value gives it to that name, however it is written, and to no other;
/// white space around the part and quotation marks around the value are left out.
pub proof fn law_parameters_are_read_back(
    left: Seq<char>,
    name: Seq<char>,
    value: Seq<char>,
    right: Seq<char>,
    quoted: bool,
    key: Seq<char>,
)
    requires
        forall|k: int| 0 <= k < left.len() ==> web::is_white(#[trigger] left[k]),
        forall|k: int| 0 <= k < right.len() ==> web::is_white(#[trigger] right[k]),
        name.len() > 0,
        !web::is_white(name[0]),
        forall|k: int| 0 <= k < name.len() ==> #[trigger] name[k] != '=',
        value.len() > 0,
        !web::is_white(value[0]),
        !web::is_white(value.last()),
        value[0] != '"',
        value.last() != '"',
    ensures
        ({
            let mark = if quoted {
                seq!['"']
            } else {
                Seq::<char>::empty()
            };
            web::parameter(left + (name + seq!['='] + (mark + value + mark)) + right, key) == if
            login::same_ignoring_case(name, key) {
                Some(value)
            } else {
                None
            }
        }),
{
    let mark = if quoted {
        seq!['"']
    } else {
        Seq::<char>::empty()
    };
    let given = mark + value + mark;
    let shown = name + seq!['='] + given;
    assert(shown[0] == name[0]);
    assert(shown.last() == given.last());
    assert(given.last() == if quoted {
        '"'
    } else {
        value.last()
    });
    assert(given[0] == if quoted {
        '"'
    } else {
        value[0]
    });
    law_white_space_around_is_left_out(left, shown, right);
    lemma_first_equals(name, given, 0);
    assert(shown.skip(name.len() as int + 1) =~= given);
    assert(shown.take(name.len() as int) =~= name);
    let none = Seq::<char>::empty();
    assert(none + given + none =~= given);
    law_white_space_around_is_left_out(none, given, none);
    law_quotation_marks_around_are_left_out(mark, value, mark);
}

/// A part without an equals sign gives nothing a value.
pub proof fn law_parameters_need_a_value(part: Seq<char>, key: Seq<char>)
    requires
        forall|k: int| 0 <= k < part.len() ==> #[trigger] part[k] != '=',
    ensures
        web::parameter(part, key) is None,
{
    lemma_start_within(part, false);
    let rest = web::trimmed_start(part, false);
    lemma_end_within(rest, false);
    let shown = web::trimmed(part);
    assert forall|k: int| 0 <= k < shown.len() implies #[trigger] shown[k] != '=' by {
        assert(rest.contains(shown[k]));
        let m = choose|m: int| 0 <= m < rest.len() && rest[m] == shown[k];
        assert(part.contains(rest[m]));
    }
    lemma_no_equals(shown, 0);
}

/// What is left of a text was in it.
proof fn lemma_start_within(text: Seq<char>, quotes: bool)
    ensures
        forall|k: int|
            0 <= k < web::trimmed_start(text, quotes).len() ==> text.contains(
                #[trigger] web::trimmed_start(text, quotes)[k],
            ),
    decreases text.len(),
{
    let rest = web::trimmed_start(text, quotes);
    if text.len() > 0 && web::strips(text[0], quotes) {
        lemma_start_within(text.drop_first(), quotes);
        assert forall|k: int| 0 <= k < rest.len() implies text.contains(#[trigger] rest[k]) by {
            let same = web::trimmed_start(text.drop_first(), quotes);
            assert(text.drop_first().contains(same[k]));
            let m = choose|m: int|
                0 <= m < text.drop_first().len() && text.drop_first()[m] == rest[k];
            assert(text[m + 1] == rest[k]);
        }
    }
}

/// What is left of a text was in it.
proof fn lemma_end_within(text: Seq<char>, quotes: bool)
    ensures
        forall|k: int|
            0 <= k < web::trimmed_end(text, quotes).len() ==> text.contains(
                #[trigger] web::trimmed_end(text, quotes)[k],
            ),
    decreases text.len(),
{
    let rest = web::trimmed_end(text, quotes);
    if text.len() > 0 && web::strips(text.last(), quotes) {
        lemma_end_within(text.drop_last(), quotes);
        assert forall|k: int| 0 <= k < rest.len() implies text.contains(#[trigger] rest[k]) by {
            let same = web::trimmed_end(text.drop_last(), quotes);
            assert(text.drop_last().contains(same[k]));
            let m = choose|m: int|
                0 <= m < text.drop_last().len() && text.drop_last()[m] == rest[k];
            assert(text[m] == rest[k]);
        }
    }
}

/// Of several parts, the first that gives a value decides; so does the first entry.
pub proof fn law_the_first_value_counts(a: Seq<Seq<char>>, b: Seq<Seq<char>>, key: Seq<char>)
    ensures
        web::first_parameter(a + b, key) == if web::first_parameter(a, key) is Some {
            web::first_parameter(a, key)
        } else {
            web::first_parameter(b, key)
        },
        a.len() == 1 ==> web::first_parameter(a, key) == web::parameter(a[0], key),
        a.len() == 0 ==> web::first_parameter(a, key) is None,
        web::forwarded(a + b, key) == if web::forwarded(a, key) is Some {
            web::forwarded(a, key)
        } else {
            web::forwarded(b, key)
        },
        a.len() == 1 ==> web::forwarded(a, key) == web::first_parameter(
            text::pieces(a[0], ';'),
            key,
        ),
        a.len() == 0 ==> web::forwarded(a, key) is None,
    decreases a.len(),
{
    let whole = a + b;
    if a.len() > 0 {
        assert(whole[0] == a[0]);
        assert(whole.drop_first() =~= a.drop_first() + b);
        law_the_first_value_counts(a.drop_first(), b, key);
    } else {
        assert(whole =~= b);
    }
}

/// A header that gives one parameter gives its value back.
pub proof fn law_forwarded_values_are_read_back(name: Seq<char>, value: Seq<char>)
    requires
        name.len() > 0,
        forall|k: int|
            0 <= k < name.len() ==> 'a' <= #[trigger] name[k] <= 'z',
        value.len() > 0,
        forall|k: int|
            0 <= k < value.len() ==> '!' <= #[trigger] value[k] <= '~' && value[k] != '"'
                && value[k] != ',' && value[k] != ';',
    ensures
        web::forwarded(text::pieces(name + seq!['='] + value, ','), name) == Some(value),
{
    let none = Seq::<char>::empty();
    let header = name + seq!['='] + value;
    assert forall|k: int| 0 <= k < header.len() implies header[k] != ',' && header[k] != ';' by {
        if k < name.len() {
            assert(header[k] == name[k]);
        } else if k > name.len() {
            assert(header[k] == value[k - name.len() - 1]);
        }
    }
    text_laws::law_pieces_stand_between_separators(header, none, ',');
    text_laws::law_pieces_stand_between_separators(header, none, ';');
    law_the_first_value_counts(seq![header], Seq::empty(), name);
    assert(none + value + none =~= value);
    assert(none + header + none =~= header);
    assert(value[value.len() - 1] == value.last());
    law_case_is_ignored(name, name);
    law_parameters_are_read_back(none, name, value, none, false, name);
}

/// The host that a proxy names first is the one that the user asked for, whatever else is said;
/// where no proxy says anything it is the host of the request, and without one the configured one.
pub proof fn law_hosts(
    headers: ProxyHeaders<'_>,
    configured: Seq<char>,
    first: Seq<char>,
    rest: Seq<char>,
)
    requires
        first.len() > 0,
        forall|k: int| 0 <= k < first.len() ==> '!' <= #[trigger] first[k] <= '~' && first[k] != ',',
    ensures
        headers.forwarded_host is Some && (headers.forwarded_host->0@ == first
            || headers.forwarded_host->0@ == first + seq![','] + rest) ==> web::host_of(
            headers,
            configured,
        ) == first,
        headers.forwarded_host is None && headers.forwarded is None && headers.host is Some
            && headers.host->0@ == first ==> web::host_of(headers, configured) == first,
        headers.forwarded_host is None && headers.forwarded is Some && headers.forwarded->0@
            == "host"@ + seq!['='] + first && (forall|k: int|
            0 <= k < first.len() ==> #[trigger] first[k] != ';' && first[k] != '"')
            ==> web::host_of(headers, configured) == first,
        headers.forwarded_host is None && headers.forwarded is None && headers.host is None
            ==> web::host_of(headers, configured) == configured,
{
    let none = Seq::<char>::empty();
    law_filled_texts_have_something_in_them(first);
    assert(!web::is_white(first[0]));
    assert(first.last() == first[first.len() - 1]);
    assert(none + first + none =~= first);
    law_white_space_around_is_left_out(none, first, none);
    text_laws::law_pieces_stand_between_separators(first, rest, ',');
    let both = first + seq![','] + rest;
    assert(both[0] == first[0]);
    law_filled_texts_have_something_in_them(both);
    reveal_strlit("host");
    let name = "host"@;
    let header = name + seq!['='] + first;
    assert(header[0] == 'h');
    law_filled_texts_have_something_in_them(header);
    if forall|k: int| 0 <= k < first.len() ==> #[trigger] first[k] != ';' && first[k] != '"' {
        law_forwarded_values_are_read_back(name, first);
    }
}

/// The protocol that a proxy names is the one that the user asked for; without one it is HTTP.
pub proof fn law_protocols(headers: ProxyHeaders<'_>, named: Seq<char>)
    requires
        named.len() > 0,
        forall|k: int| 0 <= k < named.len() ==> 'a' <= #[trigger] named[k] <= 'z',
    ensures
        headers.forwarded_proto is Some && headers.forwarded_proto->0@ == named ==> web::proto_of(
            headers,
        ) == named,
        headers.forwarded_proto is None && headers.forwarded is Some && headers.forwarded->0@
            == "proto"@ + seq!['='] + named ==> web::proto_of(headers) == named,
        headers.forwarded_proto is None && headers.forwarded is None ==> web::proto_of(headers)
            == "http"@,
{
    assert(!web::is_white(named[0]));
    law_filled_texts_have_something_in_them(named);
    reveal_strlit("proto");
    let header = "proto"@ + seq!['='] + named;
    assert(header[0] == 'p');
    law_filled_texts_have_something_in_them(header);
    law_forwarded_values_are_read_back("proto"@, named);
}

/// A text holds another exactly where it can be parted around it.
pub proof fn law_texts_hold_what_stands_in_them(a: Seq<char>, needle: Seq<char>, b: Seq<char>)
    ensures
        web::holds(a + needle + b, needle),
        forall|text: Seq<char>| #[trigger]
            web::holds(text, needle) ==> exists|at: int|
                0 <= at <= text.len() - needle.len() && text == #[trigger] text.take(at) + needle
                    + text.skip(at + needle.len()),
{
    assert forall|text: Seq<char>| #[trigger] web::holds(text, needle) implies exists|at: int|
        0 <= at <= text.len() - needle.len() && text == #[trigger] text.take(at) + needle
            + text.skip(at + needle.len()) by {
        let at = choose|at: int| #[trigger] crate::html::occurs_at(text, needle, at);
        assert(text =~= text.take(at) + text.subrange(at, at + needle.len()) + text.skip(
            at + needle.len(),
        ));
    }
    let whole = a + needle + b;
    assert(whole.subrange(a.len() as int, (a.len() + needle.len()) as int) =~= needle);
    assert(crate::html::occurs_at(whole, needle, a.len() as int));
}

/// A search that finds one row finds the only one that is wanted; one that finds nothing leaves no
/// wanted row, and several are found only where several are wanted.
pub proof fn law_searches<T>(found: Found, list: Seq<T>, wanted: spec_fn(T) -> bool, j: int, k: int)
    requires
        found.finds(list, wanted),
        0 <= j < k < list.len(),
    ensures
        found is Nothing ==> !wanted(list[j]) && !wanted(list[k]),
        found matches Found::One(at) ==> at < list.len() && wanted(list[at as int]) && !(wanted(
            list[j],
        ) && wanted(list[k])),
        wanted(list[j]) && wanted(list[k]) ==> found is Several,
{
    broadcast use vstd::seq_lib::group_filter_ensures;

    lemma_wanted_counted(list, wanted, j, k);
    let kept = list.filter(wanted);
    if found is One {
        assert(wanted(kept[0]));
    }
}

/// Rows that are wanted are counted.
proof fn lemma_wanted_counted<T>(list: Seq<T>, wanted: spec_fn(T) -> bool, j: int, k: int)
    requires
        0 <= j < k < list.len(),
    ensures
        wanted(list[j]) && wanted(list[k]) ==> list.filter(wanted).len() >= 2,
        wanted(list[j]) || wanted(list[k]) ==> list.filter(wanted).len() >= 1,
    decreases list.len(),
{
    let shorter = list.drop_last();
    crate::scheduler::lemma_filter_push(shorter, list.last(), wanted);
    assert(list =~= shorter.push(list.last()));
    if k < shorter.len() {
        lemma_wanted_counted(shorter, wanted, j, k);
    } else if wanted(list[j]) {
        shorter.lemma_filter_contains(wanted, j);
        assert(shorter.filter(wanted).contains(shorter[j]));
    }
}

/// A row is asked for by its identity or by its name, and by nothing else.
pub proof fn law_rows_are_asked_for(
    package: DashboardPackageRow,
    file: DashboardFileRow,
    id: Option<&str>,
    name: Option<&str>,
)
    ensures
        id is Some && id->0@ == package.id@ ==> web::package_asked(id, name)(package),
        name is Some && name->0@ == package.display_name@ ==> web::package_asked(id, name)(package),
        (id is Some ==> id->0@ != package.id@) && (name is Some ==> name->0@
            != package.display_name@) ==> !web::package_asked(id, name)(package),
        id is Some && id->0@ == file.id@ ==> web::file_asked(id, name)(file),
        name is Some && name->0@ == file.name@ ==> web::file_asked(id, name)(file),
        (id is Some ==> id->0@ != file.id@) && (name is Some ==> name->0@ != file.name@)
            ==> !web::file_asked(id, name)(file),
{
}

/// What a request is about is in the published state and was asked for; where nothing was, it is
/// told what was not found.
pub proof fn law_targets_were_asked_for(
    state: DownloadDashboardState,
    id: Option<&str>,
    name: Option<&str>,
    target: Result<ActionTarget, ApiError>,
)
    requires
        web::targets(state, id, name, target),
        id is Some || name is Some,
    ensures
        target matches Ok(ActionTarget::File(file)) ==> exists|k: int|
            {
                &&& 0 <= k < state.files@.len()
                &&& (#[trigger] state.files@[k]).id == file
                &&& (id is Some && id->0@ == file@) || (name is Some && name->0@
                    == state.files@[k].name@)
            },
        target matches Ok(ActionTarget::Package(package)) ==> exists|k: int|
            {
                &&& 0 <= k < state.packages@.len()
                &&& ids::uuid_of((#[trigger] state.packages@[k]).id@) == Some(package.raw)
                &&& (id is Some && id->0@ == state.packages@[k].id@) || (name is Some && name->0@
                    == state.packages@[k].display_name@)
            },
        (forall|k: int|
            0 <= k < state.files@.len() ==> !web::file_asked(id, name)(#[trigger] state.files@[k]))
            && (forall|k: int|
            0 <= k < state.packages@.len() ==> !web::package_asked(id, name)(
                #[trigger] state.packages@[k],
            )) ==> (target matches Err(ApiError::NotFound { selector }) && selector@ == if id is Some {
            id->0@
        } else {
            name->0@
        }),
{
    broadcast use vstd::seq_lib::group_filter_ensures;

    let packages = state.packages@.filter(web::package_asked(id, name));
    let files = state.files@.filter(web::file_asked(id, name));
    if packages.len() > 0 {
        assert(web::package_asked(id, name)(packages[0]));
        assert(packages.contains(packages[0]));
        state.packages@.lemma_filter_contains_rev(web::package_asked(id, name), packages[0]);
        let k = choose|k: int| 0 <= k < state.packages@.len() && state.packages@[k] == packages[0];
        assert(state.packages@[k] == packages[0]);
    }
    if files.len() > 0 {
        assert(web::file_asked(id, name)(files[0]));
        assert(files.contains(files[0]));
        state.files@.lemma_filter_contains_rev(web::file_asked(id, name), files[0]);
        let k = choose|k: int| 0 <= k < state.files@.len() && state.files@[k] == files[0];
        assert(state.files@[k] == files[0]);
    }
}

/// A request that two rows answer to is turned down as ambiguous; one that a single file answers to
/// is about that file.
pub proof fn law_targets_are_unambiguous(
    state: DownloadDashboardState,
    id: Option<&str>,
    name: Option<&str>,
    target: Result<ActionTarget, ApiError>,
    j: int,
    k: int,
)
    requires
        web::targets(state, id, name, target),
        0 <= j < state.files@.len(),
        web::file_asked(id, name)(state.files@[j]),
    ensures
        j < k < state.files@.len() && web::file_asked(id, name)(state.files@[k]) ==> target == Err::<
            ActionTarget,
            ApiError,
        >(ApiError::AmbiguousSelector),
        0 <= k < state.packages@.len() && web::package_asked(id, name)(state.packages@[k])
            ==> target == Err::<ActionTarget, ApiError>(ApiError::AmbiguousSelector),
        (forall|m: int|
            0 <= m < state.packages@.len() ==> !web::package_asked(id, name)(
                #[trigger] state.packages@[m],
            )) && (forall|m: int|
            0 <= m < state.files@.len() && m != j ==> !web::file_asked(id, name)(
                #[trigger] state.files@[m],
            )) ==> target == Ok::<ActionTarget, ApiError>(ActionTarget::File(state.files@[j].id)),
{
    broadcast use vstd::seq_lib::group_filter_ensures;

    let packages = state.packages@.filter(web::package_asked(id, name));
    let files = state.files@.filter(web::file_asked(id, name));
    state.files@.lemma_filter_contains(web::file_asked(id, name), j);
    assert(files.contains(state.files@[j]));
    if j < k < state.files@.len() {
        lemma_wanted_counted(state.files@, web::file_asked(id, name), j, k);
    }
    if 0 <= k < state.packages@.len() && web::package_asked(id, name)(state.packages@[k]) {
        state.packages@.lemma_filter_contains(web::package_asked(id, name), k);
        assert(packages.contains(state.packages@[k]));
    }
    if (forall|m: int|
        0 <= m < state.packages@.len() ==> !web::package_asked(id, name)(
            #[trigger] state.packages@[m],
        )) && (forall|m: int|
        0 <= m < state.files@.len() && m != j ==> !web::file_asked(id, name)(
            #[trigger] state.files@[m],
        )) {
        if packages.len() > 0 {
            assert(packages.contains(packages[0]));
            state.packages@.lemma_filter_contains_rev(web::package_asked(id, name), packages[0]);
            assert(web::package_asked(id, name)(packages[0]));
        }
        lemma_single(state.files@, web::file_asked(id, name), j);
    }
}

/// Where one entry is wanted and no other, it is all that is kept.
proof fn lemma_single<T>(list: Seq<T>, wanted: spec_fn(T) -> bool, j: int)
    requires
        0 <= j < list.len(),
        wanted(list[j]),
        forall|m: int| 0 <= m < list.len() && m != j ==> !wanted(#[trigger] list[m]),
    ensures
        list.filter(wanted) == seq![list[j]],
    decreases list.len(),
{
    let shorter = list.drop_last();
    crate::scheduler::lemma_filter_push(shorter, list.last(), wanted);
    assert(list =~= shorter.push(list.last()));
    if j < shorter.len() {
        assert forall|m: int| 0 <= m < shorter.len() && m != j implies !wanted(
            #[trigger] shorter[m],
        ) by {
            assert(shorter[m] == list[m]);
        }
        assert(shorter[j] == list[j]);
        lemma_single(shorter, wanted, j);
        assert(list[list.len() - 1] == list.last());
    } else {
        assert forall|m: int| 0 <= m < shorter.len() implies !wanted(#[trigger] shorter[m]) by {
            assert(shorter[m] == list[m]);
        }
        shorter.lemma_all_neg_filter_empty(wanted);
        assert(list.filter(wanted) =~= seq![list[j]]);
    }
}

/// A request that is at fault itself is told so by a code of the four hundreds, and only such a
/// one; what is not found says what was looked for.
pub proof fn law_faults_are_told_apart(error: ApiError, other: ApiError)
    ensures
        400 <= error.code() < 600,
        error.code() < 500 <==> !(error is InvalidPackageId || error is InvalidState
            || error is NoState || error is NoStream),
        error is NotFound && other is NotFound && error.shown() == other.shown()
            ==> error->NotFound_selector@ == other->NotFound_selector@,
{
    if error is NotFound && other is NotFound && error.shown() == other.shown() {
        let head = "no package or file found for "@;
        let n = head.len() as int;
        assert(error.shown().skip(n) =~= error->NotFound_selector@);
        assert(other.shown().skip(n) =~= other->NotFound_selector@);
    }
}

} // verus!
