//! What the HTTP interface answers, and what it makes of headers and selectors.

use vstd::prelude::*;

use crate::dashboard::{DashboardFileRow, DashboardPackageRow, DownloadDashboardState};
use crate::events::DownloadEvent;
use crate::html;
use crate::ids::{self, FileId, PackageId};
use crate::login::{self, eq_ignore_ascii_case};
use crate::settings::UiAction;
use crate::text::{self, chars_of, joined, split, starts_with, text_of};

verus! {

/// Why a request is turned down.
#[derive(Debug, PartialEq, Eq)]
pub enum ApiError {
    InvalidKey,
    MissingSelector,
    NotFound { selector: String },
    FileNotFound,
    AmbiguousSelector,
    AmbiguousPackage,
    AmbiguousFile,
    InvalidPackageId,
    NoState,
    InvalidState,
    NoStream,
}

impl ApiError {
    /// The code of the answer.
    pub open spec fn code(self) -> u16 {
        match self {
            ApiError::InvalidKey => 401,
            ApiError::MissingSelector => 400,
            ApiError::NotFound { .. } | ApiError::FileNotFound => 404,
            ApiError::AmbiguousSelector | ApiError::AmbiguousPackage
            | ApiError::AmbiguousFile => 409,
            ApiError::InvalidPackageId | ApiError::InvalidState => 500,
            ApiError::NoState | ApiError::NoStream => 503,
        }
    }

    /// The code of the answer.
    pub fn status(&self) -> (code: u16)
        ensures
            code == self.code(),
    {
        match self {
            ApiError::InvalidKey => 401,
            ApiError::MissingSelector => 400,
            ApiError::NotFound { .. } | ApiError::FileNotFound => 404,
            ApiError::AmbiguousSelector | ApiError::AmbiguousPackage
            | ApiError::AmbiguousFile => 409,
            ApiError::InvalidPackageId | ApiError::InvalidState => 500,
            ApiError::NoState | ApiError::NoStream => 503,
        }
    }

    /// What the answer says.
    pub open spec fn shown(self) -> Seq<char> {
        match self {
            ApiError::InvalidKey => "invalid api key"@,
            ApiError::MissingSelector => "missing id or name"@,
            ApiError::NotFound { selector } => "no package or file found for "@ + selector@,
            ApiError::FileNotFound => "file not found"@,
            ApiError::AmbiguousSelector => "ambiguous selector; use an id"@,
            ApiError::AmbiguousPackage => "ambiguous package name; use id"@,
            ApiError::AmbiguousFile => "ambiguous file name; use id"@,
            ApiError::InvalidPackageId => "invalid package id in app state"@,
            ApiError::NoState => "interactive state not enabled"@,
            ApiError::InvalidState => "invalid app state"@,
            ApiError::NoStream => "remote TUI stream not enabled"@,
        }
    }

    /// What the answer says.
    pub fn text(&self) -> (shown: String)
        ensures
            shown@ == self.shown(),
    {
        match self {
            ApiError::InvalidKey => "invalid api key".to_owned(),
            ApiError::MissingSelector => "missing id or name".to_owned(),
            ApiError::NotFound { selector } => joined("no package or file found for ", selector),
            ApiError::FileNotFound => "file not found".to_owned(),
            ApiError::AmbiguousSelector => "ambiguous selector; use an id".to_owned(),
            ApiError::AmbiguousPackage => "ambiguous package name; use id".to_owned(),
            ApiError::AmbiguousFile => "ambiguous file name; use id".to_owned(),
            ApiError::InvalidPackageId => "invalid package id in app state".to_owned(),
            ApiError::NoState => "interactive state not enabled".to_owned(),
            ApiError::InvalidState => "invalid app state".to_owned(),
            ApiError::NoStream => "remote TUI stream not enabled".to_owned(),
        }
    }
}

/// Whether a character is white space.
pub open spec fn is_white(c: char) -> bool {
    let code = c as int;
    9 <= code <= 13 || code == 32 || code == 0x85 || code == 0xA0 || code == 0x1680 || 0x2000
        <= code <= 0x200A || code == 0x2028 || code == 0x2029 || code == 0x202F || code == 0x205F
        || code == 0x3000
}

/// Whether a character is white space.
fn white(c: char) -> (is: bool)
    ensures
        is == is_white(c),
{
    let code: u32 = c as u32;
    (9 <= code && code <= 13) || code == 32 || code == 0x85 || code == 0xA0 || code == 0x1680 || (
    0x2000 <= code && code <= 0x200A) || code == 0x2028 || code == 0x2029 || code == 0x202F
        || code == 0x205F || code == 0x3000
}

/// A text without white space, or without quotation marks, at its beginning.
pub open spec fn trimmed_start(text: Seq<char>, quotes: bool) -> Seq<char>
    decreases text.len(),
{
    if text.len() > 0 && strips(text[0], quotes) {
        trimmed_start(text.drop_first(), quotes)
    } else {
        text
    }
}

/// A text without white space, or without quotation marks, at its end.
pub open spec fn trimmed_end(text: Seq<char>, quotes: bool) -> Seq<char>
    decreases text.len(),
{
    if text.len() > 0 && strips(text.last(), quotes) {
        trimmed_end(text.drop_last(), quotes)
    } else {
        text
    }
}

/// Whether a character is stripped.
pub open spec fn strips(c: char, quotes: bool) -> bool {
    if quotes {
        c == '"'
    } else {
        is_white(c)
    }
}

/// Whether a character is stripped.
fn stripped(c: char, quotes: bool) -> (is: bool)
    ensures
        is == strips(c, quotes),
{
    if quotes {
        c == '"'
    } else {
        white(c)
    }
}

/// A text without white space around it.
pub open spec fn trimmed(text: Seq<char>) -> Seq<char> {
    trimmed_end(trimmed_start(text, false), false)
}

/// A text without quotation marks around it.
pub open spec fn unquoted(text: Seq<char>) -> Seq<char> {
    trimmed_end(trimmed_start(text, true), true)
}

/// A text without white space, or without quotation marks, around it.
fn strip(text: &str, quotes: bool) -> (shorter: String)
    ensures
        shorter@ == trimmed_end(trimmed_start(text@, quotes), quotes),
{
    let chars = chars_of(text);
    let mut from: usize = 0;
    assert(text@.skip(0) =~= text@);
    while from < chars.len() && stripped(chars[from], quotes)
        invariant
            chars@ == text@,
            from <= chars@.len(),
            trimmed_start(text@, quotes) == trimmed_start(text@.skip(from as int), quotes),
        decreases chars.len() - from,
    {
        assert(text@.skip(from as int).drop_first() =~= text@.skip(from as int + 1));
        from += 1;
    }
    let ghost started = text@.skip(from as int);
    let mut to: usize = chars.len();
    assert(text@.subrange(from as int, to as int) =~= started);
    while to > from && stripped(chars[to - 1], quotes)
        invariant
            chars@ == text@,
            from <= to <= chars@.len(),
            trimmed_end(started, quotes) == trimmed_end(
                text@.subrange(from as int, to as int),
                quotes,
            ),
        decreases to,
    {
        assert(text@.subrange(from as int, to as int).drop_last() =~= text@.subrange(
            from as int,
            to as int - 1,
        ));
        to -= 1;
    }
    text_of(&chars, from, to)
}

/// Whether a text has more in it than white space.
pub open spec fn is_filled(text: Seq<char>) -> bool {
    trimmed(text).len() > 0
}

/// A header, where it has more in it than white space.
fn filled(value: Option<&str>) -> (kept: Option<&str>)
    ensures
        match value {
            Some(text) => if is_filled(text@) {
                kept == value
            } else {
                kept is None
            },
            None => kept is None,
        },
{
    match value {
        Some(text) => {
            if strip(text, false).as_str().is_empty() {
                None
            } else {
                Some(text)
            }
        },
        None => None,
    }
}

/// The key that a request brings: in a header of its own, else as a bearer token.
pub open spec fn key_of(own: Option<&str>, authorization: Option<&str>) -> Option<Seq<char>> {
    if own is Some && is_filled(own->0@) {
        Some(own->0@)
    } else if authorization is Some && text::begins_with(authorization->0@, "Bearer "@)
        && is_filled(authorization->0@.skip("Bearer "@.len() as int)) {
        Some(authorization->0@.skip("Bearer "@.len() as int))
    } else {
        None
    }
}

/// The key that a request brings: in a header of its own, else as a bearer token.
pub fn provided_api_key(own: Option<&str>, authorization: Option<&str>) -> (key: Option<String>)
    ensures
        match key {
            Some(text) => key_of(own, authorization) == Some(text@),
            None => key_of(own, authorization) is None,
        },
{
    if let Some(text) = filled(own) {
        return Some(text.to_owned());
    }
    if let Some(text) = authorization {
        if starts_with(text, "Bearer ") {
            proof {
                reveal_strlit("Bearer ");
            }
            let chars = chars_of(text);
            let token = text_of(&chars, 7, chars.len());
            assert(token@ =~= text@.skip("Bearer "@.len() as int));
            if !strip(&token, false).as_str().is_empty() {
                return Some(token);
            }
        }
    }
    None
}

/// Whether a request is turned down for want of the key.
pub fn require_api_key(expected: Option<&str>, own: Option<&str>, authorization: Option<&str>) -> (refused:
    Option<ApiError>)
    ensures
        refused == (if expected is Some && key_of(own, authorization) != Some(expected->0@) {
            Some(ApiError::InvalidKey)
        } else {
            None
        }),
{
    match expected {
        Some(wanted) => match provided_api_key(own, authorization) {
            Some(key) => {
                if *key.as_str() == *wanted {
                    None
                } else {
                    Some(ApiError::InvalidKey)
                }
            },
            None => Some(ApiError::InvalidKey),
        },
        None => None,
    }
}

/// The value of a parameter, where a part of a header gives it one.
pub open spec fn parameter(part: Seq<char>, key: Seq<char>) -> Option<Seq<char>> {
    let shown = trimmed(part);
    match first_equals(shown, 0) {
        Some(at) => {
            let value = unquoted(trimmed(shown.skip(at + 1)));
            if login::same_ignoring_case(shown.take(at), key) && value.len() > 0 {
                Some(value)
            } else {
                None
            }
        },
        None => None,
    }
}

/// Where a text has its first equals sign.
pub open spec fn first_equals(text: Seq<char>, at: int) -> Option<int>
    decreases text.len() - at,
{
    if at < 0 || at >= text.len() {
        None
    } else if text[at] == '=' {
        Some(at)
    } else {
        first_equals(text, at + 1)
    }
}

/// The value of a parameter in the first part that gives it one.
pub open spec fn first_parameter(parts: Seq<Seq<char>>, key: Seq<char>) -> Option<Seq<char>>
    decreases parts.len(),
{
    if parts.len() == 0 {
        None
    } else {
        match parameter(parts[0], key) {
            Some(value) => Some(value),
            None => first_parameter(parts.drop_first(), key),
        }
    }
}

/// The value of a parameter in the first entry that gives it one.
pub open spec fn forwarded(entries: Seq<Seq<char>>, key: Seq<char>) -> Option<Seq<char>>
    decreases entries.len(),
{
    if entries.len() == 0 {
        None
    } else {
        match first_parameter(text::pieces(entries[0], ';'), key) {
            Some(value) => Some(value),
            None => forwarded(entries.drop_first(), key),
        }
    }
}

/// The value of a parameter, where a part of a header gives it one.
fn read_parameter(part: &str, key: &str) -> (value: Option<String>)
    ensures
        match value {
            Some(text) => parameter(part@, key@) == Some(text@),
            None => parameter(part@, key@) is None,
        },
{
    let shown = strip(part, false);
    let chars = chars_of(&shown);
    let mut at: usize = 0;
    while at < chars.len() && chars[at] != '='
        invariant
            chars@ == shown@,
            at <= chars@.len(),
            first_equals(shown@, 0) == first_equals(shown@, at as int),
        decreases chars.len() - at,
    {
        at += 1;
    }
    if at == chars.len() {
        return None;
    }
    let name = text_of(&chars, 0, at);
    let raw = text_of(&chars, at + 1, chars.len());
    assert(name@ =~= shown@.take(at as int));
    assert(raw@ =~= shown@.skip(at as int + 1));
    if !eq_ignore_ascii_case(&name, key) {
        return None;
    }
    let value = strip(&strip(&raw, false), true);
    if value.as_str().is_empty() {
        None
    } else {
        Some(value)
    }
}

/// The value of a parameter of a `Forwarded` header: entries are parted by commas, their parts by
/// semicolons.
pub fn parse_forwarded_param(value: &str, key: &str) -> (found: Option<String>)
    ensures
        match found {
            Some(text) => forwarded(text::pieces(value@, ','), key@) == Some(text@),
            None => forwarded(text::pieces(value@, ','), key@) is None,
        },
{
    let entries = split(value, ',');
    let ghost all = text::views(entries@);
    let mut i: usize = 0;
    assert(all.skip(0) =~= all);
    while i < entries.len()
        invariant
            i <= entries@.len(),
            all == text::views(entries@),
            all == text::pieces(value@, ','),
            forwarded(all, key@) == forwarded(all.skip(i as int), key@),
        decreases entries.len() - i,
    {
        assert(all.skip(i as int).drop_first() =~= all.skip(i as int + 1));
        assert(all.skip(i as int)[0] == entries@[i as int]@);
        let parts = split(&entries[i], ';');
        let ghost pieces = text::views(parts@);
        let mut k: usize = 0;
        assert(pieces.skip(0) =~= pieces);
        while k < parts.len()
            invariant
                k <= parts@.len(),
                i < entries@.len(),
                pieces == text::views(parts@),
                pieces == text::pieces(entries@[i as int]@, ';'),
                first_parameter(pieces, key@) == first_parameter(pieces.skip(k as int), key@),
                all == text::views(entries@),
                all == text::pieces(value@, ','),
                forwarded(all, key@) == forwarded(all.skip(i as int), key@),
                all.skip(i as int)[0] == entries@[i as int]@,
            decreases parts.len() - k,
        {
            assert(pieces.skip(k as int).drop_first() =~= pieces.skip(k as int + 1));
            assert(pieces.skip(k as int)[0] == parts@[k as int]@);
            if let Some(found) = read_parameter(&parts[k], key) {
                return Some(found);
            }
            k += 1;
        }
        i += 1;
    }
    None
}

/// The headers by which proxies say what the user asked for.
pub struct ProxyHeaders<'a> {
    pub forwarded_host: Option<&'a str>,
    pub forwarded: Option<&'a str>,
    pub host: Option<&'a str>,
    pub forwarded_proto: Option<&'a str>,
}

/// The host that the user asked for: as proxies say, else as the request says, else as
/// configured.
pub open spec fn host_of(headers: ProxyHeaders<'_>, configured: Seq<char>) -> Seq<char> {
    if headers.forwarded_host is Some && is_filled(headers.forwarded_host->0@) {
        trimmed(text::pieces(headers.forwarded_host->0@, ',')[0])
    } else if headers.forwarded is Some && is_filled(headers.forwarded->0@) && forwarded(
        text::pieces(headers.forwarded->0@, ','),
        "host"@,
    ) is Some {
        forwarded(text::pieces(headers.forwarded->0@, ','), "host"@)->0
    } else if headers.host is Some && is_filled(headers.host->0@) {
        headers.host->0@
    } else {
        configured
    }
}

/// The host that the user asked for. `bookmarklet_host` is the configured one where there is one,
/// else `host` is.
pub fn infer_host(headers: &ProxyHeaders<'_>, bookmarklet_host: Option<&str>, host: &str) -> (inferred:
    String)
    ensures
        inferred@ == host_of(
            *headers,
            match bookmarklet_host {
                Some(configured) => configured@,
                None => host@,
            },
        ),
{
    if let Some(value) = filled(headers.forwarded_host) {
        let parts = split(value, ',');
        assert(text::views(parts@)[0] == parts@[0]@);
        return strip(&parts[0], false);
    }
    if let Some(value) = filled(headers.forwarded) {
        if let Some(found) = parse_forwarded_param(value, "host") {
            return found;
        }
    }
    if let Some(value) = filled(headers.host) {
        return value.to_owned();
    }
    match bookmarklet_host {
        Some(configured) => configured.to_owned(),
        None => host.to_owned(),
    }
}

/// Whether a text holds another.
pub open spec fn holds(text: Seq<char>, needle: Seq<char>) -> bool {
    exists|at: int| #[trigger] html::occurs_at(text, needle, at)
}

/// The protocol that the user asked for: as proxies say, else HTTP.
pub open spec fn proto_of(headers: ProxyHeaders<'_>) -> Seq<char> {
    if headers.forwarded_proto is Some && is_filled(headers.forwarded_proto->0@) {
        headers.forwarded_proto->0@
    } else if headers.forwarded is Some && is_filled(headers.forwarded->0@) && forwarded(
        text::pieces(headers.forwarded->0@, ','),
        "proto"@,
    ) is Some {
        forwarded(text::pieces(headers.forwarded->0@, ','), "proto"@)->0
    } else {
        "http"@
    }
}

/// The origin that the user asked for: the host itself where it names a protocol.
pub fn infer_origin(headers: &ProxyHeaders<'_>, bookmarklet_host: Option<&str>, host: &str) -> (origin:
    String)
    ensures
        ({
            let name = host_of(
                *headers,
                match bookmarklet_host {
                    Some(configured) => configured@,
                    None => host@,
                },
            );
            origin@ == (if holds(name, "://"@) {
                name
            } else {
                proto_of(*headers) + "://"@ + name
            })
        }),
{
    let name = infer_host(headers, bookmarklet_host, host);
    if html::contains(&name, "://") {
        return name;
    }
    let proto = match filled(headers.forwarded_proto) {
        Some(value) => value.to_owned(),
        None => match filled(headers.forwarded) {
            Some(value) => match parse_forwarded_param(value, "proto") {
                Some(found) => found,
                None => "http".to_owned(),
            },
            None => "http".to_owned(),
        },
    };
    let mut origin = proto;
    origin.append("://");
    origin.append(&name);
    origin
}

/// What a request is about.
#[derive(Debug, PartialEq, Eq)]
pub enum ActionTarget {
    Package(PackageId),
    File(FileId),
}

/// What is done with what a request is about.
#[derive(Clone, Copy, Debug, PartialEq, Eq, Structural)]
pub enum TargetAction {
    Delete,
    Retry,
    Reset,
    Reverify,
}

/// The request of the user that stands for it.
pub fn action_for(action: TargetAction, target: ActionTarget) -> (asked: UiAction)
    ensures
        asked == (match (action, target) {
            (TargetAction::Delete, ActionTarget::Package(id)) => UiAction::DeletePackage(id),
            (TargetAction::Delete, ActionTarget::File(id)) => UiAction::DeleteFile(id),
            (TargetAction::Retry, ActionTarget::Package(id)) => UiAction::RetryPackage(id),
            (TargetAction::Retry, ActionTarget::File(id)) => UiAction::RetryFile(id),
            (TargetAction::Reset, ActionTarget::Package(id)) => UiAction::ResetPackage(id),
            (TargetAction::Reset, ActionTarget::File(id)) => UiAction::ResetFile(id),
            (TargetAction::Reverify, ActionTarget::Package(id)) => UiAction::ReverifyPackage(id),
            (TargetAction::Reverify, ActionTarget::File(id)) => UiAction::ReverifyFile(id),
        }),
{
    match (action, target) {
        (TargetAction::Delete, ActionTarget::Package(id)) => UiAction::DeletePackage(id),
        (TargetAction::Delete, ActionTarget::File(id)) => UiAction::DeleteFile(id),
        (TargetAction::Retry, ActionTarget::Package(id)) => UiAction::RetryPackage(id),
        (TargetAction::Retry, ActionTarget::File(id)) => UiAction::RetryFile(id),
        (TargetAction::Reset, ActionTarget::Package(id)) => UiAction::ResetPackage(id),
        (TargetAction::Reset, ActionTarget::File(id)) => UiAction::ResetFile(id),
        (TargetAction::Reverify, ActionTarget::Package(id)) => UiAction::ReverifyPackage(id),
        (TargetAction::Reverify, ActionTarget::File(id)) => UiAction::ReverifyFile(id),
    }
}

/// The published state, as far as the interface has it.
pub enum SharedSnapshot<'a> {
    /// The interface is not connected to the application.
    Absent,
    /// What is published cannot be read.
    Unreadable,
    Known(&'a DownloadDashboardState),
}

/// Whether a text is the one that is asked for.
pub open spec fn asks_for(wanted: Option<&str>, text: Seq<char>) -> bool {
    wanted is Some && wanted->0@ == text
}

/// Whether a package is asked for by its identity or its name.
pub open spec fn package_asked(id: Option<&str>, name: Option<&str>) -> spec_fn(
    DashboardPackageRow,
) -> bool {
    |row: DashboardPackageRow| asks_for(id, row.id@) || asks_for(name, row.display_name@)
}

/// Whether a file is asked for by its identity or its name.
pub open spec fn file_asked(id: Option<&str>, name: Option<&str>) -> spec_fn(
    DashboardFileRow,
) -> bool {
    |row: DashboardFileRow| asks_for(id, row.id@) || asks_for(name, row.name@)
}

/// What is found of rows that are looked for.
#[derive(Clone, Copy, Debug, PartialEq, Eq, Structural)]
pub enum Found {
    Nothing,
    One(usize),
    Several,
}

impl Found {
    /// Whether it is what a search of a list comes to.
    pub open spec fn finds<T>(self, list: Seq<T>, wanted: spec_fn(T) -> bool) -> bool {
        match self {
            Found::Nothing => list.filter(wanted).len() == 0,
            Found::One(at) => {
                &&& list.filter(wanted).len() == 1
                &&& at < list.len()
                &&& list.filter(wanted)[0] == list[at as int]
            },
            Found::Several => list.filter(wanted).len() > 1,
        }
    }
}

/// Whether a text is the one that is asked for.
fn is_asked(wanted: Option<&str>, text: &str) -> (asked: bool)
    ensures
        asked == asks_for(wanted, text@),
{
    match wanted {
        Some(text_wanted) => *text_wanted == *text,
        None => false,
    }
}

/// Looks for packages.
fn find_packages(
    packages: &Vec<DashboardPackageRow>,
    id: Option<&str>,
    name: Option<&str>,
) -> (found: Found)
    ensures
        found.finds(packages@, package_asked(id, name)),
{
    let ghost wanted = package_asked(id, name);
    let mut found = Found::Nothing;
    let mut i: usize = 0;
    proof {
        reveal(Seq::filter);
        assert(packages@.take(0).filter(wanted) =~= Seq::empty());
    }
    while i < packages.len()
        invariant
            i <= packages@.len(),
            wanted == package_asked(id, name),
            match found {
                Found::Nothing => packages@.take(i as int).filter(wanted).len() == 0,
                Found::One(at) => {
                    &&& packages@.take(i as int).filter(wanted).len() == 1
                    &&& at < i
                    &&& packages@.take(i as int).filter(wanted)[0] == packages@[at as int]
                },
                Found::Several => packages@.take(i as int).filter(wanted).len() > 1,
            },
        decreases packages.len() - i,
    {
        proof {
            let before = packages@.take(i as int);
            assert(packages@.take(i as int + 1) =~= before.push(packages@[i as int]));
            crate::scheduler::lemma_filter_push(before, packages@[i as int], wanted);
        }
        if is_asked(id, &packages[i].id) || is_asked(name, &packages[i].display_name) {
            found = match found {
                Found::Nothing => Found::One(i),
                _ => Found::Several,
            };
        }
        i += 1;
    }
    assert(packages@.take(i as int) =~= packages@);
    found
}

/// Looks for files.
fn find_files(files: &Vec<DashboardFileRow>, id: Option<&str>, name: Option<&str>) -> (found: Found)
    ensures
        found.finds(files@, file_asked(id, name)),
{
    let ghost wanted = file_asked(id, name);
    let mut found = Found::Nothing;
    let mut i: usize = 0;
    proof {
        reveal(Seq::filter);
        assert(files@.take(0).filter(wanted) =~= Seq::empty());
    }
    while i < files.len()
        invariant
            i <= files@.len(),
            wanted == file_asked(id, name),
            match found {
                Found::Nothing => files@.take(i as int).filter(wanted).len() == 0,
                Found::One(at) => {
                    &&& files@.take(i as int).filter(wanted).len() == 1
                    &&& at < i
                    &&& files@.take(i as int).filter(wanted)[0] == files@[at as int]
                },
                Found::Several => files@.take(i as int).filter(wanted).len() > 1,
            },
        decreases files.len() - i,
    {
        proof {
            let before = files@.take(i as int);
            assert(files@.take(i as int + 1) =~= before.push(files@[i as int]));
            crate::scheduler::lemma_filter_push(before, files@[i as int], wanted);
        }
        if is_asked(id, &files[i].id) || is_asked(name, &files[i].name) {
            found = match found {
                Found::Nothing => Found::One(i),
                _ => Found::Several,
            };
        }
        i += 1;
    }
    assert(files@.take(i as int) =~= files@);
    found
}

/// What a selector is about in a published state.
pub open spec fn targets(
    state: DownloadDashboardState,
    id: Option<&str>,
    name: Option<&str>,
    target: Result<ActionTarget, ApiError>,
) -> bool {
    let packages = state.packages@.filter(package_asked(id, name));
    let files = state.files@.filter(file_asked(id, name));
    if packages.len() == 1 && files.len() == 0 {
        match ids::uuid_of(packages[0].id@) {
            Some(raw) => target == Ok::<ActionTarget, ApiError>(
                ActionTarget::Package(PackageId { raw }),
            ),
            None => target == Err::<ActionTarget, ApiError>(ApiError::InvalidPackageId),
        }
    } else if packages.len() == 0 && files.len() == 1 {
        target == Ok::<ActionTarget, ApiError>(ActionTarget::File(files[0].id))
    } else if packages.len() == 0 && files.len() == 0 {
        target matches Err(ApiError::NotFound { selector }) && selector@ == match id {
            Some(id) => id@,
            None => name->0@,
        }
    } else {
        target == Err::<ActionTarget, ApiError>(ApiError::AmbiguousSelector)
    }
}

/// What a request is about: the one package or file of an identity or a name.
pub fn resolve_action_target(
    snapshot: &SharedSnapshot<'_>,
    id: Option<&str>,
    name: Option<&str>,
) -> (target: Result<ActionTarget, ApiError>)
    ensures
        if id is None && name is None {
            target == Err::<ActionTarget, ApiError>(ApiError::MissingSelector)
        } else {
            match *snapshot {
                SharedSnapshot::Absent => target == Err::<ActionTarget, ApiError>(
                    ApiError::NoState,
                ),
                SharedSnapshot::Unreadable => target == Err::<ActionTarget, ApiError>(
                    ApiError::InvalidState,
                ),
                SharedSnapshot::Known(state) => targets(*state, id, name, target),
            }
        },
{
    let selector = match (id, name) {
        (Some(text), _) => text,
        (None, Some(text)) => text,
        (None, None) => {
            return Err(ApiError::MissingSelector);
        },
    };
    let state = match snapshot {
        SharedSnapshot::Absent => {
            return Err(ApiError::NoState);
        },
        SharedSnapshot::Unreadable => {
            return Err(ApiError::InvalidState);
        },
        SharedSnapshot::Known(state) => state,
    };
    let packages = find_packages(&state.packages, id, name);
    let files = find_files(&state.files, id, name);
    match (packages, files) {
        (Found::One(at), Found::Nothing) => match PackageId::parse(&state.packages[at].id) {
            Some(package_id) => Ok(ActionTarget::Package(package_id)),
            None => Err(ApiError::InvalidPackageId),
        },
        (Found::Nothing, Found::One(at)) => Ok(ActionTarget::File(state.files[at].id.clone())),
        (Found::Nothing, Found::Nothing) => Err(
            ApiError::NotFound { selector: selector.to_owned() },
        ),
        _ => Err(ApiError::AmbiguousSelector),
    }
}

/// The package of an identity or a name, where there is one.
pub fn resolve_package_id(
    snapshot: &SharedSnapshot<'_>,
    id: Option<&str>,
    name: Option<&str>,
) -> (package: Result<Option<PackageId>, ApiError>)
    ensures
        ({
            let selector = match id {
                Some(_) => id,
                None => name,
            };
            if selector is None {
                package == Ok::<Option<PackageId>, ApiError>(None)
            } else {
                match *snapshot {
                    SharedSnapshot::Absent => package == Err::<Option<PackageId>, ApiError>(
                        ApiError::NoState,
                    ),
                    SharedSnapshot::Unreadable => package == Err::<Option<PackageId>, ApiError>(
                        ApiError::InvalidState,
                    ),
                    SharedSnapshot::Known(state) => {
                        let found = state.packages@.filter(package_asked(selector, selector));
                        if found.len() == 0 {
                            package == Ok::<Option<PackageId>, ApiError>(None)
                        } else if found.len() > 1 {
                            package == Err::<Option<PackageId>, ApiError>(
                                ApiError::AmbiguousPackage,
                            )
                        } else {
                            match ids::uuid_of(found[0].id@) {
                                Some(raw) => package == Ok::<Option<PackageId>, ApiError>(
                                    Some(PackageId { raw }),
                                ),
                                None => package == Err::<Option<PackageId>, ApiError>(
                                    ApiError::InvalidPackageId,
                                ),
                            }
                        }
                    },
                }
            }
        }),
{
    let selector = match id {
        Some(_) => id,
        None => name,
    };
    if selector.is_none() {
        return Ok(None);
    }
    let state = match snapshot {
        SharedSnapshot::Absent => {
            return Err(ApiError::NoState);
        },
        SharedSnapshot::Unreadable => {
            return Err(ApiError::InvalidState);
        },
        SharedSnapshot::Known(state) => state,
    };
    match find_packages(&state.packages, selector, selector) {
        Found::Nothing => Ok(None),
        Found::One(at) => match PackageId::parse(&state.packages[at].id) {
            Some(package_id) => Ok(Some(package_id)),
            None => Err(ApiError::InvalidPackageId),
        },
        Found::Several => Err(ApiError::AmbiguousPackage),
    }
}

/// The file of an identity, which is taken as it is, or of a name.
pub fn resolve_file_id(
    snapshot: &SharedSnapshot<'_>,
    id: Option<String>,
    name: Option<&str>,
) -> (file: Result<FileId, ApiError>)
    ensures
        match id {
            Some(id) => file == Ok::<FileId, ApiError>(id),
            None => if name is None {
                file == Err::<FileId, ApiError>(ApiError::MissingSelector)
            } else {
                match *snapshot {
                    SharedSnapshot::Absent => file == Err::<FileId, ApiError>(ApiError::NoState),
                    SharedSnapshot::Unreadable => file == Err::<FileId, ApiError>(
                        ApiError::InvalidState,
                    ),
                    SharedSnapshot::Known(state) => {
                        let found = state.files@.filter(file_asked(None, name));
                        file == (if found.len() == 0 {
                            Err::<FileId, ApiError>(ApiError::FileNotFound)
                        } else if found.len() > 1 {
                            Err(ApiError::AmbiguousFile)
                        } else {
                            Ok(found[0].id)
                        })
                    },
                }
            },
        },
{
    if let Some(id) = id {
        return Ok(id);
    }
    if name.is_none() {
        return Err(ApiError::MissingSelector);
    }
    let state = match snapshot {
        SharedSnapshot::Absent => {
            return Err(ApiError::NoState);
        },
        SharedSnapshot::Unreadable => {
            return Err(ApiError::InvalidState);
        },
        SharedSnapshot::Known(state) => state,
    };
    match find_files(&state.files, None, name) {
        Found::Nothing => Err(ApiError::FileNotFound),
        Found::One(at) => Ok(state.files[at].id.clone()),
        Found::Several => Err(ApiError::AmbiguousFile),
    }
}

/// Where addresses go.
#[derive(Debug, PartialEq, Eq)]
pub enum UrlDispatch {
    Nowhere,
    Action(UiAction),
    Event(DownloadEvent),
}

/// Where addresses go: to the application where the interface is connected to it, else straight
/// to the download task; nowhere where there are none.
pub fn dispatch_urls(connected: bool, urls: Vec<String>) -> (dispatch: UrlDispatch)
    ensures
        dispatch == (if urls@.len() == 0 {
            UrlDispatch::Nowhere
        } else if connected {
            UrlDispatch::Action(UiAction::AddUrls(urls))
        } else {
            UrlDispatch::Event(DownloadEvent::UrlsReceived { urls })
        }),
{
    if urls.len() == 0 {
        UrlDispatch::Nowhere
    } else if connected {
        UrlDispatch::Action(UiAction::AddUrls(urls))
    } else {
        UrlDispatch::Event(DownloadEvent::UrlsReceived { urls })
    }
}

/// Why the published state is not streamed.
pub fn stream_refusal(remote_tui_stream: bool, connected: bool) -> (refusal: Option<ApiError>)
    ensures
        refusal == (if !remote_tui_stream {
            Some(ApiError::NoStream)
        } else if !connected {
            Some(ApiError::NoState)
        } else {
            None
        }),
{
    if !remote_tui_stream {
        Some(ApiError::NoStream)
    } else if !connected {
        Some(ApiError::NoState)
    } else {
        None
    }
}

} // verus!
