//! The page that offers the bookmarklet.

use vstd::prelude::*;

use crate::html::{self, html_escape_attr, html_escape_text, replace};
use crate::ids;
use crate::text::quoted;

verus! {

/// The page, with marks where the link and the host go.
pub const PAGE: &'static str = r#"<!DOCTYPE html>
<html lang="en">
<head>
<meta charset="utf-8">
<title>octo-dl bookmarklet</title>
<style>
  body { font-family: system-ui, sans-serif; max-width: 480px; margin: 60px auto; color: #e0e0e0; background: #1a1a2e; }
  h1 { font-size: 1.4rem; }
  p { line-height: 1.5; }
  a.bookmarklet {
    display: inline-block; padding: 10px 20px; margin: 20px 0;
    background: #0f3460; color: #e94560; border-radius: 6px;
    text-decoration: none; font-weight: bold; font-size: 1.1rem;
    border: 2px solid #e94560; cursor: grab;
  }
  a.bookmarklet:hover { background: #16213e; }
  code { background: #16213e; padding: 2px 6px; border-radius: 3px; }
</style>
</head>
<body>
<h1>octo-dl bookmarklet</h1>
<p>Drag this link to your bookmarks bar:</p>
<a class="bookmarklet" href="__BOOKMARKLET_HREF__">Send to octo-dl</a>
<p>Click it on any page to send the page HTML (with selected text as fallback) to octo-dl for download.</p>
<p>Configured to use <code>__FALLBACK_HOST__</code></p>
</body>
</html>"#;

/// The script of the bookmarklet up to the origin.
pub const SCRIPT_HEAD: &'static str = "javascript:void(function(){var page=document.documentElement.outerHTML;var selected=window.getSelection().toString();var h=";

/// The script of the bookmarklet from the origin to the headers.
pub const SCRIPT_MIDDLE: &'static str = ";var headers=Object.assign({'Content-Type':'application/json'},";

/// The script of the bookmarklet from the headers on.
pub const SCRIPT_TAIL: &'static str = ");fetch(h+'/api/parse',{method:'POST',headers:headers,body:JSON.stringify({page:page,fallback:selected})}).then(function(r){if(!r.ok){return r.text().then(function(t){throw new Error('HTTP '+r.status+(t?': '+t:''))})}return r.json()}).then(function(d){if(d.count>0){alert('Sent '+d.count+' URL(s) to octo-dl')}else{alert('No URLs found on this page')}}).catch(function(e){alert('Error: '+e)})})()";

/// What the `Debug` format of a `str` of the standard library is: the text in quotation marks,
/// with what would end it or could not be seen escaped.
pub uninterp spec fn debug_of(text: Seq<char>) -> Seq<char>;

/// `format!` of the standard library with `{:?}` on a `str`. What is escaped in it goes by the
/// Unicode tables of the standard library and is not stated.
#[verifier::external_body]
fn debug_text(text: &str) -> (shown: String)
    ensures
        shown@ == debug_of(text@),
{
    format!("{text:?}")
}

/// A character in a JSON string.
pub open spec fn json_escape(c: char) -> Seq<char> {
    let code = c as int;
    if c == '"' {
        seq!['\\', '"']
    } else if c == '\\' {
        seq!['\\', '\\']
    } else if code == 8 {
        seq!['\\', 'b']
    } else if code == 9 {
        seq!['\\', 't']
    } else if code == 10 {
        seq!['\\', 'n']
    } else if code == 12 {
        seq!['\\', 'f']
    } else if code == 13 {
        seq!['\\', 'r']
    } else if code < 32 {
        seq!['\\', 'u', '0', '0', ids::hex_char(code / 16), ids::hex_char(code % 16)]
    } else {
        seq![c]
    }
}

/// The characters of a JSON string.
pub open spec fn json_body(text: Seq<char>) -> Seq<char>
    decreases text.len(),
{
    if text.len() == 0 {
        Seq::empty()
    } else {
        json_body(text.drop_last()) + json_escape(text.last())
    }
}

/// `serde_json::to_string` on a `str`: the text in quotation marks, with quotation marks,
/// backslashes and control characters escaped. It fails on no text; nothing would be written if
/// it did.
#[verifier::external_body]
fn json_string(text: &str) -> (shown: String)
    ensures
        shown@ == seq!['"'] + json_body(text@) + seq!['"'],
{
    serde_json::to_string(text).unwrap_or_default()
}

/// The headers that the bookmarklet sends: the key of the interface, where it has one.
pub open spec fn key_header(api_key: Option<&str>) -> Seq<char> {
    match api_key {
        Some(key) => "{\"x-api-key\":"@ + (seq!['"'] + json_body(key@) + seq!['"']) + "}"@,
        None => "{}"@,
    }
}

/// The headers that the bookmarklet sends: the key of the interface, where it has one.
pub fn api_key_header(api_key: Option<&str>) -> (header: String)
    ensures
        header@ == key_header(api_key),
{
    match api_key {
        Some(key) => quoted("{\"x-api-key\":", &json_string(key), "}"),
        None => "{}".to_owned(),
    }
}

/// The script of the bookmarklet.
pub open spec fn script(origin: Seq<char>, header: Seq<char>) -> Seq<char> {
    SCRIPT_HEAD@ + debug_of(origin) + SCRIPT_MIDDLE@ + header + SCRIPT_TAIL@
}

/// The script of the bookmarklet.
fn bookmarklet_href(fallback_origin: &str, api_key_header: &str) -> (href: String)
    ensures
        href@ == script(fallback_origin@, api_key_header@),
{
    script_around(&debug_text(fallback_origin), api_key_header)
}

/// The script of the bookmarklet around the text of the origin.
pub fn script_around(origin: &str, api_key_header: &str) -> (href: String)
    ensures
        href@ == SCRIPT_HEAD@ + origin@ + SCRIPT_MIDDLE@ + api_key_header@ + SCRIPT_TAIL@,
{
    let mut href = SCRIPT_HEAD.to_owned();
    href.append(origin);
    href.append(SCRIPT_MIDDLE);
    href.append(api_key_header);
    href.append(SCRIPT_TAIL);
    href
}

/// The page around a link and a host.
pub open spec fn page_around(href: Seq<char>, host: Seq<char>) -> Seq<char> {
    html::replaced_from(
        html::replaced_from(PAGE@, "__BOOKMARKLET_HREF__"@, html::escaped(href, true), 0),
        "__FALLBACK_HOST__"@,
        html::escaped(host, false),
        0,
    )
}

/// The page around a link and a host.
pub fn bookmarklet_page(href: &str, host: &str) -> (page: String)
    ensures
        page@ == page_around(href@, host@),
{
    proof {
        reveal_strlit("__BOOKMARKLET_HREF__");
        reveal_strlit("__FALLBACK_HOST__");
    }
    let linked = replace(PAGE, "__BOOKMARKLET_HREF__", &html_escape_attr(href));
    replace(&linked, "__FALLBACK_HOST__", &html_escape_text(host))
}

/// The page that offers the bookmarklet.
pub fn bookmarklet_html(fallback_origin: &str, fallback_host: &str, api_key_header: &str) -> (page:
    String)
    ensures
        page@ == page_around(script(fallback_origin@, api_key_header@), fallback_host@),
{
    bookmarklet_page(&bookmarklet_href(fallback_origin, api_key_header), fallback_host)
}

} // verus!
