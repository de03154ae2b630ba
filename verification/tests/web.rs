//! Requests from other machines and the page for the browser.

use octo_dl::bookmarklet::{api_key_header, bookmarklet_html};
use octo_dl::dashboard::{
    DashboardFileRow, DashboardFileStatus, DashboardPackageRow, DashboardUiMode,
    DownloadDashboardState,
};
use octo_dl::events::DownloadEvent;
use octo_dl::html::{
    append_unique_urls, decode_html_entity, html_escape_attr, html_escape_text, html_to_text,
    merge_page_urls,
};
use octo_dl::ids::PackageId;
use octo_dl::model::PackageStatus;
use octo_dl::settings::UiAction;
use octo_dl::web::{
    action_for, dispatch_urls, infer_host, infer_origin, parse_forwarded_param, provided_api_key,
    require_api_key, resolve_action_target, resolve_file_id, resolve_package_id, stream_refusal,
    ActionTarget, ApiError, ProxyHeaders, SharedSnapshot, TargetAction, UrlDispatch,
};

const PACKAGE: PackageId = PackageId { raw: 0xabc };
const OTHER: PackageId = PackageId { raw: 0xdef };

fn no_headers<'a>() -> ProxyHeaders<'a> {
    ProxyHeaders {
        forwarded_host: None,
        forwarded: None,
        host: None,
        forwarded_proto: None,
    }
}

fn file(id: &str, name: &str) -> DashboardFileRow {
    DashboardFileRow {
        id: id.to_string(),
        package_id: String::new(),
        name: name.to_string(),
        size: 0,
        downloaded: 0,
        speed: 0,
        status: DashboardFileStatus::Queued,
        package_label: None,
    }
}

fn package(id: &str, source_url: &str, display_name: &str) -> DashboardPackageRow {
    DashboardPackageRow {
        id: id.to_string(),
        source_url: source_url.to_string(),
        display_name: display_name.to_string(),
        status: PackageStatus::Queued,
        file_ids: Vec::new(),
        present_files: 0,
        completed_files: 0,
        downloaded_bytes: 0,
        total_bytes: 0,
        percent: 0,
        expanded: false,
        folder_label: None,
        error: None,
    }
}

fn state(
    packages: Vec<DashboardPackageRow>,
    files: Vec<DashboardFileRow>,
) -> DownloadDashboardState {
    let mut state = DownloadDashboardState::empty(DashboardUiMode::Tui, false, String::new(), 1);
    state.packages = packages;
    state.files = files;
    state
}

#[test]
fn dispatch_urls_without_shared_state_sends_download_event() {
    let urls = vec!["https://mega.nz/file/abc#key".to_string()];
    assert_eq!(
        dispatch_urls(false, urls.clone()),
        UrlDispatch::Event(DownloadEvent::UrlsReceived { urls })
    );
}

#[test]
fn dispatch_urls_with_shared_state_sends_ui_action() {
    let urls = vec!["https://mega.nz/folder/abc#key".to_string()];
    assert_eq!(
        dispatch_urls(true, urls.clone()),
        UrlDispatch::Action(UiAction::AddUrls(urls))
    );
    assert_eq!(dispatch_urls(true, Vec::new()), UrlDispatch::Nowhere);
}

#[test]
fn resolve_file_id_by_id_does_not_require_shared_state() {
    let id = resolve_file_id(&SharedSnapshot::Absent, Some("file-id".to_string()), None)
        .expect("explicit id should resolve");

    assert_eq!(id, "file-id");
}

#[test]
fn resolve_file_id_by_name_reports_all_lookup_cases() {
    let state = state(
        Vec::new(),
        vec![
            file("one", "unique.mkv"),
            file("two", "dup.mkv"),
            file("three", "dup.mkv"),
        ],
    );
    let snapshot = SharedSnapshot::Known(&state);

    let id = resolve_file_id(&snapshot, None, Some("unique.mkv"))
        .expect("unique name should resolve");
    assert_eq!(id, "one");

    let missing = resolve_file_id(&snapshot, None, None).expect_err("missing selector");
    assert_eq!(missing.status(), 400);

    let not_found = resolve_file_id(&snapshot, None, Some("missing.mkv")).expect_err("not found");
    assert_eq!(not_found.status(), 404);

    let duplicate = resolve_file_id(&snapshot, None, Some("dup.mkv")).expect_err("duplicate");
    assert_eq!(duplicate.status(), 409);
}

#[test]
fn resolve_package_id_matches_package_rows() {
    let state = state(
        vec![
            package(&PACKAGE.to_text(), "https://mega.nz/folder/pkg", "Package"),
            package(&OTHER.to_text(), "https://mega.nz/folder/other", "Other"),
        ],
        Vec::new(),
    );
    let snapshot = SharedSnapshot::Known(&state);

    let by_id = resolve_package_id(&snapshot, Some(&PACKAGE.to_text()), None)
        .expect("package lookup should succeed")
        .expect("package should resolve");
    assert_eq!(by_id, PACKAGE);

    let by_name = resolve_package_id(&snapshot, None, Some("Package"))
        .expect("package lookup should succeed")
        .expect("package should resolve");
    assert_eq!(by_name, PACKAGE);
}

#[test]
fn packages_of_one_name_cannot_be_told_apart() {
    let state = state(
        vec![
            package(&PACKAGE.to_text(), "https://mega.nz/folder/a", "Same"),
            package(&OTHER.to_text(), "https://mega.nz/folder/b", "Same"),
            package("not-an-id", "https://mega.nz/folder/c", "Broken"),
        ],
        Vec::new(),
    );
    let snapshot = SharedSnapshot::Known(&state);

    let duplicate =
        resolve_package_id(&snapshot, None, Some("Same")).expect_err("names should conflict");
    assert_eq!(duplicate.status(), 409);
    let broken =
        resolve_package_id(&snapshot, None, Some("Broken")).expect_err("id should be invalid");
    assert_eq!(broken.status(), 500);
    assert_eq!(broken.text(), "invalid package id in app state");
    assert_eq!(resolve_package_id(&snapshot, None, None), Ok(None));
}

#[test]
fn retry_api_dispatches_package_action_for_package_id() {
    let state = state(
        vec![package(
            &PACKAGE.to_text(),
            "https://mega.nz/folder/pkg",
            "Package",
        )],
        Vec::new(),
    );
    let target = resolve_action_target(
        &SharedSnapshot::Known(&state),
        Some(&PACKAGE.to_text()),
        None,
    )
    .expect("target should resolve");

    assert_eq!(
        action_for(TargetAction::Retry, target),
        UiAction::RetryPackage(PACKAGE)
    );
}

#[test]
fn targets_are_files_where_no_package_answers() {
    let state = state(
        vec![package(&PACKAGE.to_text(), "https://mega.nz/folder/pkg", "Package")],
        vec![file("one", "a.mkv"), file("two", "Package")],
    );
    let snapshot = SharedSnapshot::Known(&state);

    assert_eq!(
        resolve_action_target(&snapshot, None, Some("a.mkv")),
        Ok(ActionTarget::File("one".to_string()))
    );
    assert_eq!(
        resolve_action_target(&snapshot, None, Some("Package")),
        Err(ApiError::AmbiguousSelector)
    );
    assert_eq!(
        resolve_action_target(&snapshot, None, None),
        Err(ApiError::MissingSelector)
    );
    assert_eq!(
        resolve_action_target(&SharedSnapshot::Absent, None, Some("a.mkv")),
        Err(ApiError::NoState)
    );
    assert_eq!(
        resolve_action_target(&SharedSnapshot::Unreadable, None, Some("a.mkv")),
        Err(ApiError::InvalidState)
    );
    let lost = resolve_action_target(&snapshot, None, Some("zzz")).expect_err("nothing there");
    assert_eq!(lost.status(), 404);
    assert_eq!(lost.text(), "no package or file found for zzz");
}

#[test]
fn resolve_file_id_by_name_requires_valid_shared_state() {
    let unavailable = resolve_file_id(&SharedSnapshot::Absent, None, Some("file.mkv"))
        .expect_err("no dashboard");
    assert_eq!(unavailable.status(), 503);

    let invalid = resolve_file_id(&SharedSnapshot::Unreadable, None, Some("file.mkv"))
        .expect_err("bad state");
    assert_eq!(invalid.status(), 500);
}

#[test]
fn require_api_key_accepts_header_and_bearer_token() {
    assert!(require_api_key(Some("secret"), Some("secret"), None).is_none());
    assert!(require_api_key(Some("secret"), None, Some("Bearer secret")).is_none());
    assert!(require_api_key(None, None, None).is_none());
}

#[test]
fn require_api_key_rejects_missing_or_wrong_key() {
    let missing = require_api_key(Some("secret"), None, None).expect("missing key should reject");
    assert_eq!(missing.status(), 401);

    let wrong =
        require_api_key(Some("secret"), Some("wrong"), None).expect("wrong key should reject");
    assert_eq!(wrong.status(), 401);
    assert_eq!(wrong.text(), "invalid api key");
}

#[test]
fn dashboard_url_submission_still_requires_configured_api_key() {
    assert_eq!(
        require_api_key(Some("secret"), None, None).map(|error| error.status()),
        Some(401)
    );
    assert_eq!(
        provided_api_key(None, Some("Bearer  spaced ")).as_deref(),
        Some(" spaced ")
    );
    assert_eq!(provided_api_key(Some("  "), Some("Bearer k")).as_deref(), Some("k"));
    assert_eq!(provided_api_key(None, Some("Basic abc")), None);
}

#[test]
fn forwarded_header_drives_public_host() {
    let mut headers = no_headers();
    headers.forwarded = Some(r#"for=192.0.2.10;proto=https;host="octo.example""#);

    assert_eq!(infer_host(&headers, None, "127.0.0.1:9723"), "octo.example");
    assert_eq!(
        infer_origin(&headers, None, "127.0.0.1:9723"),
        "https://octo.example"
    );
}

#[test]
fn forwarded_host_precedence_matches_proxy_conventions() {
    let mut headers = no_headers();
    headers.forwarded_host = Some("public.example, internal.example");
    headers.forwarded = Some("proto=http;host=ignored.example");

    assert_eq!(
        infer_host(&headers, None, "127.0.0.1:9723"),
        "public.example"
    );
}

#[test]
fn hosts_fall_back_to_the_request_and_the_configuration() {
    let mut headers = no_headers();
    assert_eq!(infer_host(&headers, None, "own:1"), "own:1");
    assert_eq!(infer_host(&headers, Some("configured"), "own:1"), "configured");
    headers.host = Some("asked:2");
    assert_eq!(infer_host(&headers, Some("configured"), "own:1"), "asked:2");
    assert_eq!(
        parse_forwarded_param("for=a;Host=first, host=second", "host").as_deref(),
        Some("first")
    );
    assert_eq!(parse_forwarded_param("for=a", "host"), None);
}

#[test]
fn streams_need_to_be_enabled() {
    assert_eq!(stream_refusal(false, true), Some(ApiError::NoStream));
    assert_eq!(stream_refusal(true, false), Some(ApiError::NoState));
    assert_eq!(stream_refusal(true, true), None);
}

#[test]
fn parse_api_extracts_url_from_syntax_highlighted_code_html() {
    let page =
        r#"<pre><code><span>https://mega.nz/</span><span>file/abc123#key</span></code></pre>"#;
    assert_eq!(html_to_text(page), "https://mega.nz/file/abc123#key");
}

#[test]
fn parse_api_extracts_multiple_folder_urls_from_pre_code_html() {
    let page = r#"<pre><code>
https://mega.nz/folder/first#first-key
https://mega.nz/folder/second#second-key
</code></pre>"#;
    let plain = html_to_text(page);
    let lines: Vec<&str> = plain.split_whitespace().collect();
    assert_eq!(
        lines,
        vec![
            "https://mega.nz/folder/first#first-key",
            "https://mega.nz/folder/second#second-key",
        ]
    );
}

#[test]
fn parse_api_extracts_code_url_with_numeric_html_entities() {
    let page = r#"<pre><code>https&#58;&#47;&#47;mega.nz&#47;folder&#47;abc123&#35;key456</code></pre>"#;
    assert_eq!(html_to_text(page), "https://mega.nz/folder/abc123#key456");
}

#[test]
fn entities_stand_for_characters() {
    assert_eq!(decode_html_entity("amp;"), '&');
    assert_eq!(decode_html_entity("#x41;"), 'A');
    assert_eq!(decode_html_entity("#65;"), 'A');
    assert_eq!(html_to_text("a &lt; b"), "a < b");
}

#[test]
fn addresses_are_gathered_once() {
    let page = vec!["a".to_string(), "b".to_string(), "a".to_string()];
    let text = vec!["c".to_string(), "b".to_string()];
    let fallback = vec!["f".to_string()];
    assert_eq!(
        merge_page_urls(&page, &text, &fallback),
        vec!["a".to_string(), "b".to_string(), "f".to_string()]
    );
    assert_eq!(
        merge_page_urls(&Vec::new(), &text, &fallback),
        vec!["c".to_string(), "b".to_string(), "f".to_string()]
    );
    let mut urls = vec!["a".to_string()];
    append_unique_urls(&mut urls, &page);
    assert_eq!(urls, vec!["a".to_string(), "b".to_string()]);
}

#[test]
fn bookmarklet_mentions_fallback_host_and_api_key_header() {
    let html = bookmarklet_html(
        "https://proxy.host",
        "proxy.host",
        r#"{"x-api-key":"secret"}"#,
    );
    assert!(html.contains("proxy.host"));
    assert!(html.contains("bookmarklet"));
    assert!(html.contains("&quot;x-api-key&quot;:&quot;secret&quot;"));
    assert!(html.contains("https://proxy.host"));
    assert!(html.contains("HTTP '+r.status"));
    assert!(!html.contains("__FALLBACK_HOST__"));
    assert!(!html.contains("__FALLBACK_ORIGIN__"));
    assert!(!html.contains("__API_KEY_HEADER__"));
}

#[test]
fn bookmarklet_href_is_html_attribute_escaped() {
    let html = bookmarklet_html(
        "https://proxy.host",
        "proxy.host",
        r#"{"x-api-key":"secret"}"#,
    );
    let start = html.find(r#"href=""#).expect("href should exist") + r#"href=""#.len();
    let end = html[start..]
        .find('"')
        .map(|offset| start + offset)
        .expect("href attribute should close");
    let href = &html[start..end];

    assert!(href.starts_with("javascript:void"));
    assert!(href.contains("d.count&gt;0"));
    assert!(href.contains("&quot;x-api-key&quot;:&quot;secret&quot;"));
    assert!(!href.contains('"'));
    assert!(!href.contains('>'));
}

#[test]
fn origins_are_quoted_in_the_script() {
    let html = bookmarklet_html("https://a\"b", "h", "{}");
    assert!(html.contains("&quot;https://a\\&quot;b&quot;"));
}

#[test]
fn keys_are_quoted_in_the_header() {
    assert_eq!(api_key_header(None), "{}");
    assert_eq!(
        api_key_header(Some("se\"cret\n")),
        "{\"x-api-key\":\"se\\\"cret\\n\"}"
    );
}

#[test]
fn escaped_text_has_no_markup() {
    assert_eq!(html_escape_attr("<a href=\"x\">&</a>"), "&lt;a href=&quot;x&quot;&gt;&amp;&lt;/a&gt;");
    assert_eq!(html_escape_text("<a \"x\">&"), "&lt;a \"x\"&gt;&amp;");
}
