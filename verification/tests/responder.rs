use live_server::listing::{entry_verdicts, DirEntry};
use live_server::options::Options;
use live_server::responder::{
    check_access, is_reload_request, locate, refuse, resolve, respond, respond_failure,
    respond_with_listing, split, Body, Located, ReadOutcome, Response, Served, Status,
    FORBIDDEN_MESSAGE,
};
use live_server::ignore_filter::{IgnoreError, RuleFile};
use live_server::script::{RELOAD_PAYLOAD, WEBSOCKET_FUNCTION};

const PAGE: &str = "<!DOCTYPE html>\n<html>\n<body>\nHello\n</body>\n</html>\n";
const INDEX_JS: &str = "console.log('hello');\n";

fn names(list: &[&str]) -> Vec<String> {
    list.iter().map(|s| s.to_string()).collect()
}

fn text_of(response: &Response) -> String {
    match &response.body {
        Body::Text(text) => text.clone(),
        Body::Bytes(bytes) => String::from_utf8(bytes.clone()).unwrap(),
        Body::Empty => String::new(),
    }
}

fn done(served: Served) -> Response {
    match served {
        Served::Done(response) => response,
        Served::ListDirectory => panic!("a listing was asked for"),
    }
}

fn target_of(located: Located) -> (Vec<String>, String) {
    match located {
        Located::File { target, content_type } => (target, content_type),
        Located::Redirect(_) => panic!("the request was redirected"),
    }
}

fn not_found() -> ReadOutcome {
    ReadOutcome::NotFound("No such file or directory (os error 2)".to_string())
}

#[test]
fn request() {
    let options = Options::default();

    // the index page
    let (target, content_type) = target_of(locate("/", true));
    assert_eq!(target, names(&["index.html"]));
    assert_eq!(content_type, "text/html");
    let is_reload = is_reload_request(None);
    let response = done(respond(
        &options,
        is_reload,
        true,
        &content_type,
        ReadOutcome::Content(PAGE.as_bytes().to_vec()),
    ));
    assert_eq!(response.status, Status::Success);
    assert_eq!(response.status.code(), 200);
    // the header is the guessed media type as it stands: no `charset` is added to it
    assert_eq!(response.content_type.as_deref(), Some("text/html"));
    let text = text_of(&response);
    let target_text = format!("{}<script>{}(false)</script>", PAGE, WEBSOCKET_FUNCTION);
    assert_eq!(text, target_text);
    assert!(text.contains("<script>"));

    // a script file
    let (target, content_type) = target_of(locate("/index.js", false));
    assert_eq!(target, names(&["index.js"]));
    assert_eq!(content_type, "text/javascript");
    let response = done(respond(
        &options,
        false,
        false,
        &content_type,
        ReadOutcome::Content(INDEX_JS.as_bytes().to_vec()),
    ));
    assert_eq!(response.status, Status::Success);
    // as above, without a `charset`
    assert_eq!(response.content_type.as_deref(), Some("text/javascript"));
    assert!(matches!(&response.body, Body::Bytes(bytes) if bytes == INDEX_JS.as_bytes()));

    // a page that does not exist
    let (_, content_type) = target_of(locate("/404.html", false));
    let response = done(respond(&options, false, false, &content_type, not_found()));
    assert_eq!(response.status, Status::NotFound);
    assert_eq!(response.status.code(), 404);
    assert_eq!(response.content_type.as_deref(), Some("text/html"));
    assert!(text_of(&response).starts_with("<!DOCTYPE html>"));

    // an asset that does not exist
    let (_, content_type) = target_of(locate("/favicon.ico", false));
    let response = done(respond(&options, false, false, &content_type, not_found()));
    assert_eq!(response.status, Status::NotFound);
    assert_eq!(response.content_type.as_deref(), Some("image/x-icon"));
    assert!(matches!(response.body, Body::Empty));

    // a reload check of the index page
    let is_reload = is_reload_request(Some("reload"));
    assert!(is_reload);
    let (_, content_type) = target_of(locate("/", true));
    let response = done(respond(
        &options,
        is_reload,
        true,
        &content_type,
        ReadOutcome::Content(PAGE.as_bytes().to_vec()),
    ));
    assert_eq!(response.status, Status::Success);
    assert_eq!(response.content_type.as_deref(), Some("text/html"));
    let target_text = format!("{}<script>{}</script>", PAGE, RELOAD_PAYLOAD);
    assert_eq!(text_of(&response), target_text);

    // a reload check of a page that does not exist
    let (_, content_type) = target_of(locate("/404.html", false));
    let response = done(respond(&options, is_reload, false, &content_type, not_found()));
    assert_eq!(response.status, Status::NotFound);
    assert_eq!(response.content_type.as_deref(), Some("text/html"));
    assert!(!text_of(&response).contains("<script>"));
}

#[test]
fn disable_index_listing() {
    let options = Options { hard_reload: true, index_listing: false, auto_ignore: false };
    let (_, content_type) = target_of(locate("/", true));
    let response = done(respond(&options, false, true, &content_type, not_found()));
    assert_eq!(response.status, Status::NotFound);
    // the header is the guessed media type as it stands: no `charset` is added to it
    assert_eq!(response.content_type.as_deref(), Some("text/html"));
    let text = text_of(&response);
    assert!(text.starts_with("<!DOCTYPE html>"));
    assert!(text.contains("<script>"));
}

#[test]
fn enable_index_listing() {
    let options = Options { hard_reload: true, index_listing: true, auto_ignore: false };
    let (_, content_type) = target_of(locate("/", true));
    let served = respond(&options, false, true, &content_type, not_found());
    assert!(matches!(served, Served::ListDirectory));
    let entries = vec![DirEntry { name: "not_index.html".to_string(), is_dir: false }];
    let response = respond_with_listing(&options, "/", false, &content_type, &entries, &vec![]);
    assert_eq!(response.status, Status::Success);
    // the header is the guessed media type as it stands: no `charset` is added to it
    assert_eq!(response.content_type.as_deref(), Some("text/html"));
    let text = text_of(&response);
    assert!(text.ends_with(
        "<body><ul><li><a href=\"not_index.html\">not_index.html</a></li></ul></body>\n</html>\n"
    ));
    assert!(text.contains("<script>"));
    assert!(text.contains(&format!("{}(true)", WEBSOCKET_FUNCTION)));
}

#[test]
fn listing_below_the_root_opens_with_the_parent() {
    let options = Options { hard_reload: false, index_listing: true, auto_ignore: false };
    let entries = vec![
        DirEntry { name: "b.txt".to_string(), is_dir: false },
        DirEntry { name: "a".to_string(), is_dir: true },
    ];
    let response =
        respond_with_listing(&options, "/docs/", false, "text/html", &entries, &vec![]);
    let text = text_of(&response);
    assert!(text.contains("<title>Index of /docs/</title>"));
    assert!(text.contains(
        "<ul><li><a href=\"..\">..</a></li>\n<li><a href=\"a/\">a/</a></li>\n<li><a href=\"b.txt\">b.txt</a></li></ul>"
    ));
}

#[test]
fn listing_leaves_out_ignored_entries() {
    let options = Options { hard_reload: false, index_listing: true, auto_ignore: true };
    let root = names(&["srv", "www"]);
    let entries = vec![
        DirEntry { name: ".git".to_string(), is_dir: true },
        DirEntry { name: "a.log".to_string(), is_dir: false },
        DirEntry { name: "a.html".to_string(), is_dir: false },
    ];
    let rules = RuleFile::Lines(names(&["*.log"]));
    let verdicts = entry_verdicts(&root, &entries, &root, &rules);
    let response = respond_with_listing(&options, "/", false, "text/html", &entries, &verdicts);
    let text = text_of(&response);
    assert!(text.contains("<ul><li><a href=\"a.html\">a.html</a></li></ul>"));
    assert!(!text.contains(".git"));
    assert!(!text.contains("a.log"));
}

#[test]
fn split_cuts_at_every_slash() {
    assert_eq!(split(""), names(&[""]));
    assert_eq!(split("/"), names(&["", ""]));
    assert_eq!(split("/a/b"), names(&["", "a", "b"]));
    assert_eq!(split("a//b/"), names(&["a", "", "b", ""]));
}

#[test]
fn resolve_gives_the_names_below_the_root() {
    assert_eq!(resolve("/"), names(&[]));
    assert_eq!(resolve(""), names(&[]));
    assert_eq!(resolve("/a/b.html"), names(&["a", "b.html"]));
    assert_eq!(resolve("/a//b/./c/"), names(&["a", "b", "c"]));
    assert_eq!(resolve("/a/b/../c"), names(&["a", "c"]));
    assert_eq!(resolve("/h\u{e9}llo/w\u{f6}rld"), names(&["h\u{e9}llo", "w\u{f6}rld"]));
}

#[test]
fn resolve_never_leaves_the_root() {
    assert_eq!(resolve("/../etc/passwd"), names(&["etc", "passwd"]));
    assert_eq!(resolve("/../../.."), names(&[]));
    assert_eq!(resolve("/a/../../b"), names(&["b"]));
    assert_eq!(resolve("/.../x"), names(&["...", "x"]));
}

#[test]
fn a_directory_without_closing_slash_is_redirected() {
    for uri in ["/docs", "/a/b", "/a/../docs", ""] {
        match locate(uri, true) {
            Located::Redirect(response) => {
                assert_eq!(response.status, Status::TemporaryRedirect);
                assert_eq!(response.status.code(), 307);
                assert_eq!(response.location, Some(format!("{}/", uri)));
                assert_eq!(response.content_type, None);
                assert_eq!(response.cache_control, None);
                assert!(matches!(response.body, Body::Empty));
            }
            Located::File { .. } => panic!("no redirect for {:?}", uri),
        }
    }
}

#[test]
fn a_directory_with_closing_slash_leads_to_its_index() {
    let (target, content_type) = target_of(locate("/docs/", true));
    assert_eq!(target, names(&["docs", "index.html"]));
    assert_eq!(content_type, "text/html");
}

#[test]
fn a_file_leads_to_itself() {
    let (target, content_type) = target_of(locate("/css/site.css", false));
    assert_eq!(target, names(&["css", "site.css"]));
    assert_eq!(content_type, "text/css");
    let (target, content_type) = target_of(locate("/README", false));
    assert_eq!(target, names(&["README"]));
    assert_eq!(content_type, "text/plain");
    let (_, content_type) = target_of(locate("/PHOTO.PNG", false));
    assert_eq!(content_type, "image/png");
}

#[test]
fn only_the_exact_query_marks_a_reload_check() {
    assert!(is_reload_request(Some("reload")));
    assert!(!is_reload_request(Some("reload=1")));
    assert!(!is_reload_request(Some("a&reload")));
    assert!(!is_reload_request(Some("")));
    assert!(!is_reload_request(None));
}

#[test]
fn assets_are_cached_in_hard_mode_only() {
    let bytes = vec![0u8, 159, 146, 150];
    let hard = Options { hard_reload: true, index_listing: true, auto_ignore: false };
    let response =
        done(respond(&hard, false, false, "image/png", ReadOutcome::Content(bytes.clone())));
    assert_eq!(response.cache_control.as_deref(), Some("max-age=30"));
    assert!(matches!(&response.body, Body::Bytes(b) if *b == bytes));
    let soft = Options::default();
    let response =
        done(respond(&soft, false, false, "image/png", ReadOutcome::Content(bytes.clone())));
    assert_eq!(response.cache_control, None);
    let response = done(respond(
        &hard,
        false,
        false,
        "text/html",
        ReadOutcome::Content(PAGE.as_bytes().to_vec()),
    ));
    assert_eq!(response.cache_control, None);
}

#[test]
fn a_page_that_is_no_text_fails_with_500() {
    let options = Options::default();
    let bytes = vec![b'<', 0xff, 0xfe, b'>'];
    let response = done(respond(&options, false, false, "text/html", ReadOutcome::Content(bytes)));
    assert_eq!(response.status, Status::InternalServerError);
    assert_eq!(response.status.code(), 500);
    assert_eq!(response.content_type.as_deref(), Some("text/html"));
    let text = text_of(&response);
    assert!(text.contains("invalid utf-8"));
    assert!(!text.contains("<script>"));
}

#[test]
fn a_page_with_wide_characters_is_served_whole() {
    let options = Options::default();
    let page = "<p>\u{e9}\u{4e2d}\u{1f600}</p>";
    let response = done(respond(
        &options,
        true,
        false,
        "text/html",
        ReadOutcome::Content(page.as_bytes().to_vec()),
    ));
    assert_eq!(text_of(&response), format!("{}<script>{}</script>", page, RELOAD_PAYLOAD));
}

#[test]
fn other_read_failures_are_answered_with_500() {
    let options = Options::default();
    let response = done(respond(
        &options,
        false,
        true,
        "text/html",
        ReadOutcome::Failed("Permission denied (os error 13)".to_string()),
    ));
    assert_eq!(response.status, Status::InternalServerError);
    let text = text_of(&response);
    assert!(text.contains("Permission denied (os error 13)"));
    assert!(text.contains("<script>"));
    let response = respond_failure(Status::InternalServerError, "image/png", "gone", false, false);
    assert!(matches!(response.body, Body::Empty));
    assert_eq!(response.content_type.as_deref(), Some("image/png"));
}

#[test]
fn a_missing_file_in_a_directory_request_without_listing_is_404() {
    let options = Options { hard_reload: false, index_listing: false, auto_ignore: false };
    let response = done(respond(&options, false, true, "text/html", not_found()));
    assert_eq!(response.status, Status::NotFound);
    let options = Options { hard_reload: false, index_listing: true, auto_ignore: false };
    let response = done(respond(&options, false, false, "text/html", not_found()));
    assert_eq!(response.status, Status::NotFound);
}

#[test]
fn an_ignored_target_is_refused_with_403() {
    let response = refuse(&Ok(true), false, false).unwrap();
    assert_eq!(response.status, Status::Forbidden);
    assert_eq!(response.status.code(), 403);
    assert_eq!(response.content_type, None);
    let text = text_of(&response);
    assert!(text.starts_with("<!DOCTYPE html>"));
    assert!(text.contains(FORBIDDEN_MESSAGE));
    assert!(text.contains("<script>"));
    let response = refuse(&Ok(true), true, true).unwrap();
    assert!(!text_of(&response).contains("<script>"));
    assert!(refuse(&Ok(false), false, false).is_none());
}

#[test]
fn a_failed_check_is_answered_with_500() {
    let verdict = Err(IgnoreError { message: "bad pattern".to_string() });
    let response = refuse(&verdict, false, false).unwrap();
    assert_eq!(response.status, Status::InternalServerError);
    assert!(text_of(&response).contains("Failed to check ignore files: bad pattern"));
}

#[test]
fn access_is_checked_in_ignore_mode_only() {
    let root = names(&["srv", "www"]);
    let rules = RuleFile::Lines(names(&["*.log", "secret/"]));
    let on = Options { hard_reload: false, index_listing: true, auto_ignore: true };
    let off = Options::default();

    let hidden = names(&[".env"]);
    assert_eq!(check_access(&on, &root, &hidden, false, &RuleFile::Missing, false).unwrap().status, Status::Forbidden);
    assert!(check_access(&off, &root, &hidden, false, &RuleFile::Missing, false).is_none());

    let log = names(&["logs", "server.log"]);
    assert_eq!(check_access(&on, &root, &log, false, &rules, false).unwrap().status, Status::Forbidden);
    assert!(check_access(&on, &root, &log, false, &RuleFile::Missing, false).is_none());
    assert!(check_access(&off, &root, &log, false, &rules, false).is_none());

    let below_secret = names(&["secret", "index.html"]);
    assert_eq!(
        check_access(&on, &root, &below_secret, false, &rules, false).unwrap().status,
        Status::Forbidden
    );

    let page = names(&["index.html"]);
    assert!(check_access(&on, &root, &page, false, &rules, false).is_none());

    let unreadable = RuleFile::Unreadable("Is a directory (os error 21)".to_string());
    let refused = check_access(&on, &root, &page, false, &unreadable, false).unwrap();
    assert_eq!(refused.status, Status::InternalServerError);
    assert!(text_of(&refused).contains("Failed to check ignore files: Is a directory (os error 21)"));
    assert!(check_access(&off, &root, &page, false, &unreadable, false).is_none());

    let broken = RuleFile::Lines(names(&["{a,b"]));
    assert_eq!(
        check_access(&on, &root, &page, false, &broken, false).unwrap().status,
        Status::InternalServerError
    );
}
