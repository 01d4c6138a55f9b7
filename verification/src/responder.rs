//! What is answered for a request.
//!
//! A request is answered in steps, between which the caller looks at the
//! disk: the request path is resolved to names below the root; once it is
//! known whether those name a directory, the request is either redirected or
//! given a target file; in ignore mode the target may be refused; and once
//! the file was read, or could not be read, the response is written.

use crate::ignore_filter::{
    hidden_below, ignore_verdict, is_ignored, IgnoreError, RuleFile, RuleFileView,
};
use crate::listing::{
    get_index_listing, items_html, listed_labels, root_uri, shown_labels, DirEntry,
};
use crate::options::Options;
use crate::paths::{has_hidden_name, join, joined, same_text, texts, well_formed};
use crate::script::{format_script, script_text};
use crate::template::{error_html, error_page, index_html, index_page};
use vstd::prelude::*;
use vstd::string::*;
use vstd::utf8::{decode_utf8, valid_utf8};

verus! {

/// The status of a response.
#[derive(Clone, Copy, Debug, PartialEq, Eq, Structural)]
pub enum Status {
    /// 200
    Success,
    /// 307
    TemporaryRedirect,
    /// 403
    Forbidden,
    /// 404
    NotFound,
    /// 500
    InternalServerError,
}

/// What a response carries.
#[derive(Debug)]
pub enum Body {
    /// Nothing.
    Empty,
    /// A page or a message.
    Text(String),
    /// A file as it was read.
    Bytes(Vec<u8>),
}

/// A body as plain values.
pub enum BodyView {
    /// Nothing.
    Empty,
    /// A page or a message.
    Text(Seq<char>),
    /// A file as it was read.
    Bytes(Seq<u8>),
}

impl View for Body {
    type V = BodyView;

    open spec fn view(&self) -> BodyView {
        match self {
            Body::Empty => BodyView::Empty,
            Body::Text(text) => BodyView::Text(text@),
            Body::Bytes(bytes) => BodyView::Bytes(bytes@),
        }
    }
}

/// A response: a status, the headers that are set, and a body.
#[derive(Debug)]
pub struct Response {
    /// The status line.
    pub status: Status,
    /// The `Location` header.
    pub location: Option<String>,
    /// The `Content-Type` header.
    pub content_type: Option<String>,
    /// The `Cache-Control` header.
    pub cache_control: Option<String>,
    /// The body.
    pub body: Body,
}

/// A response as plain values.
pub struct ResponseView {
    /// The status line.
    pub status: Status,
    /// The `Location` header.
    pub location: Option<Seq<char>>,
    /// The `Content-Type` header.
    pub content_type: Option<Seq<char>>,
    /// The `Cache-Control` header.
    pub cache_control: Option<Seq<char>>,
    /// The body.
    pub body: BodyView,
}

/// The text of an optional header.
pub open spec fn header_text(header: Option<String>) -> Option<Seq<char>> {
    match header {
        Some(text) => Some(text@),
        None => None,
    }
}

impl View for Response {
    type V = ResponseView;

    open spec fn view(&self) -> ResponseView {
        ResponseView {
            status: self.status,
            location: header_text(self.location),
            content_type: header_text(self.content_type),
            cache_control: header_text(self.cache_control),
            body: self.body@,
        }
    }
}

/// Where a resolved request leads.
#[derive(Debug)]
pub enum Located {
    /// The request is answered at once, with a redirect.
    Redirect(Response),
    /// The request is for a file.
    File {
        /// The file's names below the root.
        target: Vec<String>,
        /// The media type guessed from the file's name.
        content_type: String,
    },
}

/// Where a request leads, as plain values.
pub enum LocatedView {
    /// The request is answered at once, with a redirect.
    Redirect(ResponseView),
    /// The request is for a file.
    File {
        /// The file's names below the root.
        target: Seq<Seq<char>>,
        /// The media type guessed from the file's name.
        content_type: Seq<char>,
    },
}

impl View for Located {
    type V = LocatedView;

    open spec fn view(&self) -> LocatedView {
        match self {
            Located::Redirect(response) => LocatedView::Redirect(response@),
            Located::File { target, content_type } => LocatedView::File {
                target: texts(target@),
                content_type: content_type@,
            },
        }
    }
}

/// How reading the target file went.
#[derive(Debug)]
pub enum ReadOutcome {
    /// The file's bytes.
    Content(Vec<u8>),
    /// There is no such file; the text says so.
    NotFound(String),
    /// The file could not be read; the text says why.
    Failed(String),
}

/// What to do once the read outcome is known.
#[derive(Debug)]
pub enum Served {
    /// Send this response.
    Done(Response),
    /// Read the directory and answer with its listing.
    ListDirectory,
}

/// The media type that `mime_guess` gives for a path, `text/plain` where it
/// knows none.
pub uninterp spec fn guessed_mime(path: Seq<char>) -> Seq<char>;

/// What std says of bytes that are no valid UTF-8.
pub uninterp spec fn utf8_error_text(bytes: Seq<u8>) -> Seq<char>;

/// `mime_guess::from_path` followed by `MimeGuess::first_or_text_plain`: the
/// first media type that the crate's table holds for the path's extension, or
/// `text/plain`; no disk is touched. The contract only names the result.
#[verifier::external_body]
fn guess_mime(path: &str) -> (mime: String)
    ensures
        mime@ == guessed_mime(path@),
{
    mime_guess::from_path(path).first_or_text_plain().as_ref().to_string()
}

/// `String::from_utf8` of std: the text that the bytes encode, or, where they
/// are no valid UTF-8, the error's description.
#[verifier::external_body]
fn decode_text(bytes: Vec<u8>) -> (decoded: Result<String, String>)
    ensures
        valid_utf8(bytes@) ==> decoded is Ok && decoded->Ok_0@ == decode_utf8(bytes@),
        !valid_utf8(bytes@) ==> decoded is Err && decoded->Err_0@ == utf8_error_text(bytes@),
{
    String::from_utf8(bytes).map_err(|err| err.to_string())
}

/// The request path cut at its slashes.
pub open spec fn split_segments(path: Seq<char>) -> Seq<Seq<char>>
    decreases path.len(),
{
    if path.len() == 0 {
        seq![Seq::empty()]
    } else {
        let before = split_segments(path.drop_last());
        if path.last() == '/' {
            before.push(Seq::empty())
        } else {
            before.drop_last().push(before.last().push(path.last()))
        }
    }
}

/// The name `.`.
pub open spec fn dot() -> Seq<char> {
    seq!['.']
}

/// The name `..`.
pub open spec fn dot_dot() -> Seq<char> {
    seq!['.', '.']
}

/// The segments as names below the root: empty segments and `.` are dropped,
/// and `..` takes back the name before it, or nothing at the root.
pub open spec fn normalized(segments: Seq<Seq<char>>) -> Seq<Seq<char>>
    decreases segments.len(),
{
    if segments.len() == 0 {
        Seq::empty()
    } else {
        let before = normalized(segments.drop_last());
        let last = segments.last();
        if last.len() == 0 || last == dot() {
            before
        } else if last == dot_dot() {
            if before.len() > 0 {
                before.drop_last()
            } else {
                before
            }
        } else {
            before.push(last)
        }
    }
}

/// The names below the root that a request path leads to.
pub open spec fn resolved(uri_path: Seq<char>) -> Seq<Seq<char>> {
    normalized(split_segments(uri_path))
}

/// The name of a directory's index page.
pub open spec fn index_name() -> Seq<char> {
    "index.html"@
}

/// The media type of pages.
pub open spec fn html_type() -> Seq<char> {
    "text/html"@
}

/// The redirect for a directory that was asked for without a closing slash.
pub open spec fn redirect_to_directory(uri_path: Seq<char>) -> ResponseView {
    ResponseView {
        status: Status::TemporaryRedirect,
        location: Some(uri_path + seq!['/']),
        content_type: None,
        cache_control: None,
        body: BodyView::Empty,
    }
}

/// Where a request path leads, given whether its names are a directory: to
/// a redirect for a directory without a closing slash, to the directory's
/// index page for one with it, and to the names themselves otherwise.
pub open spec fn location_of(uri_path: Seq<char>, is_dir: bool) -> LocatedView {
    if is_dir && !(uri_path.len() > 0 && uri_path.last() == '/') {
        LocatedView::Redirect(redirect_to_directory(uri_path))
    } else {
        let target = if is_dir {
            resolved(uri_path).push(index_name())
        } else {
            resolved(uri_path)
        };
        LocatedView::File { target, content_type: guessed_mime(joined(target)) }
    }
}

/// An error page with no headers, as sent where the ignore rules step in.
pub open spec fn bare_error(
    status: Status,
    message: Seq<char>,
    hard_reload: bool,
    is_reload: bool,
) -> ResponseView {
    ResponseView {
        status,
        location: None,
        content_type: None,
        cache_control: None,
        body: BodyView::Text(error_page(script_text(hard_reload, is_reload, true), message)),
    }
}

/// The message of the page that refuses an ignored file.
pub const FORBIDDEN_MESSAGE: &'static str =
    "Unable to access ignored or hidden file, because `--ignore` is enabled";

/// What opens the message of a failed ignore check.
pub const CHECK_FAILED_PREFIX: &'static str = "Failed to check ignore files: ";

/// The lifetime that assets are given in hard-reload mode.
pub const ASSET_CACHE_CONTROL: &'static str = "max-age=30";

/// What the ignore check's outcome means for a request: nothing where the
/// target is not ignored, a 403 page where it is, a 500 page where the check
/// failed.
pub open spec fn refusal(
    verdict: Result<bool, IgnoreError>,
    hard_reload: bool,
    is_reload: bool,
) -> Option<ResponseView> {
    match verdict {
        Ok(ignored) => if ignored {
            Some(bare_error(Status::Forbidden, FORBIDDEN_MESSAGE@, hard_reload, is_reload))
        } else {
            None
        },
        Err(err) => Some(
            bare_error(
                Status::InternalServerError,
                CHECK_FAILED_PREFIX@ + err.message@,
                hard_reload,
                is_reload,
            ),
        ),
    }
}

/// The response to a failed read that is not answered by a listing.
pub open spec fn failure_response(
    status: Status,
    content_type: Seq<char>,
    message: Seq<char>,
    hard_reload: bool,
    is_reload: bool,
) -> ResponseView {
    ResponseView {
        status,
        location: None,
        content_type: Some(content_type),
        cache_control: None,
        body: if content_type == html_type() {
            BodyView::Text(error_page(script_text(hard_reload, is_reload, true), message))
        } else {
            BodyView::Empty
        },
    }
}

/// The response that serves a file's bytes.
pub open spec fn file_response(
    content_type: Seq<char>,
    bytes: Seq<u8>,
    hard_reload: bool,
    is_reload: bool,
) -> ResponseView {
    if content_type == html_type() {
        if valid_utf8(bytes) {
            ResponseView {
                status: Status::Success,
                location: None,
                content_type: Some(content_type),
                cache_control: None,
                body: BodyView::Text(
                    decode_utf8(bytes) + script_text(hard_reload, is_reload, false),
                ),
            }
        } else {
            ResponseView {
                status: Status::InternalServerError,
                location: None,
                content_type: Some(content_type),
                cache_control: None,
                body: BodyView::Text(utf8_error_text(bytes)),
            }
        }
    } else {
        ResponseView {
            status: Status::Success,
            location: None,
            content_type: Some(content_type),
            cache_control: if hard_reload {
                Some(ASSET_CACHE_CONTROL@)
            } else {
                None
            },
            body: BodyView::Bytes(bytes),
        }
    }
}

/// The response that shows a directory's listing.
pub open spec fn listing_response(
    uri_path: Seq<char>,
    content_type: Seq<char>,
    listing: Seq<char>,
    hard_reload: bool,
    is_reload: bool,
) -> ResponseView {
    ResponseView {
        status: Status::Success,
        location: None,
        content_type: Some(content_type),
        cache_control: None,
        body: BodyView::Text(
            index_page(uri_path, script_text(hard_reload, is_reload, false), listing),
        ),
    }
}

/// The number of a status.
pub open spec fn status_code(status: Status) -> u16 {
    match status {
        Status::Success => 200u16,
        Status::TemporaryRedirect => 307u16,
        Status::Forbidden => 403u16,
        Status::NotFound => 404u16,
        Status::InternalServerError => 500u16,
    }
}

/// Whether a query marks a reload check: it is exactly `reload`.
pub open spec fn is_reload_query(query: Option<&str>) -> bool {
    match query {
        Some(text) => text@ == "reload"@,
        None => false,
    }
}

/// The response holds what the refusal says, or there is neither.
pub open spec fn same_refusal(response: Option<Response>, refusal: Option<ResponseView>) -> bool {
    match response {
        Some(r) => refusal == Some(r@),
        None => refusal is None,
    }
}

/// Whether a response fits what the ignore check found: a 403 page for an
/// ignored target, a 500 page with some reason where the check failed, and
/// no refusal otherwise.
pub open spec fn access_answer(
    response: Option<Response>,
    verdict: Option<bool>,
    hard_reload: bool,
    is_reload: bool,
) -> bool {
    match verdict {
        Some(ignored) => if ignored {
            response matches Some(r) && r@ == bare_error(
                Status::Forbidden,
                FORBIDDEN_MESSAGE@,
                hard_reload,
                is_reload,
            )
        } else {
            response is None
        },
        None => response matches Some(r) && exists|reason: Seq<char>|
            r@ == bare_error(
                Status::InternalServerError,
                CHECK_FAILED_PREFIX@ + reason,
                hard_reload,
                is_reload,
            ),
    }
}

/// What is answered once the read outcome is known.
pub open spec fn served_for(
    served: Served,
    options: Options,
    is_reload: bool,
    is_accessing_dir: bool,
    content_type: Seq<char>,
    outcome: ReadOutcome,
) -> bool {
    match outcome {
        ReadOutcome::Content(bytes) => served matches Served::Done(r) && r@ == file_response(
            content_type,
            bytes@,
            options.hard_reload,
            is_reload,
        ),
        ReadOutcome::NotFound(message) => if options.index_listing && is_accessing_dir {
            served is ListDirectory
        } else {
            served matches Served::Done(r) && r@ == failure_response(
                Status::NotFound,
                content_type,
                message@,
                options.hard_reload,
                is_reload,
            )
        },
        ReadOutcome::Failed(message) => served matches Served::Done(r) && r@ == failure_response(
            Status::InternalServerError,
            content_type,
            message@,
            options.hard_reload,
            is_reload,
        ),
    }
}

/// The names that a located request leads to are well formed.
pub open spec fn target_well_formed(located: Located) -> bool {
    match located {
        Located::File { target, content_type } => well_formed(texts(target@)),
        Located::Redirect(_) => true,
    }
}

impl Status {
    /// The status code.
    pub fn code(&self) -> (code: u16)
        ensures
            code == status_code(*self),
    {
        match self {
            Status::Success => 200,
            Status::TemporaryRedirect => 307,
            Status::Forbidden => 403,
            Status::NotFound => 404,
            Status::InternalServerError => 500,
        }
    }
}

/// Whether the request is a reload check: its query is exactly `reload`.
pub fn is_reload_request(query: Option<&str>) -> (r: bool)
    ensures
        r == is_reload_query(query),
{
    match query {
        Some(text) => same_text(text, "reload"),
        None => false,
    }
}

/// Cuts the request path at its slashes.
pub fn split(uri_path: &str) -> (segments: Vec<String>)
    ensures
        texts(segments@) == split_segments(uri_path@),
{
    let len: usize = uri_path.unicode_len();
    let mut segments: Vec<String> = Vec::new();
    let mut start: usize = 0;
    let mut i: usize = 0;
    proof {
        assert(uri_path@.take(0) =~= Seq::<char>::empty());
        assert(texts(segments@).push(uri_path@.subrange(0, 0)) =~= seq![Seq::<char>::empty()]);
    }
    while i < len
        invariant
            start <= i <= len,
            len == uri_path@.len(),
            split_segments(uri_path@.take(i as int)) == texts(segments@).push(
                uri_path@.subrange(start as int, i as int),
            ),
        decreases len - i,
    {
        let c: char = uri_path.get_char(i);
        proof {
            let next = uri_path@.take(i + 1);
            assert(next.drop_last() =~= uri_path@.take(i as int));
            assert(next.last() == c);
            let before = texts(segments@).push(uri_path@.subrange(start as int, i as int));
            assert(before.drop_last() =~= texts(segments@));
            assert(before.last().push(c) =~= uri_path@.subrange(start as int, i + 1));
        }
        if c == '/' {
            let segment: String = uri_path.substring_char(start, i).to_owned();
            proof {
                assert(texts(segments@.push(segment)) =~= texts(segments@).push(segment@));
                assert(uri_path@.subrange(i + 1, i + 1) =~= Seq::<char>::empty());
            }
            segments.push(segment);
            start = i + 1;
        }
        i += 1;
    }
    let segment: String = uri_path.substring_char(start, len).to_owned();
    proof {
        assert(uri_path@.take(len as int) =~= uri_path@);
        assert(texts(segments@.push(segment)) =~= texts(segments@).push(segment@));
    }
    segments.push(segment);
    segments
}

/// Resolves a request path to names below the root.
///
/// The path is cut at its slashes; empty names and `.` are dropped, and `..`
/// steps back by one name but never above the root, so that no request leads
/// outside the served directory.
pub fn resolve(uri_path: &str) -> (names: Vec<String>)
    ensures
        texts(names@) == resolved(uri_path@),
        well_formed(texts(names@)),
{
    proof {
        lemma_resolved_stays_below_root(uri_path@);
    }
    let segments: Vec<String> = split(uri_path);
    let mut names: Vec<String> = Vec::new();
    let mut i: usize = 0;
    proof {
        assert(texts(segments@).take(0) =~= Seq::<Seq<char>>::empty());
        assert(texts(names@) =~= Seq::<Seq<char>>::empty());
    }
    while i < segments.len()
        invariant
            i <= segments.len(),
            texts(names@) == normalized(texts(segments@).take(i as int)),
        decreases segments.len() - i,
    {
        let segment: &str = segments[i].as_str();
        proof {
            let next = texts(segments@).take(i + 1);
            assert(next.drop_last() =~= texts(segments@).take(i as int));
            assert(next.last() == segment@);
            reveal_strlit(".");
            reveal_strlit("..");
            assert("."@ =~= dot());
            assert(".."@ =~= dot_dot());
        }
        if segment.unicode_len() == 0 || same_text(segment, ".") {
        } else if same_text(segment, "..") {
            if names.len() > 0 {
                let ghost before = names@;
                names.pop();
                proof {
                    assert(texts(names@) =~= texts(before).drop_last());
                }
            }
        } else {
            proof {
                assert(texts(names@.push(segments@[i as int])) =~= texts(names@).push(segment@));
            }
            names.push(segments[i].clone());
        }
        i += 1;
    }
    proof {
        assert(texts(segments@).take(segments@.len() as int) =~= texts(segments@));
    }
    names
}

/// Decides where a resolved request leads, once it is known whether the
/// resolved names are a directory.
///
/// A directory asked for without a closing slash is redirected to the same
/// path with the slash, with an empty body. A directory asked for with the
/// slash leads to its `index.html`; anything else leads to the names as they
/// are. The media type is guessed from the target's name.
pub fn locate(uri_path: &str, is_dir: bool) -> (located: Located)
    ensures
        located@ == location_of(uri_path@, is_dir),
        target_well_formed(located),
{
    let len: usize = uri_path.unicode_len();
    let closed: bool = len > 0 && uri_path.get_char(len - 1) == '/';
    if is_dir && !closed {
        let mut location: String = String::from_str(uri_path);
        location.append("/");
        proof {
            reveal_strlit("/");
            assert("/"@ =~= seq!['/']);
        }
        return Located::Redirect(
            Response {
                status: Status::TemporaryRedirect,
                location: Some(location),
                content_type: None,
                cache_control: None,
                body: Body::Empty,
            },
        );
    }
    let mut target: Vec<String> = resolve(uri_path);
    if is_dir {
        let index: String = String::from_str("index.html");
        proof {
            assert(texts(target@.push(index)) =~= texts(target@).push(index@));
            lemma_index_name_is_a_name();
        }
        target.push(index);
    }
    let content_type: String = guess_mime(join(&target).as_str());
    Located::File { target, content_type }
}

/// Writes an error page that carries no headers.
fn bare_error_response(status: Status, message: &str, hard_reload: bool, is_reload: bool) -> (response:
    Response)
    ensures
        response@ == bare_error(status, message@, hard_reload, is_reload),
{
    let script: String = format_script(hard_reload, is_reload, true);
    Response {
        status,
        location: None,
        content_type: None,
        cache_control: None,
        body: Body::Text(error_html(script.as_str(), message)),
    }
}

/// Turns the outcome of the ignore check into a refusal, if it is one.
///
/// An ignored target is answered with 403 and a failed check with 500, both
/// as error pages without headers; a target that is not ignored is not
/// refused.
pub fn refuse(verdict: &Result<bool, IgnoreError>, hard_reload: bool, is_reload: bool) -> (response:
    Option<Response>)
    ensures
        same_refusal(response, refusal(*verdict, hard_reload, is_reload)),
{
    match verdict {
        Ok(ignored) => {
            if *ignored {
                Some(
                    bare_error_response(
                        Status::Forbidden,
                        FORBIDDEN_MESSAGE,
                        hard_reload,
                        is_reload,
                    ),
                )
            } else {
                None
            }
        },
        Err(err) => {
            let mut message: String = String::from_str(CHECK_FAILED_PREFIX);
            message.append(err.message.as_str());
            Some(
                bare_error_response(
                    Status::InternalServerError,
                    message.as_str(),
                    hard_reload,
                    is_reload,
                ),
            )
        },
    }
}

/// Checks the target of a request against the ignore rules, where ignore
/// mode is on.
///
/// Outside ignore mode nothing is refused. In ignore mode a target that is
/// ignored, by a hidden name or by a rule, is refused with 403; a check that
/// fails is answered with 500; and a target that is not ignored is not
/// refused. `target` holds the names below the root.
pub fn check_access(
    options: &Options,
    root: &Vec<String>,
    target: &Vec<String>,
    target_is_dir: bool,
    rules: &RuleFile,
    is_reload: bool,
) -> (response: Option<Response>)
    requires
        well_formed(texts(target@)),
    ensures
        !options.auto_ignore ==> response is None,
        options.auto_ignore ==> access_answer(
            response,
            ignore_verdict(
                texts(root@),
                texts(root@) + texts(target@),
                target_is_dir,
                rules@,
            ),
            options.hard_reload,
            is_reload,
        ),
{
    if !options.auto_ignore {
        return None;
    }
    let mut path: Vec<String> = root.clone();
    let mut i: usize = 0;
    while i < target.len()
        invariant
            i <= target.len(),
            texts(path@) == texts(root@) + texts(target@).take(i as int),
        decreases target.len() - i,
    {
        proof {
            let next = target@[i as int];
            assert(texts(path@.push(next)) =~= texts(path@).push(next@));
            assert(texts(target@).take(i + 1) =~= texts(target@).take(i as int).push(next@));
            assert(texts(path@).push(next@) =~= texts(root@) + texts(target@).take(i + 1));
        }
        path.push(target[i].clone());
        i += 1;
    }
    proof {
        assert(texts(target@).take(target@.len() as int) =~= texts(target@));
        assert(texts(root@).is_prefix_of(texts(path@)));
        assert(texts(path@).skip(root@.len() as int) =~= texts(target@));
    }
    let verdict = is_ignored(root, &path, target_is_dir, rules);
    let response = refuse(&verdict, options.hard_reload, is_reload);
    proof {
        assert(texts(path@) =~= texts(root@) + texts(target@));
        if let Err(err) = verdict {
            assert(response->Some_0@ == bare_error(
                Status::InternalServerError,
                CHECK_FAILED_PREFIX@ + err.message@,
                options.hard_reload,
                is_reload,
            ));
        }
    }
    response
}

/// In ignore mode a request for a target with a hidden name is refused with
/// 403, whatever the rule file holds.
pub proof fn lemma_hidden_target_is_forbidden(
    root: Seq<Seq<char>>,
    target: Seq<Seq<char>>,
    is_dir: bool,
    rules: RuleFileView,
    hard_reload: bool,
    is_reload: bool,
)
    requires
        has_hidden_name(target),
    ensures
        ignore_verdict(root, root + target, is_dir, rules) == Some(true),
        refusal(Ok(true), hard_reload, is_reload) == Some(
            bare_error(Status::Forbidden, FORBIDDEN_MESSAGE@, hard_reload, is_reload),
        ),
{
    assert((root + target).skip(root.len() as int) =~= target);
    assert(root.is_prefix_of(root + target));
    assert(hidden_below(root, root + target));
}

/// Writes the response once the target file was read, or could not be.
///
/// A page is served with the script for the request appended; bytes that are
/// no text make a page fail with 500. Any other file is served as it is, with
/// a short lifetime in hard-reload mode. A missing index page of a directory
/// asks for the directory's listing where listing is on. Any other missing
/// file is answered with 404 and any other failure with 500: as an error page
/// for pages, with an empty body for other files.
pub fn respond(
    options: &Options,
    is_reload: bool,
    is_accessing_dir: bool,
    content_type: &str,
    outcome: ReadOutcome,
) -> (served: Served)
    ensures
        served_for(served, *options, is_reload, is_accessing_dir, content_type@, outcome),
{
    let is_page: bool = same_text(content_type, "text/html");
    match outcome {
        ReadOutcome::Content(bytes) => {
            if is_page {
                match decode_text(bytes) {
                    Ok(text) => {
                        let script: String = format_script(options.hard_reload, is_reload, false);
                        let mut page: String = text;
                        page.append(script.as_str());
                        Served::Done(
                            Response {
                                status: Status::Success,
                                location: None,
                                content_type: Some(String::from_str(content_type)),
                                cache_control: None,
                                body: Body::Text(page),
                            },
                        )
                    },
                    Err(message) => Served::Done(
                        Response {
                            status: Status::InternalServerError,
                            location: None,
                            content_type: Some(String::from_str(content_type)),
                            cache_control: None,
                            body: Body::Text(message),
                        },
                    ),
                }
            } else {
                let cache_control: Option<String> = if options.hard_reload {
                    Some(String::from_str(ASSET_CACHE_CONTROL))
                } else {
                    None
                };
                Served::Done(
                    Response {
                        status: Status::Success,
                        location: None,
                        content_type: Some(String::from_str(content_type)),
                        cache_control,
                        body: Body::Bytes(bytes),
                    },
                )
            }
        },
        ReadOutcome::NotFound(message) => {
            if options.index_listing && is_accessing_dir {
                Served::ListDirectory
            } else {
                Served::Done(
                    respond_failure(
                        Status::NotFound,
                        content_type,
                        message.as_str(),
                        options.hard_reload,
                        is_reload,
                    ),
                )
            }
        },
        ReadOutcome::Failed(message) => Served::Done(
            respond_failure(
                Status::InternalServerError,
                content_type,
                message.as_str(),
                options.hard_reload,
                is_reload,
            ),
        ),
    }
}

/// Writes the response to a failure: an error page for a page, an empty body
/// for any other file.
pub fn respond_failure(
    status: Status,
    content_type: &str,
    message: &str,
    hard_reload: bool,
    is_reload: bool,
) -> (response: Response)
    ensures
        response@ == failure_response(status, content_type@, message@, hard_reload, is_reload),
{
    let body: Body = if same_text(content_type, "text/html") {
        let script: String = format_script(hard_reload, is_reload, true);
        Body::Text(error_html(script.as_str(), message))
    } else {
        Body::Empty
    };
    Response {
        status,
        location: None,
        content_type: Some(String::from_str(content_type)),
        cache_control: None,
        body,
    }
}

/// Writes the response that shows a directory's entries in place of its
/// missing index page.
pub fn respond_with_listing(
    options: &Options,
    uri_path: &str,
    is_reload: bool,
    content_type: &str,
    entries: &Vec<DirEntry>,
    verdicts: &Vec<Result<bool, IgnoreError>>,
) -> (response: Response)
    requires
        options.auto_ignore ==> verdicts@.len() == entries@.len(),
    ensures
        response@ == listing_response(
            uri_path@,
            content_type@,
            items_html(
                listed_labels(
                    uri_path@ == root_uri(),
                    shown_labels(entries@, options.auto_ignore, verdicts@, entries@.len() as int),
                ),
            ),
            options.hard_reload,
            is_reload,
        ),
{
    let script: String = format_script(options.hard_reload, is_reload, false);
    let listing: String = get_index_listing(uri_path, entries, options.auto_ignore, verdicts);
    Response {
        status: Status::Success,
        location: None,
        content_type: Some(String::from_str(content_type)),
        cache_control: None,
        body: Body::Text(index_html(uri_path, script.as_str(), listing.as_str())),
    }
}

/// The name of the index page is a well-formed name.
proof fn lemma_index_name_is_a_name()
    ensures
        index_name().len() > 0,
        !index_name().contains('/'),
{
    reveal_strlit("index.html");
    assert(index_name().len() == 10);
    if index_name().contains('/') {
        let i = choose|i: int| 0 <= i < index_name().len() && index_name()[i] == '/';
        assert(index_name()[i] != '/');
    }
}

/// Cutting a path at its slashes leaves at least one segment, and no slash in
/// any of them.
pub proof fn lemma_split_has_no_slash(path: Seq<char>)
    ensures
        split_segments(path).len() >= 1,
        forall|i: int|
            0 <= i < split_segments(path).len() ==> !(#[trigger] split_segments(path)[i]).contains(
                '/',
            ),
    decreases path.len(),
{
    if path.len() == 0 {
        assert(!Seq::<char>::empty().contains('/'));
    } else {
        lemma_split_has_no_slash(path.drop_last());
        let before = split_segments(path.drop_last());
        if path.last() == '/' {
            assert(!Seq::<char>::empty().contains('/'));
        } else {
            let grown = before.last().push(path.last());
            if grown.contains('/') {
                let k = choose|k: int| 0 <= k < grown.len() && grown[k] == '/';
                assert(before.last()[k] == '/');
                assert(before.last().contains('/'));
            }
        }
    }
}

/// Names made from slash-free segments are well formed, and none of them is
/// `.` or `..`.
pub proof fn lemma_normalized_is_clean(segments: Seq<Seq<char>>)
    requires
        forall|i: int| 0 <= i < segments.len() ==> !(#[trigger] segments[i]).contains('/'),
    ensures
        well_formed(normalized(segments)),
        forall|i: int|
            0 <= i < normalized(segments).len() ==> (#[trigger] normalized(segments)[i]) != dot()
                && normalized(segments)[i] != dot_dot(),
    decreases segments.len(),
{
    if segments.len() > 0 {
        lemma_normalized_is_clean(segments.drop_last());
    }
}

/// No request path leads outside the root: the names it resolves to are
/// well-formed names, and none of them is `.` or `..`.
pub proof fn lemma_resolved_stays_below_root(uri_path: Seq<char>)
    ensures
        well_formed(resolved(uri_path)),
        forall|i: int|
            0 <= i < resolved(uri_path).len() ==> (#[trigger] resolved(uri_path)[i]) != dot()
                && resolved(uri_path)[i] != dot_dot(),
{
    lemma_split_has_no_slash(uri_path);
    lemma_normalized_is_clean(split_segments(uri_path));
}

/// A directory asked for without a closing slash is always redirected to the
/// same path with the slash, with an empty body.
pub proof fn lemma_directory_without_slash_is_redirected(uri_path: Seq<char>)
    requires
        uri_path.len() == 0 || uri_path.last() != '/',
    ensures
        location_of(uri_path, true) == LocatedView::Redirect(redirect_to_directory(uri_path)),
        redirect_to_directory(uri_path).status == Status::TemporaryRedirect,
        redirect_to_directory(uri_path).location == Some(uri_path + seq!['/']),
        redirect_to_directory(uri_path).body == BodyView::Empty,
{
}

/// In ignore mode a target that the check found ignored is answered with
/// 403, whether a hidden name or a rule made it so.
pub proof fn lemma_ignored_target_is_forbidden(hard_reload: bool, is_reload: bool)
    ensures
        refusal(Ok(true), hard_reload, is_reload) matches Some(response) && response.status
            == Status::Forbidden,
        refusal(Ok(false), hard_reload, is_reload) is None,
{
}

/// A missing page is answered with 404 and an error page that carries the
/// reload client, the same script that a served page carries.
pub proof fn lemma_missing_page_carries_client(message: Seq<char>, hard_reload: bool)
    ensures
        failure_response(Status::NotFound, html_type(), message, hard_reload, false).status
            == Status::NotFound,
        failure_response(Status::NotFound, html_type(), message, hard_reload, false).body
            == BodyView::Text(error_page(script_text(hard_reload, false, false), message)),
{
}

/// A reload check of a page that still resolves is answered with the page
/// followed by the confirmation script.
pub proof fn lemma_reload_check_confirms_live_page(bytes: Seq<u8>, hard_reload: bool)
    requires
        valid_utf8(bytes),
    ensures
        file_response(html_type(), bytes, hard_reload, true).status == Status::Success,
        file_response(html_type(), bytes, hard_reload, true).body == BodyView::Text(
            decode_utf8(bytes) + ("<script>"@ + crate::script::RELOAD_PAYLOAD@ + "</script>"@),
        ),
{
}

/// A reload check of a page that fails is answered with the error page and
/// no script in it, so that the viewer asks again.
pub proof fn lemma_reload_check_of_failed_page_has_no_script(
    status: Status,
    message: Seq<char>,
    hard_reload: bool,
)
    ensures
        failure_response(status, html_type(), message, hard_reload, true).body == BodyView::Text(
            error_page(Seq::empty(), message),
        ),
        refusal(Ok(true), hard_reload, true) matches Some(response) && response.body
            == BodyView::Text(error_page(Seq::empty(), FORBIDDEN_MESSAGE@)),
{
}

/// A file that is no page is served as it was read, and is given a lifetime
/// in hard-reload mode only.
pub proof fn lemma_assets_are_cached_in_hard_mode_only(
    content_type: Seq<char>,
    bytes: Seq<u8>,
    hard_reload: bool,
    is_reload: bool,
)
    requires
        content_type != html_type(),
    ensures
        file_response(content_type, bytes, hard_reload, is_reload).body == BodyView::Bytes(bytes),
        file_response(content_type, bytes, hard_reload, is_reload).cache_control is Some
            == hard_reload,
        hard_reload ==> file_response(content_type, bytes, hard_reload, is_reload).cache_control
            == Some(ASSET_CACHE_CONTROL@),
{
}

} // verus!
