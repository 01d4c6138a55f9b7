//! What is settled once, before the first request: the served root and the
//! address that viewers are told.

use crate::paths::{option_text, texts};
use path_absolutize::Absolutize;
use std::path::PathBuf;
use vstd::prelude::*;
use vstd::string::*;
use vstd::utf8::{decode_utf8, valid_utf8};

verus! {

/// A path of the operating system, which need not be valid text; nothing
/// inside it is visible here.
#[verifier::external_type_specification]
#[verifier::external_body]
pub struct ExPathBuf(std::path::PathBuf);

/// An error of the operating system; it is only carried to where its text
/// is taken.
#[verifier::external_type_specification]
#[verifier::external_body]
pub struct ExIoError(std::io::Error);

/// The bytes that a path holds, in the encoding that the platform gives to
/// paths.
pub uninterp spec fn path_bytes(path: PathBuf) -> Seq<u8>;

/// What `path-absolutize` makes of a path that already begins at the root:
/// the same path with `.`, `..` and doubled slashes resolved.
pub uninterp spec fn without_dots(bytes: Seq<u8>) -> Seq<u8>;

/// The `Debug` form of a path that holds these bytes: quoted and escaped.
pub uninterp spec fn shown_path(bytes: Seq<u8>) -> Seq<char>;

/// The byte of the slash that separates the names of a path.
pub open spec fn slash_byte() -> u8 {
    0x2f
}

/// The path begins with a slash, that is, at the root of the filesystem.
pub open spec fn is_rooted(bytes: Seq<u8>) -> bool {
    bytes.len() > 0 && bytes[0] == slash_byte()
}

/// `Absolutize::absolutize` of the `path-absolutize` crate, on a system whose
/// paths begin at `/`: it asks for the current directory and fails with the
/// error of that question, or gives an absolute path. A path that begins at
/// the root is resolved without a look at the current directory, so there
/// the path given depends on the argument alone; for any other path it
/// depends on where the process runs, and only its being absolute is
/// claimed.
#[verifier::external_body]
fn absolutize(path: &PathBuf) -> (absolute: Result<PathBuf, std::io::Error>)
    ensures
        absolute matches Ok(made) ==> is_rooted(path_bytes(made)),
        absolute matches Ok(made) ==> (is_rooted(path_bytes(*path)) ==> path_bytes(made)
            == without_dots(path_bytes(*path))),
{
    path.absolutize().map(|p| p.to_path_buf())
}

/// `Path::to_str` of std: the path as text, which there is exactly where the
/// path is valid Unicode. The platform's encoding of paths holds valid
/// Unicode as UTF-8, so that is where the path's bytes are valid UTF-8, and
/// the text is what they encode.
#[verifier::external_body]
fn path_text(path: &PathBuf) -> (text: Option<String>)
    ensures
        (text is Some) == valid_utf8(path_bytes(*path)),
        text matches Some(t) ==> t@ == decode_utf8(path_bytes(*path)),
{
    path.to_str().map(|s| s.to_string())
}

/// The `Debug` form of a path, as std writes it: quoted and escaped. It
/// depends on what the path holds alone; the contract only names it.
#[verifier::external_body]
fn path_shown(path: &PathBuf) -> (text: String)
    ensures
        text@ == shown_path(path_bytes(*path)),
{
    format!("{path:?}")
}

/// The `Display` form of an I/O error, as std writes it.
#[verifier::external_body]
fn error_shown(err: &std::io::Error) -> (text: String) {
    err.to_string()
}

/// The message for a root that could not be made absolute.
pub open spec fn absolute_path_failure(path: Seq<char>, reason: Seq<char>) -> Seq<char> {
    "Failed to get absolute path of "@ + path + ": "@ + reason
}

/// The message for a root whose path is no text.
pub open spec fn unreadable_path_failure(path: Seq<char>) -> Seq<char> {
    "Failed to parse path to string for `"@ + path + "`"@
}

/// The line that tells which directory is served.
pub open spec fn listening_on_path_line(path: Seq<char>) -> Seq<char> {
    "Listening on "@ + path
}

/// The host and port as they stand in a URL: an IPv6 host in brackets.
pub open spec fn authority_text(host: Seq<char>, is_v6: bool, port: Seq<char>) -> Seq<char> {
    if is_v6 {
        "["@ + host + "]:"@ + port
    } else {
        host + ":"@ + port
    }
}

/// The link under which the server is reached.
pub open spec fn link_text(host: Seq<char>, is_v6: bool, port: Seq<char>) -> Seq<char> {
    "http://"@ + authority_text(host, is_v6, port)
}

/// The message for an address that could not be bound.
pub open spec fn bind_failure_text(addr: Seq<char>, in_use: bool, reason: Seq<char>) -> Seq<char> {
    if in_use {
        "Address "@ + addr + " is already in use"@
    } else {
        "Failed to listen on "@ + addr + ": "@ + reason
    }
}

/// Writes the message for a root that could not be made absolute, from the
/// path as shown and the reason.
pub fn describe_absolute_path_failure(path: &str, reason: &str) -> (message: String)
    ensures
        message@ == absolute_path_failure(path@, reason@),
{
    let mut message: String = String::from_str("Failed to get absolute path of ");
    message.append(path);
    message.append(": ");
    message.append(reason);
    message
}

/// Writes what `print_listening_on_path` reports, from the path's text where
/// it has one and its shown form.
pub fn describe_root(text: Option<String>, shown: &str) -> (line: Result<String, String>)
    ensures
        text is Some ==> line is Ok && line->Ok_0@ == listening_on_path_line(text->Some_0@),
        text is None ==> line is Err && line->Err_0@ == unreadable_path_failure(shown@),
{
    match text {
        Some(t) => {
            let mut line: String = String::from_str("Listening on ");
            line.append(t.as_str());
            Ok(line)
        },
        None => {
            let mut message: String = String::from_str("Failed to parse path to string for `");
            message.append(shown);
            message.append("`");
            Err(message)
        },
    }
}

/// Makes the root absolute against the current directory.
///
/// Whether that succeeds is for the operating system to say. Where it does,
/// the path returned begins at the root of the filesystem; for a root that
/// was given as such a path it is that path with its dots resolved, wherever
/// the process runs. Where it fails, the error is the message that names the
/// path as it was given, and the reason.
pub fn get_absolute_path(path: &PathBuf) -> (absolute: Result<PathBuf, String>)
    ensures
        absolute matches Ok(made) ==> is_rooted(path_bytes(made)),
        absolute matches Ok(made) ==> (is_rooted(path_bytes(*path)) ==> path_bytes(made)
            == without_dots(path_bytes(*path))),
        absolute matches Err(message) ==> exists|reason: Seq<char>|
            message@ == absolute_path_failure(shown_path(path_bytes(*path)), reason),
{
    match absolutize(path) {
        Ok(made) => Ok(made),
        Err(err) => {
            let shown: String = path_shown(path);
            let reason: String = error_shown(&err);
            let message: String = describe_absolute_path_failure(shown.as_str(), reason.as_str());
            assert(message@ == absolute_path_failure(shown_path(path_bytes(*path)), reason@));
            Err(message)
        },
    }
}

/// What `print_listening_on_path` gives for a path that holds these bytes:
/// the line that names the path where the bytes are valid text, and else the
/// message that shows the path as it was given.
pub open spec fn root_report(bytes: Seq<u8>) -> Result<Seq<char>, Seq<char>> {
    if valid_utf8(bytes) {
        Ok(listening_on_path_line(decode_utf8(bytes)))
    } else {
        Err(unreadable_path_failure(shown_path(bytes)))
    }
}

/// The texts of a line or a message.
pub open spec fn report_text(line: Result<String, String>) -> Result<Seq<char>, Seq<char>> {
    match line {
        Ok(text) => Ok(text@),
        Err(message) => Err(message@),
    }
}

/// Gives the line that tells which directory is served, or, for a path that
/// is no valid text, the message that says so and shows the path. The path
/// is left as it is.
pub fn print_listening_on_path(path: &PathBuf) -> (line: Result<String, String>)
    ensures
        report_text(line) == root_report(path_bytes(*path)),
{
    let text: Option<String> = path_text(path);
    let shown: String = path_shown(path);
    describe_root(text, shown.as_str())
}

/// The directory to watch for a root: the one above it, so that a root that
/// is removed and made anew, or a link that is swapped, is still seen; the
/// root itself where nothing is above it.
pub open spec fn watch_target(root: Seq<Seq<char>>) -> Seq<Seq<char>> {
    if root.len() > 0 {
        root.drop_last()
    } else {
        root
    }
}

/// Names the directory to watch for a root: its parent, or the root itself
/// where it has none.
pub fn watched_directory(root: &Vec<String>) -> (target: Vec<String>)
    ensures
        texts(target@) == watch_target(texts(root@)),
        texts(target@).is_prefix_of(texts(root@)),
{
    let mut target: Vec<String> = root.clone();
    if target.len() > 0 {
        target.pop();
    }
    proof {
        assert(texts(target@) =~= watch_target(texts(root@)));
    }
    target
}

/// Writes the host and port as they stand in a URL.
pub fn authority(host: &str, is_v6: bool, port: &str) -> (text: String)
    ensures
        text@ == authority_text(host@, is_v6, port@),
{
    if is_v6 {
        let mut text: String = String::from_str("[");
        text.append(host);
        text.append("]:");
        text.append(port);
        text
    } else {
        let mut text: String = String::from_str(host);
        text.append(":");
        text.append(port);
        text
    }
}

/// Writes the link of the server, like `http://127.0.0.1:8080`.
pub fn link(host: &str, is_v6: bool, port: &str) -> (text: String)
    ensures
        text@ == link_text(host@, is_v6, port@),
{
    let mut text: String = String::from_str("http://");
    text.append(authority(host, is_v6, port).as_str());
    text
}

/// The host that viewers are told: the bound host, or, where the listener is
/// bound to every interface, this machine's address where it is known.
pub open spec fn announced_host_text(
    bound: Seq<char>,
    unspecified: bool,
    local: Option<Seq<char>>,
) -> Seq<char> {
    if unspecified && local is Some {
        local->Some_0
    } else {
        bound
    }
}

/// The address of a page below the server's link.
pub open spec fn page_url_text(origin: Seq<char>, page: Seq<char>) -> Seq<char> {
    origin + "/"@ + page
}

/// Picks the host that viewers are told. A listener bound to every interface
/// is announced under this machine's own address; where that address could
/// not be found, and for any other listener, the bound host is announced.
pub fn announced_host(bound: &str, unspecified: bool, local: Option<&str>) -> (host: String)
    ensures
        host@ == announced_host_text(bound@, unspecified, option_text(local)),
{
    match local {
        Some(address) => {
            if unspecified {
                String::from_str(address)
            } else {
                String::from_str(bound)
            }
        },
        None => String::from_str(bound),
    }
}

/// Writes the address of the page to open in a browser: the server's link, a
/// slash and the page's path.
pub fn page_url(origin: &str, page: &str) -> (url: String)
    ensures
        url@ == page_url_text(origin@, page@),
{
    let mut url: String = String::from_str(origin);
    url.append("/");
    url.append(page);
    url
}

/// Writes the message for an address that could not be bound: that it is in
/// use, or else why binding failed.
pub fn describe_bind_failure(addr: &str, in_use: bool, reason: &str) -> (message: String)
    ensures
        message@ == bind_failure_text(addr@, in_use, reason@),
{
    if in_use {
        let mut message: String = String::from_str("Address ");
        message.append(addr);
        message.append(" is already in use");
        message
    } else {
        let mut message: String = String::from_str("Failed to listen on ");
        message.append(addr);
        message.append(": ");
        message.append(reason);
        message
    }
}

} // verus!
