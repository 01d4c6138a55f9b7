//! The two pages that the server writes itself: the directory index and the
//! error page.

use vstd::prelude::*;
use vstd::string::*;

verus! {

/// The index page up to the directory's name.
pub const INDEX_OPENING: &'static str =
    "<!DOCTYPE html>\n<html>\n<head>\n<meta charset=\"UTF-8\">\n<title>Index of ";

/// The index page between the directory's name and the script.
pub const INDEX_AFTER_TITLE: &'static str = "</title>\n";

/// The index page between the script and the list of entries.
pub const INDEX_BEFORE_LIST: &'static str = "\n</head>\n<body><ul>";

/// The index page after the list of entries.
pub const INDEX_CLOSING: &'static str = "</ul></body>\n</html>\n";

/// The error page up to the script.
pub const ERROR_OPENING: &'static str =
    "<!DOCTYPE html>\n<html>\n<head>\n<meta charset=\"UTF-8\">\n<title>Error</title>\n";

/// The error page between the script and the message.
pub const ERROR_BEFORE_MESSAGE: &'static str = "\n</head>\n<body>\n<pre>";

/// The error page after the message.
pub const ERROR_CLOSING: &'static str = "</pre>\n</body>\n</html>\n";

/// The index page for a directory, its script and its list of entries.
pub open spec fn index_page(index: Seq<char>, script: Seq<char>, body: Seq<char>) -> Seq<char> {
    INDEX_OPENING@ + index + INDEX_AFTER_TITLE@ + script + INDEX_BEFORE_LIST@ + body
        + INDEX_CLOSING@
}

/// The error page for a script and a message.
pub open spec fn error_page(script: Seq<char>, body: Seq<char>) -> Seq<char> {
    ERROR_OPENING@ + script + ERROR_BEFORE_MESSAGE@ + body + ERROR_CLOSING@
}

/// Writes the index page of the directory `index`, with `script` in its head
/// and `body` as its list.
pub fn index_html(index: &str, script: &str, body: &str) -> (page: String)
    ensures
        page@ == index_page(index@, script@, body@),
{
    let mut page = String::from_str(INDEX_OPENING);
    page.append(index);
    page.append(INDEX_AFTER_TITLE);
    page.append(script);
    page.append(INDEX_BEFORE_LIST);
    page.append(body);
    page.append(INDEX_CLOSING);
    page
}

/// Writes the error page with `script` in its head and `body` as its message.
pub fn error_html(script: &str, body: &str) -> (page: String)
    ensures
        page@ == error_page(script@, body@),
{
    let mut page = String::from_str(ERROR_OPENING);
    page.append(script);
    page.append(ERROR_BEFORE_MESSAGE);
    page.append(body);
    page.append(ERROR_CLOSING);
    page
}

} // verus!
