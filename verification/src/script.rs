//! The script appended to served pages.
//!
//! An ordinary request gets the reload client, told whether to reload hard or
//! soft. A reload-check request gets a short confirmation when the page still
//! resolves, and nothing at all when it does not, so that the client keeps
//! asking.

use vstd::prelude::*;
use vstd::string::*;

verus! {

/// The reload client: a function that takes the hard-reload flag, connects to
/// the reload socket and refreshes the page on every signal.
pub const WEBSOCKET_FUNCTION: &'static str = "(function (hard) {
    var scheme = location.protocol === 'https:' ? 'wss:' : 'ws:';
    var address = scheme + '//' + location.host + '/live-server-ws';
    function warm(text) {
        var page = new DOMParser().parseFromString(text, 'text/html');
        var jobs = [];
        page.querySelectorAll('link[href], script[src], img[src]').forEach(function (node) {
            var url = node.getAttribute('href') || node.getAttribute('src');
            jobs.push(fetch(url, { cache: 'reload' }).catch(function () {}));
        });
        return Promise.all(jobs);
    }
    function check() {
        fetch(location.pathname + '?reload', { cache: 'reload' })
            .then(function (response) { return response.text(); })
            .then(function (text) {
                if (text.indexOf('live-server-reloaded') < 0) {
                    setTimeout(check, 500);
                } else if (hard) {
                    warm(text).then(function () { location.reload(); });
                } else {
                    location.reload();
                }
            })
            .catch(function () { setTimeout(check, 500); });
    }
    function connect() {
        var socket = new WebSocket(address);
        socket.onmessage = check;
        socket.onclose = function () { setTimeout(connect, 1000); };
    }
    connect();
})";

/// The confirmation that a reload-check request found the page.
pub const RELOAD_PAYLOAD: &'static str = "window['live-server-reloaded'] = true;";

/// The text that `format_script` returns.
pub open spec fn script_text(hard_reload: bool, is_reload: bool, is_error: bool) -> Seq<char> {
    if is_reload {
        if is_error {
            Seq::empty()
        } else {
            "<script>"@ + RELOAD_PAYLOAD@ + "</script>"@
        }
    } else {
        "<script>"@ + WEBSOCKET_FUNCTION@ + "("@ + (if hard_reload {
            "true"@
        } else {
            "false"@
        }) + ")</script>"@
    }
}

/// The script for a response.
///
/// A reload-check request (`is_reload`) that found its page gets the
/// confirmation payload in a script tag; one that ended in an error page gets
/// the empty text. Any other request gets the reload client in a script tag,
/// called with `true` for hard and `false` for soft reload.
pub fn format_script(hard_reload: bool, is_reload: bool, is_error: bool) -> (script: String)
    ensures
        script@ == script_text(hard_reload, is_reload, is_error),
{
    if is_reload {
        if is_error {
            let script = String::new();
            script
        } else {
            let mut script = String::from_str("<script>");
            script.append(RELOAD_PAYLOAD);
            script.append("</script>");
            script
        }
    } else {
        let mut script = String::from_str("<script>");
        script.append(WEBSOCKET_FUNCTION);
        script.append("(");
        script.append(if hard_reload { "true" } else { "false" });
        script.append(")</script>");
        script
    }
}

} // verus!
