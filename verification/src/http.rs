//! What a job of the server computes between reading a request and writing
//! the response: which page a request line asks for, and the text of the
//! response.

use crate::text::{append_decimal, decimal_text, same_text};
use vstd::prelude::*;
use vstd::string::*;

verus! {

/// What the server answers to one request line.
#[derive(Clone, Copy, Debug)]
pub struct Route {
    /// The status line of the response.
    pub status_line: &'static str,
    /// The file whose contents are the body of the response.
    pub filename: &'static str,
    /// How many seconds the server waits before it answers.
    pub delay_secs: u64,
}

/// Whether the request line asks for the front page.
pub open spec fn asks_for_root(request_line: Seq<char>) -> bool {
    request_line == "GET / HTTP/1.1"@
}

/// Whether the request line asks for the slow page.
pub open spec fn asks_for_sleep(request_line: Seq<char>) -> bool {
    request_line == "GET /sleep HTTP/1.1"@
}

/// The status line for a request line: success for the two known pages,
/// not found for anything else.
pub open spec fn status_line_for(request_line: Seq<char>) -> Seq<char> {
    if asks_for_root(request_line) || asks_for_sleep(request_line) {
        "HTTP/1.1 200 OK"@
    } else {
        "HTTP/1.1 404 NOT FOUND"@
    }
}

/// The file that answers a request line.
pub open spec fn filename_for(request_line: Seq<char>) -> Seq<char> {
    if asks_for_root(request_line) || asks_for_sleep(request_line) {
        "static/index.html"@
    } else {
        "static/404.html"@
    }
}

/// The seconds to wait before answering a request line: five for the slow
/// page, none otherwise.
pub open spec fn delay_for(request_line: Seq<char>) -> nat {
    if asks_for_sleep(request_line) {
        5
    } else {
        0
    }
}

/// The text of a response: the status line, a header that gives the length
/// of the body in bytes, an empty line, and the body.
pub open spec fn response_text(status_line: Seq<char>, length: nat, contents: Seq<char>) -> Seq<char> {
    status_line + "\r\nContent-Length: "@ + decimal_text(length) + "\r\n\r\n"@ + contents
}

/// Maps a request line to the canned answer of the server.
pub fn route(request_line: &str) -> (r: Route)
    ensures
        r.status_line@ == status_line_for(request_line@),
        r.filename@ == filename_for(request_line@),
        r.delay_secs == delay_for(request_line@),
{
    proof {
        reveal_strlit("GET / HTTP/1.1");
        reveal_strlit("GET /sleep HTTP/1.1");
        assert("GET / HTTP/1.1"@.len() != "GET /sleep HTTP/1.1"@.len());
    }
    if same_text(request_line, "GET / HTTP/1.1") {
        Route { status_line: "HTTP/1.1 200 OK", filename: "static/index.html", delay_secs: 0 }
    } else if same_text(request_line, "GET /sleep HTTP/1.1") {
        Route { status_line: "HTTP/1.1 200 OK", filename: "static/index.html", delay_secs: 5 }
    } else {
        Route { status_line: "HTTP/1.1 404 NOT FOUND", filename: "static/404.html", delay_secs: 0 }
    }
}

/// Formats the response that carries `contents` under `status_line`.
pub fn response(status_line: &str, contents: &str) -> (text: String)
    ensures
        text@ == response_text(status_line@, contents.spec_bytes().len(), contents@),
{
    let mut text = String::from_str(status_line);
    text.append("\r\nContent-Length: ");
    append_decimal(&mut text, contents.as_bytes().len());
    text.append("\r\n\r\n");
    text.append(contents);
    assert(text@ =~= response_text(status_line@, contents.spec_bytes().len(), contents@));
    text
}

} // verus!
