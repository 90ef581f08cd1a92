//! What the daemon's socket server decides for each line a client sends:
//! refuse it (and close the connection) when it is too long, skip it when it
//! is blank, otherwise hand it on as a request; and the response envelope
//! that answers a request.
use vstd::prelude::*;
use crate::json::JsonValue;
use crate::protocol::Response;
use crate::text::{chars_of, string_of, skip_back, trim_end_cls, CharClass};
use vstd::utf8::encode_utf8;

verus! {

/// Lines longer than this many bytes are rejected and the connection is
/// closed, to bound per-connection memory use.
pub const MAX_LINE_LEN: usize = 1048576;

/// The verdict on one received line.
#[derive(Debug, Clone, PartialEq, Eq)]
pub enum LineVerdict {
    /// Answer with `line_too_long_response` and close the connection.
    TooLong,
    /// Nothing but whitespace: read the next line.
    Blank,
    /// The line without its trailing whitespace, to be decoded as a request.
    Request(String),
}

pub open spec fn verdict_of(line: Seq<char>) -> LineVerdictView {
    if encode_utf8(line).len() > MAX_LINE_LEN {
        LineVerdictView::TooLong
    } else if trim_end_cls(line, CharClass::Whitespace).len() == 0 {
        LineVerdictView::Blank
    } else {
        LineVerdictView::Request(trim_end_cls(line, CharClass::Whitespace))
    }
}

/// The content of a `LineVerdict`.
pub enum LineVerdictView {
    TooLong,
    Blank,
    Request(Seq<char>),
}

impl View for LineVerdict {
    type V = LineVerdictView;

    open spec fn view(&self) -> LineVerdictView {
        match self {
            LineVerdict::TooLong => LineVerdictView::TooLong,
            LineVerdict::Blank => LineVerdictView::Blank,
            LineVerdict::Request(s) => LineVerdictView::Request(s@),
        }
    }
}

/// Classifies one line read from a client (with its line terminator, as
/// read).
pub fn classify_line(line: &str) -> (v: LineVerdict)
    ensures
        v@ == verdict_of(line@),
{
    if line.as_bytes().len() > MAX_LINE_LEN {
        return LineVerdict::TooLong;
    }
    let chars = chars_of(line);
    let end = skip_back(&chars, 0, chars.len(), CharClass::Whitespace);
    assert(chars@.subrange(0, chars@.len() as int) =~= line@);
    if end == 0 {
        LineVerdict::Blank
    } else {
        LineVerdict::Request(string_of(&chars, 0, end))
    }
}

/// The answer to an over-long line, which carries no request id.
pub fn line_too_long_response() -> (r: Response)
    ensures
        r matches Response::Failure { request_id, error } && request_id@ == ""@ && error@ == "line too long"@,
{
    Response::err("", "line too long")
}

/// The envelope answering a request: the handler's payload, or its error,
/// under the request's own id.
pub fn response_for(request_id: &str, result: Result<JsonValue, String>) -> (r: Response)
    ensures
        r.id_of() == request_id@,
        match result {
            Ok(p) => r matches Response::Success { payload, .. } && payload == p,
            Err(e) => r matches Response::Failure { error, .. } && error@ == e@,
        },
{
    match result {
        Ok(payload) => Response::ok(request_id, payload),
        Err(error) => Response::err(request_id, error.as_str()),
    }
}

} // verus!
