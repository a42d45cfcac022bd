//! Responses and their encoding: `HTTP/1.1 <code> <reason>\r\n\r\n<body>`.

use super::status_code::StatusCode;
use super::text::{decimal, decimal_string};
use vstd::prelude::*;
use vstd::string::*;
use vstd::utf8::*;

verus! {

/// A status and, where there is one, a body.
#[derive(Debug)]
pub struct Response {
    status_code: StatusCode,
    body: Option<String>,
}

/// What a response holds.
pub struct ResponseView {
    pub status_code: StatusCode,
    pub body: Option<Seq<char>>,
}

/// The text of a body.
pub open spec fn body_text(body: Option<String>) -> Option<Seq<char>> {
    match body {
        Some(body) => Some(body@),
        None => None,
    }
}

impl View for Response {
    type V = ResponseView;

    closed spec fn view(&self) -> ResponseView {
        ResponseView { status_code: self.status_code, body: body_text(self.body) }
    }
}

/// A response as text: the status line, an empty line, and the body where
/// there is one. No header is written.
pub open spec fn frame(response: ResponseView) -> Seq<char> {
    "HTTP/1.1 "@ + decimal(response.status_code.number()) + " "@
        + response.status_code.reason() + "\r\n\r\n"@ + match response.body {
        Some(body) => body,
        None => Seq::empty(),
    }
}

/// A response on the wire: its text in UTF-8.
pub open spec fn wire(response: ResponseView) -> Seq<u8> {
    encode_utf8(frame(response))
}

impl Response {
    /// A response with the given status and body.
    pub fn new(status_code: StatusCode, body: Option<String>) -> (r: Self)
        ensures
            r@ == (ResponseView { status_code, body: body_text(body) }),
    {
        Response { status_code, body }
    }

    /// The status of the response.
    pub fn status_code(&self) -> (r: StatusCode)
        ensures
            r == self@.status_code,
    {
        self.status_code
    }

    /// The body of the response, where it has one.
    pub fn body(&self) -> (r: Option<&str>)
        ensures
            match r {
                Some(body) => self@.body == Some(body@),
                None => self@.body is None,
            },
    {
        match &self.body {
            Some(body) => Some(body.as_str()),
            None => None,
        }
    }

    /// Writes the response to the end of `stream`, as it goes on the wire.
    pub fn send(&self, stream: &mut Vec<u8>)
        ensures
            final(stream)@ == old(stream)@ + wire(self@),
    {
        let mut text = String::from_str("HTTP/1.1 ");
        let code = decimal_string(self.status_code.code());
        text.append(code.as_str());
        text.append(" ");
        text.append(self.status_code.reason_phrase());
        text.append("\r\n\r\n");
        match &self.body {
            Some(body) => {
                text.append(body.as_str());
            },
            None => {
                assert(text@ + Seq::<char>::empty() =~= text@);
            },
        }
        assert(text@ == frame(self@));
        let bytes = text.as_str().as_bytes();
        stream.extend_from_slice(bytes);
        assert(stream@ =~= old(stream)@ + wire(self@));
    }
}

} // verus!
