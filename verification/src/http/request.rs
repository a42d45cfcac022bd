//! Requests and the decoding of a request line: `METHOD PATH HTTP/1.1\r\n`.

use super::method::{Method, MethodError};
use super::query_string::{query_map, QueryString, ValueText};
use super::text::{
    count_of, cut, cut_str, free_of, lemma_count_of_cut, lemma_cut, lemma_cut_joined, same_text,
};
use core::str::Utf8Error;
use vstd::prelude::*;
use vstd::std_specs::convert::{FromSpecImpl, TryFromSpecImpl};
use vstd::string::*;
use vstd::utf8::*;

verus! {

/// Why a buffer holds no request.
#[derive(Copy, Clone, Debug, PartialEq, Eq, Structural)]
pub enum ParseError {
    /// The method, the path or the protocol is missing.
    InvalidRequest,
    /// The buffer is not UTF-8 text.
    InvalidEncoding,
    /// The protocol is not `HTTP/1.1`.
    InvalidProtocol,
    /// The method is none of those known.
    InvalidMethod,
}

impl ParseError {
    /// The description of the error.
    pub open spec fn text(self) -> Seq<char> {
        match self {
            ParseError::InvalidRequest => "Invalid Request"@,
            ParseError::InvalidEncoding => "Invalid Encoding"@,
            ParseError::InvalidProtocol => "Invalid Protocol"@,
            ParseError::InvalidMethod => "Invalid Method"@,
        }
    }

    /// A short description of the error.
    pub fn message(&self) -> (r: &str)
        ensures
            r@ == self.text(),
    {
        match self {
            ParseError::InvalidRequest => "Invalid Request",
            ParseError::InvalidEncoding => "Invalid Encoding",
            ParseError::InvalidProtocol => "Invalid Protocol",
            ParseError::InvalidMethod => "Invalid Method",
        }
    }
}

impl From<MethodError> for ParseError {
    fn from(e: MethodError) -> (r: Self) {
        ParseError::InvalidMethod
    }
}

impl FromSpecImpl<MethodError> for ParseError {
    open spec fn obeys_from_spec() -> bool {
        true
    }

    open spec fn from_spec(e: MethodError) -> Self {
        ParseError::InvalidMethod
    }
}

/// `core::str::Utf8Error`, the error of `core::str::from_utf8`. Nothing is
/// said of what it holds: whatever it is, the buffer is refused.
#[verifier::external_type_specification]
#[verifier::external_body]
pub struct ExUtf8Error(Utf8Error);

impl From<Utf8Error> for ParseError {
    fn from(e: Utf8Error) -> (r: Self) {
        ParseError::InvalidEncoding
    }
}

impl FromSpecImpl<Utf8Error> for ParseError {
    open spec fn obeys_from_spec() -> bool {
        true
    }

    open spec fn from_spec(e: Utf8Error) -> Self {
        ParseError::InvalidEncoding
    }
}

/// `core::str::from_utf8` accepts exactly the byte sequences that are valid
/// UTF-8, and the string slice it gives is made of the bytes it was given.
pub assume_specification[ core::str::from_utf8 ](v: &[u8]) -> (r: Result<&str, Utf8Error>)
    ensures
        r is Ok <==> valid_utf8(v@),
        r matches Ok(s) ==> s.spec_bytes() == v@,
;

/// A decoded request: the method, the path without its query component, and
/// the query component where the target had one.
pub struct RequestView {
    pub method: Method,
    pub path: Seq<char>,
    pub query: Option<Map<Seq<char>, ValueText>>,
}

/// The next word of a request line and what follows it: the text is cut at
/// its first space or carriage return.
pub open spec fn next_word(s: Seq<char>) -> Option<(Seq<char>, Seq<char>)> {
    cut(s, ' ', '\r')
}

/// The request with the given method and target: a target with a `?` is cut
/// there into the path and the query string.
pub open spec fn request_of(method: Method, target: Seq<char>) -> RequestView {
    match cut(target, '?', '?') {
        Some((path, query)) => RequestView { method, path, query: Some(query_map(query)) },
        None => RequestView { method, path: target, query: None },
    }
}

/// What a text decodes to. The three words are read first, then the protocol
/// is checked, then the method.
pub open spec fn parse_request(text: Seq<char>) -> Result<RequestView, ParseError> {
    match next_word(text) {
        None => Err(ParseError::InvalidRequest),
        Some((method, rest)) => match next_word(rest) {
            None => Err(ParseError::InvalidRequest),
            Some((target, rest)) => match next_word(rest) {
                None => Err(ParseError::InvalidRequest),
                Some((protocol, _)) => if protocol != "HTTP/1.1"@ {
                    Err(ParseError::InvalidProtocol)
                } else {
                    match Method::named(method) {
                        None => Err(ParseError::InvalidMethod),
                        Some(method) => Ok(request_of(method, target)),
                    }
                },
            },
        },
    }
}

/// What a buffer decodes to: bytes that are not UTF-8 are refused, and bytes
/// that are decode as their text does.
pub open spec fn decode_request(bytes: Seq<u8>) -> Result<RequestView, ParseError> {
    if valid_utf8(bytes) {
        parse_request(decode_utf8(bytes))
    } else {
        Err(ParseError::InvalidEncoding)
    }
}

/// Bytes that encode a text decode as the text does.
pub proof fn lemma_decode_text(text: Seq<char>)
    ensures
        decode_request(encode_utf8(text)) == parse_request(text),
{
    encode_utf8_valid_utf8(text);
    encode_utf8_decode_utf8(text);
}

/// Whether a text can stand as a word of a request line: it holds no space
/// and no carriage return.
pub open spec fn is_word(s: Seq<char>) -> bool {
    free_of(s, ' ') && free_of(s, '\r')
}

/// A request line is decoded by its three words, whatever follows them: a
/// protocol other than `HTTP/1.1` is refused first, then a method that is
/// not known; any other line is the request of its method and target.
pub proof fn lemma_request_line(
    method: Seq<char>,
    target: Seq<char>,
    protocol: Seq<char>,
    rest: Seq<char>,
)
    requires
        is_word(method),
        is_word(target),
        is_word(protocol),
    ensures
        parse_request(method.push(' ') + (target.push(' ') + (protocol.push('\r') + rest)))
            == if protocol != "HTTP/1.1"@ {
            Err::<RequestView, ParseError>(ParseError::InvalidProtocol)
        } else {
            match Method::named(method) {
                Some(m) => Ok::<RequestView, ParseError>(request_of(m, target)),
                None => Err::<RequestView, ParseError>(ParseError::InvalidMethod),
            }
        },
{
    let after_protocol = rest;
    let after_target = protocol.push('\r') + after_protocol;
    let after_method = target.push(' ') + after_target;
    lemma_cut_joined(method, ' ', after_method, ' ', '\r');
    lemma_cut_joined(target, ' ', after_target, ' ', '\r');
    lemma_cut_joined(protocol, '\r', after_protocol, ' ', '\r');
}

/// A text is refused as an invalid request exactly if fewer than three of
/// its characters end a word: the method, the path or the protocol is
/// missing.
pub proof fn lemma_invalid_request(text: Seq<char>)
    ensures
        parse_request(text) == Err::<RequestView, ParseError>(ParseError::InvalidRequest)
            <==> count_of(text, ' ', '\r') < 3,
{
    lemma_count_of_cut(text, ' ', '\r');
    if let Some((_, rest)) = next_word(text) {
        lemma_count_of_cut(rest, ' ', '\r');
        if let Some((_, rest)) = next_word(rest) {
            lemma_count_of_cut(rest, ' ', '\r');
        }
    }
}

/// The path of a decoded request holds no `?`.
pub proof fn lemma_path_has_no_query(bytes: Seq<u8>)
    ensures
        decode_request(bytes) matches Ok(request) ==> !request.path.contains('?'),
{
    if let Ok(request) = decode_request(bytes) {
        let text = decode_utf8(bytes);
        let (method, rest) = next_word(text).unwrap();
        let (target, rest) = next_word(rest).unwrap();
        lemma_cut(target, '?', '?');
    }
}

/// Reads the next word of a request line: the text before the first space or
/// carriage return, and the text after that character.
pub fn get_next_word(request: &str) -> (r: Option<(&str, &str)>)
    ensures
        match r {
            Some((word, rest)) => next_word(request@) == Some((word@, rest@)),
            None => next_word(request@) is None,
        },
{
    cut_str(request, ' ', '\r')
}

/// A request, decoded from the buffer that its path and query borrow from.
pub struct Request<'buf> {
    path: &'buf str,
    query_string: Option<QueryString<'buf>>,
    method: Method,
}

impl<'buf> View for Request<'buf> {
    type V = RequestView;

    closed spec fn view(&self) -> RequestView {
        RequestView {
            method: self.method,
            path: self.path@,
            query: match self.query_string {
                Some(query) => Some(query@),
                None => None,
            },
        }
    }
}

impl<'buf> Request<'buf> {
    /// The path never holds a `?`: what followed one is in the query.
    #[verifier::type_invariant]
    spec fn well_formed(self) -> bool {
        !self.path@.contains('?')
    }

    /// The path of the request, without the query component.
    pub fn path(&self) -> (r: &str)
        ensures
            r@ == self@.path,
            !r@.contains('?'),
    {
        proof {
            use_type_invariant(self);
        }
        self.path
    }

    /// The method of the request.
    pub fn method(&self) -> (r: &Method)
        ensures
            *r == self@.method,
    {
        &self.method
    }

    /// The query component of the request, where it has one.
    pub fn query_string(&self) -> (r: Option<&QueryString<'buf>>)
        ensures
            match r {
                Some(query) => self@.query == Some(query@),
                None => self@.query is None,
            },
    {
        self.query_string.as_ref()
    }
}

impl<'buf> TryFrom<&'buf [u8]> for Request<'buf> {
    type Error = ParseError;

    /// Decodes the request line at the start of a buffer. What follows the
    /// protocol word is not read.
    fn try_from(buf: &'buf [u8]) -> (r: Result<Request<'buf>, ParseError>)
        ensures
            match r {
                Ok(request) => decode_request(buf@) == Ok::<RequestView, ParseError>(request@),
                Err(e) => decode_request(buf@) == Err::<RequestView, ParseError>(e),
            },
    {
        let request: &'buf str = match core::str::from_utf8(buf) {
            Ok(text) => text,
            Err(e) => {
                return Err(ParseError::from(e));
            },
        };
        proof {
            encode_utf8_decode_utf8(request@);
        }
        let (method, request) = match get_next_word(request) {
            Some(found) => found,
            None => {
                return Err(ParseError::InvalidRequest);
            },
        };
        let (target, request) = match get_next_word(request) {
            Some(found) => found,
            None => {
                return Err(ParseError::InvalidRequest);
            },
        };
        let (protocol, _) = match get_next_word(request) {
            Some(found) => found,
            None => {
                return Err(ParseError::InvalidRequest);
            },
        };
        if !same_text(protocol, "HTTP/1.1") {
            return Err(ParseError::InvalidProtocol);
        }
        let method: Method = match Method::parse(method) {
            Ok(method) => method,
            Err(e) => {
                return Err(ParseError::from(e));
            },
        };
        proof {
            lemma_cut(target@, '?', '?');
        }
        match cut_str(target, '?', '?') {
            Some((path, query)) => Ok(
                Request { path, query_string: Some(QueryString::from(query)), method },
            ),
            None => Ok(Request { path: target, query_string: None, method }),
        }
    }
}

/// What `try_from` gives is stated by its own `ensures`, over the view;
/// `try_from_spec` says nothing of it.
impl<'buf> TryFromSpecImpl<&'buf [u8]> for Request<'buf> {
    open spec fn obeys_try_from_spec() -> bool {
        false
    }

    open spec fn try_from_spec(buf: &'buf [u8]) -> Result<Self, ParseError> {
        arbitrary()
    }
}

} // verus!
