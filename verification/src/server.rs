//! The server's part in a connection: what was read is decoded, handed to
//! the handler, and the handler's response is encoded.

use crate::http::request::{decode_request, ParseError, Request, RequestView};
use crate::http::response::{wire, Response, ResponseView};
use crate::http::status_code::StatusCode;
use vstd::prelude::*;

verus! {

/// The size of the buffer that a connection is read into. It is read once:
/// a request that does not fit is cut off there.
pub const BUFFER_SIZE: usize = 1024;

/// What a buffer without a request is answered with, unless the handler has
/// an answer of its own: status 400 without a body.
pub open spec fn plain_refusal() -> ResponseView {
    ResponseView { status_code: StatusCode::BadRequest, body: None }
}

/// The response to a buffer that holds no request, for a handler that has no
/// other: status 400 without a body, whatever the reason.
pub fn refusal(e: &ParseError) -> (r: Response)
    ensures
        r@ == plain_refusal(),
{
    Response::new(StatusCode::BadRequest, None)
}

/// What answers the requests of a server.
///
/// A handler may say in `answers` and `refuses` which responses it gives.
/// They need not be one for each request, since a handler may look at more
/// than the request.
pub trait Handler {
    /// Whether `response` may be the handler's response to `request`. A
    /// handler that says nothing may answer anything.
    open spec fn answers(&self, request: RequestView, response: ResponseView) -> bool {
        true
    }

    /// Whether `response` may be the handler's own response to a buffer
    /// refused for `e`. A handler that says nothing may respond anything. One
    /// that keeps `handle_bad_request` as it is has no response of its own
    /// and can say so here: it then responds with the plain refusal.
    open spec fn refuses(&self, e: ParseError, response: ResponseView) -> bool {
        true
    }

    /// The response to a request.
    fn handle_request(&mut self, request: &Request) -> (r: Response)
        ensures
            old(self).answers(request@, r@),
    ;

    /// The response to a buffer that holds no request. Unless a handler
    /// says otherwise, that is status 400 without a body.
    fn handle_bad_request(&mut self, e: &ParseError) -> (r: Response)
        ensures
            old(self).refuses(*e, r@) || r@ == plain_refusal(),
        default_ensures
            r@ == plain_refusal(),
    {
        refusal(e)
    }
}

/// A server and the address that it listens on.
pub struct Server {
    addr: String,
}

impl View for Server {
    type V = Seq<char>;

    closed spec fn view(&self) -> Seq<char> {
        self.addr@
    }
}

/// Whether `response` may be what `handler` says to a buffer: to a request
/// what it answers, to any other buffer its own refusal or the plain one.
pub open spec fn responds<H: Handler>(handler: H, buffer: Seq<u8>, response: ResponseView) -> bool {
    match decode_request(buffer) {
        Ok(request) => handler.answers(request, response),
        Err(e) => handler.refuses(e, response) || response == plain_refusal(),
    }
}

impl Server {
    /// A server for the given address.
    pub fn new(addr: String) -> (r: Server)
        ensures
            r@ == addr@,
    {
        Server { addr }
    }

    /// The address that the server listens on.
    pub fn addr(&self) -> (r: &str)
        ensures
            r@ == self@,
    {
        self.addr.as_str()
    }

    /// Answers what was read from a connection: a buffer that holds a request
    /// goes to `handle_request`, any other to `handle_bad_request` with the
    /// reason. The handler's response is written to the end of `stream`, so
    /// every buffer is answered with one whole response.
    pub fn answer<H: Handler>(handler: &mut H, buffer: &[u8], stream: &mut Vec<u8>)
        ensures
            exists|response: ResponseView|
                {
                    &&& #[trigger] responds(*old(handler), buffer@, response)
                    &&& final(stream)@ == old(stream)@ + wire(response)
                },
    {
        let response = match Request::try_from(buffer) {
            Ok(request) => handler.handle_request(&request),
            Err(e) => handler.handle_bad_request(&e),
        };
        response.send(stream);
        assert(responds(*old(handler), buffer@, response@));
    }
}

/// A buffer that holds no request is answered with status 400 and no body
/// by every handler that has no refusal of its own.
pub proof fn lemma_refused_plainly<H: Handler>(handler: H, buffer: Seq<u8>, response: ResponseView)
    requires
        decode_request(buffer) is Err,
        forall|e: ParseError, r: ResponseView| !handler.refuses(e, r),
        responds(handler, buffer, response),
    ensures
        response == plain_refusal(),
{
}

} // verus!
