use vstd::prelude::*;
use vstd::slice::slice_subrange;

use crate::request::{spec_parse_bytes, Request};
use crate::response::{Response, ResponseContent};
use crate::router::{Handler, Router};
use crate::status_code::StatusCode;

verus! {

/// The largest request a connection reads, in bytes: one read fills at most
/// this much, and a longer request is parsed as the part that was read.
pub const REQUEST_BUFFER_SIZE: usize = 1024;

/// A server: the address it listens on and the router that answers.
pub struct Server<H: Handler> {
    addr: String,
    router: Router<H>,
}

impl<H: Handler> Server<H> {
    pub closed spec fn spec_addr(self) -> Seq<char> {
        self.addr@
    }

    pub closed spec fn spec_router(self) -> Router<H> {
        self.router
    }

    pub fn new(addr: String, router: Router<H>) -> (r: Server<H>)
        ensures
            r.spec_addr() == addr@,
            r.spec_router() == router,
    {
        Server { addr, router }
    }

    /// The address to listen on, as `host:port`.
    pub fn addr(&self) -> (r: &str)
        ensures
            r@ == self.spec_addr(),
    {
        self.addr.as_str()
    }

    pub fn router(&self) -> (r: &Router<H>)
        ensures
            *r == self.spec_router(),
    {
        &self.router
    }

    /// The response to the bytes received on a connection: a request line
    /// that does not parse gets `400 Bad Request` with no body; a parsed
    /// request gets the router's response, its handler's or `404 Not Found`.
    pub fn respond(&self, received: &[u8]) -> (r: Response)
        ensures
            spec_parse_bytes(received@) is Err ==> r@ == (ResponseContent {
                status: StatusCode::BadRequest,
                body: None,
            }),
            spec_parse_bytes(received@) matches Ok(line) ==> (self.spec_router().paths().contains(
                line.path,
            ) ==> r@ == self.spec_router().handler_at(line.path).spec_handle(line)),
            spec_parse_bytes(received@) matches Ok(line) ==> (!self.spec_router().paths().contains(
                line.path,
            ) ==> r@ == (ResponseContent { status: StatusCode::NotFound, body: None })),
    {
        match Request::try_from(received) {
            Ok(req) => self.router.handle_request(req),
            Err(_) => Response::new(StatusCode::BadRequest, None),
        }
    }

    /// What to do after one read from a connection into `buf`, which gave
    /// `n` bytes: nothing, when the peer sent nothing; otherwise, the
    /// response to send before closing.
    pub fn respond_to_read(&self, buf: &[u8], n: usize) -> (r: Option<Response>)
        requires
            n <= buf@.len(),
        ensures
            n == 0 <==> r is None,
            r matches Some(resp) ==> {
                let received = buf@.subrange(0, n as int);
                &&& spec_parse_bytes(received) is Err ==> resp@ == (ResponseContent {
                    status: StatusCode::BadRequest,
                    body: None,
                })
                &&& spec_parse_bytes(received) matches Ok(line) ==> (
                self.spec_router().paths().contains(line.path) ==> resp@
                    == self.spec_router().handler_at(line.path).spec_handle(line))
                &&& spec_parse_bytes(received) matches Ok(line) ==> (
                !self.spec_router().paths().contains(line.path) ==> resp@ == (ResponseContent {
                    status: StatusCode::NotFound,
                    body: None,
                }))
            },
    {
        if n == 0 {
            None
        } else {
            Some(self.respond(slice_subrange(buf, 0, n)))
        }
    }
}

} // verus!
