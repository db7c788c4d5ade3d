use vstd::prelude::*;

use crate::method::Method;
use crate::request::{Request, RequestLine};
use crate::response::{Response, ResponseContent};
use crate::router::Handler;
use crate::status_code::StatusCode;

verus! {

/// A handler that serves one fixed page: `GET` gets `200 Ok` with the page
/// as body, and every other method gets `405 Method Not Allowed` with no body.
pub struct GetPage {
    body: String,
}

impl GetPage {
    pub closed spec fn spec_body(self) -> Seq<char> {
        self.body@
    }

    pub fn new(body: String) -> (r: GetPage)
        ensures
            r.spec_body() == body@,
    {
        GetPage { body }
    }
}

impl Handler for GetPage {
    open spec fn spec_handle(&self, req: RequestLine) -> ResponseContent {
        if req.method == Method::GET {
            ResponseContent { status: StatusCode::OK, body: Some(self.spec_body()) }
        } else {
            ResponseContent { status: StatusCode::MethodNotAllowed, body: None }
        }
    }

    fn handle(&self, req: Request) -> (r: Response) {
        match req.method {
            Method::GET => Response::new(StatusCode::OK, Some(self.body.clone())),
            _ => Response::new(StatusCode::MethodNotAllowed, None),
        }
    }
}

} // verus!
