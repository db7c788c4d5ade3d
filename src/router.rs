use vstd::prelude::*;

use crate::request::{Request, RequestLine};
use crate::response::{Response, ResponseContent};
use crate::status_code::StatusCode;
use crate::text::same_text;

verus! {

/// Application logic bound to a route: turns a request into a response.
/// A handler that supports only some methods answers the others with
/// `StatusCode::MethodNotAllowed`; the router does not check methods.
/// Implementations are verified code: each states in `spec_handle` the
/// response it gives, and `handle` is proved to give it.
pub trait Handler {
    /// The response this handler gives to a request.
    spec fn spec_handle(&self, req: RequestLine) -> ResponseContent;

    fn handle(&self, req: Request) -> (r: Response)
        ensures
            r@ == self.spec_handle(req@),
    ;
}

/// A boxed handler handles as the handler inside it does, so that handlers of
/// different types can share one router as `Box<dyn Handler>`.
impl<T: Handler + ?Sized> Handler for Box<T> {
    open spec fn spec_handle(&self, req: RequestLine) -> ResponseContent {
        (**self).spec_handle(req)
    }

    fn handle(&self, req: Request) -> (r: Response) {
        (**self).handle(req)
    }
}

spec fn unique_paths(paths: Seq<String>) -> bool {
    forall|i: int, j: int|
        0 <= i < paths.len() && 0 <= j < paths.len() && i != j ==> #[trigger] paths[i]@
            != #[trigger] paths[j]@
}

/// Maps exact paths to handlers. The routes are two vectors of equal length,
/// paths and handlers, where the handler for `paths[i]` is `handlers[i]`;
/// no path is held twice.
pub struct Router<H: Handler> {
    paths: Vec<String>,
    handlers: Vec<H>,
}

impl<H: Handler> Router<H> {
    /// Each path has one handler, and no path is held twice.
    #[verifier::type_invariant]
    spec fn well_formed(self) -> bool {
        &&& self.paths@.len() == self.handlers@.len()
        &&& unique_paths(self.paths@)
    }

    /// The paths that have a handler.
    pub closed spec fn paths(self) -> Set<Seq<char>> {
        Set::new(|p: Seq<char>| exists|i: int| 0 <= i < self.paths@.len() && self.paths@[i]@ == p)
    }

    /// Where a registered path is held.
    closed spec fn index_of(self, p: Seq<char>) -> int {
        choose|i: int| 0 <= i < self.paths@.len() && self.paths@[i]@ == p
    }

    /// The handler registered for a path.
    pub closed spec fn handler_at(self, p: Seq<char>) -> H {
        self.handlers@[self.index_of(p)]
    }

    /// A router with no routes.
    pub fn new() -> (r: Router<H>)
        ensures
            r.paths().is_empty(),
    {
        let r = Router { paths: Vec::new(), handlers: Vec::new() };
        assert(r.paths() =~= Set::empty());
        r
    }

    /// Where `path` is held: its position, or the number of routes.
    fn position(&self, path: &str) -> (r: usize)
        ensures
            r <= self.paths@.len(),
            r < self.paths@.len() ==> self.paths@[r as int]@ == path@ && self.index_of(path@) == r,
            r == self.paths@.len() ==> !self.paths().contains(path@),
    {
        let mut i: usize = 0;
        while i < self.paths.len()
            invariant
                i <= self.paths@.len(),
                forall|j: int| 0 <= j < i ==> self.paths@[j]@ != path@,
            decreases self.paths@.len() - i,
        {
            if same_text(self.paths[i].as_str(), path) {
                proof {
                    use_type_invariant(self);
                    assert(self.paths@[i as int]@ == path@);
                }
                return i;
            }
            i += 1;
        }
        i
    }

    /// Stores `handler` under the exact path `path`, in place of any handler
    /// stored there before.
    pub fn register(&mut self, path: &str, handler: H)
        ensures
            final(self).paths() == old(self).paths().insert(path@),
            final(self).handler_at(path@) == handler,
            forall|p: Seq<char>|
                p != path@ && #[trigger] old(self).paths().contains(p) ==> final(self).handler_at(p)
                    == old(self).handler_at(p),
    {
        proof {
            use_type_invariant(&*self);
        }
        let i = self.position(path);
        let ghost before = *self;
        let ghost prev = self.paths@;
        let mut taken = Router::<H>::new();
        std::mem::swap(self, &mut taken);
        let Router { mut paths, mut handlers } = taken;
        if i < paths.len() {
            handlers.set(i, handler);
        } else {
            paths.push(path.to_owned());
            handlers.push(handler);
            proof {
                assert(paths@ == prev.push(paths@.last()));
                assert forall|a: int, b: int|
                    0 <= a < paths@.len() && 0 <= b < paths@.len() && a != b implies
                    #[trigger] paths@[a]@ != #[trigger] paths@[b]@ by {
                    if a < prev.len() && b < prev.len() {
                    } else if a < prev.len() {
                        assert(before.paths().contains(prev[a]@));
                    } else {
                        assert(before.paths().contains(prev[b]@));
                    }
                }
            }
        }
        *self = Router { paths, handlers };
        proof {
            let now = self.paths@;
            assert(self.paths() =~= before.paths().insert(path@)) by {
                assert forall|p: Seq<char>| #[trigger] before.paths().insert(path@).contains(p)
                    implies self.paths().contains(p) by {
                    if p == path@ {
                        assert(now[i as int]@ == p);
                    } else {
                        let w = choose|w: int| 0 <= w < prev.len() && prev[w]@ == p;
                        assert(now[w]@ == p);
                    }
                }
            }
            assert(now[i as int]@ == path@);
            assert(self.index_of(path@) == i);
            assert forall|p: Seq<char>|
                p != path@ && #[trigger] before.paths().contains(p) implies self.index_of(p)
                == before.index_of(p) by {
                let a = before.index_of(p);
                assert(now[a]@ == p);
            }
        }
    }

    /// The handler registered for `path`, if any.
    pub fn route(&self, path: &str) -> (r: Option<&H>)
        ensures
            r is Some <==> self.paths().contains(path@),
            r matches Some(h) ==> *h == self.handler_at(path@),
    {
        proof {
            use_type_invariant(self);
        }
        let i = self.position(path);
        if i < self.paths.len() {
            Some(&self.handlers[i])
        } else {
            None
        }
    }

    /// Hands the request to the handler registered for its path, which
    /// decides the response; a path with no handler gets `404 Not Found`
    /// with no body.
    pub fn handle_request(&self, req: Request) -> (r: Response)
        ensures
            self.paths().contains(req.path@) ==> r@ == self.handler_at(req.path@).spec_handle(
                req@,
            ),
            !self.paths().contains(req.path@) ==> r@ == (ResponseContent {
                status: StatusCode::NotFound,
                body: None,
            }),
    {
        match self.route(req.path.as_str()) {
            Some(h) => h.handle(req),
            None => Response::new(StatusCode::NotFound, None),
        }
    }
}

} // verus!
