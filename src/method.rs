use vstd::prelude::*;

use crate::text::same_text;

verus! {

/// The request methods of HTTP/1.1.
#[derive(Debug, Clone, Copy, PartialEq, Eq, Structural)]
pub enum Method {
    GET,
    POST,
    PUT,
    DELETE,
    HEAD,
    OPTIONS,
    CONNECT,
    TRACE,
    PATCH,
}

/// A method token that names no method.
#[derive(Debug, Clone, Copy, PartialEq, Eq, Structural)]
pub struct MethodError;

impl Method {
    /// The token that names this method on a request line.
    pub open spec fn spec_token(self) -> Seq<char> {
        match self {
            Method::GET => "GET"@,
            Method::POST => "POST"@,
            Method::PUT => "PUT"@,
            Method::DELETE => "DELETE"@,
            Method::HEAD => "HEAD"@,
            Method::OPTIONS => "OPTIONS"@,
            Method::CONNECT => "CONNECT"@,
            Method::TRACE => "TRACE"@,
            Method::PATCH => "PATCH"@,
        }
    }

    /// The method a token names, compared case-sensitively and untrimmed.
    pub open spec fn spec_parse(t: Seq<char>) -> Result<Method, MethodError> {
        if t == "GET"@ {
            Ok(Method::GET)
        } else if t == "POST"@ {
            Ok(Method::POST)
        } else if t == "PUT"@ {
            Ok(Method::PUT)
        } else if t == "DELETE"@ {
            Ok(Method::DELETE)
        } else if t == "HEAD"@ {
            Ok(Method::HEAD)
        } else if t == "OPTIONS"@ {
            Ok(Method::OPTIONS)
        } else if t == "CONNECT"@ {
            Ok(Method::CONNECT)
        } else if t == "TRACE"@ {
            Ok(Method::TRACE)
        } else if t == "PATCH"@ {
            Ok(Method::PATCH)
        } else {
            Err(MethodError)
        }
    }

    pub fn as_str(&self) -> (r: &'static str)
        ensures
            r@ == self.spec_token(),
    {
        match self {
            Method::GET => "GET",
            Method::POST => "POST",
            Method::PUT => "PUT",
            Method::DELETE => "DELETE",
            Method::HEAD => "HEAD",
            Method::OPTIONS => "OPTIONS",
            Method::CONNECT => "CONNECT",
            Method::TRACE => "TRACE",
            Method::PATCH => "PATCH",
        }
    }

    /// Parses a method token.
    pub fn parse(s: &str) -> (r: Result<Method, MethodError>)
        ensures
            r == Method::spec_parse(s@),
    {
        if same_text(s, "GET") {
            Ok(Method::GET)
        } else if same_text(s, "POST") {
            Ok(Method::POST)
        } else if same_text(s, "PUT") {
            Ok(Method::PUT)
        } else if same_text(s, "DELETE") {
            Ok(Method::DELETE)
        } else if same_text(s, "HEAD") {
            Ok(Method::HEAD)
        } else if same_text(s, "OPTIONS") {
            Ok(Method::OPTIONS)
        } else if same_text(s, "CONNECT") {
            Ok(Method::CONNECT)
        } else if same_text(s, "TRACE") {
            Ok(Method::TRACE)
        } else if same_text(s, "PATCH") {
            Ok(Method::PATCH)
        } else {
            Err(MethodError)
        }
    }
}

impl std::str::FromStr for Method {
    type Err = MethodError;

    fn from_str(s: &str) -> Result<Method, MethodError> {
        Method::parse(s)
    }
}

/// Every method's token parses back to that method, and a token parses only
/// when it is the token of the method it yields.
pub proof fn lemma_method_round_trip(m: Method, t: Seq<char>)
    ensures
        Method::spec_parse(m.spec_token()) == Ok::<Method, MethodError>(m),
        Method::spec_parse(t) matches Ok(p) ==> p.spec_token() == t,
{
    reveal_strlit("GET");
    reveal_strlit("POST");
    reveal_strlit("PUT");
    reveal_strlit("DELETE");
    reveal_strlit("HEAD");
    reveal_strlit("OPTIONS");
    reveal_strlit("CONNECT");
    reveal_strlit("TRACE");
    reveal_strlit("PATCH");
    let g = "GET"@;
    let po = "POST"@;
    let pu = "PUT"@;
    let d = "DELETE"@;
    let h = "HEAD"@;
    let o = "OPTIONS"@;
    let c = "CONNECT"@;
    let tr = "TRACE"@;
    assert(po[0] != g[0]);
    assert(pu[1] != po[1] && pu[0] != g[0]);
    assert(d[0] != g[0] && d[0] != po[0] && d[0] != pu[0]);
    assert(h[0] != g[0] && h[0] != po[0] && h[0] != pu[0] && h[0] != d[0]);
    assert(o[0] != g[0] && o[0] != po[0] && o[0] != pu[0] && o[0] != d[0] && o[0] != h[0]);
    assert(c[0] != g[0] && c[0] != po[0] && c[0] != pu[0] && c[0] != d[0] && c[0] != h[0]
        && c[0] != o[0]);
    assert(tr[0] != g[0] && tr[0] != po[0] && tr[0] != pu[0] && tr[0] != d[0] && tr[0] != h[0]
        && tr[0] != o[0] && tr[0] != c[0]);
    let pa = "PATCH"@;
    assert(pa[0] != g[0] && pa[1] != po[1] && pa[1] != pu[1] && pa[0] != d[0] && pa[0] != h[0]
        && pa[0] != o[0] && pa[0] != c[0] && pa[0] != tr[0]);
}

} // verus!
