use vstd::prelude::*;
use vstd::string::StringSliceAdditionalSpecFns;
use vstd::utf8::{decode_utf8, encode_scalar, encode_utf8, valid_utf8};

use crate::method::{Method, MethodError};
use crate::response::lemma_encode_utf8_concat;
use crate::text::{
    chars_of, find_char, first_char, lemma_first_char, lemma_first_char_subrange, same_text,
    substring,
};

verus! {

broadcast use vstd::utf8::encode_utf8_decode_utf8;

/// Why a request line was rejected.
#[derive(Debug, Clone, Copy, PartialEq, Eq, Structural)]
pub enum ParseError {
    /// A token of the request line is missing.
    InvalidRequest,
    /// The bytes are not UTF-8 text.
    InvalidEncoding,
    /// The protocol token is not `HTTP/1.1`.
    InvalidProtocol,
    /// The method token names no method.
    InvalidMethod,
}

impl ParseError {
    pub open spec fn spec_error(self) -> Seq<char> {
        match self {
            ParseError::InvalidRequest => "Invalid Request"@,
            ParseError::InvalidEncoding => "Invalid Enconding"@,
            ParseError::InvalidProtocol => "Invalid Protocol"@,
            ParseError::InvalidMethod => "Invalid Method"@,
        }
    }

    /// A short message that names the error.
    pub fn error(&self) -> (r: &'static str)
        ensures
            r@ == self.spec_error(),
    {
        match self {
            ParseError::InvalidRequest => "Invalid Request",
            ParseError::InvalidEncoding => "Invalid Enconding",
            ParseError::InvalidProtocol => "Invalid Protocol",
            ParseError::InvalidMethod => "Invalid Method",
        }
    }
}

impl From<MethodError> for ParseError {
    fn from(e: MethodError) -> (r: ParseError)
        ensures
            r == ParseError::InvalidMethod,
    {
        ParseError::InvalidMethod
    }
}

impl vstd::std_specs::convert::FromSpecImpl<MethodError> for ParseError {
    open spec fn obeys_from_spec() -> bool {
        true
    }

    open spec fn from_spec(e: MethodError) -> ParseError {
        ParseError::InvalidMethod
    }
}

/// What a parsed request line holds.
pub struct RequestLine {
    pub method: Method,
    pub path: Seq<char>,
    pub query: Option<Seq<char>>,
}

/// A parsed request line. It owns copies of the text it was parsed from.
#[derive(Debug)]
pub struct Request {
    /// The target up to its first `?`.
    pub path: String,
    /// The target after its first `?`, if it has one; not decoded.
    pub query_str: Option<String>,
    pub method: Method,
}

impl View for Request {
    type V = RequestLine;

    open spec fn view(&self) -> RequestLine {
        RequestLine {
            method: self.method,
            path: self.path@,
            query: match self.query_str {
                Some(q) => Some(q@),
                None => None,
            },
        }
    }
}

/// Whether a character ends a token of the request line.
pub open spec fn is_delimiter(c: char) -> bool {
    c == ' ' || c == '\r'
}

/// The first position at or after `from` that holds a delimiter, or the
/// length of `s` when none does.
pub open spec fn first_delimiter(s: Seq<char>, from: int) -> int
    decreases s.len() - from,
{
    if from >= s.len() {
        s.len() as int
    } else if is_delimiter(s[from]) {
        from
    } else {
        first_delimiter(s, from + 1)
    }
}

/// The request line that a target and a method make: the target splits at
/// its first `?` into path and query.
pub open spec fn spec_request_line(method: Method, target: Seq<char>) -> RequestLine {
    let q = first_char(target, '?', 0, target.len() as int);
    RequestLine {
        method,
        path: target.subrange(0, q),
        query: if q < target.len() {
            Some(target.subrange(q + 1, target.len() as int))
        } else {
            None
        },
    }
}

/// What parsing the text `t` gives. The first three tokens, each ended by a
/// space or a carriage return, are the method, the target and the protocol;
/// whatever follows the third is not read.
pub open spec fn spec_parse_text(t: Seq<char>) -> Result<RequestLine, ParseError> {
    let e1 = first_delimiter(t, 0);
    let e2 = first_delimiter(t, e1 + 1);
    let e3 = first_delimiter(t, e2 + 1);
    if e1 >= t.len() || e2 >= t.len() || e3 >= t.len() {
        Err(ParseError::InvalidRequest)
    } else if t.subrange(e2 + 1, e3) != "HTTP/1.1"@ {
        Err(ParseError::InvalidProtocol)
    } else {
        match Method::spec_parse(t.subrange(0, e1)) {
            Ok(m) => Ok(spec_request_line(m, t.subrange(e1 + 1, e2))),
            Err(_) => Err(ParseError::InvalidMethod),
        }
    }
}

/// What parsing the bytes `b` gives: they must be UTF-8 text.
pub open spec fn spec_parse_bytes(b: Seq<u8>) -> Result<RequestLine, ParseError> {
    if valid_utf8(b) {
        spec_parse_text(decode_utf8(b))
    } else {
        Err(ParseError::InvalidEncoding)
    }
}

/// The path of a parsed request never holds a `?`: the query is split off
/// before it.
pub proof fn lemma_path_has_no_query_mark(t: Seq<char>)
    ensures
        spec_parse_text(t) matches Ok(line) ==> !line.path.contains('?'),
{
    if spec_parse_text(t) is Ok {
        let e1 = first_delimiter(t, 0);
        let e2 = first_delimiter(t, e1 + 1);
        let target = t.subrange(e1 + 1, e2);
        lemma_first_delimiter(t, 0);
        lemma_first_delimiter(t, e1 + 1);
        lemma_first_char(target, '?', 0, target.len() as int);
        let q = first_char(target, '?', 0, target.len() as int);
        assert forall|i: int| 0 <= i < q implies target.subrange(0, q)[i] != '?' by {}
    }
}

/// Bytes that hold neither a space nor a carriage return never parse: they
/// are not UTF-8, or their text has no token delimiter, so the request line
/// is incomplete.
pub proof fn lemma_no_delimiter_byte_never_parses(b: Seq<u8>)
    requires
        forall|i: int| 0 <= i < b.len() ==> b[i] != 0x20u8 && b[i] != 0x0du8,
    ensures
        spec_parse_bytes(b) is Err,
        valid_utf8(b) ==> spec_parse_bytes(b) == Err::<RequestLine, ParseError>(
            ParseError::InvalidRequest,
        ),
{
    if valid_utf8(b) {
        let t = decode_utf8(b);
        vstd::utf8::decode_utf8_encode_utf8(b);
        lemma_first_delimiter(t, 0);
        let e = first_delimiter(t, 0);
        if e < t.len() {
            let c = t[e];
            let before = t.subrange(0, e);
            let after = t.subrange(e + 1, t.len() as int);
            assert(t =~= before + (seq![c] + after));
            lemma_encode_utf8_concat(before, seq![c] + after);
            lemma_encode_utf8_concat(seq![c], after);
            assert(seq![c].drop_first() =~= Seq::<char>::empty());
            assert(encode_utf8(Seq::<char>::empty()) =~= Seq::<u8>::empty());
            assert(encode_utf8(seq![c]) == encode_scalar(seq![c][0] as u32) + encode_utf8(
                seq![c].drop_first(),
            ));
            assert(encode_utf8(seq![c]) =~= encode_scalar(c as u32));
            let u = c as u32;
            assert(u == 0x20 || u == 0x0d);
            assert(u == 0x20 || u == 0x0d ==> (u & 0x7f) as u8 == u as u8) by (bit_vector);
            assert(encode_scalar(u) =~= seq![u as u8]);
            let k = encode_utf8(before).len() as int;
            assert(b[k] == u as u8);
            assert(false);
        }
    }
}

pub proof fn lemma_first_delimiter(s: Seq<char>, from: int)
    requires
        0 <= from,
    ensures
        from <= first_delimiter(s, from) <= s.len() || (from > s.len() && first_delimiter(s, from)
            == s.len()),
        forall|i: int| from <= i < first_delimiter(s, from) ==> !is_delimiter(s[i]),
        first_delimiter(s, from) < s.len() ==> is_delimiter(s[first_delimiter(s, from)]),
    decreases s.len() - from,
{
    if from < s.len() && !is_delimiter(s[from]) {
        lemma_first_delimiter(s, from + 1);
    }
}

/// Finds the end of the token that starts at `from`.
fn get_next_token(s: &Vec<char>, from: usize) -> (r: usize)
    requires
        from <= s@.len(),
    ensures
        r == first_delimiter(s@, from as int),
{
    let mut i = from;
    while i < s.len()
        invariant
            from <= i <= s@.len(),
            first_delimiter(s@, from as int) == first_delimiter(s@, i as int),
        decreases s@.len() - i,
    {
        if s[i] == ' ' || s[i] == '\r' {
            return i;
        }
        i += 1;
    }
    i
}

/// Relies on std::str::from_utf8: it gives the text that the bytes encode,
/// and fails exactly when they are not UTF-8.
#[verifier::external_body]
fn decode_text(b: &[u8]) -> (r: Option<&str>)
    ensures
        r is Some <==> valid_utf8(b@),
        r matches Some(s) ==> s.spec_bytes() == b@,
{
    std::str::from_utf8(b).ok()
}

impl Request {
    /// Parses the request line at the start of `text`.
    pub fn from_text(text: &str) -> (r: Result<Request, ParseError>)
        ensures
            r matches Ok(req) ==> spec_parse_text(text@) == Ok::<RequestLine, ParseError>(req@),
            r matches Err(e) ==> spec_parse_text(text@) == Err::<RequestLine, ParseError>(e),
    {
        let cs = chars_of(text);
        let n = cs.len();
        let e1 = get_next_token(&cs, 0);
        if e1 >= n {
            return Err(ParseError::InvalidRequest);
        }
        let e2 = get_next_token(&cs, e1 + 1);
        if e2 >= n {
            return Err(ParseError::InvalidRequest);
        }
        let e3 = get_next_token(&cs, e2 + 1);
        if e3 >= n {
            return Err(ParseError::InvalidRequest);
        }
        proof {
            lemma_first_delimiter(text@, 0);
            lemma_first_delimiter(text@, e1 + 1);
            lemma_first_delimiter(text@, e2 + 1);
        }
        let protocol = text.substring_char(e2 + 1, e3);
        if !same_text(protocol, "HTTP/1.1") {
            return Err(ParseError::InvalidProtocol);
        }
        let method = match Method::parse(text.substring_char(0, e1)) {
            Ok(m) => m,
            Err(e) => {
                return Err(ParseError::from(e));
            },
        };
        let q = find_char(&cs, '?', e1 + 1, e2);
        proof {
            let target = text@.subrange(e1 + 1, e2 as int);
            lemma_first_char(cs@, '?', e1 + 1, e2 as int);
            lemma_first_char_subrange(text@, '?', e1 + 1, e2 as int, e1 + 1);
            assert(target.subrange(0, q - e1 - 1) =~= text@.subrange(e1 + 1, q as int));
            if q < e2 {
                assert(target.subrange(q - e1, target.len() as int) =~= text@.subrange(
                    q + 1,
                    e2 as int,
                ));
            }
        }
        let path = substring(text, e1 + 1, q);
        let query_str = if q < e2 {
            Some(substring(text, q + 1, e2))
        } else {
            None
        };
        Ok(Request { path, query_str, method })
    }

    /// Parses the request line at the start of `buf`, which must be UTF-8
    /// text. Bytes after the line are not read.
    pub fn try_from(buf: &[u8]) -> (r: Result<Request, ParseError>)
        ensures
            r matches Ok(req) ==> spec_parse_bytes(buf@) == Ok::<RequestLine, ParseError>(req@),
            r matches Err(e) ==> spec_parse_bytes(buf@) == Err::<RequestLine, ParseError>(e),
    {
        match decode_text(buf) {
            Some(text) => {
                proof {
                    assert(decode_utf8(text.spec_bytes()) == text@);
                }
                Request::from_text(text)
            },
            None => Err(ParseError::InvalidEncoding),
        }
    }
}

} // verus!
