use vstd::prelude::*;
use vstd::slice::slice_to_vec;
use vstd::string::StringSliceAdditionalSpecFns;
use vstd::utf8::{encode_scalar, encode_utf8, is_ascii_chars, is_ascii_chars_encode_utf8};

use crate::decimal::{
    all_digits, append_decimal, decimal, lemma_decimal_round_trip, numeral_value,
};
use crate::status_code::StatusCode;

verus! {

/// Encoding a concatenation encodes each part in turn.
pub proof fn lemma_encode_utf8_concat(a: Seq<char>, b: Seq<char>)
    ensures
        encode_utf8(a + b) == encode_utf8(a) + encode_utf8(b),
    decreases a.len(),
{
    if a.len() == 0 {
        assert(a + b == b);
    } else {
        lemma_encode_utf8_concat(a.drop_first(), b);
        assert((a + b).drop_first() == a.drop_first() + b);
        assert(encode_utf8(a + b) == encode_scalar((a + b)[0] as u32) + encode_utf8(
            (a + b).drop_first(),
        ));
    }
}

/// The text of a body, empty when there is none.
pub open spec fn body_text(body: Option<Seq<char>>) -> Seq<char> {
    match body {
        Some(b) => b,
        None => seq![],
    }
}

/// The number of bytes a body takes on the wire.
pub open spec fn body_length(body: Option<Seq<char>>) -> nat {
    encode_utf8(body_text(body)).len()
}

/// What a response holds.
pub struct ResponseContent {
    pub status: StatusCode,
    pub body: Option<Seq<char>>,
}

/// The status line of a response, with its line end.
pub open spec fn status_line(status: StatusCode) -> Seq<char> {
    "HTTP/1.1 "@ + decimal(status.spec_code() as nat) + " "@ + status.spec_reason_phrase() + "\r\n"@
}

/// The text of a response on the wire: the status line, the one header
/// line, a blank line and the body, with nothing after the body.
pub open spec fn wire_text(c: ResponseContent) -> Seq<char> {
    status_line(c.status) + "Content-Length: "@ + decimal(body_length(c.body)) + "\r\n\r\n"@
        + body_text(c.body)
}

/// The head of a response on the wire: everything before the body.
pub open spec fn wire_head(c: ResponseContent) -> Seq<char> {
    status_line(c.status) + "Content-Length: "@ + decimal(body_length(c.body)) + "\r\n\r\n"@
}

/// On the wire, the Content-Length header holds a decimal numeral whose value
/// is the number of bytes that follow the head, which are the body's bytes.
pub proof fn lemma_content_length_round_trip(c: ResponseContent)
    ensures
        wire_text(c) == status_line(c.status) + "Content-Length: "@ + decimal(body_length(c.body))
            + "\r\n\r\n"@ + body_text(c.body),
        all_digits(decimal(body_length(c.body))),
        numeral_value(decimal(body_length(c.body))) == body_length(c.body),
        encode_utf8(wire_text(c)) == encode_utf8(wire_head(c)) + encode_utf8(body_text(c.body)),
        encode_utf8(wire_text(c)).len() - encode_utf8(wire_head(c)).len() == numeral_value(
            decimal(body_length(c.body)),
        ),
{
    lemma_decimal_round_trip(body_length(c.body));
    lemma_encode_utf8_concat(wire_head(c), body_text(c.body));
}

/// Whether the bytes at `k` are a blank line's `\r\n\r\n`.
pub open spec fn blank_line_at(w: Seq<u8>, k: int) -> bool {
    &&& 0 <= k
    &&& k + 4 <= w.len()
    &&& w[k] == 13u8
    &&& w[k + 1] == 10u8
    &&& w[k + 2] == 13u8
    &&& w[k + 3] == 10u8
}

/// ASCII text without a carriage return.
spec fn plain(s: Seq<char>) -> bool {
    forall|i: int| 0 <= i < s.len() ==> '\0' <= #[trigger] s[i] <= '\u{7f}' && s[i] != '\r'
}

proof fn lemma_plain_concat(a: Seq<char>, b: Seq<char>)
    requires
        plain(a),
        plain(b),
    ensures
        plain(a + b),
{
    assert forall|i: int| 0 <= i < (a + b).len() implies '\0' <= #[trigger] (a + b)[i] <= '\u{7f}'
        && (a + b)[i] != '\r' by {
        if i >= a.len() {
            assert((a + b)[i] == b[i - a.len()]);
        }
    }
}

proof fn lemma_decimal_plain(n: nat)
    ensures
        plain(decimal(n)),
{
    lemma_decimal_round_trip(n);
}

proof fn lemma_reason_plain(s: StatusCode)
    ensures
        plain(s.spec_reason_phrase()),
{
    reveal_strlit("Ok");
    reveal_strlit("Bad Request");
    reveal_strlit("Not Found");
    reveal_strlit("Method Not Allowed");
}

/// In the bytes of a response the first blank line ends the head, and the
/// Content-Length header's numeral is the number of bytes after it, which
/// are the body's bytes.
pub proof fn lemma_body_follows_first_blank_line(c: ResponseContent)
    ensures
        ({
            let w = encode_utf8(wire_text(c));
            let h = encode_utf8(wire_head(c)).len() as int;
            &&& blank_line_at(w, h - 4)
            &&& forall|k: int| 0 <= k < h - 4 ==> !blank_line_at(w, k)
            &&& w.subrange(h, w.len() as int) == encode_utf8(body_text(c.body))
            &&& numeral_value(decimal(body_length(c.body))) == w.len() - h
        }),
{
    let n = body_length(c.body);
    reveal_strlit("HTTP/1.1 ");
    reveal_strlit(" ");
    reveal_strlit("\r\n");
    reveal_strlit("Content-Length: ");
    reveal_strlit("\r\n\r\n");
    lemma_decimal_round_trip(n);
    lemma_decimal_round_trip(c.status.spec_code() as nat);
    lemma_decimal_plain(n);
    lemma_decimal_plain(c.status.spec_code() as nat);
    lemma_reason_plain(c.status);
    let a1 = "HTTP/1.1 "@ + decimal(c.status.spec_code() as nat) + " "@ + c.status.spec_reason_phrase();
    lemma_plain_concat("HTTP/1.1 "@, decimal(c.status.spec_code() as nat));
    lemma_plain_concat("HTTP/1.1 "@ + decimal(c.status.spec_code() as nat), " "@);
    lemma_plain_concat(
        "HTTP/1.1 "@ + decimal(c.status.spec_code() as nat) + " "@,
        c.status.spec_reason_phrase(),
    );
    let b = "Content-Length: "@ + decimal(n);
    lemma_plain_concat("Content-Length: "@, decimal(n));
    let p = a1 + "\r\n"@ + b;
    let head = p + "\r\n\r\n"@;
    assert(status_line(c.status) == a1 + "\r\n"@);
    assert(wire_head(c) =~= head);
    assert(is_ascii_chars(head)) by {
        assert forall|i: int| 0 <= i < head.len() implies '\0' <= #[trigger] head[i] <= '\u{7f}' by {
            if i < a1.len() {
                assert(head[i] == a1[i]);
            } else if i >= a1.len() + 2 && i < p.len() {
                assert(head[i] == b[i - a1.len() - 2]);
            }
        }
    }
    is_ascii_chars_encode_utf8(head);
    let body = body_text(c.body);
    lemma_content_length_round_trip(c);
    let w = encode_utf8(wire_text(c));
    let hb = encode_utf8(head);
    let h = hb.len() as int;
    assert(w == hb + encode_utf8(body));
    assert(h == head.len());
    assert(w.subrange(h, w.len() as int) =~= encode_utf8(body));
    assert forall|k: int| 0 <= k < head.len() implies #[trigger] w[k] == head[k] as u8 by {
        assert(w[k] == hb[k]);
    }
    let q = p.len() as int;
    assert(head[q] == '\r' && head[q + 1] == '\n');
    assert(head[q + 2] == '\r' && head[q + 3] == '\n');
    assert(blank_line_at(w, h - 4));
    assert forall|k: int| 0 <= k < h - 4 implies !blank_line_at(w, k) by {
        if blank_line_at(w, k) {
            assert(head[k] as u8 == 13u8);
            assert(head[k + 2] as u8 == 13u8);
            assert(head[k] == '\r');
            assert(head[k + 2] == '\r');
            if k < a1.len() {
                assert(head[k] == a1[k]);
            } else if k >= a1.len() + 2 {
                assert(head[k] == b[k - a1.len() - 2]);
            } else if k == a1.len() {
                assert(head[k + 2] == b[0]);
            } else {
                assert(head[k + 2] == b[1]);
            }
        }
    }
}

/// The header of a response: its status and the length of its body.
#[derive(Debug)]
pub struct ResponseHeader {
    status_code: StatusCode,
    content_length: u64,
}

impl ResponseHeader {
    pub closed spec fn spec_status(self) -> StatusCode {
        self.status_code
    }

    pub closed spec fn spec_length(self) -> u64 {
        self.content_length
    }

    /// The header's text on the wire, without the `HTTP/1.1 ` that opens the
    /// status line and without the end of the last line.
    pub open spec fn spec_text(self) -> Seq<char> {
        self.spec_status().spec_text() + "\r\n"@ + "Content-Length: "@ + decimal(
            self.spec_length() as nat,
        )
    }

    pub fn status_code(&self) -> (r: StatusCode)
        ensures
            r == self.spec_status(),
    {
        self.status_code
    }

    pub fn content_length(&self) -> (r: u64)
        ensures
            r == self.spec_length(),
    {
        self.content_length
    }

    /// The header's text, as in `200 Ok\r\nContent-Length: 2`.
    pub fn to_text(&self) -> (r: String)
        ensures
            r@ == self.spec_text(),
    {
        let mut out = self.status_code.to_text();
        out.append("\r\n");
        out.append("Content-Length: ");
        append_decimal(&mut out, self.content_length);
        out
    }
}

/// A response: a status and an optional body.
#[derive(Debug)]
pub struct Response {
    response_header: ResponseHeader,
    body: Option<String>,
}

pub open spec fn text_of(s: Option<String>) -> Option<Seq<char>> {
    match s {
        Some(b) => Some(b@),
        None => None,
    }
}

impl Response {
    /// The declared length is the body's length in bytes.
    #[verifier::type_invariant]
    spec fn length_declared(self) -> bool {
        self.response_header.content_length == body_length(text_of(self.body))
    }

    pub closed spec fn view(self) -> ResponseContent {
        ResponseContent { status: self.response_header.status_code, body: text_of(self.body) }
    }

    pub closed spec fn spec_content_length(self) -> u64 {
        self.response_header.content_length
    }

    /// A response with the given status and body. The body's length is
    /// measured here, once.
    pub fn new(status_code: StatusCode, body: Option<String>) -> (r: Response)
        ensures
            r@ == (ResponseContent { status: status_code, body: text_of(body) }),
            r.spec_content_length() == body_length(text_of(body)),
    {
        let content_length: u64 = match &body {
            Some(b) => b.as_str().as_bytes().len() as u64,
            None => 0,
        };
        let response_header = ResponseHeader { status_code, content_length };
        Response { response_header, body }
    }

    pub fn status_code(&self) -> (r: StatusCode)
        ensures
            r == self@.status,
    {
        self.response_header.status_code
    }

    /// The header: the status and the declared length of the body.
    pub fn header(&self) -> (r: &ResponseHeader)
        ensures
            r.spec_status() == self@.status,
            r.spec_length() == self.spec_content_length(),
    {
        &self.response_header
    }

    /// The body's length in bytes, as declared in the header.
    pub fn content_length(&self) -> (r: u64)
        ensures
            r == self.spec_content_length(),
            r == body_length(self@.body),
    {
        proof {
            use_type_invariant(self);
        }
        self.response_header.content_length
    }

    pub fn body(&self) -> (r: Option<&str>)
        ensures
            r matches Some(b) ==> self@.body == Some(b@),
            r is None ==> self@.body is None,
    {
        match &self.body {
            Some(b) => Some(b.as_str()),
            None => None,
        }
    }

    /// The text of the response on the wire.
    pub fn to_text(&self) -> (r: String)
        ensures
            r@ == wire_text(self@),
    {
        proof {
            use_type_invariant(self);
        }
        let mut out = "HTTP/1.1 ".to_owned();
        out.append(self.response_header.to_text().as_str());
        out.append("\r\n\r\n");
        match &self.body {
            Some(b) => out.append(b.as_str()),
            None => {},
        }
        proof {
            let h = self.response_header;
            assert(out@ =~= "HTTP/1.1 "@ + h.spec_text() + "\r\n\r\n"@ + body_text(self@.body));
            assert(wire_text(self@) =~= "HTTP/1.1 "@ + h.spec_text() + "\r\n\r\n"@ + body_text(
                self@.body,
            ));
        }
        out
    }

    /// The bytes of the response on the wire.
    pub fn serialize(&self) -> (r: Vec<u8>)
        ensures
            r@ == encode_utf8(wire_text(self@)),
    {
        let text = self.to_text();
        slice_to_vec(text.as_str().as_bytes())
    }
}

} // verus!
