use vstd::prelude::*;

use crate::decimal::{append_decimal, decimal};

verus! {

/// The response codes this server produces.
#[derive(Debug, Clone, Copy, PartialEq, Eq, Structural)]
pub enum StatusCode {
    OK,
    BadRequest,
    NotFound,
    MethodNotAllowed,
}

impl StatusCode {
    /// The numeric code sent on the status line.
    pub open spec fn spec_code(self) -> u16 {
        match self {
            StatusCode::OK => 200,
            StatusCode::BadRequest => 400,
            StatusCode::NotFound => 404,
            StatusCode::MethodNotAllowed => 405,
        }
    }

    /// The reason phrase sent after the numeric code.
    pub open spec fn spec_reason_phrase(self) -> Seq<char> {
        match self {
            StatusCode::OK => "Ok"@,
            StatusCode::BadRequest => "Bad Request"@,
            StatusCode::NotFound => "Not Found"@,
            StatusCode::MethodNotAllowed => "Method Not Allowed"@,
        }
    }

    /// The code and the reason phrase, as the status line shows them.
    pub open spec fn spec_text(self) -> Seq<char> {
        decimal(self.spec_code() as nat) + " "@ + self.spec_reason_phrase()
    }

    pub fn code(&self) -> (r: u16)
        ensures
            r == self.spec_code(),
    {
        match self {
            StatusCode::OK => 200,
            StatusCode::BadRequest => 400,
            StatusCode::NotFound => 404,
            StatusCode::MethodNotAllowed => 405,
        }
    }

    pub fn reason_phrase(&self) -> (r: &'static str)
        ensures
            r@ == self.spec_reason_phrase(),
    {
        match self {
            StatusCode::OK => "Ok",
            StatusCode::BadRequest => "Bad Request",
            StatusCode::NotFound => "Not Found",
            StatusCode::MethodNotAllowed => "Method Not Allowed",
        }
    }

    /// The code and the reason phrase, as in `200 Ok`.
    pub fn to_text(&self) -> (r: String)
        ensures
            r@ == self.spec_text(),
    {
        let mut out = String::new();
        append_decimal(&mut out, self.code() as u64);
        out.append(" ");
        out.append(self.reason_phrase());
        assert(out@ =~= self.spec_text());
        out
    }
}

} // verus!
