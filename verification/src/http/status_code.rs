//! Response status codes and their reason phrases.

use vstd::prelude::*;

verus! {

/// The status of a response. Each code has one reason phrase.
#[derive(Copy, Clone, Debug, PartialEq, Eq, Structural)]
pub enum StatusCode {
    OK,
    BadRequest,
    NotFound,
}

impl StatusCode {
    /// The number that stands for this status on the wire.
    pub open spec fn number(self) -> nat {
        match self {
            StatusCode::OK => 200,
            StatusCode::BadRequest => 400,
            StatusCode::NotFound => 404,
        }
    }

    /// The reason phrase that goes with this status.
    pub open spec fn reason(self) -> Seq<char> {
        match self {
            StatusCode::OK => "OK"@,
            StatusCode::BadRequest => "Bad Request"@,
            StatusCode::NotFound => "Not Found"@,
        }
    }

    /// The status code as a number.
    pub fn code(&self) -> (r: u16)
        ensures
            r == self.number(),
    {
        match self {
            StatusCode::OK => 200,
            StatusCode::BadRequest => 400,
            StatusCode::NotFound => 404,
        }
    }

    /// The reason phrase of the status.
    pub fn reason_phrase(&self) -> (r: &'static str)
        ensures
            r@ == self.reason(),
    {
        match self {
            StatusCode::OK => "OK",
            StatusCode::BadRequest => "Bad Request",
            StatusCode::NotFound => "Not Found",
        }
    }
}

/// No two statuses share a number.
pub proof fn lemma_number_determines_status(a: StatusCode, b: StatusCode)
    requires
        a.number() == b.number(),
    ensures
        a == b,
{
}

/// No two statuses share a reason phrase.
pub proof fn lemma_reason_determines_status(a: StatusCode, b: StatusCode)
    requires
        a.reason() == b.reason(),
    ensures
        a == b,
{
    reveal_strlit("OK");
    reveal_strlit("Bad Request");
    reveal_strlit("Not Found");
    assert("OK"@.len() == 2);
    assert("Bad Request"@.len() == 11);
    assert("Not Found"@.len() == 9);
}

} // verus!
