//! The status code of a response.
use vstd::prelude::*;

verus! {

/// An HTTP status code, always within 100..=999.
#[derive(Clone, Copy, PartialEq, Eq, Structural, Debug)]
pub struct StatusCode {
    pub code: u16,
}

impl StatusCode {
    /// The numeric value of the code.
    pub open spec fn spec_code(self) -> u16 {
        self.code
    }

    /// Every status code a message can carry lies within 100..=999.
    pub open spec fn wf(self) -> bool {
        100 <= self.spec_code() <= 999
    }

    /// A status code from its number; values outside 100..=999 are rejected.
    pub fn from_u16(code: u16) -> (r: Option<StatusCode>)
        ensures
            match r {
                Some(s) => 100 <= code <= 999 && s.spec_code() == code && s.wf(),
                None => !(100 <= code <= 999),
            },
    {
        if 100 <= code && code <= 999 {
            Some(StatusCode { code })
        } else {
            None
        }
    }

    pub fn as_u16(&self) -> (r: u16)
        ensures
            r == self.spec_code(),
    {
        self.code
    }

    /// The `200 OK` code.
    pub fn ok() -> (r: StatusCode)
        ensures
            r.spec_code() == 200 && r.wf(),
    {
        StatusCode { code: 200 }
    }

    /// The `404 Not Found` code.
    pub fn not_found() -> (r: StatusCode)
        ensures
            r.spec_code() == 404 && r.wf(),
    {
        StatusCode { code: 404 }
    }

    /// The `405 Method Not Allowed` code.
    pub fn method_not_allowed() -> (r: StatusCode)
        ensures
            r.spec_code() == 405 && r.wf(),
    {
        StatusCode { code: 405 }
    }

    /// The `500 Internal Server Error` code.
    pub fn internal_server_error() -> (r: StatusCode)
        ensures
            r.spec_code() == 500 && r.wf(),
    {
        StatusCode { code: 500 }
    }

    pub fn is_success(&self) -> (r: bool)
        ensures
            r == (200 <= self.spec_code() <= 299),
    {
        200 <= self.code && self.code <= 299
    }
}

impl Default for StatusCode {
    /// The default status of a fresh response is `200 OK`.
    fn default() -> (r: StatusCode)
        ensures
            r.spec_code() == 200 && r.wf(),
    {
        StatusCode { code: 200 }
    }
}

} // verus!
