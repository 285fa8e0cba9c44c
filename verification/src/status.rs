//! HTTP status codes.

use vstd::prelude::*;
use reqwest::StatusCode;

verus! {

/// A status code of a response, from 100 to 999.
#[derive(Debug, Clone, Copy, PartialEq, Eq, Structural)]
pub struct HttpStatus {
    code: u16,
}

/// The codes that a response can have.
pub open spec fn is_status_code(code: u16) -> bool {
    100 <= code <= 999
}

/// The codes of success.
pub open spec fn success_code(code: u16) -> bool {
    200 <= code < 300
}

/// The codes on which another endpoint may do better: request timeout, not
/// found, and the server errors.
pub open spec fn retryable_code(code: u16) -> bool {
    code == 408 || code == 404 || 500 <= code < 600
}

/// How `reqwest::StatusCode` displays a code.
pub uninterp spec fn status_display(code: u16) -> Seq<char>;

/// Calls `reqwest::StatusCode::from_u16` and displays what it gives. Claimed of
/// it: a code from 100 to 999 is accepted, and the text depends on the code
/// alone (the code and its reason phrase, such as `404 Not Found`, which is
/// named and not spelled out).
#[verifier::external_body]
fn display_status(code: u16) -> (r: String)
    requires
        is_status_code(code),
    ensures
        r@ == status_display(code),
{
    StatusCode::from_u16(code).unwrap().to_string()
}

impl HttpStatus {
    #[verifier::type_invariant]
    spec fn wf(self) -> bool {
        is_status_code(self.code)
    }

    /// The code.
    pub closed spec fn view(&self) -> u16 {
        self.code
    }

    /// The status of a code, if a response can have it.
    pub fn new(code: u16) -> (r: Option<HttpStatus>)
        ensures
            r is Some <==> is_status_code(code),
            r matches Some(status) ==> status@ == code,
    {
        if 100 <= code && code <= 999 {
            Some(HttpStatus { code })
        } else {
            None
        }
    }

    /// The code.
    pub fn as_u16(&self) -> (r: u16)
        ensures
            r == self@,
            is_status_code(r),
    {
        proof {
            use_type_invariant(self);
        }
        self.code
    }

    /// Whether the request succeeded.
    pub fn is_success(&self) -> (r: bool)
        ensures
            r == success_code(self@),
    {
        200 <= self.code && self.code < 300
    }

    /// Whether another endpoint may do better.
    pub fn is_retryable(&self) -> (r: bool)
        ensures
            r == retryable_code(self@),
    {
        self.code == 408 || self.code == 404 || (500 <= self.code && self.code < 600)
    }

    /// The code and its reason phrase.
    pub fn text(&self) -> (r: String)
        ensures
            r@ == status_display(self@),
    {
        proof {
            use_type_invariant(self);
        }
        display_status(self.code)
    }
}

// ----- Laws -----

/// The codes of responses are those of three digits.
pub proof fn law_codes_of_responses(code: u16, r: Option<HttpStatus>)
    requires
        call_ensures(HttpStatus::new, (code,), r),
    ensures
        100 <= code <= 999 ==> (r matches Some(status) && status@ == code),
        !(100 <= code <= 999) ==> r is None,
{
}

/// A status tells its code and the text of that code. It is success from 200 to 299;
/// another endpoint is asked on 404, 408 and 500 to 599, and on nothing else.
pub proof fn law_what_a_status_tells(
    status: &HttpStatus,
    code: u16,
    success: bool,
    retryable: bool,
    text: String,
)
    requires
        call_ensures(HttpStatus::as_u16, (status,), code),
        call_ensures(HttpStatus::is_success, (status,), success),
        call_ensures(HttpStatus::is_retryable, (status,), retryable),
        call_ensures(HttpStatus::text, (status,), text),
    ensures
        code == status@,
        success <==> code / 100 == 2,
        retryable <==> code == 404 || code == 408 || code / 100 == 5,
        text@ == status_display(code),
{
}

/// Success and what another endpoint may better, by the code.
pub proof fn law_kinds_of_codes(code: u16)
    ensures
        success_code(code) <==> code / 100 == 2,
        retryable_code(code) <==> code == 404 || code == 408 || code / 100 == 5,
        !(success_code(code) && retryable_code(code)),
{
}

} // verus!
