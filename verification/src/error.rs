//! Classified, client-facing error values.
//!
//! Every failure of the credential layer is reported as an `HttpResponseError`:
//! a status code together with a list of `ResponseError` entries, each either a
//! plain message or a field-scoped validation message. The core never logs or
//! writes to a socket; it only returns these values.

use vstd::prelude::*;

verus! {

/// One client-facing error entry: a plain message, optionally scoped to an
/// input field (for validation failures).
#[derive(Debug)]
pub struct ResponseError {
    pub error: Option<String>,
    pub message: Option<String>,
    pub field: Option<String>,
}

/// Holds when `r` is a plain (non-field) error carrying exactly `msg`.
pub open spec fn is_common_error(r: ResponseError, msg: Seq<char>) -> bool {
    &&& r.error is None
    &&& r.field is None
    &&& r.message matches Some(m) && m@ == msg
}

/// Holds when `r` is a validation error for field `field` carrying `msg`.
pub open spec fn is_validation_error(r: ResponseError, field: Seq<char>, msg: Seq<char>) -> bool {
    &&& r.error is None
    &&& r.field matches Some(f) && f@ == field
    &&& r.message matches Some(m) && m@ == msg
}

impl ResponseError {
    pub fn common_error(error: &str) -> (r: ResponseError)
        ensures
            is_common_error(r, error@),
    {
        ResponseError { error: None, message: Some(error.to_owned()), field: None }
    }

    pub fn for_validation(field: &str, message: &str) -> (r: ResponseError)
        ensures
            is_validation_error(r, field@, message@),
    {
        ResponseError { error: None, message: Some(message.to_owned()), field: Some(field.to_owned()) }
    }
}

/// The classified result handed to the serving layer: a status code and the
/// error entries to render. Code 400 marks a caller fault, 500 a server fault.
#[derive(Debug)]
pub struct HttpResponseError {
    pub code: Option<u16>,
    pub errors: Vec<ResponseError>,
}

/// Holds when `r` carries status `code` and exactly one plain message `msg`.
pub open spec fn is_error_response(r: HttpResponseError, code: u16, msg: Seq<char>) -> bool {
    &&& r.code == Some(code)
    &&& r.errors@.len() == 1
    &&& is_common_error(r.errors@[0], msg)
}

/// The one static message of every server-fault response.
pub open spec fn internal_error_msg() -> Seq<char> {
    "Internal Server Error"@
}

/// Holds when `r` is the server-fault response: 500 with the static message.
pub open spec fn is_internal_error(r: HttpResponseError) -> bool {
    is_error_response(r, 500u16, internal_error_msg())
}

/// Normalizes a stored code to the status code actually sent: the four
/// client-fault codes pass through, anything else becomes a server fault.
pub fn from_code_to_status_code(code: u16) -> (r: u16)
    ensures
        code == 400 || code == 401 || code == 403 || code == 404 ==> r == code,
        !(code == 400 || code == 401 || code == 403 || code == 404) ==> r == 500,
{
    match code {
        400 => 400,
        401 => 401,
        403 => 403,
        404 => 404,
        _ => 500,
    }
}

impl Default for HttpResponseError {
    fn default() -> (r: HttpResponseError)
        ensures
            r.code is None,
            r.errors@.len() == 0,
    {
        HttpResponseError { code: None, errors: Vec::new() }
    }
}

impl HttpResponseError {
    pub fn internal_server_error() -> (r: HttpResponseError)
        ensures
            is_internal_error(r),
    {
        HttpResponseError {
            code: Some(500),
            errors: vec![ResponseError::common_error("Internal Server Error")],
        }
    }

    pub fn set_code(self, code: u16) -> (r: HttpResponseError)
        ensures
            r.code == Some(code),
            r.errors@ == self.errors@,
    {
        HttpResponseError { code: Some(code), errors: self.errors }
    }

    pub fn set_error_message(self, error: &str) -> (r: HttpResponseError)
        ensures
            r.code == self.code,
            r.errors@.len() == 1,
            is_common_error(r.errors@[0], error@),
    {
        HttpResponseError { code: self.code, errors: vec![ResponseError::common_error(error)] }
    }

    pub fn set_validation_error(self, field: &str, message: &str) -> (r: HttpResponseError)
        ensures
            r.code == self.code,
            r.errors@.len() == self.errors@.len() + 1,
            forall|i: int| 0 <= i < self.errors@.len() ==> r.errors@[i] == self.errors@[i],
            is_validation_error(r.errors@[self.errors@.len() as int], field@, message@),
    {
        let mut errors = self.errors;
        errors.push(ResponseError::for_validation(field, message));
        HttpResponseError { code: self.code, errors }
    }
}

} // verus!
