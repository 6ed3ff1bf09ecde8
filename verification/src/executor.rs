use vstd::prelude::*;

verus! {

/// The error taxonomy for one request/response exchange with the service.
///
/// Errors are values: an expected failure (a bad status, a body of the wrong
/// shape) is returned, never thrown.
#[derive(Debug, PartialEq)]
pub enum RequestError {
    /// The transport could not send the request or lost the connection;
    /// the transport's own description is kept.
    SendRequest { message: String },
    /// The service answered with a status outside the 2xx range; the response
    /// body is kept verbatim as diagnostic text.
    BadResponse { status_code: u16, description: String },
    /// The success response body did not decode into the expected shape;
    /// the offending bytes are kept.
    ParseResponse { raw: Vec<u8> },
}

/// True exactly for the HTTP status codes that count as success.
pub open spec fn spec_is_success(status: u16) -> bool {
    200 <= status && status < 300
}

/// True exactly for the HTTP status codes that count as success.
pub fn is_success_status(status: u16) -> (r: bool)
    ensures
        r == spec_is_success(status),
{
    200 <= status && status < 300
}

/// Classifies one response: a 2xx status passes, any other status fails with
/// `BadResponse` carrying that exact status and the response body text
/// verbatim.
pub fn classify_status(status: u16, body: String) -> (r: Result<(), RequestError>)
    ensures
        spec_is_success(status) <==> r is Ok,
        !spec_is_success(status) ==> r == Err::<(), RequestError>(
            RequestError::BadResponse { status_code: status, description: body },
        ),
{
    if is_success_status(status) {
        Ok(())
    } else {
        Err(RequestError::BadResponse { status_code: status, description: body })
    }
}

} // verus!
