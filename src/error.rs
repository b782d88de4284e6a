use vstd::prelude::*;

verus! {

/// Why a request to a metadata service failed.
#[derive(Debug, PartialEq, Eq)]
pub enum Error {
    /// The service answered with a status code outside the success class.
    Response(u16),
    /// The request could not be built, sent or decoded; the text says why.
    Internal(String),
}

/// Whether an HTTP status code is in the success class (200 to 299).
pub open spec fn is_success(status: u16) -> bool {
    200 <= status && status < 300
}

impl Error {
    /// Whether this error carries exactly the given status code.
    pub open spec fn is_response(&self, status: u16) -> bool {
        self == Error::Response(status)
    }
}

/// Passes a response body on when its status is a success; any other status
/// becomes a `Response` error that carries that exact code.
pub fn check_status(status: u16, body: Vec<u8>) -> (r: Result<Vec<u8>, Error>)
    ensures
        is_success(status) ==> r is Ok && r->Ok_0@ == body@,
        !is_success(status) ==> r is Err && r->Err_0.is_response(status),
{
    if 200 <= status && status < 300 {
        Ok(body)
    } else {
        Err(Error::Response(status))
    }
}

} // verus!
