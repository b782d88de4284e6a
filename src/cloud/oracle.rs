use vstd::prelude::*;
use vstd::string::StringSliceAdditionalSpecFns;
use crate::error::Error;
use crate::request::{Method, Request};
use crate::wire::{copy_bytes, parse_uri, uri_valid};

verus! {

/// Where Oracle Cloud's metadata service answers, API version included.
pub open spec fn oracle_endpoint() -> Seq<char> {
    "http://169.254.169.254/opc/v2"@
}

/// The URI of a metadata GET for `path` below `endpoint`.
pub open spec fn oracle_uri(endpoint: Seq<char>, path: Seq<char>) -> Seq<char> {
    endpoint + "/"@ + path
}

/// The one header every Oracle request carries.
pub open spec fn oracle_headers() -> Seq<(Seq<char>, Seq<u8>)> {
    seq![("Authorization"@, "Bearer Oracle".spec_bytes())]
}

/// A client of Oracle Cloud's instance metadata service: it builds the
/// requests to send, and the caller sends them.
pub struct Oracle {
    pub endpoint: String,
}

impl Oracle {
    /// The client for the link-local service and the API version this library knows.
    pub fn new() -> (r: Oracle)
        ensures
            r.endpoint@ == oracle_endpoint(),
    {
        Oracle { endpoint: String::from_str("http://169.254.169.254/opc/v2") }
    }

    /// The GET of `path`, with the `Authorization: Bearer Oracle` header. A URI
    /// that does not parse is an `Internal` error.
    pub fn get(&self, path: &str) -> (r: Result<Request, Error>)
        ensures
            r is Ok <==> uri_valid(oracle_uri(self.endpoint@, path@)),
            r is Ok ==> r->Ok_0.is(Method::Get, oracle_uri(self.endpoint@, path@), oracle_headers()),
            r is Err ==> r->Err_0 is Internal,
    {
        let mut uri = self.endpoint.clone();
        uri.append("/");
        uri.append(path);
        match parse_uri(uri.as_str()) {
            Ok(()) => {
                let mut headers: Vec<(String, Vec<u8>)> = Vec::new();
                headers.push((String::from_str("Authorization"), copy_bytes("Bearer Oracle".as_bytes())));
                let r = Request { method: Method::Get, uri, headers };
                assert(r.header_view() =~= oracle_headers());
                Ok(r)
            },
            Err(msg) => Err(Error::Internal(msg)),
        }
    }

    /// The GET of the instance document.
    pub fn instance(&self) -> (r: Result<Request, Error>)
        ensures
            r is Ok <==> uri_valid(oracle_uri(self.endpoint@, "instance"@)),
            r is Ok ==> r->Ok_0.is(Method::Get, oracle_uri(self.endpoint@, "instance"@), oracle_headers()),
            r is Err ==> r->Err_0 is Internal,
    {
        self.get("instance")
    }
}

} // verus!
