use vstd::prelude::*;
use vstd::string::StringSliceAdditionalSpecFns;
use crate::error::Error;
use crate::request::{Method, Request};
use crate::wire::{copy_bytes, parse_path_query, path_query_valid};

verus! {

/// Where Azure's instance metadata service answers.
pub open spec fn azure_endpoint() -> Seq<char> {
    "http://169.254.169.254"@
}

/// The version of the metadata API that is asked for.
pub open spec fn azure_version() -> Seq<char> {
    "2021-05-01"@
}

/// The path-and-query of a metadata GET for `path` at `version`.
pub open spec fn azure_get_path(version: Seq<char>, path: Seq<char>) -> Seq<char> {
    "/metadata/"@ + path + "?api-version="@ + version
}

/// The one header every Azure request carries.
pub open spec fn azure_headers() -> Seq<(Seq<char>, Seq<u8>)> {
    seq![("Metadata"@, "true".spec_bytes())]
}

/// A client of Azure's instance metadata service: it builds the requests to
/// send, and the caller sends them.
pub struct Azure {
    pub endpoint: String,
    pub version: String,
}

impl Azure {
    /// The client for the link-local service and the API version this library knows.
    pub fn new() -> (r: Azure)
        ensures
            r.endpoint@ == azure_endpoint(),
            r.version@ == azure_version(),
    {
        Azure { endpoint: String::from_str("http://169.254.169.254"), version: String::from_str("2021-05-01") }
    }

    /// The GET of `path` at the API version, with the `Metadata: true` header.
    /// A path that is no valid URI part is an `Internal` error.
    pub fn get(&self, path: &str) -> (r: Result<Request, Error>)
        ensures
            r is Ok <==> path_query_valid(azure_get_path(self.version@, path@)),
            r is Ok ==> r->Ok_0.is(
                Method::Get,
                self.endpoint@ + azure_get_path(self.version@, path@),
                azure_headers(),
            ),
            r is Err ==> r->Err_0 is Internal,
    {
        let mut full = String::from_str("/metadata/");
        full.append(path);
        full.append("?api-version=");
        full.append(self.version.as_str());
        match parse_path_query(full.as_str()) {
            Ok(()) => {
                let mut uri = self.endpoint.clone();
                uri.append(full.as_str());
                let mut headers: Vec<(String, Vec<u8>)> = Vec::new();
                headers.push((String::from_str("Metadata"), copy_bytes("true".as_bytes())));
                let r = Request { method: Method::Get, uri, headers };
                assert(r.header_view() =~= azure_headers());
                Ok(r)
            },
            Err(msg) => Err(Error::Internal(msg)),
        }
    }

    /// The GET of the instance document.
    pub fn instance(&self) -> (r: Result<Request, Error>)
        ensures
            r is Ok <==> path_query_valid(azure_get_path(self.version@, "instance"@)),
            r is Ok ==> r->Ok_0.is(
                Method::Get,
                self.endpoint@ + azure_get_path(self.version@, "instance"@),
                azure_headers(),
            ),
            r is Err ==> r->Err_0 is Internal,
    {
        self.get("instance")
    }
}

} // verus!
