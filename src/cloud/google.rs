use vstd::prelude::*;
use vstd::string::StringSliceAdditionalSpecFns;
use crate::error::Error;
use crate::request::{Method, Request};
use crate::wire::{copy_bytes, parse_uri, uri_valid};

verus! {

/// Where Google Cloud's metadata service answers, API version included.
pub open spec fn google_endpoint() -> Seq<char> {
    "http://metadata.google.internal/computeMetadata/v1"@
}

/// How a flag is written in a query string.
pub open spec fn flag_text(b: bool) -> Seq<char> {
    if b {
        "true"@
    } else {
        "false"@
    }
}

/// The URI of a metadata GET for `path` below `endpoint`.
pub open spec fn google_uri(endpoint: Seq<char>, path: Seq<char>, recursive: bool) -> Seq<char> {
    endpoint + "/"@ + path + "?recursive="@ + flag_text(recursive)
}

/// The one header every Google request carries.
pub open spec fn google_headers() -> Seq<(Seq<char>, Seq<u8>)> {
    seq![("Metadata-Flavor"@, "Google".spec_bytes())]
}

/// A client of Google Cloud's metadata service: it builds the requests to
/// send, and the caller sends them.
pub struct Google {
    pub endpoint: String,
}

impl Google {
    /// The client for the service under its DNS name.
    pub fn new() -> (r: Google)
        ensures
            r.endpoint@ == google_endpoint(),
    {
        Google { endpoint: String::from_str("http://metadata.google.internal/computeMetadata/v1") }
    }

    /// The GET of `path`, asking for a whole subtree at once where `recursive`
    /// holds, with the `Metadata-Flavor: Google` header. A URI that does not
    /// parse is an `Internal` error.
    pub fn get(&self, path: &str, recursive: bool) -> (r: Result<Request, Error>)
        ensures
            r is Ok <==> uri_valid(google_uri(self.endpoint@, path@, recursive)),
            r is Ok ==> r->Ok_0.is(
                Method::Get,
                google_uri(self.endpoint@, path@, recursive),
                google_headers(),
            ),
            r is Err ==> r->Err_0 is Internal,
    {
        let mut uri = self.endpoint.clone();
        uri.append("/");
        uri.append(path);
        uri.append("?recursive=");
        if recursive {
            uri.append("true");
        } else {
            uri.append("false");
        }
        match parse_uri(uri.as_str()) {
            Ok(()) => {
                let mut headers: Vec<(String, Vec<u8>)> = Vec::new();
                headers.push((String::from_str("Metadata-Flavor"), copy_bytes("Google".as_bytes())));
                let r = Request { method: Method::Get, uri, headers };
                assert(r.header_view() =~= google_headers());
                Ok(r)
            },
            Err(msg) => Err(Error::Internal(msg)),
        }
    }

    /// The GET of the whole instance subtree in one document.
    pub fn instance(&self) -> (r: Result<Request, Error>)
        ensures
            r is Ok <==> uri_valid(google_uri(self.endpoint@, "instance/"@, true)),
            r is Ok ==> r->Ok_0.is(
                Method::Get,
                google_uri(self.endpoint@, "instance/"@, true),
                google_headers(),
            ),
            r is Err ==> r->Err_0 is Internal,
    {
        self.get("instance/", true)
    }
}

} // verus!
