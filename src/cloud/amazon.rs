use vstd::prelude::*;
use crate::error::Error;
use crate::request::{Method, Request};
use crate::tree::Walker;
use crate::wire::{copy_bytes, header_value_ok, parse_path_query, path_query_valid, valid_header_value};

verus! {

/// Where Amazon EC2's instance metadata service answers.
pub open spec fn amazon_endpoint() -> Seq<char> {
    "http://169.254.169.254"@
}

/// The version of the metadata API that is asked for.
pub open spec fn amazon_version() -> Seq<char> {
    "2021-07-15"@
}

/// The path of the instance identity document, below the version.
pub open spec fn amazon_instance_path() -> Seq<char> {
    "dynamic/instance-identity/document"@
}

/// The path-and-query of a metadata GET for `path` under `version`.
pub open spec fn amazon_get_path(version: Seq<char>, path: Seq<char>) -> Seq<char> {
    "/"@ + version + "/"@ + path
}

/// The header that carries a session token.
pub open spec fn token_header() -> Seq<char> {
    "X-aws-ec2-metadata-token"@
}

/// The header that asks for a session token's lifetime, in seconds.
pub open spec fn token_ttl_header() -> Seq<char> {
    "X-aws-ec2-metadata-token-ttl-seconds"@
}

/// The path-and-query that hands out session tokens.
pub open spec fn token_path() -> Seq<char> {
    "/latest/api/token"@
}

/// The decimal digits of `n`, as ASCII bytes, with no leading zero.
pub open spec fn decimal(n: nat) -> Seq<u8>
    decreases n,
{
    if n < 10 {
        seq![(48 + n) as u8]
    } else {
        decimal(n / 10).push((48 + n % 10) as u8)
    }
}

/// The headers of a metadata GET: the token, where there is one.
pub open spec fn token_headers(token: Option<&[u8]>) -> Seq<(Seq<char>, Seq<u8>)> {
    match token {
        Some(t) => seq![(token_header(), t@)],
        None => seq![],
    }
}

/// Decimal digits are valid header bytes.
pub proof fn lemma_decimal_header_ok(n: nat)
    ensures
        header_value_ok(decimal(n)),
    decreases n,
{
    if n >= 10 {
        lemma_decimal_header_ok(n / 10);
    }
}

fn decimal_bytes(n: u64) -> (r: Vec<u8>)
    ensures
        r@ == decimal(n as nat),
    decreases n,
{
    if n < 10 {
        let mut v: Vec<u8> = Vec::new();
        v.push((48 + n) as u8);
        assert(v@ == seq![(48 + n) as u8]);
        v
    } else {
        let mut v = decimal_bytes(n / 10);
        v.push((48 + n % 10) as u8);
        v
    }
}

/// A client of Amazon EC2's instance metadata service: it builds the requests
/// to send, and the caller sends them.
pub struct Amazon {
    pub endpoint: String,
    pub version: String,
}

impl Amazon {
    /// The client for the link-local service and the API version this library knows.
    pub fn new() -> (r: Amazon)
        ensures
            r.endpoint@ == amazon_endpoint(),
            r.version@ == amazon_version(),
    {
        Amazon { endpoint: String::from_str("http://169.254.169.254"), version: String::from_str("2021-07-15") }
    }

    /// A request without headers for `path_query` on the service.
    fn request(&self, method: Method, path_query: &str) -> (r: Result<Request, Error>)
        ensures
            r is Ok <==> path_query_valid(path_query@),
            r is Ok ==> r->Ok_0.is(method, self.endpoint@ + path_query@, seq![]),
            r is Err ==> r->Err_0 is Internal,
    {
        match parse_path_query(path_query) {
            Ok(()) => {
                let mut uri = self.endpoint.clone();
                uri.append(path_query);
                let r = Request { method, uri, headers: Vec::new() };
                assert(r.header_view() =~= seq![]);
                Ok(r)
            },
            Err(msg) => Err(Error::Internal(msg)),
        }
    }

    /// The GET of `path` under the API version, with the session token as a
    /// header where one is given. A path that is no valid URI part, or a token
    /// that is no valid header value, is an `Internal` error.
    pub fn get(&self, path: &str, token: Option<&[u8]>) -> (r: Result<Request, Error>)
        ensures
            r is Ok <==> path_query_valid(amazon_get_path(self.version@, path@)) && (
            token is Some ==> header_value_ok(token->Some_0@)),
            r is Ok ==> r->Ok_0.is(
                Method::Get,
                self.endpoint@ + amazon_get_path(self.version@, path@),
                token_headers(token),
            ),
            r is Err ==> r->Err_0 is Internal,
    {
        let mut full = String::from_str("/");
        full.append(self.version.as_str());
        full.append("/");
        full.append(path);
        let mut req = match self.request(Method::Get, full.as_str()) {
            Ok(req) => req,
            Err(e) => return Err(e),
        };
        match token {
            Some(t) => {
                if !valid_header_value(t) {
                    return Err(Error::Internal(String::from_str("failed to parse header value")));
                }
                req.headers.push((String::from_str("X-aws-ec2-metadata-token"), copy_bytes(t)));
                assert(req.header_view() =~= seq![(token_header(), t@)]);
                Ok(req)
            },
            None => Ok(req),
        }
    }

    /// The PUT that asks for a session token living `ttl_secs` seconds.
    pub fn token(&self, ttl_secs: u64) -> (r: Result<Request, Error>)
        ensures
            r is Ok <==> path_query_valid(token_path()),
            r is Ok ==> r->Ok_0.is(
                Method::Put,
                self.endpoint@ + token_path(),
                seq![(token_ttl_header(), decimal(ttl_secs as nat))],
            ),
            r is Err ==> r->Err_0 is Internal,
    {
        let mut req = match self.request(Method::Put, "/latest/api/token") {
            Ok(req) => req,
            Err(e) => return Err(e),
        };
        proof {
            lemma_decimal_header_ok(ttl_secs as nat);
        }
        req.headers.push((String::from_str("X-aws-ec2-metadata-token-ttl-seconds"), decimal_bytes(ttl_secs)));
        assert(req.header_view() =~= seq![(token_ttl_header(), decimal(ttl_secs as nat))]);
        Ok(req)
    }

    /// The GET of the instance identity document, with the token where one is given.
    pub fn instance(&self, token: Option<&[u8]>) -> (r: Result<Request, Error>)
        ensures
            r is Ok <==> path_query_valid(amazon_get_path(self.version@, amazon_instance_path())) && (
            token is Some ==> header_value_ok(token->Some_0@)),
            r is Ok ==> r->Ok_0.is(
                Method::Get,
                self.endpoint@ + amazon_get_path(self.version@, amazon_instance_path()),
                token_headers(token),
            ),
            r is Err ==> r->Err_0 is Internal,
    {
        self.get("dynamic/instance-identity/document", token)
    }

    /// A walk of the metadata tree below `path`: each path the walk asks for
    /// is fetched with `get`, under the same token.
    pub fn scan(&self, path: &str) -> (r: Walker)
        ensures
            r@.pending == Some(path@),
            r@.slots.len() == 0,
            r@.frames.len() == 0,
            r@.result is None,
            crate::tree::walk_ok(r@),
    {
        Walker::new(String::from_str(path))
    }

    /// The instance request that follows a token request, whatever became of it:
    /// a token that came is attached, and a failed token request only means
    /// that the document is asked for without one.
    pub fn instance_after_token(&self, token: Result<Vec<u8>, Error>) -> (r: Result<Request, Error>)
        ensures
            token is Err ==> (r is Ok <==> path_query_valid(
                amazon_get_path(self.version@, amazon_instance_path()),
            )),
            token is Err && r is Ok ==> r->Ok_0.is(
                Method::Get,
                self.endpoint@ + amazon_get_path(self.version@, amazon_instance_path()),
                seq![],
            ),
            token is Ok ==> (r is Ok <==> path_query_valid(
                amazon_get_path(self.version@, amazon_instance_path()),
            ) && header_value_ok(token->Ok_0@)),
            token is Ok && r is Ok ==> r->Ok_0.is(
                Method::Get,
                self.endpoint@ + amazon_get_path(self.version@, amazon_instance_path()),
                seq![(token_header(), token->Ok_0@)],
            ),
    {
        match token {
            Ok(t) => self.instance(Some(t.as_slice())),
            Err(_) => self.instance(None),
        }
    }
}

} // verus!
