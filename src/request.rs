use vstd::prelude::*;

verus! {

/// The HTTP methods that the metadata services are spoken to with.
#[derive(Debug, Clone, Copy, PartialEq, Eq, Structural)]
pub enum Method {
    Get,
    Put,
}

/// A request to a metadata service, ready to be sent: no body, the full URI
/// and the headers in the order they are set.
#[derive(Debug)]
pub struct Request {
    pub method: Method,
    pub uri: String,
    pub headers: Vec<(String, Vec<u8>)>,
}

impl Request {
    /// The headers as names and byte strings.
    pub open spec fn header_view(&self) -> Seq<(Seq<char>, Seq<u8>)> {
        self.headers@.map_values(|h: (String, Vec<u8>)| (h.0@, h.1@))
    }

    /// A request that is `method` on `uri` with exactly the given headers.
    pub open spec fn is(
        &self,
        method: Method,
        uri: Seq<char>,
        headers: Seq<(Seq<char>, Seq<u8>)>,
    ) -> bool {
        &&& self.method == method
        &&& self.uri@ == uri
        &&& self.header_view() == headers
    }
}

} // verus!
