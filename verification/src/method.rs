//! The request method, a collaborator-owned value copied into the request.

use vstd::prelude::*;

verus! {

/// The HTTP request methods.
#[derive(Clone, Copy, Debug, PartialEq, Eq, Structural)]
pub enum Method {
    /// GET
    Get,
    /// HEAD
    Head,
    /// POST
    Post,
    /// PUT
    Put,
    /// DELETE
    Delete,
    /// OPTIONS
    Options,
    /// TRACE
    Trace,
    /// CONNECT
    Connect,
    /// PATCH
    Patch,
}

impl Method {
    /// The method's name on the wire.
    pub open spec fn text_spec(self) -> Seq<char> {
        match self {
            Method::Get => "GET"@,
            Method::Head => "HEAD"@,
            Method::Post => "POST"@,
            Method::Put => "PUT"@,
            Method::Delete => "DELETE"@,
            Method::Options => "OPTIONS"@,
            Method::Trace => "TRACE"@,
            Method::Connect => "CONNECT"@,
            Method::Patch => "PATCH"@,
        }
    }

    /// The method's name on the wire.
    pub fn as_text(&self) -> (s: String)
        ensures
            s@ == self.text_spec(),
    {
        match self {
            Method::Get => "GET".to_owned(),
            Method::Head => "HEAD".to_owned(),
            Method::Post => "POST".to_owned(),
            Method::Put => "PUT".to_owned(),
            Method::Delete => "DELETE".to_owned(),
            Method::Options => "OPTIONS".to_owned(),
            Method::Trace => "TRACE".to_owned(),
            Method::Connect => "CONNECT".to_owned(),
            Method::Patch => "PATCH".to_owned(),
        }
    }
}

} // verus!
