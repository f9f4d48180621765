//! The request value handed to middleware, and its two construction
//! paths: full, and header-only.

use vstd::prelude::*;
use vstd::string::StringExecFns;
use crate::body::Body;
use crate::body::BufferSource;
use crate::error::Error;
use crate::extensions::ExtensionStore;
use crate::headers::Headers;
use crate::method::Method;
use crate::net::SocketAddr;
use crate::net::socket_text_spec;
use crate::protocol::Protocol;
use crate::resolver::Target;
use crate::resolver::resolve;
use crate::resolver::resolve_spec;
use crate::url::Url;
use crate::url::UrlView;
use crate::url::url_text_spec;

verus! {

/// A raw request descriptor, as the connection collaborator hands it
/// over once the request line and headers have been read.
pub struct HttpRequest {
    /// The raw request target.
    pub target: Target,
    /// The request method.
    pub method: Method,
    /// The request headers.
    pub headers: Headers,
    /// The address the request came from.
    pub remote_addr: SocketAddr,
    /// The connection-bound body reader, if the body is to be exposed.
    pub reader: Option<BufferSource>,
}

/// The request given to all middleware: one resolved URL, the fields
/// copied from the raw request, a body, and an extension store that is
/// empty on every construction path.
pub struct Request {
    /// The requested URL, fully resolved.
    pub url: Url,
    /// The originating address of the request.
    pub remote_addr: SocketAddr,
    /// The local address the connection was accepted on.
    pub local_addr: SocketAddr,
    /// The request headers, passed through unmodified.
    pub headers: Headers,
    /// The request body.
    pub body: Body,
    /// The request method.
    pub method: Method,
    /// Storage for data passed between middleware.
    pub extensions: ExtensionStore,
}

/// What a remaining reader holds, or nothing when none was handed over.
pub open spec fn reader_view(r: Option<BufferSource>) -> Option<Seq<u8>> {
    match r {
        Some(s) => Some(s@),
        None => None,
    }
}

/// How a constructed request relates to the descriptor it was built
/// from: the URL is the resolved one, method, headers and remote address
/// are carried over unchanged, the local address is the caller's, the
/// extension store is empty, and the body holds `body`.
pub open spec fn built_from(
    q: Request,
    target: crate::resolver::TargetView,
    hs: Seq<(Seq<char>, Seq<char>)>,
    method: Method,
    remote_addr: SocketAddr,
    local_addr: SocketAddr,
    proto: Protocol,
    body: Option<Seq<u8>>,
) -> bool {
    &&& resolve_spec(target, hs, local_addr.port, proto) == Ok::<UrlView, Error>(q.url@)
    &&& q.method == method
    &&& q.remote_addr == remote_addr
    &&& q.local_addr == local_addr
    &&& q.headers@ == hs
    &&& q.body@ == body
    &&& q.extensions@ == Map::<u64, Seq<u8>>::empty()
}

impl Request {
    /// The one builder both construction paths share: binds an already
    /// resolved URL and the carried-over fields into a request whose
    /// extension store is empty.
    fn assemble(
        url: Url,
        method: Method,
        headers: Headers,
        remote_addr: SocketAddr,
        local_addr: SocketAddr,
        body: Body,
    ) -> (q: Request)
        ensures
            q.url == url,
            q.method == method,
            q.headers == headers,
            q.remote_addr == remote_addr,
            q.local_addr == local_addr,
            q.body == body,
            q.extensions@ == Map::<u64, Seq<u8>>::empty(),
    {
        Request {
            url,
            remote_addr,
            local_addr,
            headers,
            body,
            method,
            extensions: ExtensionStore::new(),
        }
    }

    /// Creates a request from a raw request descriptor, consuming it.
    ///
    /// The body is live exactly when the descriptor carries a reader.
    /// Construction is all-or-nothing: when URL resolution fails, its
    /// error comes back and no request is produced.
    pub fn from_http(req: HttpRequest, local_addr: SocketAddr, protocol: &Protocol) -> (r: Result<
        Request,
        Error,
    >)
        ensures
            match r {
                Ok(q) => built_from(
                    q,
                    req.target@,
                    req.headers@,
                    req.method,
                    req.remote_addr,
                    local_addr,
                    *protocol,
                    reader_view(req.reader),
                ),
                Err(e) => resolve_spec(req.target@, req.headers@, local_addr.port, *protocol)
                    == Err::<UrlView, Error>(e),
            },
    {
        let url = match resolve(&req.target, &req.headers, local_addr, protocol) {
            Ok(u) => u,
            Err(e) => {
                return Err(e);
            },
        };
        let HttpRequest { target: _, method, headers, remote_addr, reader } = req;
        let body = match reader {
            Some(rd) => Body::new(rd),
            None => Body::empty(),
        };
        Ok(Request::assemble(url, method, headers, remote_addr, local_addr, body))
    }

    /// Creates a request from a descriptor whose body has not been read:
    /// all fields are populated as in the full path, but the body is
    /// absent, so every read on it fails safely.
    ///
    /// Both paths error identically: the same resolution failure yields
    /// the same error here as in the full path.
    pub fn from_header(req: &HttpRequest, local_addr: SocketAddr, protocol: &Protocol) -> (r:
        Result<Request, Error>)
        ensures
            match r {
                Ok(q) => built_from(
                    q,
                    req.target@,
                    req.headers@,
                    req.method,
                    req.remote_addr,
                    local_addr,
                    *protocol,
                    None::<Seq<u8>>,
                ),
                Err(e) => resolve_spec(req.target@, req.headers@, local_addr.port, *protocol)
                    == Err::<UrlView, Error>(e),
            },
    {
        let url = match resolve(&req.target, &req.headers, local_addr, protocol) {
            Ok(u) => u,
            Err(e) => {
                return Err(e);
            },
        };
        Ok(
            Request::assemble(
                url,
                req.method,
                req.headers.duplicate(),
                req.remote_addr,
                local_addr,
                Body::empty(),
            ),
        )
    }

    /// The extension store, for reading.
    pub fn extensions(&self) -> (r: &ExtensionStore)
        ensures
            *r == self.extensions,
    {
        &self.extensions
    }

    /// The extension store, for reading and writing. Nothing else of the
    /// request changes through the returned reference.
    pub fn extensions_mut(&mut self) -> (r: &mut ExtensionStore)
        ensures
            *r == old(self).extensions,
            final(self).extensions == *final(r),
            final(self).url == old(self).url,
            final(self).remote_addr == old(self).remote_addr,
            final(self).local_addr == old(self).local_addr,
            final(self).headers == old(self).headers,
            final(self).body == old(self).body,
            final(self).method == old(self).method,
    {
        &mut self.extensions
    }

    /// The diagnostic text of a request: one line each for the URL, the
    /// method, the remote address and the local address, in that order.
    /// Body and extensions are intentionally omitted.
    pub fn to_text(&self) -> (s: String)
        ensures
            s@ == request_text_spec(self),
    {
        let mut s = "Request {\n    url: ".to_owned();
        s.append(self.url.to_text().as_str());
        s.append("\n    method: ");
        s.append(self.method.as_text().as_str());
        s.append("\n    remote_addr: ");
        s.append(self.remote_addr.as_text().as_str());
        s.append("\n    local_addr: ");
        s.append(self.local_addr.as_text().as_str());
        s.append("\n}");
        proof {
            assert(s@ =~= request_text_spec(self));
        }
        s
    }
}

/// The diagnostic rendering of a request: URL, method, remote address,
/// local address, one line each, in this fixed order.
pub open spec fn request_text_spec(q: &Request) -> Seq<char> {
    "Request {\n    url: "@ + url_text_spec(q.url@) + "\n    method: "@ + q.method.text_spec()
        + "\n    remote_addr: "@ + socket_text_spec(q.remote_addr) + "\n    local_addr: "@
        + socket_text_spec(q.local_addr) + "\n}"@
}

/// Both construction paths produce requests with the same URL, method,
/// remote address, local address and headers, and an empty extension
/// store; they differ only in whether the body is live.
pub proof fn lemma_construction_paths_agree(
    qf: Request,
    qh: Request,
    target: crate::resolver::TargetView,
    hs: Seq<(Seq<char>, Seq<char>)>,
    method: Method,
    remote_addr: SocketAddr,
    local_addr: SocketAddr,
    proto: Protocol,
    body: Option<Seq<u8>>,
)
    requires
        built_from(qf, target, hs, method, remote_addr, local_addr, proto, body),
        built_from(qh, target, hs, method, remote_addr, local_addr, proto, None::<Seq<u8>>),
    ensures
        qf.url@ == qh.url@,
        qf.method == qh.method,
        qf.remote_addr == qh.remote_addr,
        qf.local_addr == qh.local_addr,
        qf.headers@ == qh.headers@,
        qf.extensions@ == qh.extensions@,
        qh.body@ == None::<Seq<u8>>,
{
}

} // verus!
