//! The URL resolver: a pure function from the raw request target, the
//! headers and the connection metadata to an absolute URL or an error.
//!
//! An absolute-form target is parsed and returned as it stands. An
//! origin-form target needs a Host header: the URL is synthesized from the
//! active protocol's scheme, the Host header's host (any port the header
//! carries is ignored), the local listening address's port, and the path.
//! Every other target form is rejected.

use vstd::prelude::*;
use vstd::string::StrSliceExecFns;
use crate::error::Error;
use crate::headers::Headers;
use crate::headers::host_value_spec;
use crate::net::SocketAddr;
use crate::protocol::Protocol;
use crate::text::find_char_from;
use crate::text::index_of_from;
use crate::url::Url;
use crate::url::UrlView;
use crate::url::host_wf;
use crate::url::is_host;
use crate::url::is_path;
use crate::url::parse_abs_spec;
use crate::url::parse_absolute;
use crate::url::path_wf;
use crate::url::scheme_wf;
use crate::url::is_scheme_char;
use crate::url::url_wf;
use crate::url::url_text_spec;

verus! {

/// The raw request target, as the connection collaborator hands it over.
pub enum Target {
    /// A complete URL, as proxy-style clients send it.
    AbsoluteForm(String),
    /// A path and optional query, the common case.
    OriginForm(String),
    /// Anything else: authority-form, asterisk-form, or malformed.
    Other,
}

/// The mathematical content of a [`Target`].
#[verifier::ext_equal]
pub enum TargetView {
    /// A complete URL.
    AbsoluteForm(Seq<char>),
    /// A path and optional query.
    OriginForm(Seq<char>),
    /// Anything else.
    Other,
}

impl View for Target {
    type V = TargetView;

    open spec fn view(&self) -> TargetView {
        match self {
            Target::AbsoluteForm(s) => TargetView::AbsoluteForm(s@),
            Target::OriginForm(s) => TargetView::OriginForm(s@),
            Target::Other => TargetView::Other,
        }
    }
}

impl Target {
    /// A copy of this target.
    pub fn duplicate(&self) -> (t: Target)
        ensures
            t@ == self@,
    {
        match self {
            Target::AbsoluteForm(s) => Target::AbsoluteForm(s.clone()),
            Target::OriginForm(s) => Target::OriginForm(s.clone()),
            Target::Other => Target::Other,
        }
    }
}

/// A Host header value without any port it carries: a bracketed address
/// up to and including its bracket, any other value up to the first colon.
pub open spec fn hostname_of(v: Seq<char>) -> Seq<char> {
    if v.len() > 0 && v[0] == '[' {
        match index_of_from(v, ']', 0) {
            Some(j) => v.take(j + 1),
            None => v,
        }
    } else {
        match index_of_from(v, ':', 0) {
            Some(k) => v.take(k),
            None => v,
        }
    }
}

/// Strips the port from a Host header value.
pub fn hostname_text(v: &str) -> (h: String)
    ensures
        h@ == hostname_of(v@),
{
    let n = v.unicode_len();
    if n > 0 && v.get_char(0) == '[' {
        match find_char_from(v, ']', 0) {
            Some(j) => {
                proof {
                    crate::text::lemma_index_of_from(v@, ']', 0);
                }
                let h = v.substring_char(0, j + 1);
                proof {
                    assert(h@ =~= v@.take(j + 1));
                }
                h.to_owned()
            },
            None => v.to_owned(),
        }
    } else {
        match find_char_from(v, ':', 0) {
            Some(k) => {
                proof {
                    crate::text::lemma_index_of_from(v@, ':', 0);
                }
                let h = v.substring_char(0, k);
                proof {
                    assert(h@ =~= v@.take(k as int));
                }
                h.to_owned()
            },
            None => v.to_owned(),
        }
    }
}

/// The URL synthesized for an origin-form target: the protocol's scheme,
/// the given host, the local port, and the target's path and query.
/// Nothing when the host or the path violates the URL grammar.
pub open spec fn origin_url_spec(target: Seq<char>, host: Seq<char>, port: u16, proto: Protocol) -> Option<
    UrlView,
> {
    let (path, query) = match index_of_from(target, '?', 0) {
        None => (target, None),
        Some(j) => (target.take(j), Some(target.skip(j + 1))),
    };
    if host_wf(host) && path_wf(path) {
        Some(UrlView { scheme: proto.name_spec(), host, port, path, query })
    } else {
        None
    }
}

/// What resolving a target yields: the absolute URL, or the error that
/// aborts construction.
///
/// - An absolute-form target parses or fails with `UnsupportedTarget`.
/// - An origin-form target without a Host header fails with `MissingHost`;
///   with one, the URL is synthesized from the scheme, the header's host,
///   and the local port, and a host or path that violates the grammar
///   fails with `UnsupportedTarget`.
/// - Any other target fails with `UnsupportedTarget`.
pub open spec fn resolve_spec(
    t: TargetView,
    hs: Seq<(Seq<char>, Seq<char>)>,
    local_port: u16,
    proto: Protocol,
) -> Result<UrlView, Error> {
    match t {
        TargetView::AbsoluteForm(s) => match parse_abs_spec(s) {
            Some(u) => Ok(u),
            None => Err(Error::UnsupportedTarget),
        },
        TargetView::OriginForm(p) => match host_value_spec(hs) {
            None => Err(Error::MissingHost),
            Some(v) => match origin_url_spec(p, hostname_of(v), local_port, proto) {
                Some(u) => Ok(u),
                None => Err(Error::UnsupportedTarget),
            },
        },
        TargetView::Other => Err(Error::UnsupportedTarget),
    }
}

/// The scheme of either protocol obeys the scheme grammar.
proof fn lemma_protocol_scheme_wf(proto: Protocol)
    ensures
        scheme_wf(proto.name_spec()),
{
    reveal_strlit("http");
    reveal_strlit("https");
    assert(forall|k: int| 0 <= k < 4 ==> is_scheme_char(#[trigger] "http"@[k]));
    assert(forall|k: int| 0 <= k < 5 ==> is_scheme_char(#[trigger] "https"@[k]));
}

/// Every URL that resolution yields is well-formed.
pub proof fn lemma_resolve_wf(
    t: TargetView,
    hs: Seq<(Seq<char>, Seq<char>)>,
    local_port: u16,
    proto: Protocol,
)
    ensures
        resolve_spec(t, hs, local_port, proto) matches Ok(u) ==> url_wf(u),
{
    match t {
        TargetView::AbsoluteForm(s) => {
            crate::url::lemma_parse_wf(s);
        },
        TargetView::OriginForm(p) => {
            lemma_protocol_scheme_wf(proto);
        },
        TargetView::Other => {},
    }
}

/// Resolution is idempotent: a URL that one resolution produced, rendered
/// and offered again as an absolute-form target, resolves to the same URL
/// — whatever headers, port and protocol accompany the second resolution.
pub proof fn lemma_resolve_idempotent(
    t: TargetView,
    hs: Seq<(Seq<char>, Seq<char>)>,
    local_port: u16,
    proto: Protocol,
    u: UrlView,
    hs2: Seq<(Seq<char>, Seq<char>)>,
    local_port2: u16,
    proto2: Protocol,
)
    requires
        resolve_spec(t, hs, local_port, proto) == Ok::<UrlView, Error>(u),
    ensures
        resolve_spec(TargetView::AbsoluteForm(url_text_spec(u)), hs2, local_port2, proto2) == Ok::<
            UrlView,
            Error,
        >(u),
{
    lemma_resolve_wf(t, hs, local_port, proto);
    crate::url::lemma_parse_round_trip(u);
}

/// Resolves a raw request target into an absolute URL.
pub fn resolve(target: &Target, headers: &Headers, local_addr: SocketAddr, protocol: &Protocol) -> (r:
    Result<Url, Error>)
    ensures
        match r {
            Ok(u) => resolve_spec(target@, headers@, local_addr.port, *protocol) == Ok::<
                UrlView,
                Error,
            >(u@) && url_wf(u@),
            Err(e) => resolve_spec(target@, headers@, local_addr.port, *protocol) == Err::<
                UrlView,
                Error,
            >(e),
        },
{
    proof {
        lemma_resolve_wf(target@, headers@, local_addr.port, *protocol);
    }
    match target {
        Target::AbsoluteForm(s) => {
            match parse_absolute(s.as_str()) {
                Some(u) => Ok(u),
                None => Err(Error::UnsupportedTarget),
            }
        },
        Target::OriginForm(p) => {
            let v = match headers.host() {
                Some(v) => v,
                None => {
                    return Err(Error::MissingHost);
                },
            };
            let host = hostname_text(v.as_str());
            let n = p.as_str().unicode_len();
            let (path, query): (String, Option<String>) = match find_char_from(p.as_str(), '?', 0) {
                None => (p.clone(), None),
                Some(j) => {
                    proof {
                        crate::text::lemma_index_of_from(p@, '?', 0);
                    }
                    let path = p.as_str().substring_char(0, j);
                    let query = p.as_str().substring_char(j + 1, n);
                    proof {
                        assert(path@ =~= p@.take(j as int));
                        assert(query@ =~= p@.skip(j + 1));
                    }
                    (path.to_owned(), Some(query.to_owned()))
                },
            };
            if is_host(host.as_str()) && is_path(path.as_str()) {
                let u = Url {
                    scheme: protocol.name(),
                    host,
                    port: local_addr.port,
                    path,
                    query,
                };
                proof {
                    let ghost expected = resolve_spec(
                        target@,
                        headers@,
                        local_addr.port,
                        *protocol,
                    );
                    assert(expected matches Ok(w) && w =~= u@);
                }
                Ok(u)
            } else {
                Err(Error::UnsupportedTarget)
            }
        },
        Target::Other => Err(Error::UnsupportedTarget),
    }
}

} // verus!
