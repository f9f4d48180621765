//! Fully resolved absolute URLs: scheme, host, port, path and query.
//!
//! The grammar recognised here is the absolute-form request target:
//! `scheme://host[:port]/path[?query]`, where `host` is either a bracketed
//! address or a name free of `:`, `/` and `?`. A URL without an explicit
//! port gets the default port of its scheme; a scheme without a known
//! default is rejected.

use vstd::prelude::*;
use vstd::string::StrSliceExecFns;
use vstd::string::StringExecFns;
use crate::text::all_digits;
use crate::text::dec_seq;
use crate::text::dec_val;
use crate::text::find_char_from;
use crate::text::index_of_from;
use crate::text::is_alpha;
use crate::text::is_digit;
use crate::text::lemma_index_of_from;
use crate::text::lemma_index_of_from_is;
use crate::text::lemma_index_of_from_none;
use crate::text::parse_u16;
use crate::text::str_eq;
use crate::text::u16_to_dec;

verus! {

/// The mathematical content of a [`Url`].
#[verifier::ext_equal]
pub struct UrlView {
    /// The scheme, without the `://` separator.
    pub scheme: Seq<char>,
    /// The host, brackets included for bracketed addresses.
    pub host: Seq<char>,
    /// The port, explicit or the scheme's default.
    pub port: u16,
    /// The path, always beginning with `/`.
    pub path: Seq<char>,
    /// The query, without its leading `?`, if one was given.
    pub query: Option<Seq<char>>,
}

/// A fully resolved absolute URL. Once constructed by this library it is
/// never partially resolved: scheme, host and port are always present.
#[derive(Debug)]
pub struct Url {
    /// The scheme, e.g. `http`.
    pub scheme: String,
    /// The host.
    pub host: String,
    /// The port.
    pub port: u16,
    /// The path, always beginning with `/`.
    pub path: String,
    /// The query, without its leading `?`, if one was given.
    pub query: Option<String>,
}

impl View for Url {
    type V = UrlView;

    open spec fn view(&self) -> UrlView {
        UrlView {
            scheme: self.scheme@,
            host: self.host@,
            port: self.port,
            path: self.path@,
            query: match self.query {
                Some(q) => Some(q@),
                None => None,
            },
        }
    }
}

/// Characters allowed in a scheme.
pub open spec fn is_scheme_char(c: char) -> bool {
    ||| is_alpha(c)
    ||| is_digit(c)
    ||| c == '+'
    ||| c == '-'
    ||| c == '.'
}

/// A well-formed scheme: nonempty, starting with a letter, made of
/// letters, digits, `+`, `-` and `.`.
pub open spec fn scheme_wf(s: Seq<char>) -> bool {
    &&& s.len() > 0
    &&& is_alpha(s[0])
    &&& forall|i: int| 0 <= i < s.len() ==> is_scheme_char(#[trigger] s[i])
}

/// A well-formed host: nonempty and free of `/` and `?`; a bracketed host
/// closes its bracket at the end and nowhere earlier; any other host is
/// free of `:`.
pub open spec fn host_wf(h: Seq<char>) -> bool {
    &&& h.len() > 0
    &&& forall|i: int| 0 <= i < h.len() ==> #[trigger] h[i] != '/' && h[i] != '?'
    &&& if h[0] == '[' {
        &&& h.len() >= 2
        &&& h.last() == ']'
        &&& forall|i: int| 0 <= i < h.len() - 1 ==> #[trigger] h[i] != ']'
    } else {
        forall|i: int| 0 <= i < h.len() ==> #[trigger] h[i] != ':'
    }
}

/// A well-formed path: nonempty, starting with `/`, free of `?`.
pub open spec fn path_wf(p: Seq<char>) -> bool {
    &&& p.len() > 0
    &&& p[0] == '/'
    &&& forall|i: int| 0 <= i < p.len() ==> #[trigger] p[i] != '?'
}

/// A well-formed absolute URL.
pub open spec fn url_wf(u: UrlView) -> bool {
    &&& scheme_wf(u.scheme)
    &&& host_wf(u.host)
    &&& path_wf(u.path)
}

/// The query portion of a rendered URL.
pub open spec fn query_part(q: Option<Seq<char>>) -> Seq<char> {
    match q {
        Some(q) => seq!['?'] + q,
        None => Seq::<char>::empty(),
    }
}

/// The textual form of a URL. The port is always written explicitly.
pub open spec fn url_text_spec(u: UrlView) -> Seq<char> {
    u.scheme + seq![':', '/', '/'] + u.host + seq![':'] + dec_seq(u.port as nat) + u.path
        + query_part(u.query)
}

/// The default port of a scheme, if the scheme has one.
pub open spec fn default_port(scheme: Seq<char>) -> Option<u16> {
    if scheme == "http"@ {
        Some(80u16)
    } else if scheme == "https"@ {
        Some(443u16)
    } else {
        None
    }
}

/// Splits an authority into host and optional port text.
pub open spec fn split_hostport(auth: Seq<char>) -> Option<(Seq<char>, Option<Seq<char>>)> {
    if auth.len() == 0 {
        None
    } else if auth[0] == '[' {
        match index_of_from(auth, ']', 0) {
            None => None,
            Some(j) => {
                let host = auth.take(j + 1);
                let rest = auth.skip(j + 1);
                if rest.len() == 0 {
                    Some((host, None))
                } else if rest[0] == ':' {
                    Some((host, Some(rest.skip(1))))
                } else {
                    None
                }
            },
        }
    } else {
        match index_of_from(auth, ':', 0) {
            None => Some((auth, None)),
            Some(k) => if k == 0 {
                None
            } else {
                Some((auth.take(k), Some(auth.skip(k + 1))))
            },
        }
    }
}

/// Where the authority ends: at the first `/`, the first `?`, or the end
/// of the input, whichever comes first.
pub open spec fn end_of_authority(slash: Option<int>, qm: Option<int>, len: int) -> int {
    let a = match slash {
        Some(j) => j,
        None => len,
    };
    let b = match qm {
        Some(j) => j,
        None => len,
    };
    if a <= b {
        a
    } else {
        b
    }
}

/// The path and query of an absolute-form target, given the position of
/// the first `/` and the first `?` after the authority. A target whose
/// authority is followed by no path gets the root path.
pub open spec fn path_and_query(s: Seq<char>, slash: Option<int>, qm: Option<int>) -> (
    Seq<char>,
    Option<Seq<char>>,
) {
    match (slash, qm) {
        (None, None) => (seq!['/'], None),
        (None, Some(q)) => (seq!['/'], Some(s.skip(q + 1))),
        (Some(p), None) => (s.subrange(p, s.len() as int), None),
        (Some(p), Some(q)) => if q < p {
            (seq!['/'], Some(s.skip(q + 1)))
        } else {
            (s.subrange(p, q), Some(s.skip(q + 1)))
        },
    }
}

/// What parsing an absolute-form target yields: the URL, or nothing when
/// the text is not a well-formed absolute URL of this grammar.
pub open spec fn parse_abs_spec(s: Seq<char>) -> Option<UrlView> {
    match index_of_from(s, ':', 0) {
        None => None,
        Some(ci) => {
            let scheme = s.take(ci);
            if !(scheme_wf(scheme) && ci + 3 <= s.len() && s[ci + 1] == '/' && s[ci + 2] == '/') {
                None
            } else {
                let slash = index_of_from(s, '/', ci + 3);
                let qm = index_of_from(s, '?', ci + 3);
                let auth = s.subrange(ci + 3, end_of_authority(slash, qm, s.len() as int));
                match split_hostport(auth) {
                    None => None,
                    Some((host, portopt)) => {
                        let port = match portopt {
                            Some(ps) => if ps.len() > 0 && all_digits(ps) && dec_val(ps) <= 65535 {
                                Some(dec_val(ps) as u16)
                            } else {
                                None
                            },
                            None => default_port(scheme),
                        };
                        match port {
                            None => None,
                            Some(port) => {
                                let (path, query) = path_and_query(s, slash, qm);
                                Some(UrlView { scheme, host, port, path, query })
                            },
                        }
                    },
                }
            }
        },
    }
}

/// Every URL the parser yields is well-formed: its scheme, host and path
/// obey the grammar, so it can be rendered and parsed again.
pub proof fn lemma_parse_wf(s: Seq<char>)
    ensures
        parse_abs_spec(s) matches Some(u) ==> url_wf(u),
{
    lemma_index_of_from(s, ':', 0);
    match index_of_from(s, ':', 0) {
        None => {},
        Some(ci) => {
            let scheme = s.take(ci);
            if scheme_wf(scheme) && ci + 3 <= s.len() && s[ci + 1] == '/' && s[ci + 2] == '/' {
                lemma_index_of_from(s, '/', ci + 3);
                lemma_index_of_from(s, '?', ci + 3);
                let slash = index_of_from(s, '/', ci + 3);
                let qm = index_of_from(s, '?', ci + 3);
                let ae = end_of_authority(slash, qm, s.len() as int);
                let auth = s.subrange(ci + 3, ae);
                assert(forall|k: int|
                    0 <= k < auth.len() ==> #[trigger] auth[k] != '/' && auth[k] != '?');
                if auth.len() > 0 {
                    if auth[0] == '[' {
                        lemma_index_of_from(auth, ']', 0);
                        match index_of_from(auth, ']', 0) {
                            None => {},
                            Some(j) => {
                                let host = auth.take(j + 1);
                                assert(host.last() == auth[j]);
                                assert(host_wf(host));
                            },
                        }
                    } else {
                        lemma_index_of_from(auth, ':', 0);
                        match index_of_from(auth, ':', 0) {
                            None => {
                                assert(host_wf(auth));
                            },
                            Some(k) => {
                                if k > 0 {
                                    assert(host_wf(auth.take(k)));
                                }
                            },
                        }
                    }
                }
                let (path, query) = path_and_query(s, slash, qm);
                match (slash, qm) {
                    (None, None) => {
                        assert(path_wf(seq!['/']));
                    },
                    (None, Some(q)) => {
                        assert(path_wf(seq!['/']));
                    },
                    (Some(p), None) => {
                        assert(path == s.subrange(p, s.len() as int));
                        assert(path[0] == s[p]);
                        assert(path_wf(path));
                    },
                    (Some(p), Some(q)) => {
                        if q < p {
                            assert(path_wf(seq!['/']));
                        } else {
                            assert(path == s.subrange(p, q));
                            assert(path[0] == s[p]);
                            assert(path_wf(path));
                        }
                    },
                }
            }
        },
    }
}

/// Rendering a well-formed URL and parsing the text back yields the URL
/// itself: parsing inverts rendering, so resolution is idempotent.
pub proof fn lemma_parse_round_trip(u: UrlView)
    requires
        url_wf(u),
    ensures
        parse_abs_spec(url_text_spec(u)) == Some(u),
{
    let s = url_text_spec(u);
    let d = dec_seq(u.port as nat);
    crate::text::lemma_dec_round_trip(u.port as nat);
    let sl = u.scheme.len() as int;
    let hl = u.host.len() as int;
    let dl = d.len() as int;
    let pl = u.path.len() as int;
    let host0 = sl + 3;
    let colon2 = sl + 3 + hl;
    let d0 = colon2 + 1;
    let p0 = d0 + dl;
    let pend = p0 + pl;
    let qp = query_part(u.query);
    assert(s.len() == pend + qp.len());
    assert(forall|k: int| 0 <= k < sl ==> s[k] == u.scheme[k]);
    assert(s[sl] == ':' && s[sl + 1] == '/' && s[sl + 2] == '/');
    assert(forall|k: int| 0 <= k < hl ==> s[host0 + k] == u.host[k]);
    assert(s[colon2] == ':');
    assert(forall|k: int| 0 <= k < dl ==> s[d0 + k] == d[k]);
    assert(forall|k: int| 0 <= k < pl ==> s[p0 + k] == u.path[k]);
    assert(forall|k: int| 0 <= k < qp.len() ==> s[pend + k] == qp[k]);
    // the first ':' is the one that ends the scheme
    assert(forall|k: int| 0 <= k < sl ==> s[k] != ':') by {
        assert(forall|k: int|
            0 <= k < sl ==> is_scheme_char(#[trigger] u.scheme[k]) && u.scheme[k] != ':');
    }
    lemma_index_of_from_is(s, ':', 0, sl);
    assert(s.take(sl) =~= u.scheme);
    // the first '/' after the separator starts the path
    assert(forall|k: int| host0 <= k < p0 ==> s[k] != '/') by {
        assert(forall|k: int| 0 <= k < hl ==> u.host[k] != '/');
        assert(forall|k: int| 0 <= k < dl ==> is_digit(#[trigger] d[k]) && d[k] != '/');
    }
    assert(s[p0] == u.path[0] && u.path[0] == '/');
    lemma_index_of_from_is(s, '/', host0, p0);
    // the first '?', if any, starts the query
    assert(forall|k: int| host0 <= k < pend ==> s[k] != '?') by {
        assert(forall|k: int| 0 <= k < hl ==> u.host[k] != '?');
        assert(forall|k: int| 0 <= k < dl ==> is_digit(#[trigger] d[k]) && d[k] != '?');
        assert(forall|k: int| 0 <= k < pl ==> u.path[k] != '?');
    }
    match u.query {
        Some(q) => {
            assert(s[pend] == '?');
            lemma_index_of_from_is(s, '?', host0, pend);
        },
        None => {
            assert(pend == s.len());
            lemma_index_of_from_none(s, '?', host0);
        },
    }
    // the authority is host, colon, digits
    let ae = end_of_authority(
        index_of_from(s, '/', host0),
        index_of_from(s, '?', host0),
        s.len() as int,
    );
    assert(ae == p0);
    let auth = s.subrange(host0, p0);
    assert(auth =~= u.host + seq![':'] + d);
    assert(forall|k: int| 0 <= k < hl ==> auth[k] == u.host[k]);
    assert(auth[hl] == ':');
    assert(forall|k: int| 0 <= k < dl ==> auth[hl + 1 + k] == d[k]);
    // the authority splits back into host and port
    assert(auth[0] == u.host[0]);
    if u.host[0] == '[' {
        assert(forall|k: int| 0 <= k < hl - 1 ==> auth[k] != ']');
        assert(auth[hl - 1] == u.host[hl - 1] && u.host[hl - 1] == ']');
        lemma_index_of_from_is(auth, ']', 0, hl - 1);
        assert(auth.take(hl) =~= u.host);
        let rest = auth.skip(hl);
        assert(rest.len() == 1 + dl);
        assert(rest[0] == ':');
        assert(rest.skip(1) =~= d);
    } else {
        assert(forall|k: int| 0 <= k < hl ==> auth[k] != ':') by {
            assert(forall|k: int| 0 <= k < hl ==> u.host[k] != ':');
        }
        lemma_index_of_from_is(auth, ':', 0, hl);
        assert(auth.take(hl) =~= u.host);
        assert(auth.skip(hl + 1) =~= d);
    }
    // the port digits read back as the port
    assert(dec_val(d) == u.port as nat);
    // the path and query come back unchanged
    match u.query {
        Some(q) => {
            assert(s.subrange(p0, pend) =~= u.path);
            assert(s.skip(pend + 1) =~= q);
        },
        None => {
            assert(s.subrange(p0, s.len() as int) =~= u.path);
        },
    }
    assert(parse_abs_spec(s) matches Some(v) && v =~= u);
}

impl Url {
    /// The textual form of this URL, port written explicitly.
    pub fn to_text(&self) -> (s: String)
        ensures
            s@ == url_text_spec(self@),
    {
        let mut s = self.scheme.clone();
        s.append("://");
        s.append(self.host.as_str());
        s.append(":");
        let p = u16_to_dec(self.port);
        s.append(p.as_str());
        s.append(self.path.as_str());
        match &self.query {
            Some(q) => {
                s.append("?");
                s.append(q.as_str());
            },
            None => {},
        }
        proof {
            reveal_strlit("://");
            reveal_strlit(":");
            reveal_strlit("?");
            assert(s@ =~= url_text_spec(self@));
        }
        s
    }
}

/// Checks a scheme against its grammar.
fn is_scheme(s: &str) -> (r: bool)
    ensures
        r == scheme_wf(s@),
{
    let n = s.unicode_len();
    if n == 0 {
        return false;
    }
    let c0 = s.get_char(0) as u32;
    if !((65 <= c0 && c0 <= 90) || (97 <= c0 && c0 <= 122)) {
        return false;
    }
    let mut i: usize = 0;
    while i < n
        invariant
            0 <= i <= n,
            n == s@.len(),
            forall|k: int| 0 <= k < i ==> is_scheme_char(#[trigger] s@[k]),
        decreases n - i,
    {
        let c = s.get_char(i) as u32;
        let ok = (65 <= c && c <= 90) || (97 <= c && c <= 122) || (48 <= c && c <= 57) || c == 43
            || c == 45 || c == 46;
        if !ok {
            return false;
        }
        i = i + 1;
    }
    true
}

/// Checks a host against its grammar.
pub fn is_host(h: &str) -> (r: bool)
    ensures
        r == host_wf(h@),
{
    let n = h.unicode_len();
    if n == 0 {
        return false;
    }
    let mut i: usize = 0;
    while i < n
        invariant
            0 <= i <= n,
            n == h@.len(),
            forall|k: int| 0 <= k < i ==> #[trigger] h@[k] != '/' && h@[k] != '?',
        decreases n - i,
    {
        let c = h.get_char(i);
        if c == '/' || c == '?' {
            return false;
        }
        i = i + 1;
    }
    if h.get_char(0) == '[' {
        if n < 2 {
            return false;
        }
        if h.get_char(n - 1) != ']' {
            return false;
        }
        let mut i: usize = 0;
        while i < n - 1
            invariant
                0 <= i <= n - 1,
                n == h@.len(),
                n >= 2,
                h@[0] == '[',
                forall|k: int| 0 <= k < i ==> #[trigger] h@[k] != ']',
            decreases n - i,
        {
            if h.get_char(i) == ']' {
                return false;
            }
            i = i + 1;
        }
        true
    } else {
        let mut i: usize = 0;
        while i < n
            invariant
                0 <= i <= n,
                n == h@.len(),
                n > 0,
                h@[0] != '[',
                forall|k: int| 0 <= k < i ==> #[trigger] h@[k] != ':',
            decreases n - i,
        {
            if h.get_char(i) == ':' {
                return false;
            }
            i = i + 1;
        }
        true
    }
}

/// Checks a path against its grammar.
pub fn is_path(p: &str) -> (r: bool)
    ensures
        r == path_wf(p@),
{
    let n = p.unicode_len();
    if n == 0 {
        return false;
    }
    if p.get_char(0) != '/' {
        return false;
    }
    let mut i: usize = 0;
    while i < n
        invariant
            0 <= i <= n,
            n == p@.len(),
            forall|k: int| 0 <= k < i ==> #[trigger] p@[k] != '?',
        decreases n - i,
    {
        if p.get_char(i) == '?' {
            return false;
        }
        i = i + 1;
    }
    true
}

/// Parses an absolute-form request target.
pub fn parse_absolute(s: &str) -> (r: Option<Url>)
    ensures
        match r {
            Some(u) => parse_abs_spec(s@) == Some(u@),
            None => parse_abs_spec(s@) is None,
        },
{
    let n = s.unicode_len();
    let ci = match find_char_from(s, ':', 0) {
        Some(ci) => ci,
        None => {
            return None;
        },
    };
    proof {
        lemma_index_of_from(s@, ':', 0);
    }
    let scheme_str = s.substring_char(0, ci);
    proof {
        assert(scheme_str@ =~= s@.take(ci as int));
    }
    if !is_scheme(scheme_str) {
        return None;
    }
    if !(n >= 3 && ci <= n - 3) {
        return None;
    }
    if s.get_char(ci + 1) != '/' || s.get_char(ci + 2) != '/' {
        return None;
    }
    let slash = find_char_from(s, '/', ci + 3);
    let qm = find_char_from(s, '?', ci + 3);
    proof {
        lemma_index_of_from(s@, '/', ci + 3);
        lemma_index_of_from(s@, '?', ci + 3);
    }
    let a = match slash {
        Some(j) => j,
        None => n,
    };
    let b = match qm {
        Some(j) => j,
        None => n,
    };
    let auth_end = if a <= b {
        a
    } else {
        b
    };
    let ghost slash_g: Option<int> = match slash {
        Some(j) => Some(j as int),
        None => None,
    };
    let ghost qm_g: Option<int> = match qm {
        Some(j) => Some(j as int),
        None => None,
    };
    proof {
        assert(auth_end as int == end_of_authority(slash_g, qm_g, s@.len() as int));
    }
    let auth = s.substring_char(ci + 3, auth_end);
    proof {
        assert(auth@ =~= s@.subrange(ci + 3, auth_end as int));
    }
    let (host, portstr) = match split_hostport_exec(auth) {
        Some(hp) => hp,
        None => {
            return None;
        },
    };
    let port: u16 = match &portstr {
        Some(ps) => {
            match parse_u16(ps.as_str()) {
                Some(v) => v,
                None => {
                    return None;
                },
            }
        },
        None => {
            if str_eq(scheme_str, "http") {
                80
            } else if str_eq(scheme_str, "https") {
                443
            } else {
                return None;
            }
        },
    };
    let alen = auth.unicode_len();
    let (path, query): (String, Option<String>) = if ci + 3 + alen < n {
        // a `/` or `?` follows the authority
        if b < a {
            // query but no path
            let q = s.substring_char(b + 1, n);
            proof {
                assert(q@ =~= s@.skip(b + 1));
                reveal_strlit("/");
                assert("/"@ =~= seq!['/']);
            }
            ("/".to_owned(), Some(q.to_owned()))
        } else {
            // a path; the query follows it if present
            let pend = match qm {
                Some(j) => j,
                None => n,
            };
            let p = s.substring_char(a, pend);
            let q = match qm {
                Some(j) => Some(s.substring_char(j + 1, n).to_owned()),
                None => None,
            };
            proof {
                assert(p@ =~= s@.subrange(a as int, pend as int));
                if qm is Some {
                    assert(s@.subrange(b + 1, n as int) =~= s@.skip(b + 1));
                }
            }
            (p.to_owned(), q)
        }
    } else {
        // the authority runs to the end of the input
        proof {
            reveal_strlit("/");
            assert("/"@ =~= seq!['/']);
        }
        ("/".to_owned(), None)
    };
    let u = Url { scheme: scheme_str.to_owned(), host, port, path, query };
    proof {
        let ghost expected = parse_abs_spec(s@);
        assert(expected matches Some(v) && v =~= u@);
    }
    Some(u)
}

/// Splits an authority into host and optional port text.
fn split_hostport_exec(auth: &str) -> (r: Option<(String, Option<String>)>)
    ensures
        match r {
            Some(hp) => split_hostport(auth@) matches Some(v) && v.0 == hp.0@ && (match hp.1 {
                Some(ps) => v.1 == Some(ps@),
                None => v.1 is None,
            }),
            None => split_hostport(auth@) is None,
        },
{
    let n = auth.unicode_len();
    if n == 0 {
        return None;
    }
    if auth.get_char(0) == '[' {
        let j = match find_char_from(auth, ']', 0) {
            Some(j) => j,
            None => {
                return None;
            },
        };
        proof {
            lemma_index_of_from(auth@, ']', 0);
        }
        let host = auth.substring_char(0, j + 1);
        proof {
            assert(host@ =~= auth@.take(j + 1));
        }
        if j + 1 == n {
            Some((host.to_owned(), None))
        } else if auth.get_char(j + 1) == ':' {
            let ps = auth.substring_char(j + 2, n);
            proof {
                assert(auth@.skip(j + 1).len() > 0);
                assert(auth@.skip(j + 1)[0] == auth@[j + 1]);
                assert(ps@ =~= auth@.skip(j + 1).skip(1));
            }
            Some((host.to_owned(), Some(ps.to_owned())))
        } else {
            proof {
                assert(auth@.skip(j + 1)[0] == auth@[j + 1]);
            }
            None
        }
    } else {
        match find_char_from(auth, ':', 0) {
            None => Some((auth.to_owned(), None)),
            Some(k) => {
                proof {
                    lemma_index_of_from(auth@, ':', 0);
                }
                if k == 0 {
                    return None;
                }
                let host = auth.substring_char(0, k);
                let ps = auth.substring_char(k + 1, n);
                proof {
                    assert(host@ =~= auth@.take(k as int));
                    assert(ps@ =~= auth@.skip(k + 1));
                }
                Some((host.to_owned(), Some(ps.to_owned())))
            },
        }
    }
}

} // verus!
