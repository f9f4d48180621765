//! Request headers: collaborator-owned name/value pairs, passed through
//! unmodified. The only header this library reads itself is `Host`.

use vstd::prelude::*;
use crate::text::eq_ignore_case;
use crate::text::str_eq_ci;

verus! {

/// One header line: a field name and its value.
pub struct Header {
    /// The field name, compared case-insensitively.
    pub name: String,
    /// The field value.
    pub value: String,
}

impl View for Header {
    type V = (Seq<char>, Seq<char>);

    open spec fn view(&self) -> (Seq<char>, Seq<char>) {
        (self.name@, self.value@)
    }
}

/// The headers of one request, in arrival order.
pub struct Headers {
    entries: Vec<Header>,
}

/// The views of a sequence of headers.
spec fn header_views(s: Seq<Header>) -> Seq<(Seq<char>, Seq<char>)> {
    s.map_values(|h: Header| h@)
}

impl View for Headers {
    type V = Seq<(Seq<char>, Seq<char>)>;

    closed spec fn view(&self) -> Seq<(Seq<char>, Seq<char>)> {
        header_views(self.entries@)
    }
}

/// The value of the first header named `Host`, compared without regard
/// to ASCII case, if one is present.
pub open spec fn host_value_spec(hs: Seq<(Seq<char>, Seq<char>)>) -> Option<Seq<char>>
    decreases hs.len(),
{
    if hs.len() == 0 {
        None
    } else if eq_ignore_case(hs[0].0, "host"@) {
        Some(hs[0].1)
    } else {
        host_value_spec(hs.skip(1))
    }
}

/// Headers with no match among the first `i` entries look up `Host` the
/// same whether or not those entries are skipped.
proof fn lemma_host_value_skip(hs: Seq<(Seq<char>, Seq<char>)>, i: int)
    requires
        0 <= i <= hs.len(),
        forall|k: int| 0 <= k < i ==> !eq_ignore_case(#[trigger] hs[k].0, "host"@),
    ensures
        host_value_spec(hs) == host_value_spec(hs.skip(i)),
    decreases i,
{
    if i > 0 {
        lemma_host_value_skip(hs, i - 1);
        assert(hs.skip(i - 1).len() > 0);
        assert(hs.skip(i - 1)[0] == hs[i - 1]);
        assert(hs.skip(i - 1).skip(1) =~= hs.skip(i));
    } else {
        assert(hs.skip(0) =~= hs);
    }
}

impl Headers {
    /// An empty header collection.
    pub fn new() -> (h: Headers)
        ensures
            h@ == Seq::<(Seq<char>, Seq<char>)>::empty(),
    {
        let h = Headers { entries: Vec::new() };
        proof {
            assert(h@ =~= Seq::<(Seq<char>, Seq<char>)>::empty());
        }
        h
    }

    /// Appends one header.
    pub fn add(&mut self, name: String, value: String)
        ensures
            final(self)@ == old(self)@.push((name@, value@)),
    {
        let ghost n = name@;
        let ghost v = value@;
        self.entries.push(Header { name, value });
        proof {
            assert(self@ =~= old(self)@.push((n, v)));
        }
    }

    /// How many headers there are.
    pub fn len(&self) -> (n: usize)
        ensures
            n == self@.len(),
    {
        self.entries.len()
    }

    /// The value of the first `Host` header, if any, matched without
    /// regard to ASCII case.
    pub fn host(&self) -> (r: Option<String>)
        ensures
            match r {
                Some(v) => host_value_spec(self@) == Some(v@),
                None => host_value_spec(self@) is None,
            },
    {
        let n = self.entries.len();
        let mut i: usize = 0;
        while i < n
            invariant
                0 <= i <= n,
                n == self.entries@.len(),
                forall|k: int| 0 <= k < i ==> !eq_ignore_case(#[trigger] self@[k].0, "host"@),
            decreases n - i,
        {
            if str_eq_ci(self.entries[i].name.as_str(), "host") {
                let v = self.entries[i].value.clone();
                proof {
                    lemma_host_value_skip(self@, i as int);
                    assert(self@.skip(i as int)[0] == self@[i as int]);
                }
                return Some(v);
            }
            i = i + 1;
        }
        proof {
            lemma_host_value_skip(self@, n as int);
            assert(self@.skip(n as int).len() == 0);
        }
        None
    }

    /// A copy of these headers, entry for entry.
    pub fn duplicate(&self) -> (h: Headers)
        ensures
            h@ == self@,
    {
        let n = self.entries.len();
        let mut out: Vec<Header> = Vec::new();
        let mut i: usize = 0;
        while i < n
            invariant
                0 <= i <= n,
                n == self.entries@.len(),
                header_views(out@) =~~= self@.take(i as int),
            decreases n - i,
        {
            let name = self.entries[i].name.clone();
            let value = self.entries[i].value.clone();
            let ghost prev = out@;
            out.push(Header { name, value });
            proof {
                assert(header_views(prev).len() == i as int);
                assert forall|k: int| 0 <= k < i + 1 implies header_views(out@)[k] == self@.take(
                    i + 1,
                )[k] by {
                    if k < i {
                        assert(header_views(prev)[k] == self@.take(i as int)[k]);
                    }
                }
                assert(header_views(out@) =~~= self@.take(i + 1));
            }
            i = i + 1;
        }
        let h = Headers { entries: out };
        proof {
            assert(self@.take(n as int) =~= self@);
            assert(h@ =~~= self@);
        }
        h
    }
}

} // verus!
