//! Socket addresses, copied into the request at construction and
//! immutable thereafter.

use vstd::prelude::*;
use vstd::string::StringExecFns;
use crate::text::dec_seq;
use crate::text::u16_to_dec;

verus! {

/// A socket address: a version-four IP address and a port.
#[derive(Clone, Copy, Debug, PartialEq, Eq)]
pub struct SocketAddr {
    /// The four octets of the address.
    pub ip: (u8, u8, u8, u8),
    /// The port.
    pub port: u16,
}

/// The dotted-quad-and-port text of a socket address.
pub open spec fn socket_text_spec(a: SocketAddr) -> Seq<char> {
    dec_seq(a.ip.0 as nat) + seq!['.'] + dec_seq(a.ip.1 as nat) + seq!['.'] + dec_seq(
        a.ip.2 as nat,
    ) + seq!['.'] + dec_seq(a.ip.3 as nat) + seq![':'] + dec_seq(a.port as nat)
}

impl SocketAddr {
    /// An address from its four octets and port.
    pub fn new(o0: u8, o1: u8, o2: u8, o3: u8, port: u16) -> (a: SocketAddr)
        ensures
            a.ip == (o0, o1, o2, o3),
            a.port == port,
    {
        SocketAddr { ip: (o0, o1, o2, o3), port }
    }

    /// The port this address binds.
    pub fn port(&self) -> (p: u16)
        ensures
            p == self.port,
    {
        self.port
    }

    /// The address as `a.b.c.d:port` text.
    pub fn as_text(&self) -> (s: String)
        ensures
            s@ == socket_text_spec(*self),
    {
        let mut s = u16_to_dec(self.ip.0 as u16);
        s.append(".");
        s.append(u16_to_dec(self.ip.1 as u16).as_str());
        s.append(".");
        s.append(u16_to_dec(self.ip.2 as u16).as_str());
        s.append(".");
        s.append(u16_to_dec(self.ip.3 as u16).as_str());
        s.append(":");
        s.append(u16_to_dec(self.port).as_str());
        proof {
            reveal_strlit(".");
            reveal_strlit(":");
            assert(s@ =~= socket_text_spec(*self));
        }
        s
    }
}

} // verus!
