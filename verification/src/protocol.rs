//! The active protocol of the connection, which supplies the scheme for
//! URLs synthesized from origin-form targets.

use vstd::prelude::*;

verus! {

/// The protocol a connection speaks.
#[derive(Clone, Copy, Debug, PartialEq, Eq, Structural)]
pub enum Protocol {
    /// Plain HTTP.
    Http,
    /// HTTP over TLS.
    Https,
}

impl Protocol {
    /// The scheme name of this protocol.
    pub open spec fn name_spec(self) -> Seq<char> {
        match self {
            Protocol::Http => "http"@,
            Protocol::Https => "https"@,
        }
    }

    /// The scheme name of this protocol.
    pub fn name(&self) -> (s: String)
        ensures
            s@ == self.name_spec(),
    {
        match self {
            Protocol::Http => "http".to_owned(),
            Protocol::Https => "https".to_owned(),
        }
    }
}

} // verus!
