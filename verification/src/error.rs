//! The error kinds this library reports.

use vstd::prelude::*;

verus! {

/// Everything that can go wrong while building a request or reading its body.
///
/// URL-resolution errors (`MissingHost`, `UnsupportedTarget`) are terminal for
/// construction: no partial request is ever produced. `BodyUnavailable` is
/// local to each body read and never invalidates the rest of the request.
#[derive(Clone, Copy, Debug, PartialEq, Eq, Structural)]
pub enum Error {
    /// An origin-form target arrived without a Host header.
    MissingHost,
    /// The target is neither origin-form nor a well-formed absolute URL,
    /// or the synthesized URL could not be formed.
    UnsupportedTarget,
    /// A read was attempted on a body with no live source.
    BodyUnavailable,
}

impl Error {
    /// The diagnostic text of each error kind.
    pub open spec fn text_spec(self) -> Seq<char> {
        match self {
            Error::MissingHost => "No host specified in request"@,
            Error::UnsupportedTarget => "Unsupported request URI"@,
            Error::BodyUnavailable => "This request does not have a body yet"@,
        }
    }

    /// A human-readable description of the error.
    pub fn as_text(&self) -> (s: String)
        ensures
            s@ == self.text_spec(),
    {
        match self {
            Error::MissingHost => "No host specified in request".to_owned(),
            Error::UnsupportedTarget => "Unsupported request URI".to_owned(),
            Error::BodyUnavailable => "This request does not have a body yet".to_owned(),
        }
    }
}

} // verus!
