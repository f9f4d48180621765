//! An HTTP request core for a middleware pipeline.
//!
//! A raw, possibly partial incoming HTTP message plus connection metadata is
//! turned into a single [`request::Request`] value: the requested URL is
//! reconstructed from the request target, the headers and the listening
//! address; the body is exposed as a forward-only stream with a safe
//! "unavailable" variant; and a per-request extension store lets
//! independently developed middleware attach and retrieve data.

pub mod body;
pub mod error;
pub mod extensions;
pub mod headers;
pub mod method;
pub mod net;
pub mod protocol;
pub mod request;
pub mod resolver;
pub mod text;
pub mod url;
