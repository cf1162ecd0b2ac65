//! What an HTTP client says to a server, and what it makes of the answers:
//! requests in the textual versions of the protocol, and the frames of
//! HTTP/2. Nothing here reads or writes: what has to be sent is returned, and
//! what was read is an argument.
use vstd::prelude::*;

pub mod client;
pub mod header;
pub mod http;
pub mod http2;
pub mod method;
pub mod net;
pub mod version;

verus! {

/// `url::ParseError`, carried through without a look inside.
#[verifier::external_type_specification]
#[verifier::external_body]
pub struct ExParseError(url::ParseError);

/// What can be wrong with the address of a request.
#[derive(Debug)]
pub enum UriError {
    /// The address names no host.
    EmptyHost,
    /// The address names no port, and its scheme has none of its own.
    InvalidPort,
    /// The text is no address.
    Parse(url::ParseError),
}

/// What can go wrong with a request.
#[derive(Debug)]
pub enum HttpError {
    /// The address of the request is no use.
    HttpUriError(UriError),
    /// The transport failed.
    HttpIoError(std::io::Error),
}

/// The result of an operation on a request.
pub type HttpResult<T> = Result<T, HttpError>;

} // verus!
