//! HTTP/2: the frames of a connection, and what a client does with them.
use vstd::prelude::*;

pub mod compression;
pub mod frame;
pub mod http2;
pub mod session;
pub mod utils;

pub use compression::CompressionError;
pub use frame::StreamId;
use session::DefaultSession;

verus! {

/// `std::io::Error`, carried through without a look inside.
#[verifier::external_type_specification]
#[verifier::external_body]
pub struct ExIoError(std::io::Error);

/// The name and the value of a header.
pub type Header = (Vec<u8>, Vec<u8>);

/// The value of a [`Header`].
pub type HeaderView = (Seq<u8>, Seq<u8>);

/// The value of a list of headers.
pub open spec fn header_list(headers: Seq<Header>) -> Seq<HeaderView> {
    headers.map_values(|header: Header| (header.0@, header.1@))
}

/// What can go wrong on a connection.
#[derive(Debug)]
pub enum HttpError {
    /// The transport failed.
    IoError(std::io::Error),
    /// A frame of a known type is not a valid one.
    InvalidFrame,
    /// A header block cannot be decoded.
    CompressionError(CompressionError),
    /// A frame has a type that is not known.
    UnknownFrameType,
    /// The server did not open the connection as it has to.
    UnableToConnect,
}

/// The result of an operation on a connection.
pub type HttpResult<T> = Result<T, HttpError>;

impl From<std::io::Error> for HttpError {
    fn from(error: std::io::Error) -> (http_error: HttpError) {
        HttpError::IoError(error)
    }
}

impl vstd::std_specs::convert::FromSpecImpl<std::io::Error> for HttpError {
    open spec fn obeys_from_spec() -> bool {
        true
    }

    open spec fn from_spec(error: std::io::Error) -> HttpError {
        HttpError::IoError(error)
    }
}

/// A request to the server.
#[derive(Debug)]
pub struct Request {
    pub stream_id: StreamId,
    pub headers: Vec<Header>,
    pub body: Vec<u8>,
}

/// What a client keeps of a connection.
pub struct Config {
    /// The stream that the next request will be sent on.
    pub next_stream_id: StreamId,
    pub session: DefaultSession,
}

impl Config {
    /// Whether every stream of the session was opened before the next one,
    /// from the same side of the connection: their identifiers are smaller
    /// than the next, and odd or even as it is.
    pub open spec fn in_order(self) -> bool {
        forall|id: StreamId| #[trigger]
            self.session@.contains_key(id) ==> id < self.next_stream_id && id % 2
                == self.next_stream_id % 2
    }
}

/// The value of a list of headers is that of each header, in order.
pub proof fn law_header_list(headers: Seq<Header>)
    ensures
        header_list(headers).len() == headers.len(),
        forall|i: int|
            0 <= i < headers.len() ==> (#[trigger] header_list(headers)[i]).0 == headers[i].0@
                && header_list(headers)[i].1 == headers[i].1@,
{
}

} // verus!
