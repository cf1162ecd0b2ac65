//! Requests of a client.
use std::marker::PhantomData;
use vstd::prelude::*;
use vstd::string::StringExecFns;

use super::{get_host_and_port, Url, UrlView};
use crate::header::{field_text, Encoding, Headers, HeadersView, Host, HostView};
use crate::http::{
    chunked_body, joined, law_chunked_body, law_no_body, law_sized_body, HttpWriter, LINE_ENDING,
};
use crate::method::Method;
use crate::net::{Fresh, Streaming};
use crate::version::HttpVersion;
use crate::{HttpError, HttpResult, UriError};

verus! {

/// A request to a server.
pub struct Request<W> {
    /// The address that the request is for.
    pub url: Url,
    /// The version of HTTP that the request uses.
    pub version: HttpVersion,
    body: HttpWriter,
    headers: Headers,
    method: Method,
    _marker: PhantomData<W>,
}

/// The value of a [`Request`].
pub struct RequestView {
    pub url: UrlView,
    pub version: HttpVersion,
    pub body: HttpWriter,
    pub headers: HeadersView,
    pub method: Method,
}

impl<W> View for Request<W> {
    type V = RequestView;

    closed spec fn view(&self) -> RequestView {
        RequestView {
            url: self.url@,
            version: self.version,
            body: self.body,
            headers: self.headers@,
            method: self.method,
        }
    }
}

impl RequestView {
    /// A request that nothing has been written of.
    pub open spec fn fresh(
        method: Method,
        url: UrlView,
        host: Seq<char>,
        port: u16,
        version: HttpVersion,
    ) -> RequestView {
        RequestView {
            url,
            version,
            body: HttpWriter::ThroughWriter,
            headers: HeadersView {
                host: Some(HostView { hostname: host, port: Some(port) }),
                ..HeadersView::none()
            },
            method,
        }
    }

    /// How the body is written once the head is: not at all for a method
    /// without a body, up to the length that the headers announce, or in
    /// chunks.
    pub open spec fn body_writer(self) -> HttpWriter {
        if self.method.is_bodiless() {
            HttpWriter::EmptyWriter
        } else {
            match self.headers.content_length {
                Some(length) => HttpWriter::SizedWriter(length),
                None => HttpWriter::ChunkedWriter,
            }
        }
    }

    /// The headers that are sent: those of the request, and the chunked
    /// encoding behind all others where the body is written in chunks.
    pub open spec fn sent_headers(self) -> HeadersView {
        if self.body_writer() is ChunkedWriter {
            self.headers.with_encoding(Encoding::Chunked)
        } else {
            self.headers
        }
    }

    /// The head of the request: the request line, the headers, and an empty
    /// line.
    pub open spec fn head(self) -> Seq<char> {
        self.method.text() + " "@ + self.url.target() + " "@ + self.version.text() + LINE_ENDING@
            + self.sent_headers().text() + LINE_ENDING@
    }

    /// The request once its head is written.
    pub open spec fn started(self) -> RequestView {
        RequestView { headers: self.sent_headers(), body: self.body_writer(), ..self }
    }
}

impl<W> Request<W> {
    /// Read the address that the request is for.
    pub fn url(&self) -> (url: &Url)
        ensures
            url@ == self@.url,
    {
        &self.url
    }

    /// Read the headers of the request.
    pub fn headers(&self) -> (headers: &Headers)
        ensures
            headers@ == self@.headers,
    {
        &self.headers
    }

    /// Read the method of the request.
    pub fn method(&self) -> (method: Method)
        ensures
            method == self@.method,
    {
        self.method.clone()
    }
}

impl Request<Fresh> {
    /// Creates a new request, given what came of connecting to its host.
    pub fn new(method: Method, url: Url, connected: HttpResult<()>) -> (request: HttpResult<
        Request<Fresh>,
    >)
        ensures
            made(method, url, connected, HttpVersion::Http11, request),
    {
        let mut version = HttpVersion::Http11;
        Request::with_connector(method, url, connected, &mut version)
    }

    /// Creates a new request for a version of HTTP, given what came of
    /// connecting to its host.
    ///
    /// An address without a host or a port is an error, whatever came of
    /// connecting.
    pub fn with_connector(
        method: Method,
        url: Url,
        connected: HttpResult<()>,
        version: &mut HttpVersion,
    ) -> (request: HttpResult<Request<Fresh>>)
        ensures
            made(method, url, connected, *old(version), request),
            *final(version) == *old(version),
    {
        let (host, port) = match get_host_and_port(&url) {
            Ok(pair) => pair,
            Err(error) => return Err(error),
        };
        match connected {
            Ok(_) => (),
            Err(error) => return Err(error),
        }
        let mut headers = Headers::new();
        headers.set_host(Host { hostname: host, port: Some(port) });
        let protocol = *version;
        Ok(
            Request {
                method,
                headers,
                url,
                version: protocol,
                body: HttpWriter::ThroughWriter,
                _marker: PhantomData,
            },
        )
    }

    /// Consumes a fresh request, and returns its head, which has to be
    /// written, and the request that its body can be written to.
    pub fn start(self) -> (started: (String, Request<Streaming>))
        requires
            self@.url.path is Some,
        ensures
            started.0@ == self@.head(),
            started.1@ == self@.started(),
    {
        let mut headers = self.headers;
        let mut head: String = String::new();
        head.append(self.method.as_str());
        head.append(" ");
        head.append(self.url.to_target().as_str());
        head.append(" ");
        head.append(self.version.as_str());
        head.append(LINE_ENDING);
        let body = match self.method {
            Method::Get | Method::Head => HttpWriter::EmptyWriter,
            _ => match headers.content_length() {
                Some(length) => HttpWriter::SizedWriter(length),
                None => {
                    headers.add_transfer_encoding(Encoding::Chunked);
                    HttpWriter::ChunkedWriter
                },
            },
        };
        head.append(headers.to_text().as_str());
        head.append(LINE_ENDING);
        assert(head@ =~= self@.head());
        (
            head,
            Request {
                method: self.method,
                headers,
                url: self.url,
                version: self.version,
                body,
                _marker: PhantomData,
            },
        )
    }

    /// Get a mutable reference to the headers of the request.
    pub fn headers_mut(&mut self) -> (headers: &mut Headers)
        ensures
            headers@ == old(self)@.headers,
            final(self)@ == (RequestView { headers: final(headers)@, ..old(self)@ }),
    {
        &mut self.headers
    }
}

impl Request<Streaming> {
    /// Returns what has to be written for a piece of the body, and how many
    /// octets of the piece that covers.
    pub fn write(&mut self, piece: &[u8]) -> (written: (Vec<u8>, usize))
        ensures
            written.0@ == old(self)@.body.written(piece@),
            written.1 == old(self)@.body.taken(piece@),
            final(self)@ == (RequestView { body: old(self)@.body.after(piece@), ..old(self)@ }),
    {
        self.body.write(piece)
    }

    /// Completes the request: returns what has to be written behind its body.
    pub fn send(self) -> (octets: Vec<u8>)
        ensures
            octets@ == self@.body.last(),
    {
        self.body.end()
    }
}

/// Whether a request is what a method, an address, a connection and a version
/// make.
pub open spec fn made(
    method: Method,
    url: Url,
    connected: HttpResult<()>,
    version: HttpVersion,
    request: HttpResult<Request<Fresh>>,
) -> bool {
    match (url@.host, url@.port, connected) {
        (None, _, _) => request == Err::<Request<Fresh>, HttpError>(
            HttpError::HttpUriError(UriError::EmptyHost),
        ),
        (Some(_), None, _) => request == Err::<Request<Fresh>, HttpError>(
            HttpError::HttpUriError(UriError::InvalidPort),
        ),
        (Some(_), Some(_), Err(error)) => request == Err::<Request<Fresh>, HttpError>(error),
        (Some(host), Some(port), Ok(_)) => request matches Ok(r) && r@
            == RequestView::fresh(method, url@, host, port, version),
    }
}

/// A request with a method that has no body goes out with the headers that it
/// has, and no octet of a body follows.
pub proof fn law_no_body_is_sent(request: RequestView, pieces: Seq<Seq<u8>>)
    requires
        request.method.is_bodiless(),
    ensures
        request.started().headers == request.headers,
        request.started().body.written_all(pieces) == Seq::<u8>::empty(),
        request.started().body.last() == Seq::<u8>::empty(),
{
    law_no_body(pieces);
}

/// The head of a request with a method that has no body is the request line
/// and the host, and says nothing of a body, unless headers were added.
pub proof fn law_head_without_body(
    method: Method,
    url: UrlView,
    host: Seq<char>,
    port: u16,
    version: HttpVersion,
)
    requires
        method.is_bodiless(),
    ensures
        RequestView::fresh(method, url, host, port, version).head() == method.text() + " "@
            + url.target() + " "@ + version.text() + LINE_ENDING@ + field_text(
            "Host"@,
            (HostView { hostname: host, port: Some(port) }).text(),
        ) + LINE_ENDING@,
{
    let request = RequestView::fresh(method, url, host, port, version);
    let line = field_text("Host"@, (HostView { hostname: host, port: Some(port) }).text());
    assert(request.sent_headers().text() =~= line);
}

/// Of every other request, the head tells how the body is written: the length
/// that is kept to, or the chunked encoding, which then is the last one.
/// Encodings that were there before stay before it.
pub proof fn law_body_is_announced(request: RequestView)
    requires
        !request.method.is_bodiless(),
    ensures
        match request.headers.content_length {
            Some(length) => {
                &&& request.started().body == HttpWriter::SizedWriter(length)
                &&& request.started().headers == request.headers
            },
            None => {
                &&& request.started().body == HttpWriter::ChunkedWriter
                &&& request.started().headers.content_length is None
                &&& request.started().headers.transfer_encoding matches Some(encodings)
                    && encodings.len() > 0 && encodings.last() == Encoding::Chunked
                    && encodings.drop_last() == request.headers.transfer_encoding.unwrap_or(
                    Seq::empty(),
                )
            },
        },
{
    if request.headers.content_length is None {
        let before = request.headers.transfer_encoding.unwrap_or(Seq::empty());
        assert(before.push(Encoding::Chunked).drop_last() =~= before);
    }
}

/// A server gets the body that was written: the pieces joined, and nothing
/// else. That holds of a body in chunks as long as no piece is empty, and of
/// one with an announced length as long as it has that length.
pub proof fn law_body_arrives(request: RequestView, pieces: Seq<Seq<u8>>, rest: Seq<u8>)
    requires
        !request.method.is_bodiless(),
    ensures
        ({
            let writer = request.started().body;
            let octets = writer.written_all(pieces) + writer.last();
            match request.headers.content_length {
                Some(length) => joined(pieces).len() == length ==> octets == joined(pieces),
                None => (forall|i: int|
                    0 <= i < pieces.len() ==> (#[trigger] pieces[i]).len() > 0) ==> chunked_body(
                    octets + rest,
                ) == Some((joined(pieces), rest)),
            }
        }),
{
    match request.headers.content_length {
        Some(length) => {
            law_sized_body(length, pieces);
            if joined(pieces).len() == length {
                let writer = request.started().body;
                assert(writer.written_all(pieces) + writer.last() =~= joined(pieces));
            }
        },
        None => {
            if forall|i: int| 0 <= i < pieces.len() ==> (#[trigger] pieces[i]).len() > 0 {
                law_chunked_body(pieces, rest);
            }
        },
    }
}

/// A request that was made for a parsed address can be started, and its
/// request line asks for something that starts with a slash.
pub proof fn law_made_can_start(
    method: Method,
    url: Url,
    connected: HttpResult<()>,
    version: HttpVersion,
    request: HttpResult<Request<Fresh>>,
)
    requires
        url@.is_consistent(),
        made(method, url, connected, version, request),
    ensures
        request matches Ok(r) ==> {
            &&& r@.url.path is Some
            &&& r@.url.target().len() > 0
            &&& r@.url.target()[0] == '/'
            &&& r@.headers.distinct()
        },
{
}

/// The head of every request, whatever its method, starts with the request
/// line: the method, the path with the query where there is one, and the
/// version, with a space between them and the end of a line behind them. The
/// headers that are sent and an empty line follow, and nothing else.
pub proof fn law_request_line(request: RequestView)
    requires
        request.url.path is Some,
    ensures
        ({
            let path = request.url.path->0;
            let target = match request.url.query {
                Some(query) => path + "?"@ + query,
                None => path,
            };
            let line = request.method.text() + " "@ + target + " "@ + request.version.text()
                + "\r\n"@;
            &&& request.head().len() >= line.len()
            &&& request.head().take(line.len() as int) == line
            &&& request.head().skip(line.len() as int) == request.started().headers.text()
                + "\r\n"@
        }),
{
    let path = request.url.path->0;
    let target = match request.url.query {
        Some(query) => path + "?"@ + query,
        None => path,
    };
    let line = request.method.text() + " "@ + target + " "@ + request.version.text() + "\r\n"@;
    assert(request.head() =~= line + (request.started().headers.text() + "\r\n"@));
    assert(request.head().take(line.len() as int) =~= line);
    assert(request.head().skip(line.len() as int) =~= request.started().headers.text() + "\r\n"@);
}

/// Writing the head leaves the address, the version and the method of a
/// request as they are. Of the headers, it changes the encodings at most: a
/// request goes out with the host, the length and the other headers that it
/// has.
pub proof fn law_start_keeps(request: RequestView)
    ensures
        request.started().url == request.url,
        request.started().version == request.version,
        request.started().method == request.method,
        request.started().headers.host == request.headers.host,
        request.started().headers.content_length == request.headers.content_length,
        request.started().headers.raw == request.headers.raw,
{
}

/// How the body follows the head, for every method: not at all for GET and
/// HEAD, and for all others up to the length that the headers announce, or
/// else in chunks. The chunked encoding is added exactly where it is used,
/// behind the encodings that are there.
pub proof fn law_body_by_method(request: RequestView)
    ensures
        ({
            let bodiless = request.method == Method::Get || request.method == Method::Head;
            let sent = request.started().headers.transfer_encoding;
            let before = request.headers.transfer_encoding;
            &&& bodiless ==> request.started().body == HttpWriter::EmptyWriter && sent == before
            &&& !bodiless ==> match request.headers.content_length {
                Some(length) => {
                    &&& request.started().body == HttpWriter::SizedWriter(length)
                    &&& sent == before
                },
                None => {
                    &&& request.started().body == HttpWriter::ChunkedWriter
                    &&& before is None ==> sent == Some(seq![Encoding::Chunked])
                    &&& before matches Some(encodings) ==> sent == Some(
                        encodings + seq![Encoding::Chunked],
                    )
                },
            }
        }),
{
    if request.headers.content_length is None {
        let before = request.headers.transfer_encoding.unwrap_or(Seq::empty());
        let after = before.push(Encoding::Chunked);
        if request.headers.transfer_encoding is None {
            assert(after =~= seq![Encoding::Chunked]);
        } else {
            assert(after =~= before + seq![Encoding::Chunked]);
        }
    }
}

/// When a request can be made: the address has a host, then a port, and the
/// connection stands. The first of the three that is missing is the error.
/// The request has the method, the address and the version that it is made
/// with, the host and the port as its one header, and nothing of it is
/// written.
pub proof fn law_made(
    method: Method,
    url: Url,
    connected: HttpResult<()>,
    version: HttpVersion,
    request: HttpResult<Request<Fresh>>,
)
    requires
        made(method, url, connected, version, request),
    ensures
        url.host is None ==> request == Err::<Request<Fresh>, HttpError>(
            HttpError::HttpUriError(UriError::EmptyHost),
        ),
        url.host is Some && url.port is None ==> request == Err::<Request<Fresh>, HttpError>(
            HttpError::HttpUriError(UriError::InvalidPort),
        ),
        url.host is Some && url.port is Some && connected is Err ==> request == Err::<
            Request<Fresh>,
            HttpError,
        >(connected->Err_0),
        url.host is Some && url.port is Some && connected is Ok ==> request is Ok,
        request matches Ok(r) ==> {
            &&& r@.method == method
            &&& r@.url == url@
            &&& r@.version == version
            &&& r@.body == HttpWriter::ThroughWriter
            &&& r@.headers.host matches Some(host) && host.hostname == url.host->0@ && host.port
                == url.port
            &&& r@.headers.content_length is None
            &&& r@.headers.transfer_encoding is None
            &&& r@.headers.raw.len() == 0
        },
{
}

} // verus!
